//! A keyword-search session: a recipe corpus read from CSV text, a bm25 index
//! built over it once, live top-k queries against that index, and the view
//! that a front end renders.

pub mod ranking;
pub mod engine;
pub mod corpus;
pub mod index;
pub mod session;
