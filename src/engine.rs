//! The bm25 search engine, as the rest of the library sees it.
//!
//! The engine is opaque. What the library relies on is named here: the
//! documents that an engine holds, and the scores that bm25 gives those
//! documents for a query.
use vstd::prelude::*;
use bm25::{Language, SearchEngine, SearchEngineBuilder};
use crate::ranking::{distinct_ids, score_map, Match};

verus! {

/// A bm25 search engine over a numbered corpus. The engine type carries an
/// outside trait bound that Verus does not take, so it is held here, out of
/// Verus's sight; `engine_documents` names what it holds.
#[verifier::external_body]
pub struct Bm25Engine {
    engine: SearchEngine<u32, u32>,
}

/// The documents held by an engine, by id.
pub uninterp spec fn engine_documents(e: Bm25Engine) -> Map<u32, Seq<char>>;

/// The ids of the documents that bm25 matches to `query`: those holding a token
/// whose 32-bit fxhash id equals that of a token of the query, once both are
/// tokenized as English text. It depends on the documents and the query alone;
/// the scores, which go through `f32::ln`, are not named.
pub uninterp spec fn bm25_matches(docs: Map<u32, Seq<char>>, query: Seq<char>) -> Set<u32>;

/// The texts of a corpus keyed by position.
pub open spec fn numbered(texts: Seq<Seq<char>>) -> Map<u32, Seq<char>> {
    Map::new(|i: u32| (i as int) < texts.len(), |i: u32| texts[i as int])
}

/// Relies on bm25's `SearchEngineBuilder::with_corpus(Language::English, ..)`
/// and `build`: the builder numbers the texts in order (`id as u32`) and the
/// engine upserts each text under its number.
#[verifier::external_body]
pub(crate) fn build_engine(texts: Vec<String>) -> (e: Bm25Engine)
    requires
        texts.len() <= u32::MAX,
    ensures
        engine_documents(e) == numbered(texts@.map_values(|t: String| t@)),
{
    Bm25Engine { engine: SearchEngineBuilder::<u32, u32>::with_corpus(Language::English, texts).build() }
}

/// Relies on bm25's `SearchEngine::search` with no limit: every matched
/// document (one holding a token id of the query, looked up in the inverted
/// index) comes back once, since the candidates pass through a `HashSet`, with
/// the bits of its score, and only documents that the engine holds. Nothing is
/// assumed of the score values, nor of the order of equal scores, which follows
/// hashing.
#[verifier::external_body]
pub(crate) fn engine_matches(e: &Bm25Engine, query: &str) -> (r: Vec<Match>)
    ensures
        distinct_ids(r@),
        score_map(r@).dom() == bm25_matches(engine_documents(*e), query@),
        forall|i: int| 0 <= i < r@.len() ==> engine_documents(*e).contains_key(#[trigger] r@[i].0),
{
    e.engine.search(query, None::<usize>).into_iter().map(|h| (h.document.id, h.score.to_bits())).collect()
}

} // verus!
