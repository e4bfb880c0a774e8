//! One search session: loading, then live queries, and the view to render.
//!
//! The session starts `Loading`. When the corpus text arrives (or fails to)
//! it moves once to `Ready` or `Failed`. Query input while `Loading` or
//! `Failed` is ignored: nothing is evaluated against an index that does not
//! exist, and the user types again once the session is ready. While `Ready`,
//! each input replaces the query and its results in one step.
use vstd::prelude::*;
use crate::corpus::{csv_records, load_outcome, parse_corpus, LoadError, Recipe};
use crate::index::{answers, SearchIndex, SearchResult};

verus! {

/// How many results a query shows.
pub const RESULT_LIMIT: usize = 5;

#[derive(Clone, Copy, Debug, PartialEq, Eq, Structural)]
pub enum Phase {
    Loading,
    Ready,
    Failed,
}

/// What a front end shows for a session.
pub enum ViewModel {
    /// The corpus is still loading.
    Loading,
    /// The corpus could not be loaded.
    Failed,
    /// Ready, and the query box is empty: no results panel.
    Hidden,
    /// Ready, a query was entered, and nothing matched.
    NoResults,
    /// Ready, with these results, best first.
    Table(Vec<SearchResult>),
}

pub struct Session {
    phase: Phase,
    index: Option<SearchIndex>,
    failure: Option<LoadError>,
    query: String,
    results: Vec<SearchResult>,
}

impl Session {
    pub closed spec fn phase_spec(&self) -> Phase {
        self.phase
    }

    pub closed spec fn query_spec(&self) -> Seq<char> {
        self.query@
    }

    pub closed spec fn results_spec(&self) -> Seq<SearchResult> {
        self.results@
    }

    /// The recipes of the index; empty until the session is ready.
    pub closed spec fn corpus_spec(&self) -> Seq<Recipe> {
        match self.index {
            Some(ix) => ix.corpus(),
            None => Seq::empty(),
        }
    }

    pub closed spec fn failure_spec(&self) -> Option<LoadError> {
        self.failure
    }

    /// How loading ended: the corpus once ready, the error once failed.
    pub open spec fn outcome_spec(&self) -> Result<Seq<Recipe>, LoadError> {
        if self.phase_spec() == Phase::Ready {
            Ok(self.corpus_spec())
        } else {
            Err(self.failure_spec()->0)
        }
    }

    /// Results exist only while ready, and then answer the current query.
    pub closed spec fn wf(&self) -> bool {
        match self.phase {
            Phase::Loading => self.index is None && self.failure is None && self.query@.len() == 0
                && self.results@.len() == 0,
            Phase::Failed => self.index is None && self.failure is Some && self.query@.len() == 0
                && self.results@.len() == 0,
            Phase::Ready => self.index is Some && self.index->0.wf() && self.failure is None
                && answers(self.index->0.corpus(), self.query@, RESULT_LIMIT as nat, self.results@),
        }
    }

    /// A session that has started loading.
    pub fn new() -> (s: Session)
        ensures
            s.wf(),
            s.phase_spec() == Phase::Loading,
            s.query_spec().len() == 0,
            s.results_spec().len() == 0,
    {
        Session { phase: Phase::Loading, index: None, failure: None, query: String::new(), results: Vec::new() }
    }

    /// The load finished with `fetched`: the corpus text, or why it could not
    /// be had. A loading session builds its index and becomes ready, or fails;
    /// a session that has already left `Loading` is left as it is.
    pub fn on_loaded(&mut self, fetched: Result<String, LoadError>)
        requires
            old(self).wf(),
        ensures
            final(self).wf(),
            old(self).phase_spec() != Phase::Loading ==> *final(self) == *old(self),
            old(self).phase_spec() == Phase::Loading ==> {
                &&& final(self).phase_spec() != Phase::Loading
                &&& final(self).query_spec().len() == 0
                &&& final(self).results_spec().len() == 0
                &&& final(self).phase_spec() == Phase::Failed ==> final(self).failure_spec() is Some
                &&& match fetched {
                    Err(e) => final(self).phase_spec() == Phase::Failed && final(self).failure_spec() == Some(e),
                    Ok(text) => load_outcome(final(self).outcome_spec(), csv_records(text@)),
                }
            },
    {
        if self.phase != Phase::Loading {
            return;
        }
        match fetched {
            Err(e) => {
                self.phase = Phase::Failed;
                self.failure = Some(e);
            },
            Ok(text) => {
                match parse_corpus(text.as_str()) {
                    Ok(corpus) => {
                        let index = SearchIndex::build(corpus);
                        self.index = Some(index);
                        self.phase = Phase::Ready;
                    },
                    Err(e) => {
                        self.phase = Phase::Failed;
                        self.failure = Some(e);
                    },
                }
            },
        }
    }

    /// The user typed `query`. While ready, the query and its results are
    /// replaced together; otherwise nothing changes.
    pub fn on_query_input(&mut self, query: String)
        requires
            old(self).wf(),
        ensures
            final(self).wf(),
            old(self).phase_spec() != Phase::Ready ==> *final(self) == *old(self),
            old(self).phase_spec() == Phase::Ready ==> {
                &&& final(self).phase_spec() == Phase::Ready
                &&& final(self).corpus_spec() == old(self).corpus_spec()
                &&& final(self).query_spec() == query@
                &&& answers(final(self).corpus_spec(), query@, RESULT_LIMIT as nat, final(self).results_spec())
            },
    {
        if self.phase != Phase::Ready {
            return;
        }
        match &self.index {
            Some(index) => {
                let results = index.evaluate(query.as_str(), RESULT_LIMIT);
                self.query = query;
                self.results = results;
            },
            None => {},
        }
    }

    pub fn phase(&self) -> (r: Phase)
        ensures
            r == self.phase_spec(),
    {
        self.phase
    }

    pub fn query(&self) -> (r: &str)
        ensures
            r@ == self.query_spec(),
    {
        self.query.as_str()
    }

    pub fn results(&self) -> (r: &Vec<SearchResult>)
        ensures
            r@ == self.results_spec(),
    {
        &self.results
    }

    pub fn failure(&self) -> (r: Option<LoadError>)
        ensures
            r == self.failure_spec(),
    {
        self.failure
    }

    /// What to render: the phase while not ready; once ready, nothing for an
    /// empty query, a "no results" message when nothing matched, else the
    /// results in order.
    pub fn view_model(&self) -> (v: ViewModel)
        requires
            self.wf(),
        ensures
            self.phase_spec() == Phase::Loading ==> v is Loading,
            self.phase_spec() == Phase::Failed ==> v is Failed,
            self.phase_spec() == Phase::Ready && self.query_spec().len() == 0 ==> v is Hidden,
            self.phase_spec() == Phase::Ready && self.query_spec().len() > 0 && self.results_spec().len() == 0
                ==> v is NoResults,
            self.phase_spec() == Phase::Ready && self.results_spec().len() > 0
                ==> (v matches ViewModel::Table(rows) && rows@ == self.results_spec()),
    {
        match self.phase {
            Phase::Loading => ViewModel::Loading,
            Phase::Failed => ViewModel::Failed,
            Phase::Ready => {
                if self.query.as_str().is_empty() {
                    ViewModel::Hidden
                } else if self.results.len() == 0 {
                    ViewModel::NoResults
                } else {
                    ViewModel::Table(copy_results(&self.results))
                }
            },
        }
    }
}

fn copy_results(rs: &Vec<SearchResult>) -> (r: Vec<SearchResult>)
    ensures
        r@ == rs@,
{
    let mut out: Vec<SearchResult> = Vec::new();
    let mut i: usize = 0;
    while i < rs.len()
        invariant
            0 <= i <= rs@.len(),
            out@ =~= rs@.take(i as int),
        decreases rs@.len() - i,
    {
        let h = &rs[i];
        out.push(SearchResult {
            position: h.position,
            item_id: h.item_id.clone(),
            score_bits: h.score_bits,
            snippet: h.snippet.clone(),
        });
        i = i + 1;
    }
    assert(rs@.take(i as int) =~= rs@);
    out
}

/// What holds of every session that `new` and the transitions can produce
/// (`new` establishes `wf`, and `on_loaded` and `on_query_input` preserve it):
/// results are shown only while ready, and while ready they answer the current
/// query over the loaded corpus, never an earlier query; a failed session
/// records why it failed.
pub proof fn lemma_session_invariant(s: Session)
    requires
        s.wf(),
    ensures
        s.results_spec().len() > 0 ==> s.phase_spec() == Phase::Ready,
        s.phase_spec() == Phase::Ready ==> answers(s.corpus_spec(), s.query_spec(), RESULT_LIMIT as nat, s.results_spec()),
        s.phase_spec() == Phase::Failed ==> s.failure_spec() is Some,
        s.phase_spec() != Phase::Ready ==> s.query_spec().len() == 0,
{
}

} // verus!
