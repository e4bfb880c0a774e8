//! The search index over a corpus, and query evaluation against it.
use vstd::prelude::*;
use crate::corpus::Recipe;
use crate::engine::{bm25_matches, build_engine, engine_documents, engine_matches, numbered, Bm25Engine};
use crate::ranking::{is_top_k, top_k, Match};

verus! {

/// One ranked answer to a query.
pub struct SearchResult {
    /// Where the recipe stands in the corpus.
    pub position: u32,
    /// The recipe's title.
    pub item_id: String,
    /// The IEEE-754 bit pattern of the (single precision) bm25 score.
    pub score_bits: u32,
    /// The recipe's method, shown under the title.
    pub snippet: String,
}

impl SearchResult {
    pub open spec fn key(&self) -> Match {
        (self.position, self.score_bits)
    }
}

pub open spec fn keys(r: Seq<SearchResult>) -> Seq<Match> {
    r.map_values(|h: SearchResult| h.key())
}

/// `h` shows the corpus entry at its position.
pub open spec fn describes(h: SearchResult, corpus: Seq<Recipe>) -> bool {
    &&& (h.position as int) < corpus.len()
    &&& h.item_id@ == corpus[h.position as int].title@
    &&& h.snippet@ == corpus[h.position as int].method@
}

pub open spec fn method_texts(corpus: Seq<Recipe>) -> Seq<Seq<char>> {
    corpus.map_values(|r: Recipe| r.method@)
}

/// `r` answers `query` over `corpus` with at most `k` results: nothing for an
/// empty query; else, for some scoring of exactly the documents that bm25
/// matches, the best `k` of them, best first, equal scores in corpus order,
/// each shown with its recipe.
pub open spec fn answers(corpus: Seq<Recipe>, query: Seq<char>, k: nat, r: Seq<SearchResult>) -> bool {
    &&& query.len() == 0 ==> r.len() == 0
    &&& query.len() > 0 ==> exists|m: Map<u32, u32>| {
        &&& #[trigger] m.dom() == bm25_matches(numbered(method_texts(corpus)), query)
        &&& is_top_k(keys(r), m, k)
    }
    &&& forall|i: int| 0 <= i < r.len() ==> describes(#[trigger] r[i], corpus)
}

/// A corpus together with the bm25 engine built over its methods.
pub struct SearchIndex {
    engine: Bm25Engine,
    corpus: Vec<Recipe>,
}

impl SearchIndex {
    /// The recipes the index was built from.
    pub closed spec fn corpus(&self) -> Seq<Recipe> {
        self.corpus@
    }

    /// The engine holds the corpus's methods, numbered by position.
    pub closed spec fn wf(&self) -> bool {
        &&& self.corpus@.len() <= u32::MAX
        &&& engine_documents(self.engine) == numbered(method_texts(self.corpus@))
    }

    /// Builds the index once over `corpus`; the methods are analysed as English.
    pub fn build(corpus: Vec<Recipe>) -> (r: SearchIndex)
        requires
            corpus@.len() <= u32::MAX,
        ensures
            r.wf(),
            r.corpus() == corpus@,
    {
        let mut texts: Vec<String> = Vec::new();
        let mut i: usize = 0;
        while i < corpus.len()
            invariant
                0 <= i <= corpus@.len(),
                texts@.len() == i,
                texts@.map_values(|t: String| t@) =~= method_texts(corpus@).take(i as int),
            decreases corpus@.len() - i,
        {
            let ghost before = texts@;
            texts.push(corpus[i].method.clone());
            assert(texts@ == before.push(corpus@[i as int].method));
            assert(texts@.map_values(|t: String| t@) =~= method_texts(corpus@).take(i + 1)) by {
                assert forall|j: int| 0 <= j < i implies #[trigger] texts@[j]@ == method_texts(corpus@)[j] by {
                    assert(before.map_values(|t: String| t@)[j] == method_texts(corpus@).take(i as int)[j]);
                }
            }
            i = i + 1;
        }
        assert(method_texts(corpus@).take(i as int) =~= method_texts(corpus@));
        let engine = build_engine(texts);
        SearchIndex { engine, corpus }
    }

    /// Number of recipes in the index.
    pub fn len(&self) -> (r: usize)
        ensures
            r == self.corpus().len(),
    {
        self.corpus.len()
    }

    /// Answers `query` with at most `k` results. An empty query returns no
    /// results without consulting the engine; an index over no recipes answers
    /// every query with no results.
    pub fn evaluate(&self, query: &str, k: usize) -> (r: Vec<SearchResult>)
        requires
            self.wf(),
        ensures
            answers(self.corpus(), query@, k as nat, r@),
            self.corpus().len() == 0 ==> r@.len() == 0,
    {
        if query.is_empty() {
            return Vec::new();
        }
        let matches = engine_matches(&self.engine, query);
        let best = top_k(&matches, k);
        proof {
            assert forall|i: int| 0 <= i < best@.len() implies (best@[i].0 as int) < self.corpus@.len() by {
                let m = crate::ranking::score_map(matches@);
                assert(m.contains_key(best@[i].0));
                let j = choose|j: int| 0 <= j < matches@.len() && #[trigger] matches@[j].0 == best@[i].0;
                assert(engine_documents(self.engine).contains_key(matches@[j].0));
            }
        }
        assert(best@.len() > 0 ==> (best@[0].0 as int) < self.corpus@.len());
        let r = present(&self.corpus, &best);
        assert(keys(r@) =~= best@);
        assert(crate::ranking::score_map(matches@).dom() == bm25_matches(numbered(method_texts(self.corpus@)), query@));
        r
    }
}

/// Shows each ranked match with the recipe at its position.
pub fn present(corpus: &Vec<Recipe>, ranked: &Vec<Match>) -> (r: Vec<SearchResult>)
    requires
        forall|i: int| 0 <= i < ranked@.len() ==> (#[trigger] ranked@[i].0 as int) < corpus@.len(),
    ensures
        keys(r@) == ranked@,
        forall|i: int| 0 <= i < r@.len() ==> describes(#[trigger] r@[i], corpus@),
{
    let mut out: Vec<SearchResult> = Vec::new();
    let mut i: usize = 0;
    while i < ranked.len()
        invariant
            0 <= i <= ranked@.len(),
            forall|j: int| 0 <= j < ranked@.len() ==> (#[trigger] ranked@[j].0 as int) < corpus@.len(),
            out@.len() == i,
            keys(out@) =~= ranked@.take(i as int),
            forall|j: int| 0 <= j < out@.len() ==> describes(#[trigger] out@[j], corpus@),
        decreases ranked@.len() - i,
    {
        let (position, score_bits) = ranked[i];
        let recipe = &corpus[position as usize];
        let ghost before = out@;
        out.push(SearchResult {
            position,
            item_id: recipe.title.clone(),
            score_bits,
            snippet: recipe.method.clone(),
        });
        assert(keys(out@) =~= ranked@.take(i + 1)) by {
            assert forall|j: int| 0 <= j < i implies #[trigger] out@[j].key() == ranked@[j] by {
                assert(out@[j] == before[j]);
                assert(keys(before)[j] == ranked@.take(i as int)[j]);
            }
            assert(out@[i as int].key() == ranked@[i as int]);
        }
        i = i + 1;
    }
    assert(ranked@.take(i as int) =~= ranked@);
    out
}

} // verus!
