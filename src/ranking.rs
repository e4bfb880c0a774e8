//! Ordering of scored matches and selection of the best `k`.
//!
//! A match is `(position, score_bits)`: the position of a document in the
//! corpus and the IEEE-754 bit pattern of its bm25 score. bm25 scores are sums
//! of products of positive terms, so they are finite and non-negative, and for
//! such numbers the order of the bit patterns (read as unsigned integers) is
//! the numeric order. Comparing bits therefore compares scores.
use vstd::prelude::*;

verus! {

pub type Match = (u32, u32);

/// `a` comes before `b`: a higher score, or an equal score and an earlier
/// corpus position.
pub open spec fn ranks_before(a: Match, b: Match) -> bool {
    a.1 > b.1 || (a.1 == b.1 && a.0 < b.0)
}

/// Every element comes strictly before every later element.
pub open spec fn strictly_ranked(s: Seq<Match>) -> bool {
    forall|i: int, j: int| 0 <= i < j < s.len() ==> ranks_before(#[trigger] s[i], #[trigger] s[j])
}

/// No two matches name the same position.
pub open spec fn distinct_ids(s: Seq<Match>) -> bool {
    forall|i: int, j: int| 0 <= i < s.len() && 0 <= j < s.len() && i != j ==> #[trigger] s[i].0 != #[trigger] s[j].0
}

pub open spec fn holds_id(s: Seq<Match>, id: u32) -> bool {
    exists|i: int| 0 <= i < s.len() && #[trigger] s[i].0 == id
}

/// The scores of a list of matches, keyed by position.
pub open spec fn score_map(s: Seq<Match>) -> Map<u32, u32> {
    Map::new(
        |id: u32| holds_id(s, id),
        |id: u32| s[choose|i: int| 0 <= i < s.len() && #[trigger] s[i].0 == id].1,
    )
}

/// `r` is the best `k` of the scored positions `m`, best first: at most `k`
/// entries, strictly ranked, each taken from `m`, and every entry of `m` left
/// out comes after all of `r` (which then holds exactly `k`).
pub open spec fn is_top_k(r: Seq<Match>, m: Map<u32, u32>, k: nat) -> bool {
    &&& r.len() <= k
    &&& strictly_ranked(r)
    &&& forall|i: int| 0 <= i < r.len() ==> m.contains_key(#[trigger] r[i].0) && m[r[i].0] == r[i].1
    &&& forall|id: u32| #[trigger] m.contains_key(id) && !holds_id(r, id) ==> {
        &&& r.len() == k
        &&& forall|i: int| 0 <= i < r.len() ==> ranks_before(#[trigger] r[i], (id, m[id]))
    }
}

/// Exact comparison of two matches in ranking order.
pub fn ranks_ahead(a: Match, b: Match) -> (r: bool)
    ensures
        r == ranks_before(a, b),
{
    a.1 > b.1 || (a.1 == b.1 && a.0 < b.0)
}

proof fn lemma_score_map_at(s: Seq<Match>, i: int)
    requires
        distinct_ids(s),
        0 <= i < s.len(),
    ensures
        score_map(s).contains_key(s[i].0),
        score_map(s)[s[i].0] == s[i].1,
{
    let id = s[i].0;
    assert(holds_id(s, id));
    let j = choose|j: int| 0 <= j < s.len() && #[trigger] s[j].0 == id;
    assert(j == i);
}

/// Inserts `x` into the strictly ranked `s` at the place that keeps it ranked.
fn insert_ranked(s: &mut Vec<Match>, x: Match)
    requires
        strictly_ranked(old(s)@),
        forall|i: int| 0 <= i < old(s)@.len() ==> #[trigger] old(s)@[i].0 != x.0,
    ensures
        strictly_ranked(final(s)@),
        final(s)@.len() == old(s)@.len() + 1,
        final(s)@.contains(x),
        forall|i: int| 0 <= i < old(s)@.len() ==> final(s)@.contains(#[trigger] old(s)@[i]),
        forall|i: int| 0 <= i < final(s)@.len() ==> (#[trigger] final(s)@[i] == x || old(s)@.contains(final(s)@[i])),
{
    let ghost s0 = s@;
    let mut p: usize = 0;
    while p < s.len() && !ranks_ahead(x, s[p])
        invariant
            s@ == s0,
            s0 == old(s)@,
            forall|i: int| 0 <= i < s0.len() ==> #[trigger] s0[i].0 != x.0,
            0 <= p <= s0.len(),
            forall|q: int| 0 <= q < p ==> ranks_before(#[trigger] s0[q], x),
        decreases s0.len() - p,
    {
        assert(s0[p as int].0 != x.0);
        p = p + 1;
    }
    s.insert(p, x);
    let ghost s1 = s@;
    assert(s1 == s0.insert(p as int, x));
    assert forall|a: int, b: int| 0 <= a < b < s1.len() implies ranks_before(#[trigger] s1[a], #[trigger] s1[b]) by {
        if b < p {
        } else if b == p {
        } else if a < p {
            assert(ranks_before(s0[a], x));
            if b - 1 > p {
                assert(ranks_before(x, s0[p as int]));
                assert(ranks_before(s0[p as int], s0[b - 1]));
            }
        } else if a == p {
            assert(ranks_before(x, s0[p as int]));
            if b - 1 > p {
                assert(ranks_before(s0[p as int], s0[b - 1]));
            }
        } else {
        }
    }
    assert(s1[p as int] == x);
    assert forall|i: int| 0 <= i < s0.len() implies s1.contains(#[trigger] s0[i]) by {
        if i < p {
            assert(s1[i] == s0[i]);
        } else {
            assert(s1[i + 1] == s0[i]);
        }
    }
    assert forall|i: int| 0 <= i < s1.len() implies (#[trigger] s1[i] == x || s0.contains(s1[i])) by {
        if i < p {
            assert(s0[i] == s1[i]);
        } else if i > p {
            assert(s0[i - 1] == s1[i]);
        }
    }
}

/// The best `k` of `candidates`, best first: highest score first, and equal
/// scores in corpus order.
pub fn top_k(candidates: &Vec<Match>, k: usize) -> (r: Vec<Match>)
    requires
        distinct_ids(candidates@),
    ensures
        is_top_k(r@, score_map(candidates@), k as nat),
{
    let ghost c = candidates@;
    let mut sorted: Vec<Match> = Vec::new();
    let mut i: usize = 0;
    while i < candidates.len()
        invariant
            c == candidates@,
            distinct_ids(c),
            0 <= i <= c.len(),
            sorted@.len() == i,
            strictly_ranked(sorted@),
            forall|t: int| 0 <= t < i ==> sorted@.contains(#[trigger] c[t]),
            forall|j: int| 0 <= j < sorted@.len() ==> c.take(i as int).contains(#[trigger] sorted@[j]),
        decreases c.len() - i,
    {
        let x = candidates[i];
        let ghost before = sorted@;
        assert forall|j: int| 0 <= j < before.len() implies #[trigger] before[j].0 != x.0 by {
            assert(c.take(i as int).contains(before[j]));
            let t = choose|t: int| 0 <= t < i && #[trigger] c.take(i as int)[t] == before[j];
            assert(c[t].0 != c[i as int].0);
        }
        insert_ranked(&mut sorted, x);
        assert forall|t: int| 0 <= t < i + 1 implies sorted@.contains(#[trigger] c[t]) by {
            if t < i {
                assert(before.contains(c[t]));
                let j = choose|j: int| 0 <= j < before.len() && before[j] == c[t];
                assert(sorted@.contains(before[j]));
            }
        }
        assert forall|j: int| 0 <= j < sorted@.len() implies c.take(i + 1).contains(#[trigger] sorted@[j]) by {
            if sorted@[j] == x {
                assert(c.take(i + 1)[i as int] == sorted@[j]);
            } else {
                let q = choose|q: int| 0 <= q < before.len() && before[q] == sorted@[j];
                assert(c.take(i as int).contains(before[q]));
                let t = choose|t: int| 0 <= t < i && #[trigger] c.take(i as int)[t] == before[q];
                assert(c.take(i + 1)[t] == sorted@[j]);
            }
        }
        i = i + 1;
    }
    let ghost full = sorted@;
    let ghost m = score_map(c);
    if sorted.len() > k {
        sorted.truncate(k);
    }
    let ghost r = sorted@;
    assert(r.len() <= full.len());
    assert forall|i: int| 0 <= i < r.len() implies r[i] == full[i] by {}
    assert forall|a: int| 0 <= a < r.len() implies m.contains_key(#[trigger] r[a].0) && m[r[a].0] == r[a].1 by {
        assert(r[a] == full[a]);
        assert(c.take(c.len() as int).contains(full[a]));
        let t = choose|t: int| 0 <= t < c.len() && #[trigger] c.take(c.len() as int)[t] == full[a];
        lemma_score_map_at(c, t);
    }
    assert forall|id: u32| #[trigger] m.contains_key(id) && !holds_id(r, id) implies {
        &&& r.len() == k
        &&& forall|a: int| 0 <= a < r.len() ==> ranks_before(#[trigger] r[a], (id, m[id]))
    } by {
        let t = choose|t: int| 0 <= t < c.len() && #[trigger] c[t].0 == id;
        lemma_score_map_at(c, t);
        assert(full.contains(c[t]));
        let j = choose|j: int| 0 <= j < full.len() && full[j] == c[t];
        if j < r.len() {
            assert(r[j].0 == id);
            assert(holds_id(r, id));
        }
        assert forall|a: int| 0 <= a < r.len() implies ranks_before(#[trigger] r[a], (id, m[id])) by {
            assert(r[a] == full[a]);
            assert(ranks_before(full[a], full[j]));
        }
    }
    sorted
}

/// Selecting the best `k` of a set of scored positions leaves no choice: two
/// answers that both meet `is_top_k` for the same scores and `k` are equal.
pub proof fn lemma_top_k_unique(m: Map<u32, u32>, k: nat, r1: Seq<Match>, r2: Seq<Match>)
    requires
        is_top_k(r1, m, k),
        is_top_k(r2, m, k),
    ensures
        r1 == r2,
{
    lemma_top_k_prefix(m, k, r1, r2, 0);
}

/// A strictly ranked sequence holds no element twice.
proof fn lemma_ranked_entries_differ(r: Seq<Match>, i: int, j: int)
    requires
        strictly_ranked(r),
        0 <= i < r.len(),
        0 <= j < r.len(),
        i != j,
    ensures
        r[i] != r[j],
{
    if i < j {
        assert(ranks_before(r[i], r[j]));
    } else {
        assert(ranks_before(r[j], r[i]));
    }
}

/// Two answers that agree before position `p` agree everywhere.
proof fn lemma_top_k_prefix(m: Map<u32, u32>, k: nat, r1: Seq<Match>, r2: Seq<Match>, p: int)
    requires
        is_top_k(r1, m, k),
        is_top_k(r2, m, k),
        0 <= p <= r1.len(),
        p <= r2.len(),
        forall|i: int| 0 <= i < p ==> r1[i] == r2[i],
    ensures
        r1 == r2,
    decreases r1.len() + r2.len() - 2 * p,
{
    if p < r1.len() && p < r2.len() {
        lemma_first_agree(m, k, r1, r2, p);
        lemma_first_agree(m, k, r2, r1, p);
        let a = r1[p];
        let b = r2[p];
        if a != b {
            assert(ranks_before(a, b) || ranks_before(b, a)) by {
                if a.0 == b.0 {
                    assert(m[a.0] == a.1);
                    assert(m[b.0] == b.1);
                }
            }
        }
        lemma_top_k_prefix(m, k, r1, r2, p + 1);
    } else if p < r2.len() {
        lemma_longer_has_extra(m, k, r1, r2, p);
    } else if p < r1.len() {
        lemma_longer_has_extra(m, k, r2, r1, p);
    } else {
        assert(r1 =~= r2);
    }
}

/// Where two answers agree before `p`, `r1[p]` cannot rank strictly ahead of `r2[p]`.
proof fn lemma_first_agree(m: Map<u32, u32>, k: nat, r1: Seq<Match>, r2: Seq<Match>, p: int)
    requires
        is_top_k(r1, m, k),
        is_top_k(r2, m, k),
        0 <= p < r1.len(),
        p < r2.len(),
        forall|i: int| 0 <= i < p ==> r1[i] == r2[i],
    ensures
        !ranks_before(r1[p], r2[p]),
{
    let a = r1[p];
    let b = r2[p];
    if ranks_before(a, b) {
        assert(m.contains_key(a.0) && m[a.0] == a.1);
        if holds_id(r2, a.0) {
            let j = choose|j: int| 0 <= j < r2.len() && #[trigger] r2[j].0 == a.0;
            assert(m[r2[j].0] == r2[j].1);
            assert(r2[j] == a);
            if j < p {
                assert(r1[j] == a);
                lemma_ranked_entries_differ(r1, j, p);
            } else if j > p {
                assert(ranks_before(r2[p], r2[j]));
            }
        } else {
            assert(ranks_before(r2[p], (a.0, m[a.0])));
        }
    }
}

/// Two answers that agree on the shorter one's length have the same length.
proof fn lemma_longer_has_extra(m: Map<u32, u32>, k: nat, r1: Seq<Match>, r2: Seq<Match>, p: int)
    requires
        is_top_k(r1, m, k),
        is_top_k(r2, m, k),
        p == r1.len(),
        p <= r2.len(),
        forall|i: int| 0 <= i < p ==> r1[i] == r2[i],
    ensures
        p == r2.len(),
{
    if p < r2.len() {
        let x = r2[p];
        assert(m.contains_key(x.0));
        if holds_id(r1, x.0) {
            let j = choose|j: int| 0 <= j < r1.len() && #[trigger] r1[j].0 == x.0;
            assert(r2[j] == r1[j]);
            assert(m[r1[j].0] == r1[j].1);
            lemma_ranked_entries_differ(r2, j, p);
        }
    }
}

} // verus!
