//! Merging candidate lists from several sources into one ranked list.
use vstd::prelude::*;
use crate::candidate::{Candidate, Candidates};

verus! {

/// Index of the first candidate at or after `i` whose text is `t`, or -1.
pub open spec fn find_text(s: Seq<Candidate>, t: Seq<char>, i: int) -> int
    decreases s.len() - i,
{
    if i < 0 || i >= s.len() {
        -1
    } else if s[i].text@ == t {
        i
    } else {
        find_text(s, t, i + 1)
    }
}

/// Adds `c` to a list whose texts are distinct: a new text is appended; a known
/// text is replaced in place when `c` weighs strictly more.
pub open spec fn dedupe_step(acc: Seq<Candidate>, c: Candidate) -> Seq<Candidate> {
    let j = find_text(acc, c.text@, 0);
    if j < 0 {
        acc.push(c)
    } else if c.weight > acc[j].weight {
        acc.update(j, c)
    } else {
        acc
    }
}

/// The candidates with one entry per text, the heaviest one, the first seen on
/// equal weight; texts stay in the order of their first occurrence.
pub open spec fn dedupe(s: Seq<Candidate>) -> Seq<Candidate>
    decreases s.len(),
{
    if s.len() == 0 {
        Seq::empty()
    } else {
        dedupe_step(dedupe(s.drop_last()), s.last())
    }
}

/// Inserts `c` into a list ordered by descending weight, after every candidate
/// of equal or greater weight.
pub open spec fn insert_desc(acc: Seq<Candidate>, c: Candidate) -> Seq<Candidate>
    decreases acc.len(),
{
    if acc.len() == 0 {
        seq![c]
    } else if acc[0].weight < c.weight {
        seq![c] + acc
    } else {
        seq![acc[0]] + insert_desc(acc.drop_first(), c)
    }
}

/// Stable sort by descending weight.
pub open spec fn sort_desc(s: Seq<Candidate>) -> Seq<Candidate>
    decreases s.len(),
{
    if s.len() == 0 {
        Seq::empty()
    } else {
        insert_desc(sort_desc(s.drop_last()), s.last())
    }
}

/// The ranked list of `s`: deduplicated by text, sorted by descending weight
/// (ties keep first-seen order), cut to `max` entries.
pub open spec fn ranked(s: Seq<Candidate>, max: nat) -> Seq<Candidate> {
    let sorted = sort_desc(dedupe(s));
    if sorted.len() <= max {
        sorted
    } else {
        sorted.take(max as int)
    }
}

/// Ordered by descending weight.
pub open spec fn is_desc(s: Seq<Candidate>) -> bool {
    forall|i: int, j: int| 0 <= i < j < s.len() ==> s[i].weight >= s[j].weight
}

proof fn lemma_insert_at(acc: Seq<Candidate>, c: Candidate, p: int)
    requires
        0 <= p <= acc.len(),
        forall|k: int| 0 <= k < p ==> acc[k].weight >= c.weight,
        p < acc.len() ==> acc[p].weight < c.weight,
    ensures
        insert_desc(acc, c) == acc.insert(p, c),
    decreases acc.len(),
{
    if acc.len() == 0 {
        assert(acc.insert(p, c) =~= seq![c]);
    } else if p == 0 {
        assert(acc.insert(p, c) =~= seq![c] + acc);
    } else {
        let rest = acc.drop_first();
        assert forall|k: int| 0 <= k < p - 1 implies rest[k].weight >= c.weight by {
            assert(rest[k] == acc[k + 1]);
        }
        lemma_insert_at(rest, c, p - 1);
        assert(acc.insert(p, c) =~= seq![acc[0]] + rest.insert(p - 1, c));
    }
}

proof fn lemma_insert_desc_sorted(acc: Seq<Candidate>, c: Candidate)
    requires
        is_desc(acc),
    ensures
        is_desc(insert_desc(acc, c)),
        insert_desc(acc, c).len() == acc.len() + 1,
        forall|x: Candidate| #[trigger] insert_desc(acc, c).contains(x) <==> (acc.contains(x) || x == c),
    decreases acc.len(),
{
    let r = insert_desc(acc, c);
    if acc.len() == 0 {
        assert forall|x: Candidate| r.contains(x) <==> (acc.contains(x) || x == c) by {
            if r.contains(x) {
                assert(r[0] == c);
            }
            if x == c {
                assert(r[0] == x);
            }
        }
    } else if acc[0].weight < c.weight {
        assert forall|x: Candidate| r.contains(x) <==> (acc.contains(x) || x == c) by {
            if r.contains(x) {
                let i = choose|i: int| 0 <= i < r.len() && r[i] == x;
                if i > 0 {
                    assert(acc[i - 1] == x);
                }
            }
            if acc.contains(x) {
                let i = choose|i: int| 0 <= i < acc.len() && acc[i] == x;
                assert(r[i + 1] == x);
            }
            if x == c {
                assert(r[0] == x);
            }
        }
    } else {
        let rest = acc.drop_first();
        assert(is_desc(rest)) by {
            assert forall|i: int, j: int| 0 <= i < j < rest.len() implies rest[i].weight >= rest[j].weight by {
                assert(rest[i] == acc[i + 1] && rest[j] == acc[j + 1]);
            }
        }
        lemma_insert_desc_sorted(rest, c);
        let t = insert_desc(rest, c);
        assert(r == seq![acc[0]] + t);
        assert forall|k: int| 0 <= k < t.len() implies acc[0].weight >= t[k].weight by {
            assert(t.contains(t[k]));
            if t[k] != c {
                assert(rest.contains(t[k]));
                let i = choose|i: int| 0 <= i < rest.len() && rest[i] == t[k];
                assert(rest[i] == acc[i + 1]);
            }
        }
        assert forall|i: int, j: int| 0 <= i < j < r.len() implies r[i].weight >= r[j].weight by {
            if i == 0 {
                assert(r[j] == t[j - 1]);
            } else {
                assert(r[i] == t[i - 1] && r[j] == t[j - 1]);
            }
        }
        assert forall|x: Candidate| r.contains(x) <==> (acc.contains(x) || x == c) by {
            if r.contains(x) {
                let i = choose|i: int| 0 <= i < r.len() && r[i] == x;
                if i > 0 {
                    assert(t[i - 1] == x);
                    assert(t.contains(x));
                    if x != c {
                        assert(rest.contains(x));
                        let k = choose|k: int| 0 <= k < rest.len() && rest[k] == x;
                        assert(acc[k + 1] == x);
                    }
                }
            }
            if acc.contains(x) {
                let i = choose|i: int| 0 <= i < acc.len() && acc[i] == x;
                if i == 0 {
                    assert(r[0] == x);
                } else {
                    assert(rest[i - 1] == x);
                    assert(rest.contains(x));
                    assert(t.contains(x));
                    let k = choose|k: int| 0 <= k < t.len() && t[k] == x;
                    assert(r[k + 1] == x);
                }
            }
            if x == c {
                assert(t.contains(c));
                let k = choose|k: int| 0 <= k < t.len() && t[k] == c;
                assert(r[k + 1] == x);
            }
        }
    }
}

/// The sorted list is ordered by descending weight.
pub proof fn lemma_sort_desc_sorted(s: Seq<Candidate>)
    ensures
        is_desc(sort_desc(s)),
        sort_desc(s).len() == s.len(),
    decreases s.len(),
{
    if s.len() > 0 {
        lemma_sort_desc_sorted(s.drop_last());
        lemma_insert_desc_sorted(sort_desc(s.drop_last()), s.last());
    }
}

proof fn lemma_find_text_range(s: Seq<Candidate>, t: Seq<char>, i: int)
    requires
        0 <= i,
    ensures
        find_text(s, t, i) == -1 || (i <= find_text(s, t, i) < s.len() && s[find_text(s, t, i)].text@ == t),
    decreases s.len() - i,
{
    if i < s.len() && s[i].text@ != t {
        lemma_find_text_range(s, t, i + 1);
    }
}

/// Index of the first candidate with text `t`, or -1.
fn find_text_exec(v: &Vec<Candidate>, t: &String) -> (r: Option<usize>)
    ensures
        r is None ==> find_text(v@, t@, 0) == -1,
        r is Some ==> find_text(v@, t@, 0) == r->0,
{
    let mut i: usize = 0;
    while i < v.len()
        invariant
            i <= v.len(),
            find_text(v@, t@, 0) == find_text(v@, t@, i as int),
        decreases v.len() - i,
    {
        if v[i].text == *t {
            return Some(i);
        }
        i = i + 1;
    }
    None
}

/// Deduplicates by text, keeping the heaviest entry (the first seen on equal weight).
pub fn dedupe_by_text(s: &Vec<Candidate>) -> (r: Vec<Candidate>)
    ensures
        r@ == dedupe(s@),
{
    let mut acc: Vec<Candidate> = Vec::new();
    let mut i: usize = 0;
    while i < s.len()
        invariant
            i <= s.len(),
            acc@ == dedupe(s@.take(i as int)),
            acc.len() <= i,
        decreases s.len() - i,
    {
        proof {
            assert(s@.take(i + 1).drop_last() =~= s@.take(i as int));
        }
        let c = s[i].duplicate();
        let j = find_text_exec(&acc, &c.text);
        proof {
            lemma_find_text_range(acc@, c.text@, 0);
        }
        match j {
            None => {
                acc.push(c);
            },
            Some(j) => {
                if c.weight > acc[j].weight {
                    acc.set(j, c);
                }
            },
        }
        i = i + 1;
    }
    assert(s@.take(s.len() as int) =~= s@);
    acc
}

/// Stable sort by descending weight.
pub fn sort_by_weight(s: &Vec<Candidate>) -> (r: Vec<Candidate>)
    ensures
        r@ == sort_desc(s@),
{
    let mut acc: Vec<Candidate> = Vec::new();
    let mut i: usize = 0;
    while i < s.len()
        invariant
            i <= s.len(),
            acc@ == sort_desc(s@.take(i as int)),
        decreases s.len() - i,
    {
        proof {
            assert(s@.take(i + 1).drop_last() =~= s@.take(i as int));
            lemma_sort_desc_sorted(s@.take(i as int));
        }
        let c = s[i].duplicate();
        let mut p: usize = 0;
        while p < acc.len() && acc[p].weight >= c.weight
            invariant
                p <= acc.len(),
                forall|k: int| 0 <= k < p ==> acc@[k].weight >= c.weight,
            decreases acc.len() - p,
        {
            p = p + 1;
        }
        proof {
            lemma_insert_at(acc@, c, p as int);
        }
        acc.insert(p, c);
        i = i + 1;
    }
    assert(s@.take(s.len() as int) =~= s@);
    acc
}

/// Ranks candidates: one per text (the heaviest, the first seen on equal
/// weight), by descending weight with ties in first-seen order, at most
/// `max_candidates` of them.
pub fn merge(candidates: &Vec<Candidate>, max_candidates: usize) -> (r: Vec<Candidate>)
    ensures
        r@ == ranked(candidates@, max_candidates as nat),
{
    let d = dedupe_by_text(candidates);
    let mut sorted = sort_by_weight(&d);
    if sorted.len() > max_candidates {
        sorted.truncate(max_candidates);
    }
    sorted
}

/// The candidates of all lists, list after list.
pub open spec fn concat_all(lists: Seq<Seq<Candidate>>) -> Seq<Candidate> {
    lists.flatten()
}

/// Ranks the candidates of several sources, given in priority order.
pub fn merge_sources(sources: &Vec<Candidates>, max_candidates: usize) -> (r: Candidates)
    ensures
        r@ == ranked(concat_all(sources@.map_values(|c: Candidates| c@)), max_candidates as nat),
{
    let ghost lists = sources@.map_values(|c: Candidates| c@);
    let mut all: Vec<Candidate> = Vec::new();
    let mut i: usize = 0;
    while i < sources.len()
        invariant
            i <= sources.len(),
            lists == sources@.map_values(|c: Candidates| c@),
            all@ == lists.take(i as int).flatten(),
        decreases sources.len() - i,
    {
        let src = sources[i].as_slice();
        let mut k: usize = 0;
        while k < src.len()
            invariant
                i < sources.len(),
                k <= src.len(),
                src@ == lists[i as int],
                all@ == lists.take(i as int).flatten() + src@.take(k as int),
            decreases src.len() - k,
        {
            all.push(src[k].duplicate());
            assert(src@.take(k + 1) =~= src@.take(k as int).push(src@[k as int]));
            k = k + 1;
        }
        proof {
            assert(lists.take(i + 1) =~= lists.take(i as int).push(lists[i as int]));
            lists.take(i as int).lemma_flatten_push(lists[i as int]);
            assert(src@.take(src@.len() as int) =~= src@);
        }
        i = i + 1;
    }
    assert(lists.take(sources.len() as int) =~= lists);
    Candidates::from_vec(merge(&all, max_candidates))
}

/// A ranked list is ordered by descending weight and holds at most `max` entries.
pub proof fn lemma_ranked_desc(s: Seq<Candidate>, max: nat)
    ensures
        is_desc(ranked(s, max)),
        ranked(s, max).len() <= max,
{
    lemma_sort_desc_sorted(dedupe(s));
}

/// Ranking is deterministic: equal inputs and limits give identical lists.
pub proof fn merge_is_deterministic(a: Seq<Candidate>, b: Seq<Candidate>, max: nat, ra: Seq<Candidate>, rb: Seq<Candidate>)
    requires
        a == b,
        ra == ranked(a, max),
        rb == ranked(b, max),
    ensures
        ra == rb,
{
}

/// A ranked list is ordered by descending weight: of two ranked candidates, the
/// one with strictly greater weight stands strictly ahead.
pub proof fn ranked_heavier_first(s: Seq<Candidate>, max: nat, i: int, j: int)
    requires
        0 <= i < ranked(s, max).len(),
        0 <= j < ranked(s, max).len(),
        ranked(s, max)[i].weight > ranked(s, max)[j].weight,
    ensures
        i < j,
{
    lemma_sort_desc_sorted(dedupe(s));
}

} // verus!
