//! Dictionary lookup of syllable sequences, exact, by prefix and fuzzy.
use vstd::prelude::*;
use vstd::string::*;
use crate::candidate::{Candidate, Candidates};
use crate::ranker::{ranked, ranked_heavier_first};
use crate::text::{chars_of, chars_eq, chars_range, concat_chars, range_eq};

verus! {

/// One word of a dictionary: its syllables, its text and its weight.
#[derive(Debug, Clone)]
pub struct DictEntry {
    pub syllables: Vec<Vec<char>>,
    pub text: String,
    pub weight: u32,
}

/// The syllables of an entry, as sequences.
pub open spec fn key_of(e: DictEntry) -> Seq<Seq<char>> {
    e.syllables@.map_values(|s: Vec<char>| s@)
}

/// An in-memory dictionary source.
#[derive(Debug, Clone)]
pub struct PinyinDict {
    /// Name of the source, recorded on its candidates.
    pub name: String,
    /// Entries in insertion order.
    pub entries: Vec<DictEntry>,
}

/// Lookup mode.
#[derive(Debug, Clone, Copy, PartialEq, Eq, Structural)]
pub enum MatchMode {
    /// The word's syllables equal the query.
    Exact,
    /// The query's syllables begin the word's, the last one possibly cut short.
    Prefix,
}

/// Fuzzy equivalence: initials that may stand for each other, and the divisor
/// that lowers the weight of a word found only through them.
#[derive(Debug, Clone)]
pub struct PinyinMatcher {
    /// Pairs `(from, to)`: a syllable starting with `from` also matches the
    /// same syllable starting with `to`.
    pub rules: Vec<(Vec<char>, Vec<char>)>,
    /// Divisor of a fuzzy match's weight, at least 2.
    pub penalty: u32,
}

/// `e` is `q` with the initial of some rule replaced.
pub open spec fn fuzzy_variant(rules: Seq<(Vec<char>, Vec<char>)>, q: Seq<char>, e: Seq<char>) -> bool {
    exists|k: int| 0 <= k < rules.len() && #[trigger] rules[k].0@.len() <= q.len() && q.subrange(0, rules[k].0@.len() as int) == rules[k].0@
        && e == rules[k].1@ + q.subrange(rules[k].0@.len() as int, q.len() as int)
}

/// Every syllable of `key` equals the query's or is a fuzzy variant of it.
pub open spec fn fuzzy_match(rules: Seq<(Vec<char>, Vec<char>)>, query: Seq<Seq<char>>, key: Seq<Seq<char>>) -> bool {
    query.len() == key.len() && forall|i: int| 0 <= i < query.len() ==> (#[trigger] query[i] == key[i] || fuzzy_variant(rules, query[i], key[i]))
}

/// The query's syllables begin `key`; its last syllable begins the matching one.
pub open spec fn prefix_match(query: Seq<Seq<char>>, key: Seq<Seq<char>>) -> bool {
    &&& 0 < query.len() <= key.len()
    &&& forall|i: int| 0 <= i < query.len() - 1 ==> #[trigger] query[i] == key[i]
    &&& query.last().len() <= key[query.len() - 1].len()
    &&& key[query.len() - 1].subrange(0, query.last().len() as int) == query.last()
}

/// Indices below `n` that satisfy `p`, in ascending order.
pub open spec fn hits(n: nat, p: spec_fn(int) -> bool) -> Seq<int>
    decreases n,
{
    if n == 0 {
        Seq::empty()
    } else if p(n - 1) {
        hits((n - 1) as nat, p).push(n - 1)
    } else {
        hits((n - 1) as nat, p)
    }
}

/// Entries whose key equals the query.
pub open spec fn exact_hits(entries: Seq<DictEntry>, query: Seq<Seq<char>>) -> Seq<int> {
    hits(entries.len(), |i: int| query.len() > 0 && key_of(entries[i]) == query)
}

/// Entries matched only through fuzzy equivalence.
pub open spec fn fuzzy_hits(rules: Seq<(Vec<char>, Vec<char>)>, entries: Seq<DictEntry>, query: Seq<Seq<char>>) -> Seq<int> {
    hits(entries.len(), |i: int| key_of(entries[i]) != query && fuzzy_match(rules, query, key_of(entries[i])))
}

/// Entries whose key the query begins.
pub open spec fn prefix_hits(entries: Seq<DictEntry>, query: Seq<Seq<char>>) -> Seq<int> {
    hits(entries.len(), |i: int| prefix_match(query, key_of(entries[i])))
}

/// The source name recorded on a candidate found through fuzzy equivalence.
pub open spec fn fuzzy_source(name: Seq<char>) -> Seq<char> {
    name + "~fuzzy"@
}

/// `c` is the candidate of entry `e` from the source `name`, with weight `w`.
pub open spec fn candidate_of(c: Candidate, e: DictEntry, source: Seq<char>, w: u32) -> bool {
    c.text == e.text && c.weight == w && c.comment is None && c.source is Some && c.source->0@ == source
}

fn keys_equal(query: &Vec<Vec<char>>, key: &Vec<Vec<char>>) -> (r: bool)
    ensures
        r == (query@.map_values(|s: Vec<char>| s@) == key@.map_values(|s: Vec<char>| s@)),
{
    let ghost q = query@.map_values(|s: Vec<char>| s@);
    let ghost k = key@.map_values(|s: Vec<char>| s@);
    if query.len() != key.len() {
        assert(q.len() != k.len());
        return false;
    }
    let mut i: usize = 0;
    while i < query.len()
        invariant
            query.len() == key.len(),
            i <= query.len(),
            q == query@.map_values(|s: Vec<char>| s@),
            k == key@.map_values(|s: Vec<char>| s@),
            forall|j: int| 0 <= j < i ==> q[j] == k[j],
        decreases query.len() - i,
    {
        if !chars_eq(&query[i], &key[i]) {
            assert(q[i as int] != k[i as int]);
            return false;
        }
        i = i + 1;
    }
    assert(q =~= k);
    true
}

impl PinyinMatcher {
    /// A matcher without fuzzy rules and with divisor 2.
    pub fn new() -> (r: Self)
        ensures
            r.rules@.len() == 0,
            r.penalty == 2,
    {
        PinyinMatcher { rules: Vec::new(), penalty: 2 }
    }

    /// Adds a fuzzy rule in both directions: `from` may stand for `to` and back.
    pub fn add_equivalence(&mut self, from: &str, to: &str)
        ensures
            final(self).rules@.len() == old(self).rules@.len() + 2,
            final(self).rules@[old(self).rules@.len() as int].0@ == from@,
            final(self).rules@[old(self).rules@.len() as int].1@ == to@,
            final(self).rules@[old(self).rules@.len() as int + 1].0@ == to@,
            final(self).rules@[old(self).rules@.len() as int + 1].1@ == from@,
            final(self).rules@.take(old(self).rules@.len() as int) == old(self).rules@,
            final(self).penalty == old(self).penalty,
    {
        self.rules.push((chars_of(from), chars_of(to)));
        self.rules.push((chars_of(to), chars_of(from)));
    }

    /// Whether `e` is `q` with the initial of some rule replaced.
    pub fn is_fuzzy_variant(&self, q: &Vec<char>, e: &Vec<char>) -> (r: bool)
        ensures
            r == fuzzy_variant(self.rules@, q@, e@),
    {
        let mut k: usize = 0;
        while k < self.rules.len()
            invariant
                k <= self.rules.len(),
                forall|j: int| 0 <= j < k ==> !(#[trigger] self.rules@[j].0@.len() <= q@.len() && q@.subrange(0, self.rules@[j].0@.len() as int) == self.rules@[j].0@
                    && e@ == self.rules@[j].1@ + q@.subrange(self.rules@[j].0@.len() as int, q@.len() as int)),
            decreases self.rules.len() - k,
        {
            let from = &self.rules[k].0;
            let to = &self.rules[k].1;
            if from.len() <= q.len() && range_eq(q, 0, from.len(), from) {
                let rest = chars_range(q, from.len(), q.len());
                let cand = concat_chars(to, &rest);
                if chars_eq(&cand, e) {
                    return true;
                }
            }
            k = k + 1;
        }
        false
    }

    /// Whether every syllable of `key` equals the query's or is a fuzzy variant of it.
    pub fn is_fuzzy_match(&self, query: &Vec<Vec<char>>, key: &Vec<Vec<char>>) -> (r: bool)
        ensures
            r == fuzzy_match(self.rules@, query@.map_values(|s: Vec<char>| s@), key@.map_values(|s: Vec<char>| s@)),
    {
        let ghost q = query@.map_values(|s: Vec<char>| s@);
        let ghost k = key@.map_values(|s: Vec<char>| s@);
        if query.len() != key.len() {
            return false;
        }
        let mut i: usize = 0;
        while i < query.len()
            invariant
                query.len() == key.len(),
                i <= query.len(),
                q == query@.map_values(|s: Vec<char>| s@),
                k == key@.map_values(|s: Vec<char>| s@),
                forall|j: int| 0 <= j < i ==> (#[trigger] q[j] == k[j] || fuzzy_variant(self.rules@, q[j], k[j])),
            decreases query.len() - i,
        {
            if !chars_eq(&query[i], &key[i]) && !self.is_fuzzy_variant(&query[i], &key[i]) {
                assert(!(q[i as int] == k[i as int] || fuzzy_variant(self.rules@, q[i as int], k[i as int])));
                return false;
            }
            i = i + 1;
        }
        true
    }
}

fn is_prefix_match(query: &Vec<Vec<char>>, key: &Vec<Vec<char>>) -> (r: bool)
    ensures
        r == prefix_match(query@.map_values(|s: Vec<char>| s@), key@.map_values(|s: Vec<char>| s@)),
{
    let ghost q = query@.map_values(|s: Vec<char>| s@);
    let ghost k = key@.map_values(|s: Vec<char>| s@);
    if query.len() == 0 || query.len() > key.len() {
        return false;
    }
    let n = query.len() - 1;
    let mut i: usize = 0;
    while i < n
        invariant
            n == query.len() - 1,
            query.len() <= key.len(),
            i <= n,
            q == query@.map_values(|s: Vec<char>| s@),
            k == key@.map_values(|s: Vec<char>| s@),
            forall|j: int| 0 <= j < i ==> #[trigger] q[j] == k[j],
        decreases n - i,
    {
        if !chars_eq(&query[i], &key[i]) {
            assert(q[i as int] != k[i as int]);
            return false;
        }
        i = i + 1;
    }
    let last = &query[n];
    let target = &key[n];
    if last.len() > target.len() {
        return false;
    }
    range_eq(target, 0, last.len(), last)
}

/// `r` is the exact-mode result of looking `q` up in `d`: the words whose
/// syllables equal the non-empty query, in insertion order, then those matched
/// only through fuzzy rules, weight divided by the penalty, source marked fuzzy.
pub open spec fn exact_lookup(d: PinyinDict, m: PinyinMatcher, q: Seq<Seq<char>>, r: Seq<Candidate>) -> bool {
    let es = d.entries@;
    let ex = exact_hits(es, q);
    let fz = fuzzy_hits(m.rules@, es, q);
    &&& r.len() == ex.len() + fz.len()
    &&& forall|k: int| 0 <= k < ex.len() ==> candidate_of(#[trigger] r[k], es[ex[k]], d.name@, es[ex[k]].weight)
    &&& forall|k: int| 0 <= k < fz.len() ==> candidate_of(#[trigger] r[ex.len() + k], es[fz[k]], fuzzy_source(d.name@),
        (es[fz[k]].weight / m.penalty) as u32)
}

impl PinyinDict {
    /// An empty dictionary with an empty name.
    pub fn new() -> (r: Self)
        ensures
            r.name@.len() == 0,
            r.entries@.len() == 0,
    {
        PinyinDict { name: String::new(), entries: Vec::new() }
    }

    /// An empty dictionary with the given name.
    pub fn named(name: &str) -> (r: Self)
        ensures
            r.name@ == name@,
            r.entries@.len() == 0,
    {
        PinyinDict { name: String::from_str(name), entries: Vec::new() }
    }

    /// Adds a word with its syllables and weight.
    pub fn add(&mut self, syllables: &Vec<String>, text: &str, weight: u32)
        ensures
            final(self).entries@.len() == old(self).entries@.len() + 1,
            final(self).entries@.drop_last() == old(self).entries@,
            key_of(final(self).entries@.last()) == syllables@.map_values(|s: String| s@),
            final(self).entries@.last().text@ == text@,
            final(self).entries@.last().weight == weight,
            final(self).name == old(self).name,
    {
        let mut key: Vec<Vec<char>> = Vec::new();
        let mut i: usize = 0;
        while i < syllables.len()
            invariant
                i <= syllables.len(),
                key@.len() == i,
                forall|j: int| 0 <= j < i ==> #[trigger] key@[j]@ == syllables@[j]@,
            decreases syllables.len() - i,
        {
            key.push(chars_of(syllables[i].as_str()));
            i = i + 1;
        }
        assert(key@.map_values(|s: Vec<char>| s@) =~= syllables@.map_values(|s: String| s@));
        self.entries.push(DictEntry { syllables: key, text: String::from_str(text), weight });
    }

    /// Candidates for the query. Exact mode: the words whose syllables equal the
    /// query, in insertion order, then those that match only through the
    /// matcher's fuzzy rules, with weight divided by its penalty and source
    /// marked fuzzy. Prefix mode: the words that the query begins. An empty
    /// query finds nothing.
    pub fn lookup(&self, matcher: &PinyinMatcher, query: &Vec<Vec<char>>, mode: MatchMode) -> (r: Candidates)
        requires
            matcher.penalty >= 2,
        ensures
            mode == MatchMode::Exact ==> exact_lookup(*self, *matcher, query@.map_values(|s: Vec<char>| s@), r@),
            mode == MatchMode::Prefix ==> ({
                let q = query@.map_values(|s: Vec<char>| s@);
                let es = self.entries@;
                {
                    let px = prefix_hits(es, q);
                    &&& r@.len() == px.len()
                    &&& forall|k: int| 0 <= k < px.len() ==> candidate_of(#[trigger] r@[k], es[px[k]], self.name@, es[px[k]].weight)
                }
            }),
    {
        let ghost q = query@.map_values(|s: Vec<char>| s@);
        let ghost es = self.entries@;
        let ghost pe = |i: int| q.len() > 0 && key_of(es[i]) == q;
        let ghost pf = |i: int| key_of(es[i]) != q && fuzzy_match(matcher.rules@, q, key_of(es[i]));
        let ghost pp = |i: int| prefix_match(q, key_of(es[i]));
        let mut out = Candidates::new();
        let mut i: usize = 0;
        while i < self.entries.len()
            invariant
                i <= self.entries.len(),
                es == self.entries@,
                q == query@.map_values(|s: Vec<char>| s@),
                pe == (|i: int| q.len() > 0 && key_of(es[i]) == q),
                pp == (|i: int| prefix_match(q, key_of(es[i]))),
                mode == MatchMode::Exact ==> out@.len() == hits(i as nat, pe).len(),
                mode == MatchMode::Exact ==> forall|k: int| 0 <= k < hits(i as nat, pe).len() ==> candidate_of(#[trigger] out@[k], es[hits(i as nat, pe)[k]], self.name@, es[hits(i as nat, pe)[k]].weight),
                mode == MatchMode::Prefix ==> out@.len() == hits(i as nat, pp).len(),
                mode == MatchMode::Prefix ==> forall|k: int| 0 <= k < hits(i as nat, pp).len() ==> candidate_of(#[trigger] out@[k], es[hits(i as nat, pp)[k]], self.name@, es[hits(i as nat, pp)[k]].weight),
            decreases self.entries.len() - i,
        {
            let e = &self.entries[i];
            let hit = match mode {
                MatchMode::Exact => query.len() > 0 && keys_equal(query, &e.syllables),
                MatchMode::Prefix => is_prefix_match(query, &e.syllables),
            };
            if hit {
                out.add(Candidate { text: e.text.clone(), comment: None, weight: e.weight, source: Some(self.name.clone()) });
            }
            i = i + 1;
        }
        if mode == MatchMode::Exact {
            let ghost n_exact = out@.len();
            let mut j: usize = 0;
            while j < self.entries.len()
                invariant
                    j <= self.entries.len(),
                    es == self.entries@,
                    q == query@.map_values(|s: Vec<char>| s@),
                    matcher.penalty >= 2,
                    pe == (|i: int| q.len() > 0 && key_of(es[i]) == q),
                    pf == (|i: int| key_of(es[i]) != q && fuzzy_match(matcher.rules@, q, key_of(es[i]))),
                    n_exact == hits(es.len(), pe).len(),
                    out@.len() == n_exact + hits(j as nat, pf).len(),
                    forall|k: int| 0 <= k < hits(es.len(), pe).len() ==> candidate_of(#[trigger] out@[k], es[hits(es.len(), pe)[k]], self.name@, es[hits(es.len(), pe)[k]].weight),
                    forall|k: int| 0 <= k < hits(j as nat, pf).len() ==> candidate_of(#[trigger] out@[n_exact + k], es[hits(j as nat, pf)[k]], fuzzy_source(self.name@),
                        (es[hits(j as nat, pf)[k]].weight / matcher.penalty) as u32),
                decreases self.entries.len() - j,
            {
                let e = &self.entries[j];
                if !keys_equal(query, &e.syllables) && matcher.is_fuzzy_match(query, &e.syllables) {
                    let source = self.name.clone().concat("~fuzzy");
                    out.add(Candidate { text: e.text.clone(), comment: None, weight: e.weight / matcher.penalty, source: Some(source) });
                }
                j = j + 1;
            }
        }
        out
    }
}

/// A fuzzy match of positive weight weighs strictly less than the exact match
/// of the same source weight, so a ranking puts the exact match ahead.
pub proof fn fuzzy_weight_is_lower(w: u32, penalty: u32)
    requires
        w > 0,
        penalty >= 2,
    ensures
        ((w / penalty) as u32) < w,
{
    assert(w / penalty < w) by (nonlinear_arith)
        requires
            w > 0,
            penalty >= 2,
    ;
}

/// In a ranked list, an exact match of positive weight stands strictly ahead of
/// a fuzzy match found with the same source weight.
pub proof fn exact_ranks_ahead_of_fuzzy(s: Seq<Candidate>, max: nat, penalty: u32, i: int, j: int)
    requires
        penalty >= 2,
        0 <= i < ranked(s, max).len(),
        0 <= j < ranked(s, max).len(),
        ranked(s, max)[i].weight > 0,
        ranked(s, max)[j].weight == (ranked(s, max)[i].weight / penalty) as u32,
    ensures
        i < j,
{
    fuzzy_weight_is_lower(ranked(s, max)[i].weight, penalty);
    ranked_heavier_first(s, max, i, j);
}

} // verus!
