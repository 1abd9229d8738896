//! Syllable-validity table and segmentation of raw keystrokes into syllables.
use vstd::prelude::*;
use crate::text::{chars_of, range_eq, string_of_range};

verus! {

/// A span `[start, end)` of the raw keystrokes.
#[derive(Debug, Clone, Copy, PartialEq, Eq, Structural)]
pub struct Span {
    pub start: usize,
    pub end: usize,
}

/// The set of valid syllables.
#[derive(Debug, Clone)]
pub struct SyllableTable {
    syllables: Vec<Vec<char>>,
}

impl View for SyllableTable {
    type V = Seq<Seq<char>>;

    closed spec fn view(&self) -> Seq<Seq<char>> {
        self.syllables@.map_values(|s: Vec<char>| s@)
    }
}

/// `sp` splits `raw[from..]` into syllables of `table`: consecutive spans that
/// end at the end of `raw`, where a delimiter between syllables is skipped.
pub open spec fn covers(table: Seq<Seq<char>>, raw: Seq<char>, delim: Option<char>, sp: Seq<Span>, from: int) -> bool
    decreases sp.len(), raw.len() - from,
{
    if 0 <= from < raw.len() && delim == Some(raw[from]) {
        covers(table, raw, delim, sp, from + 1)
    } else if sp.len() == 0 {
        from == raw.len()
    } else {
        sp[0].start == from && from < sp[0].end <= raw.len() && table.contains(
            raw.subrange(from, sp[0].end as int),
        ) && covers(table, raw, delim, sp.drop_first(), sp[0].end as int)
    }
}

/// Every split in `l` covers `raw[from..]`.
pub open spec fn all_cover(table: Seq<Seq<char>>, raw: Seq<char>, delim: Option<char>, l: Seq<Vec<Span>>, from: int) -> bool {
    forall|k: int| 0 <= k < l.len() ==> covers(table, raw, delim, #[trigger] l[k]@, from)
}

/// Every split that covers `raw[from..]` is in `l`.
pub open spec fn has_every_cover(table: Seq<Seq<char>>, raw: Seq<char>, delim: Option<char>, l: Seq<Vec<Span>>, from: int) -> bool {
    forall|sp: Seq<Span>| #[trigger] covers(table, raw, delim, sp, from) ==> exists|k: int| 0 <= k < l.len() && l[k]@ == sp
}

fn copy_spans(v: &Vec<Span>) -> (r: Vec<Span>)
    ensures
        r@ == v@,
{
    let mut r: Vec<Span> = Vec::new();
    let mut i: usize = 0;
    while i < v.len()
        invariant
            i <= v.len(),
            r@ == v@.take(i as int),
        decreases v.len() - i,
    {
        r.push(v[i]);
        assert(v@.take(i + 1) =~= v@.take(i as int).push(v@[i as int]));
        i = i + 1;
    }
    assert(v@.take(v.len() as int) =~= v@);
    r
}

fn prepend_span(s: Span, v: &Vec<Span>) -> (r: Vec<Span>)
    ensures
        r@ == seq![s] + v@,
{
    let mut r: Vec<Span> = Vec::new();
    r.push(s);
    let mut i: usize = 0;
    while i < v.len()
        invariant
            i <= v.len(),
            r@ == seq![s] + v@.take(i as int),
        decreases v.len() - i,
    {
        r.push(v[i]);
        assert(v@.take(i + 1) =~= v@.take(i as int).push(v@[i as int]));
        i = i + 1;
    }
    assert(v@.take(v.len() as int) =~= v@);
    r
}

impl SyllableTable {
    /// An empty table.
    pub fn new() -> (r: Self)
        ensures
            r@.len() == 0,
    {
        SyllableTable { syllables: Vec::new() }
    }

    /// Adds a syllable; an empty one is ignored.
    pub fn add(&mut self, syllable: &str)
        ensures
            syllable@.len() > 0 ==> final(self)@ == old(self)@.push(syllable@),
            syllable@.len() == 0 ==> final(self)@ == old(self)@,
    {
        let v = chars_of(syllable);
        if v.len() > 0 {
            self.syllables.push(v);
            assert(self@ =~= old(self)@.push(syllable@));
        }
    }

    fn add_range(&mut self, chars: &Vec<char>, start: usize, end: usize)
        requires
            start <= end <= chars.len(),
            forall|k: int| start <= k < end ==> chars@[k] != ' ',
            forall|k: int| 0 <= k < old(self)@.len() ==> old(self)@[k].len() > 0 && !old(self)@[k].contains(' '),
        ensures
            forall|k: int| 0 <= k < final(self)@.len() ==> final(self)@[k].len() > 0 && !final(self)@[k].contains(' '),
    {
        let w = string_of_range(chars, start, end);
        proof {
            assert forall|k: int| 0 <= k < w@.len() implies w@[k] != ' ' by {
                assert(w@[k] == chars@[start + k]);
            }
        }
        self.add(w.as_str());
    }

    /// The table holding the space-separated words of `text`.
    pub fn from_words(text: &str) -> (r: Self)
        ensures
            forall|k: int| 0 <= k < r@.len() ==> r@[k].len() > 0 && !r@[k].contains(' '),
    {
        let chars = chars_of(text);
        let mut t = SyllableTable::new();
        let mut start: usize = 0;
        let mut i: usize = 0;
        while i < chars.len()
            invariant
                start <= i <= chars.len(),
                forall|k: int| start <= k < i ==> chars@[k] != ' ',
                forall|k: int| 0 <= k < t@.len() ==> t@[k].len() > 0 && !t@[k].contains(' '),
            decreases chars.len() - i,
        {
            if chars[i] == ' ' {
                t.add_range(&chars, start, i);
                start = i + 1;
            }
            i = i + 1;
        }
        t.add_range(&chars, start, i);
        t
    }

    /// Whether `raw[from..to]` is a syllable of the table.
    pub fn contains_range(&self, raw: &Vec<char>, from: usize, to: usize) -> (r: bool)
        requires
            from <= to <= raw.len(),
        ensures
            r == self@.contains(raw@.subrange(from as int, to as int)),
    {
        let mut i: usize = 0;
        while i < self.syllables.len()
            invariant
                from <= to <= raw.len(),
                i <= self.syllables.len(),
                forall|k: int| 0 <= k < i ==> self@[k] != raw@.subrange(from as int, to as int),
            decreases self.syllables.len() - i,
        {
            if range_eq(raw, from, to, &self.syllables[i]) {
                assert(self@[i as int] == raw@.subrange(from as int, to as int));
                return true;
            }
            i = i + 1;
        }
        false
    }

    /// Whether `s` is a syllable of the table.
    pub fn is_valid(&self, s: &str) -> (r: bool)
        ensures
            r == self@.contains(s@),
    {
        let v = chars_of(s);
        assert(v@.subrange(0, v@.len() as int) =~= v@);
        self.contains_range(&v, 0, v.len())
    }

    /// Every split of `raw` into syllables of the table, delimiters skipped.
    /// Where a delimiter is given, a syllable never spans one that the table's
    /// syllables do not hold.
    pub fn segment(&self, raw: &Vec<char>, delim: Option<char>) -> (r: Vec<Vec<Span>>)
        ensures
            all_cover(self@, raw@, delim, r@, 0),
            has_every_cover(self@, raw@, delim, r@, 0),
    {
        let n = raw.len();
        let ghost t = self@;
        let ghost w = raw@;
        let mut lists: Vec<Vec<Vec<Span>>> = Vec::new();
        lists.push(Vec::new());
        let mut z: usize = 0;
        while z < n
            invariant
                z <= n,
                lists.len() == z + 1,
            decreases n - z,
        {
            lists.push(Vec::new());
            z = z + 1;
        }
        let mut last: Vec<Vec<Span>> = Vec::new();
        last.push(Vec::new());
        proof {
            assert forall|sp: Seq<Span>| #[trigger] covers(t, w, delim, sp, n as int) implies exists|k: int|
                0 <= k < last@.len() && last@[k]@ == sp by {
                if sp.len() > 0 {
                    assert(false);
                }
                assert(last@[0]@ =~= sp);
            }
            assert(covers(t, w, delim, last@[0]@, n as int));
        }
        lists.set(n, last);
        let mut i: usize = n;
        while i > 0
            invariant
                i <= n,
                n == raw.len(),
                t == self@,
                w == raw@,
                lists.len() == n + 1,
                forall|j: int| i <= j <= n ==> all_cover(t, w, delim, #[trigger] lists@[j]@, j),
                forall|j: int| i <= j <= n ==> has_every_cover(t, w, delim, #[trigger] lists@[j]@, j),
            decreases i,
        {
            i = i - 1;
            let mut cur: Vec<Vec<Span>> = Vec::new();
            if delim == Some(raw[i]) {
                let next = &lists[i + 1];
                let mut k: usize = 0;
                while k < next.len()
                    invariant
                        k <= next.len(),
                        next@ == lists@[i + 1]@,
                        cur@.len() == k,
                        forall|m: int| 0 <= m < k ==> cur@[m]@ == next@[m]@,
                    decreases next.len() - k,
                {
                    cur.push(copy_spans(&next[k]));
                    k = k + 1;
                }
                proof {
                    assert(all_cover(t, w, delim, lists@[i + 1]@, i + 1));
                    assert(has_every_cover(t, w, delim, lists@[i + 1]@, i + 1));
                    assert forall|m: int| 0 <= m < cur@.len() implies covers(t, w, delim, #[trigger] cur@[m]@, i as int) by {
                        assert(covers(t, w, delim, next@[m]@, i + 1));
                    }
                    assert forall|sp: Seq<Span>| #[trigger] covers(t, w, delim, sp, i as int) implies exists|m: int|
                        0 <= m < cur@.len() && cur@[m]@ == sp by {
                        assert(covers(t, w, delim, sp, i + 1));
                        let m = choose|m: int| 0 <= m < next@.len() && next@[m]@ == sp;
                        assert(cur@[m]@ == sp);
                    }
                }
            } else {
                let mut e: usize = i + 1;
                while e <= n
                    invariant
                        i < e <= n + 1,
                        n == raw.len(),
                        t == self@,
                        w == raw@,
                        delim != Some(w[i as int]),
                        lists.len() == n + 1,
                        forall|j: int| i < j <= n ==> all_cover(t, w, delim, #[trigger] lists@[j]@, j),
                        forall|j: int| i < j <= n ==> has_every_cover(t, w, delim, #[trigger] lists@[j]@, j),
                        all_cover(t, w, delim, cur@, i as int),
                        forall|sp: Seq<Span>| #[trigger] covers(t, w, delim, sp, i as int) && sp[0].end < e ==> exists|m: int|
                            0 <= m < cur@.len() && cur@[m]@ == sp,
                    decreases n + 1 - e,
                {
                    if self.contains_range(raw, i, e) {
                        let tails = &lists[e];
                        let s = Span { start: i, end: e };
                        let ghost before = cur@;
                        let mut k: usize = 0;
                        while k < tails.len()
                            invariant
                                k <= tails.len(),
                                i < e <= n,
                                n == raw.len(),
                                t == self@,
                                w == raw@,
                                delim != Some(w[i as int]),
                                s == (Span { start: i, end: e }),
                                t.contains(w.subrange(i as int, e as int)),
                                tails@ == lists@[e as int]@,
                                all_cover(t, w, delim, tails@, e as int),
                                cur@.len() == before.len() + k,
                                forall|m: int| 0 <= m < before.len() ==> cur@[m] == before[m],
                                forall|m: int| 0 <= m < k ==> #[trigger] cur@[before.len() + m]@ == seq![s] + tails@[m]@,
                                all_cover(t, w, delim, cur@, i as int),
                            decreases tails.len() - k,
                        {
                            let nsp = prepend_span(s, &tails[k]);
                            proof {
                                assert(covers(t, w, delim, tails@[k as int]@, e as int));
                                assert(nsp@.drop_first() =~= tails@[k as int]@);
                            }
                            cur.push(nsp);
                            k = k + 1;
                        }
                        proof {
                            assert(has_every_cover(t, w, delim, lists@[e as int]@, e as int));
                            assert forall|sp: Seq<Span>| #[trigger] covers(t, w, delim, sp, i as int) && sp[0].end < e + 1 implies exists|m: int|
                                0 <= m < cur@.len() && cur@[m]@ == sp by {
                                if sp[0].end < e {
                                    let m = choose|m: int| 0 <= m < before.len() && before[m]@ == sp;
                                    assert(cur@[m]@ == sp);
                                } else {
                                    assert(covers(t, w, delim, sp.drop_first(), e as int));
                                    let m = choose|m: int| 0 <= m < tails@.len() && tails@[m]@ == sp.drop_first();
                                    assert(cur@[before.len() + m]@ == seq![s] + tails@[m]@);
                                    assert(seq![s] + sp.drop_first() =~= sp);
                                }
                            }
                        }
                    } else {
                        proof {
                            assert forall|sp: Seq<Span>| #[trigger] covers(t, w, delim, sp, i as int) && sp[0].end < e + 1 implies exists|m: int|
                                0 <= m < cur@.len() && cur@[m]@ == sp by {
                                if sp[0].end == e {
                                    assert(!t.contains(w.subrange(i as int, e as int)));
                                }
                            }
                        }
                    }
                    e = e + 1;
                }
                proof {
                    assert forall|sp: Seq<Span>| #[trigger] covers(t, w, delim, sp, i as int) implies exists|m: int|
                        0 <= m < cur@.len() && cur@[m]@ == sp by {
                        assert(sp.len() > 0);
                        assert(sp[0].end < e);
                    }
                }
            }
            lists.set(i, cur);
        }
        let r = lists.remove(0);
        r
    }
}

/// The syllables that a split picks out of `raw`.
pub fn syllables_of(raw: &Vec<char>, split: &Vec<Span>) -> (r: Vec<String>)
    requires
        forall|k: int| 0 <= k < split@.len() ==> #[trigger] split@[k].start <= split@[k].end <= raw@.len(),
    ensures
        r@.len() == split@.len(),
        forall|k: int| 0 <= k < split@.len() ==> r@[k]@ == raw@.subrange(split@[k].start as int, split@[k].end as int),
{
    let mut r: Vec<String> = Vec::new();
    let mut i: usize = 0;
    while i < split.len()
        invariant
            i <= split.len(),
            r@.len() == i,
            forall|k: int| 0 <= k < split@.len() ==> #[trigger] split@[k].start <= split@[k].end <= raw@.len(),
            forall|k: int| 0 <= k < i ==> r@[k]@ == raw@.subrange(split@[k].start as int, split@[k].end as int),
        decreases split.len() - i,
    {
        r.push(string_of_range(raw, split[i].start, split[i].end));
        i = i + 1;
    }
    r
}

} // verus!
