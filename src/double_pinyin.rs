//! Double-pinyin decoding: two keys expand to full-pinyin syllables.
use vstd::prelude::*;
use crate::error::LingCodeError;
use crate::syllable::SyllableTable;
use vstd::string::*;
use crate::text::{chars_of, concat_chars, string_of};
use crate::types::DoublePinyinScheme;

verus! {

/// Key tables of a double-pinyin layout: which initials a first key and which
/// finals a second key stand for, and the two-key codes of syllables without
/// an initial consonant.
#[derive(Debug, Clone)]
pub struct DoublePinyinTable {
    /// First key and an initial it stands for.
    pub initials: Vec<(char, Vec<char>)>,
    /// Second key and a final it stands for.
    pub finals: Vec<(char, Vec<char>)>,
    /// Two keys and the initial-less syllable they stand for.
    pub zero_initials: Vec<(char, char, Vec<char>)>,
}

/// `x` is the initial of entry `a` followed by the final of entry `b`, for the keys `k1`, `k2`.
pub open spec fn joins(t: DoublePinyinTable, k1: char, k2: char, a: int, b: int, x: Seq<char>) -> bool {
    0 <= a < t.initials@.len() && 0 <= b < t.finals@.len() && t.initials@[a].0 == k1
        && t.finals@[b].0 == k2 && x == t.initials@[a].1@ + t.finals@[b].1@
}

/// `x` is the initial-less syllable of entry `c`, for the keys `k1`, `k2`.
pub open spec fn zero_initial(t: DoublePinyinTable, k1: char, k2: char, c: int, x: Seq<char>) -> bool {
    0 <= c < t.zero_initials@.len() && t.zero_initials@[c].0 == k1 && t.zero_initials@[c].1 == k2
        && x == t.zero_initials@[c].2@
}

/// `x` is a valid syllable that the keys `k1`, `k2` stand for.
pub open spec fn expands_to(t: DoublePinyinTable, syllables: Seq<Seq<char>>, k1: char, k2: char, x: Seq<char>) -> bool {
    syllables.contains(x) && ((exists|a: int, b: int| joins(t, k1, k2, a, b, x)) || (exists|c: int|
        zero_initial(t, k1, k2, c, x)))
}

/// Whether `v` holds a sequence equal to `x`.
pub open spec fn holds(v: Seq<Vec<char>>, x: Seq<char>) -> bool {
    exists|k: int| 0 <= k < v.len() && v[k]@ == x
}

impl DoublePinyinTable {
    /// A table with no entries.
    pub fn new() -> (r: Self)
        ensures
            r.initials@.len() == 0,
            r.finals@.len() == 0,
            r.zero_initials@.len() == 0,
    {
        DoublePinyinTable { initials: Vec::new(), finals: Vec::new(), zero_initials: Vec::new() }
    }

    /// Adds a first key and an initial it stands for.
    pub fn add_initial(&mut self, key: char, initial: &str)
        ensures
            final(self).initials@.len() == old(self).initials@.len() + 1,
            final(self).initials@.last().0 == key,
            final(self).initials@.last().1@ == initial@,
            final(self).initials@.drop_last() == old(self).initials@,
            final(self).finals == old(self).finals,
            final(self).zero_initials == old(self).zero_initials,
    {
        self.initials.push((key, chars_of(initial)));
    }

    /// Adds a second key and a final it stands for.
    pub fn add_final(&mut self, key: char, fin: &str)
        ensures
            final(self).finals@.len() == old(self).finals@.len() + 1,
            final(self).finals@.last().0 == key,
            final(self).finals@.last().1@ == fin@,
            final(self).finals@.drop_last() == old(self).finals@,
            final(self).initials == old(self).initials,
            final(self).zero_initials == old(self).zero_initials,
    {
        self.finals.push((key, chars_of(fin)));
    }

    /// Adds the two keys of a syllable without an initial consonant.
    pub fn add_zero_initial(&mut self, k1: char, k2: char, syllable: &str)
        ensures
            final(self).zero_initials@.len() == old(self).zero_initials@.len() + 1,
            final(self).zero_initials@.last().0 == k1,
            final(self).zero_initials@.last().1 == k2,
            final(self).zero_initials@.last().2@ == syllable@,
            final(self).zero_initials@.drop_last() == old(self).zero_initials@,
            final(self).initials == old(self).initials,
            final(self).finals == old(self).finals,
    {
        self.zero_initials.push((k1, k2, chars_of(syllable)));
    }

    /// The consonant initials shared by the built-in layouts: each letter stands
    /// for itself; `v`, `i`, `u` stand for `zh`, `ch`, `sh`.
    fn with_initials() -> (r: Self)
        ensures
            r.initials@.len() == 23,
    {
        let mut t = DoublePinyinTable::new();
        t.add_initial('b', "b");
        t.add_initial('p', "p");
        t.add_initial('m', "m");
        t.add_initial('f', "f");
        t.add_initial('d', "d");
        t.add_initial('t', "t");
        t.add_initial('n', "n");
        t.add_initial('l', "l");
        t.add_initial('g', "g");
        t.add_initial('k', "k");
        t.add_initial('h', "h");
        t.add_initial('j', "j");
        t.add_initial('q', "q");
        t.add_initial('x', "x");
        t.add_initial('r', "r");
        t.add_initial('z', "z");
        t.add_initial('c', "c");
        t.add_initial('s', "s");
        t.add_initial('y', "y");
        t.add_initial('w', "w");
        t.add_initial('v', "zh");
        t.add_initial('i', "ch");
        t.add_initial('u', "sh");
        t
    }

    /// The Xiaohe layout.
    pub fn xiaohe() -> (r: Self)
        ensures
            r.initials@.len() == 23,
    {
        let mut t = DoublePinyinTable::with_initials();
        t.add_final('q', "iu");
        t.add_final('w', "ei");
        t.add_final('e', "e");
        t.add_final('r', "uan");
        t.add_final('t', "ue");
        t.add_final('t', "ve");
        t.add_final('y', "un");
        t.add_final('u', "u");
        t.add_final('i', "i");
        t.add_final('o', "uo");
        t.add_final('o', "o");
        t.add_final('p', "ie");
        t.add_final('a', "a");
        t.add_final('s', "iong");
        t.add_final('s', "ong");
        t.add_final('d', "ai");
        t.add_final('f', "en");
        t.add_final('g', "eng");
        t.add_final('h', "ang");
        t.add_final('j', "an");
        t.add_final('k', "uai");
        t.add_final('k', "ing");
        t.add_final('l', "iang");
        t.add_final('l', "uang");
        t.add_final('z', "ou");
        t.add_final('x', "ia");
        t.add_final('x', "ua");
        t.add_final('c', "ao");
        t.add_final('v', "ui");
        t.add_final('v', "v");
        t.add_final('b', "in");
        t.add_final('n', "iao");
        t.add_final('m', "ian");
        t.add_zero_initial('a', 'a', "a");
        t.add_zero_initial('a', 'i', "ai");
        t.add_zero_initial('a', 'n', "an");
        t.add_zero_initial('a', 'h', "ang");
        t.add_zero_initial('a', 'o', "ao");
        t.add_zero_initial('e', 'e', "e");
        t.add_zero_initial('e', 'i', "ei");
        t.add_zero_initial('e', 'n', "en");
        t.add_zero_initial('e', 'g', "eng");
        t.add_zero_initial('e', 'r', "er");
        t.add_zero_initial('o', 'o', "o");
        t.add_zero_initial('o', 'u', "ou");
        t
    }

    /// The Ziran layout.
    pub fn ziran() -> (r: Self)
        ensures
            r.initials@.len() == 23,
    {
        let mut t = DoublePinyinTable::with_initials();
        t.add_final('q', "iu");
        t.add_final('w', "ia");
        t.add_final('w', "ua");
        t.add_final('e', "e");
        t.add_final('r', "uan");
        t.add_final('t', "ue");
        t.add_final('t', "ve");
        t.add_final('y', "ing");
        t.add_final('y', "uai");
        t.add_final('u', "u");
        t.add_final('i', "i");
        t.add_final('o', "uo");
        t.add_final('o', "o");
        t.add_final('p', "un");
        t.add_final('a', "a");
        t.add_final('s', "iong");
        t.add_final('s', "ong");
        t.add_final('d', "iang");
        t.add_final('d', "uang");
        t.add_final('f', "en");
        t.add_final('g', "eng");
        t.add_final('h', "ang");
        t.add_final('j', "an");
        t.add_final('k', "ao");
        t.add_final('l', "ai");
        t.add_final('z', "ei");
        t.add_final('x', "ie");
        t.add_final('c', "iao");
        t.add_final('v', "ui");
        t.add_final('v', "v");
        t.add_final('b', "ou");
        t.add_final('n', "in");
        t.add_final('m', "ian");
        t.add_zero_initial('a', 'a', "a");
        t.add_zero_initial('a', 'i', "ai");
        t.add_zero_initial('a', 'n', "an");
        t.add_zero_initial('a', 'h', "ang");
        t.add_zero_initial('a', 'o', "ao");
        t.add_zero_initial('e', 'e', "e");
        t.add_zero_initial('e', 'i', "ei");
        t.add_zero_initial('e', 'n', "en");
        t.add_zero_initial('e', 'g', "eng");
        t.add_zero_initial('e', 'r', "er");
        t.add_zero_initial('o', 'o', "o");
        t.add_zero_initial('o', 'u', "ou");
        t
    }

    /// The Sogou layout; `;` stands for `ing`, initial-less syllables start with `o`.
    pub fn sogou() -> (r: Self)
        ensures
            r.initials@.len() == 23,
    {
        let mut t = DoublePinyinTable::with_initials();
        t.add_final('q', "iu");
        t.add_final('w', "ia");
        t.add_final('w', "ua");
        t.add_final('e', "e");
        t.add_final('r', "uan");
        t.add_final('t', "ue");
        t.add_final('t', "ve");
        t.add_final('y', "uai");
        t.add_final('y', "v");
        t.add_final('u', "u");
        t.add_final('i', "i");
        t.add_final('o', "uo");
        t.add_final('o', "o");
        t.add_final('p', "un");
        t.add_final('a', "a");
        t.add_final('s', "iong");
        t.add_final('s', "ong");
        t.add_final('d', "iang");
        t.add_final('d', "uang");
        t.add_final('f', "en");
        t.add_final('g', "eng");
        t.add_final('h', "ang");
        t.add_final('j', "an");
        t.add_final('k', "ao");
        t.add_final('l', "ai");
        t.add_final(';', "ing");
        t.add_final('z', "ei");
        t.add_final('x', "ie");
        t.add_final('c', "iao");
        t.add_final('v', "ui");
        t.add_final('b', "ou");
        t.add_final('n', "in");
        t.add_final('m', "ian");
        t.add_zero_initial('o', 'a', "a");
        t.add_zero_initial('o', 'l', "ai");
        t.add_zero_initial('o', 'j', "an");
        t.add_zero_initial('o', 'h', "ang");
        t.add_zero_initial('o', 'k', "ao");
        t.add_zero_initial('o', 'e', "e");
        t.add_zero_initial('o', 'z', "ei");
        t.add_zero_initial('o', 'f', "en");
        t.add_zero_initial('o', 'g', "eng");
        t.add_zero_initial('o', 'r', "er");
        t.add_zero_initial('o', 'o', "o");
        t.add_zero_initial('o', 'b', "ou");
        t
    }

    /// Every full-pinyin syllable of `syllables` that the keys `k1`, `k2` stand
    /// for, in no particular order; `InputError` where they stand for none.
    pub fn decode(&self, syllables: &SyllableTable, k1: char, k2: char) -> (r: Result<Vec<String>, LingCodeError>)
        ensures
            r is Ok ==> forall|k: int| 0 <= k < r->Ok_0@.len() ==> expands_to(*self, syllables@, k1, k2, #[trigger] r->Ok_0@[k]@),
            r is Ok ==> forall|x: Seq<char>| #[trigger] expands_to(*self, syllables@, k1, k2, x) ==> exists|k: int| 0 <= k < r->Ok_0@.len() && r->Ok_0@[k]@ == x,
            r is Err <==> forall|x: Seq<char>| !#[trigger] expands_to(*self, syllables@, k1, k2, x),
            r is Err ==> r->Err_0 is InputError,
    {
        let ghost t = *self;
        let ghost syls = syllables@;
        let mut out: Vec<Vec<char>> = Vec::new();
        let mut a: usize = 0;
        while a < self.initials.len()
            invariant
                t == *self,
                syls == syllables@,
                a <= self.initials.len(),
                forall|k: int| 0 <= k < out@.len() ==> expands_to(t, syls, k1, k2, #[trigger] out@[k]@),
                forall|a2: int, b2: int, x: Seq<char>| 0 <= a2 < a && #[trigger] joins(t, k1, k2, a2, b2, x) && syls.contains(x) ==> holds(out@, x),
            decreases self.initials.len() - a,
        {
            let mut b: usize = 0;
            while b < self.finals.len()
                invariant
                    t == *self,
                    syls == syllables@,
                    a < self.initials.len(),
                    b <= self.finals.len(),
                    forall|k: int| 0 <= k < out@.len() ==> expands_to(t, syls, k1, k2, #[trigger] out@[k]@),
                    forall|a2: int, b2: int, x: Seq<char>| 0 <= a2 < a && #[trigger] joins(t, k1, k2, a2, b2, x) && syls.contains(x) ==> holds(out@, x),
                    forall|b2: int, x: Seq<char>| 0 <= b2 < b && #[trigger] joins(t, k1, k2, a as int, b2, x) && syls.contains(x) ==> holds(out@, x),
                decreases self.finals.len() - b,
            {
                if self.initials[a].0 == k1 && self.finals[b].0 == k2 {
                    let x = concat_chars(&self.initials[a].1, &self.finals[b].1);
                    assert(x@.subrange(0, x@.len() as int) =~= x@);
                    if syllables.contains_range(&x, 0, x.len()) {
                        let ghost before = out@;
                        assert(joins(t, k1, k2, a as int, b as int, x@));
                        out.push(x);
                        proof {
                            assert(out@[before.len() as int]@ == x@);
                            assert forall|y: Seq<char>| holds(before, y) implies holds(out@, y) by {
                                let k = choose|k: int| 0 <= k < before.len() && before[k]@ == y;
                                assert(out@[k]@ == y);
                            }
                        }
                    }
                }
                b = b + 1;
            }
            a = a + 1;
        }
        let mut c: usize = 0;
        while c < self.zero_initials.len()
            invariant
                t == *self,
                syls == syllables@,
                c <= self.zero_initials.len(),
                forall|k: int| 0 <= k < out@.len() ==> expands_to(t, syls, k1, k2, #[trigger] out@[k]@),
                forall|a2: int, b2: int, x: Seq<char>| #[trigger] joins(t, k1, k2, a2, b2, x) && syls.contains(x) ==> holds(out@, x),
                forall|c2: int, x: Seq<char>| 0 <= c2 < c && #[trigger] zero_initial(t, k1, k2, c2, x) && syls.contains(x) ==> holds(out@, x),
            decreases self.zero_initials.len() - c,
        {
            let z = &self.zero_initials[c];
            if z.0 == k1 && z.1 == k2 {
                assert(z.2@.subrange(0, z.2@.len() as int) =~= z.2@);
                if syllables.contains_range(&z.2, 0, z.2.len()) {
                    let ghost before = out@;
                    assert(zero_initial(t, k1, k2, c as int, z.2@));
                    let mut x: Vec<char> = Vec::new();
                    x = concat_chars(&x, &z.2);
                    assert(x@ =~= z.2@);
                    out.push(x);
                    proof {
                        assert(out@[before.len() as int]@ == z.2@);
                        assert forall|y: Seq<char>| holds(before, y) implies holds(out@, y) by {
                            let k = choose|k: int| 0 <= k < before.len() && before[k]@ == y;
                            assert(out@[k]@ == y);
                        }
                    }
                }
            }
            c = c + 1;
        }
        if out.len() == 0 {
            proof {
                assert forall|x: Seq<char>| !#[trigger] expands_to(t, syls, k1, k2, x) by {
                    if expands_to(t, syls, k1, k2, x) {
                        if exists|a: int, b: int| joins(t, k1, k2, a, b, x) {
                            let (a, b) = choose|a: int, b: int| joins(t, k1, k2, a, b, x);
                            assert(holds(out@, x));
                        } else {
                            let c = choose|c: int| zero_initial(t, k1, k2, c, x);
                            assert(holds(out@, x));
                        }
                    }
                }
            }
            return Err(LingCodeError::InputError(String::from_str("no syllable for this key pair")));
        }
        let mut r: Vec<String> = Vec::new();
        let mut k: usize = 0;
        while k < out.len()
            invariant
                k <= out.len(),
                r@.len() == k,
                forall|m: int| 0 <= m < k ==> #[trigger] r@[m]@ == out@[m]@,
            decreases out.len() - k,
        {
            r.push(string_of(&out[k]));
            k = k + 1;
        }
        proof {
            assert(expands_to(t, syls, k1, k2, out@[0]@));
            assert(r@[0]@ == out@[0]@);
            assert forall|x: Seq<char>| #[trigger] expands_to(*self, syllables@, k1, k2, x) implies exists|k: int| 0 <= k < r@.len() && r@[k]@ == x by {
                if exists|a: int, b: int| joins(t, k1, k2, a, b, x) {
                    let (a, b) = choose|a: int, b: int| joins(t, k1, k2, a, b, x);
                    assert(holds(out@, x));
                } else {
                    let c = choose|c: int| zero_initial(t, k1, k2, c, x);
                    assert(holds(out@, x));
                }
                let m = choose|m: int| 0 <= m < out@.len() && out@[m]@ == x;
                assert(r@[m]@ == x);
            }
        }
        let ghost res: Result<Vec<String>, LingCodeError> = Ok(r);
        assert(res->Ok_0@ == r@);
        assert(forall|x: Seq<char>| #[trigger] expands_to(*self, syllables@, k1, k2, x) ==> exists|k: int| 0 <= k < res->Ok_0@.len() && res->Ok_0@[k]@ == x);
        Ok(r)
    }

    /// The built-in table of a layout. The standard layout shares the Sogou keys.
    pub fn for_scheme(scheme: DoublePinyinScheme) -> (r: Self)
        ensures
            r.initials@.len() == 23,
    {
        match scheme {
            DoublePinyinScheme::XiaoHe => DoublePinyinTable::xiaohe(),
            DoublePinyinScheme::Ziran => DoublePinyinTable::ziran(),
            DoublePinyinScheme::Sogou => DoublePinyinTable::sogou(),
            DoublePinyinScheme::Standard => DoublePinyinTable::sogou(),
        }
    }
}

} // verus!

verus! {

/// Every syllable that a decoding returns is in the syllable table that the
/// segmenter checks against.
pub proof fn decoded_syllables_are_valid(t: DoublePinyinTable, syllables: Seq<Seq<char>>, k1: char, k2: char, decoded: Seq<Seq<char>>)
    requires
        forall|k: int| 0 <= k < decoded.len() ==> expands_to(t, syllables, k1, k2, #[trigger] decoded[k]),
    ensures
        forall|k: int| 0 <= k < decoded.len() ==> syllables.contains(#[trigger] decoded[k]),
{
    assert forall|k: int| 0 <= k < decoded.len() implies syllables.contains(#[trigger] decoded[k]) by {
        assert(expands_to(t, syllables, k1, k2, decoded[k]));
    }
}

} // verus!

verus! {

/// The alternatives of a decoded key pair: exactly the syllables it expands to.
pub open spec fn decodes_pair(t: DoublePinyinTable, syllables: Seq<Seq<char>>, k1: char, k2: char, alts: Seq<String>) -> bool {
    &&& forall|k: int| 0 <= k < alts.len() ==> expands_to(t, syllables, k1, k2, #[trigger] alts[k]@)
    &&& forall|x: Seq<char>| #[trigger] expands_to(t, syllables, k1, k2, x) ==> exists|k: int| 0 <= k < alts.len() && alts[k]@ == x
    &&& alts.len() > 0
}

/// Segments double-pinyin keystrokes two keys at a time. Entry `i` of the
/// result holds the syllables that keys `2i` and `2i + 1` stand for; the result
/// ends before the first pair that stands for none, or before a lone last key.
pub fn segment_double(t: &DoublePinyinTable, syllables: &SyllableTable, raw: &Vec<char>) -> (r: Vec<Vec<String>>)
    ensures
        r@.len() <= raw@.len() / 2,
        forall|i: int| 0 <= i < r@.len() ==> decodes_pair(*t, syllables@, raw@[2 * i], raw@[2 * i + 1], #[trigger] r@[i]@),
        r@.len() < raw@.len() / 2 ==> forall|x: Seq<char>| !#[trigger] expands_to(*t, syllables@, raw@[2 * r@.len() as int], raw@[2 * r@.len() as int + 1], x),
{
    let mut r: Vec<Vec<String>> = Vec::new();
    let mut i: usize = 0;
    while i + 1 < raw.len()
        invariant
            i == 2 * r@.len(),
            i <= raw.len(),
            forall|j: int| 0 <= j < r@.len() ==> decodes_pair(*t, syllables@, raw@[2 * j], raw@[2 * j + 1], #[trigger] r@[j]@),
        decreases raw.len() - i,
    {
        match t.decode(syllables, raw[i], raw[i + 1]) {
            Ok(alts) => {
                proof {
                    let x = alts@[0]@;
                    assert(alts@.len() > 0) by {
                        if alts@.len() == 0 {
                            assert(false);
                        }
                    }
                }
                r.push(alts);
            },
            Err(_) => {
                return r;
            },
        }
        i = i + 2;
    }
    r
}

} // verus!
