//! The composition state machine: a buffer of committed fragments and one
//! active segment, driven by keystrokes, navigation, commit and cancel.
use vstd::prelude::*;
use crate::candidate::{Candidate, Candidates};
use crate::error::LingCodeError;
use crate::matcher::{exact_lookup, MatchMode, PinyinDict, PinyinMatcher};
use crate::ranker::{concat_all, is_desc, lemma_ranked_desc, merge_sources, ranked};
use crate::schema::{resolves_all, Pipeline, Schema, StageKind, StageRegistry};
use crate::segment::Segment;
use crate::syllable::{covers, Span, SyllableTable};
use crate::text::{chars_of, chars_range};
use crate::types::InputState;
use vstd::string::*;

verus! {

/// Every span of a covering split lies within `raw`, after `from`.
pub proof fn lemma_covers_in_range(table: Seq<Seq<char>>, raw: Seq<char>, delim: Option<char>, sp: Seq<Span>, from: int)
    requires
        0 <= from,
        covers(table, raw, delim, sp, from),
    ensures
        forall|k: int| 0 <= k < sp.len() ==> from <= #[trigger] sp[k].start <= sp[k].end <= raw.len(),
    decreases sp.len(), raw.len() - from,
{
    if 0 <= from < raw.len() && delim == Some(raw[from]) {
        lemma_covers_in_range(table, raw, delim, sp, from + 1);
    } else if sp.len() > 0 {
        lemma_covers_in_range(table, raw, delim, sp.drop_first(), sp[0].end as int);
        assert forall|k: int| 0 <= k < sp.len() implies from <= #[trigger] sp[k].start <= sp[k].end <= raw.len() by {
            if k > 0 {
                assert(sp[k] == sp.drop_first()[k - 1]);
            }
        }
    }
}

/// The syllables that a split picks out of `raw`.
pub open spec fn query_of(raw: Seq<char>, split: Seq<Span>) -> Seq<Seq<char>> {
    split.map_values(|s: Span| raw.subrange(s.start as int, s.end as int))
}

/// `block` holds, for each dictionary in order, its exact lookup of `q`.
pub open spec fn block_ok(dicts: Seq<PinyinDict>, m: PinyinMatcher, q: Seq<Seq<char>>, block: Seq<Seq<Candidate>>) -> bool {
    block.len() == dicts.len() && forall|d: int| 0 <= d < dicts.len() ==> exact_lookup(dicts[d], m, q, #[trigger] block[d])
}

/// `ls` holds one block of dictionary lookups per query, query after query.
pub open spec fn lookups_for(dicts: Seq<PinyinDict>, m: PinyinMatcher, qs: Seq<Seq<Seq<char>>>, ls: Seq<Seq<Candidate>>) -> bool
    decreases qs.len(),
{
    if qs.len() == 0 {
        ls.len() == 0
    } else {
        &&& ls.len() >= dicts.len()
        &&& block_ok(dicts, m, qs.last(), ls.subrange(ls.len() - dicts.len(), ls.len() as int))
        &&& lookups_for(dicts, m, qs.drop_last(), ls.subrange(0, ls.len() - dicts.len()))
    }
}

/// `r` ranks, through `c`'s dictionaries, the lookups `ls` of the splits `sv`,
/// where `sv` lists every split of `raw` into valid syllables and no other.
pub open spec fn ranks_with(c: Composer, raw: Seq<char>, sv: Seq<Seq<Span>>, ls: Seq<Seq<Candidate>>, r: Seq<Candidate>) -> bool {
    &&& forall|k: int| 0 <= k < sv.len() ==> covers(c.syllables@, raw, c.delimiter, #[trigger] sv[k], 0)
    &&& forall|sp: Seq<Span>| #[trigger] covers(c.syllables@, raw, c.delimiter, sp, 0) ==> exists|k: int| 0 <= k < sv.len() && sv[k] == sp
    &&& lookups_for(c.dicts@, c.matcher, sv.map_values(|sp: Seq<Span>| query_of(raw, sp)), ls)
    &&& r == ranked(concat_all(ls), c.max_candidates as nat)
}

/// `r` is the ranked candidate list of `raw`: the exact lookups in every
/// dictionary of every split of `raw` into valid syllables, merged and ranked.
pub open spec fn ranks_input(c: Composer, raw: Seq<char>, r: Seq<Candidate>) -> bool {
    exists|sv: Seq<Seq<Span>>, ls: Seq<Seq<Candidate>>| ranks_with(c, raw, sv, ls, r)
}

/// The syllable delimiter that a schema's speller declares: the first
/// character of its delimiter string, if any.
pub open spec fn schema_delimiter(s: Schema) -> Option<char> {
    match s.speller {
        Some(sp) => match sp.delimiter {
            Some(d) => if d@.len() > 0 {
                Some(d@[0])
            } else {
                None
            },
            None => None,
        },
        None => None,
    }
}

/// An input session.
#[derive(Debug)]
pub struct Composer {
    /// Current state.
    pub state: InputState,
    /// Committed fragments, oldest first; never changed once appended.
    pub committed: Vec<String>,
    /// The segment being edited, if any.
    pub active: Option<Segment>,
    /// Valid syllables for segmentation.
    pub syllables: SyllableTable,
    /// Dictionary sources, in priority order.
    pub dicts: Vec<PinyinDict>,
    /// Fuzzy matching settings.
    pub matcher: PinyinMatcher,
    /// Largest number of candidates kept.
    pub max_candidates: usize,
    /// Explicit syllable delimiter, if the scheme has one.
    pub delimiter: Option<char>,
    /// Stages of the loaded schema, if one is loaded.
    pub pipeline: Option<Pipeline>,
}

impl Composer {
    /// Idle exactly when no segment is active; an active segment's cursor lies
    /// within its candidates.
    pub open spec fn wf(&self) -> bool {
        &&& (self.state == InputState::Idle) <==> (self.active is None)
        &&& self.active is Some ==> self.active->0.wf()
        &&& self.matcher.penalty >= 2
    }

    /// An idle session over the given tables.
    pub fn new(syllables: SyllableTable, dicts: Vec<PinyinDict>, matcher: PinyinMatcher, max_candidates: usize) -> (r: Self)
        requires
            matcher.penalty >= 2,
        ensures
            r.wf(),
            r.state == InputState::Idle,
            r.committed@.len() == 0,
            r.syllables == syllables,
            r.dicts == dicts,
            r.matcher == matcher,
            r.max_candidates == max_candidates,
            r.delimiter is None,
            r.pipeline is None,
    {
        Composer {
            state: InputState::Idle,
            committed: Vec::new(),
            active: None,
            syllables,
            dicts,
            matcher,
            max_candidates,
            delimiter: None,
            pipeline: None,
        }
    }

    /// Loads a schema: assembles its stages and resets the composition. A schema
    /// that names an unknown stage fails with `SchemaError` and leaves the
    /// session, its pipeline included, as it was.
    pub fn load_schema(&mut self, registry: &StageRegistry, schema: &Schema) -> (r: Result<(), LingCodeError>)
        requires
            old(self).wf(),
        ensures
            final(self).wf(),
            r is Ok <==> crate::schema::engine_registered(registry.entries@, schema.engine),
            r is Err ==> r->Err_0 is SchemaError && *final(self) == *old(self),
            r is Ok ==> final(self).pipeline is Some && final(self).state == InputState::Idle
                && final(self).committed@.len() == 0
                && final(self).delimiter == schema_delimiter(*schema),
            r is Ok ==> {
                let p = final(self).pipeline->0;
                let e = schema.engine;
                &&& resolves_all(registry.entries@, p.processors@, StageKind::Processor, e.processors@)
                &&& resolves_all(registry.entries@, p.segmentors@, StageKind::Segmentor, e.segmentors@)
                &&& resolves_all(registry.entries@, p.translators@, StageKind::Translator, e.translators@)
                &&& resolves_all(registry.entries@, p.filters@, StageKind::Filter, e.filters@)
            },
    {
        match registry.assemble(&schema.engine) {
            Ok(p) => {
                let delim = match &schema.speller {
                    Some(sp) => match &sp.delimiter {
                        Some(d) => {
                            let cs = chars_of(d.as_str());
                            if cs.len() > 0 {
                                Some(cs[0])
                            } else {
                                None
                            }
                        },
                        None => None,
                    },
                    None => None,
                };
                self.delimiter = delim;
                self.pipeline = Some(p);
                self.committed = Vec::new();
                self.active = None;
                self.state = InputState::Idle;
                Ok(())
            },
            Err(e) => Err(e),
        }
    }

    /// Ranked candidates for raw keystrokes: each split into syllables is
    /// looked up exactly in every dictionary, and the results are merged.
    pub fn candidates_for(&self, raw: &Vec<char>) -> (r: Candidates)
        requires
            self.matcher.penalty >= 2,
        ensures
            ranks_input(*self, raw@, r@),
            r@.len() <= self.max_candidates,
            is_desc(r@),
    {
        let splits = self.syllables.segment(raw, self.delimiter);
        let ghost sv = splits@.map_values(|v: Vec<Span>| v@);
        let ghost qs = sv.map_values(|sp: Seq<Span>| query_of(raw@, sp));
        let ghost dv = self.dicts@;
        let mut sources: Vec<Candidates> = Vec::new();
        let mut i: usize = 0;
        while i < splits.len()
            invariant
                i <= splits.len(),
                self.matcher.penalty >= 2,
                sv == splits@.map_values(|v: Vec<Span>| v@),
                qs == sv.map_values(|sp: Seq<Span>| query_of(raw@, sp)),
                dv == self.dicts@,
                crate::syllable::all_cover(self.syllables@, raw@, self.delimiter, splits@, 0),
                lookups_for(dv, self.matcher, qs.take(i as int), sources@.map_values(|c: Candidates| c@)),
            decreases splits.len() - i,
        {
            let split = &splits[i];
            proof {
                assert(covers(self.syllables@, raw@, self.delimiter, splits@[i as int]@, 0));
                lemma_covers_in_range(self.syllables@, raw@, self.delimiter, split@, 0);
            }
            let mut query: Vec<Vec<char>> = Vec::new();
            let mut k: usize = 0;
            while k < split.len()
                invariant
                    k <= split.len(),
                    forall|m: int| 0 <= m < split@.len() ==> 0 <= #[trigger] split@[m].start <= split@[m].end <= raw@.len(),
                    query@.len() == k,
                    forall|m: int| 0 <= m < k ==> #[trigger] query@[m]@ == raw@.subrange(split@[m].start as int, split@[m].end as int),
                decreases split.len() - k,
            {
                query.push(chars_range(raw, split[k].start, split[k].end));
                k = k + 1;
            }
            let ghost q = query@.map_values(|s: Vec<char>| s@);
            assert(q =~= query_of(raw@, split@));
            assert(qs[i as int] == query_of(raw@, split@));
            let ghost base = sources@.map_values(|c: Candidates| c@);
            let mut d: usize = 0;
            while d < self.dicts.len()
                invariant
                    d <= self.dicts.len(),
                    self.matcher.penalty >= 2,
                    dv == self.dicts@,
                    q == query@.map_values(|s: Vec<char>| s@),
                    sources@.len() == base.len() + d,
                    forall|m: int| 0 <= m < base.len() ==> #[trigger] sources@[m]@ == base[m],
                    forall|m: int| 0 <= m < d ==> exact_lookup(dv[m], self.matcher, q, #[trigger] sources@[base.len() + m]@),
                decreases self.dicts.len() - d,
            {
                sources.push(self.dicts[d].lookup(&self.matcher, &query, MatchMode::Exact));
                d = d + 1;
            }
            proof {
                let ls = sources@.map_values(|c: Candidates| c@);
                let nd = dv.len() as int;
                assert(ls.subrange(0, ls.len() - nd) =~= base);
                let block = ls.subrange(ls.len() - nd, ls.len() as int);
                assert forall|m: int| 0 <= m < nd implies exact_lookup(dv[m], self.matcher, q, #[trigger] block[m]) by {
                    assert(block[m] == sources@[base.len() + m]@);
                }
                assert(qs.take(i + 1).drop_last() =~= qs.take(i as int));
                assert(qs.take(i + 1).last() == q);
            }
            i = i + 1;
        }
        let r = merge_sources(&sources, self.max_candidates);
        proof {
            let ls = sources@.map_values(|c: Candidates| c@);
            assert(qs.take(splits.len() as int) =~= qs);
            lemma_ranked_desc(crate::ranker::concat_all(ls), self.max_candidates as nat);
            assert forall|k: int| 0 <= k < sv.len() implies covers(self.syllables@, raw@, self.delimiter, #[trigger] sv[k], 0) by {
                assert(covers(self.syllables@, raw@, self.delimiter, splits@[k]@, 0));
            }
            assert forall|sp: Seq<Span>| #[trigger] covers(self.syllables@, raw@, self.delimiter, sp, 0) implies exists|k: int|
                0 <= k < sv.len() && sv[k] == sp by {
                let k = choose|k: int| 0 <= k < splits@.len() && splits@[k]@ == sp;
                assert(sv[k] == sp);
            }
            assert(ranks_with(*self, raw@, sv, ls, r@));
        }
        r
    }

    /// Types a key: starts a segment when idle, otherwise appends to the active
    /// one; the candidates are rebuilt and the cursor returns to the first.
    pub fn input_key(&mut self, key: char)
        requires
            old(self).wf(),
        ensures
            final(self).wf(),
            final(self).state == InputState::Composing,
            final(self).active is Some,
            old(self).active is None ==> final(self).active->0.input@ == seq![key],
            old(self).active is Some ==> final(self).active->0.input@ == old(self).active->0.input@.push(key),
            final(self).active->0.selected_index == 0,
            final(self).active->0.confirmed@.len() == 0,
            ranks_input(*old(self), final(self).active->0.input@, final(self).active->0.candidates@),
            final(self).active->0.candidates@.len() <= final(self).max_candidates,
            is_desc(final(self).active->0.candidates@),
            final(self).syllables == old(self).syllables,
            final(self).dicts == old(self).dicts,
            final(self).matcher == old(self).matcher,
            final(self).max_candidates == old(self).max_candidates,
            final(self).delimiter == old(self).delimiter,
            final(self).committed == old(self).committed,
            final(self).pipeline == old(self).pipeline,
    {
        let mut input = match &self.active {
            Some(seg) => seg.input.clone(),
            None => String::new(),
        };
        let one = crate::text::string_of(&vec![key]);
        input = input.concat(one.as_str());
        let raw = chars_of(input.as_str());
        let cands = self.candidates_for(&raw);
        let mut seg = Segment::new(input);
        seg.set_candidates(cands);
        self.active = Some(seg);
        self.state = InputState::Composing;
    }

    /// Moves the cursor of the active segment to the next candidate, clamped at
    /// the last; does nothing when idle.
    pub fn next(&mut self)
        requires
            old(self).wf(),
        ensures
            final(self).wf(),
            old(self).active is None ==> *final(self) == *old(self),
            old(self).active is Some ==> final(self).state == InputState::Selecting && final(self).active is Some
                && final(self).active->0.candidates == old(self).active->0.candidates
                && final(self).active->0.input == old(self).active->0.input
                && (old(self).active->0.candidates@.len() > 0 ==> final(self).active->0.selected_index == vstd::math::min(
                    old(self).active->0.selected_index + 1,
                    old(self).active->0.candidates@.len() - 1,
                )),
            final(self).committed == old(self).committed,
    {
        match self.active.take() {
            Some(mut seg) => {
                seg.next_candidate();
                self.active = Some(seg);
                self.state = InputState::Selecting;
            },
            None => {},
        }
    }

    /// Moves the cursor of the active segment to the previous candidate, clamped
    /// at the first; does nothing when idle.
    pub fn prev(&mut self)
        requires
            old(self).wf(),
        ensures
            final(self).wf(),
            old(self).active is None ==> *final(self) == *old(self),
            old(self).active is Some ==> final(self).state == InputState::Selecting && final(self).active is Some
                && final(self).active->0.candidates == old(self).active->0.candidates
                && final(self).active->0.input == old(self).active->0.input
                && final(self).active->0.selected_index == vstd::math::max(old(self).active->0.selected_index - 1, 0),
            final(self).committed == old(self).committed,
    {
        match self.active.take() {
            Some(mut seg) => {
                seg.prev_candidate();
                self.active = Some(seg);
                self.state = InputState::Selecting;
            },
            None => {},
        }
    }

    /// Commits the active segment: appends the selected candidate's text, or the
    /// raw keystrokes when there is no candidate, to the committed fragments,
    /// and returns to idle. Returns the committed text; `None` when idle.
    pub fn commit(&mut self) -> (r: Option<String>)
        requires
            old(self).wf(),
        ensures
            final(self).wf(),
            final(self).state == InputState::Idle,
            final(self).active is None,
            old(self).active is None ==> r is None && final(self).committed == old(self).committed,
            old(self).active is Some ==> {
                let seg = old(self).active->0;
                &&& r is Some
                &&& seg.candidates@.len() > 0 ==> r->0 == seg.candidates@[seg.selected_index as int].text
                &&& seg.candidates@.len() == 0 ==> r->0 == seg.input
                &&& final(self).committed@ == old(self).committed@.push(r->0)
            },
            final(self).pipeline == old(self).pipeline,
    {
        match self.active.take() {
            Some(mut seg) => {
                seg.commit();
                let text = seg.confirmed.clone();
                self.committed.push(seg.confirmed);
                self.state = InputState::Idle;
                Some(text)
            },
            None => {
                self.state = InputState::Idle;
                None
            },
        }
    }

    /// Discards the active segment and returns to idle; the committed fragments
    /// stay as they are.
    pub fn cancel(&mut self)
        requires
            old(self).wf(),
        ensures
            final(self).wf(),
            final(self).state == InputState::Idle,
            final(self).active is None,
            final(self).committed == old(self).committed,
            final(self).pipeline == old(self).pipeline,
    {
        self.active = None;
        self.state = InputState::Idle;
    }
}

} // verus!
