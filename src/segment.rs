//! The editable unit of composition.
use vstd::prelude::*;
use crate::candidate::{Candidate, Candidates};

verus! {

/// Keystrokes not yet resolved, their candidates and the selection cursor.
#[derive(Debug, Clone)]
pub struct Segment {
    /// Raw keystrokes.
    pub input: String,
    /// Text confirmed by a commit; empty until then.
    pub confirmed: String,
    /// Candidates for the raw keystrokes.
    pub candidates: Candidates,
    /// Index of the selected candidate.
    pub selected_index: usize,
}

impl Segment {
    /// The cursor lies within the candidate list, or at 0 when it is empty.
    pub open spec fn wf(&self) -> bool {
        if self.candidates@.len() > 0 {
            self.selected_index < self.candidates@.len()
        } else {
            self.selected_index == 0
        }
    }

    /// A segment for the given keystrokes, with no candidates yet.
    pub fn new(input: String) -> (r: Self)
        ensures
            r.input == input,
            r.confirmed@.len() == 0,
            r.candidates@.len() == 0,
            r.selected_index == 0,
            r.wf(),
    {
        Segment { input, confirmed: String::new(), candidates: Candidates::new(), selected_index: 0 }
    }

    /// Replaces the candidate list and moves the cursor to its start.
    pub fn set_candidates(&mut self, candidates: Candidates)
        ensures
            final(self).candidates == candidates,
            final(self).selected_index == 0,
            final(self).input == old(self).input,
            final(self).confirmed == old(self).confirmed,
            final(self).wf(),
    {
        self.candidates = candidates;
        self.selected_index = 0;
    }

    /// The selected candidate, if the cursor points at one.
    pub fn current_candidate(&self) -> (r: Option<&Candidate>)
        ensures
            self.selected_index < self.candidates@.len() ==> r == Some(&self.candidates@[self.selected_index as int]),
            self.selected_index >= self.candidates@.len() ==> r is None,
    {
        self.candidates.get(self.selected_index)
    }

    /// Moves the cursor one step forward; it stays at the last candidate.
    pub fn next_candidate(&mut self)
        ensures
            final(self).selected_index == if old(self).selected_index + 1 < old(self).candidates@.len() {
                old(self).selected_index + 1
            } else {
                old(self).selected_index as int
            },
            old(self).wf() && old(self).candidates@.len() > 0 ==> final(self).selected_index == vstd::math::min(
                old(self).selected_index + 1,
                old(self).candidates@.len() - 1,
            ),
            old(self).wf() ==> final(self).wf(),
            final(self).input == old(self).input,
            final(self).confirmed == old(self).confirmed,
            final(self).candidates == old(self).candidates,
    {
        let len = self.candidates.len();
        if len > 0 && self.selected_index < len - 1 {
            self.selected_index = self.selected_index + 1;
        }
    }

    /// Moves the cursor one step back; it stays at the first candidate.
    pub fn prev_candidate(&mut self)
        ensures
            final(self).selected_index == if old(self).selected_index > 0 {
                old(self).selected_index - 1
            } else {
                0
            },
            final(self).selected_index == vstd::math::max(old(self).selected_index - 1, 0),
            old(self).wf() ==> final(self).wf(),
            final(self).input == old(self).input,
            final(self).confirmed == old(self).confirmed,
            final(self).candidates == old(self).candidates,
    {
        if self.selected_index > 0 {
            self.selected_index = self.selected_index - 1;
        }
    }

    /// Confirms the selected candidate's text, or the raw keystrokes when no
    /// candidate is selected.
    pub fn commit(&mut self)
        ensures
            old(self).selected_index < old(self).candidates@.len() ==> final(self).confirmed
                == old(self).candidates@[old(self).selected_index as int].text,
            old(self).selected_index >= old(self).candidates@.len() ==> final(self).confirmed
                == old(self).input,
            final(self).input == old(self).input,
            final(self).candidates == old(self).candidates,
            final(self).selected_index == old(self).selected_index,
    {
        match self.candidates.get(self.selected_index) {
            Some(c) => {
                self.confirmed = c.text.clone();
            },
            None => {
                self.confirmed = self.input.clone();
            },
        }
    }
}

/// Committing a segment whose candidate list is empty confirms exactly its raw
/// keystrokes.
pub proof fn commit_without_candidates_confirms_input(before: Segment, after: Segment)
    requires
        before.candidates@.len() == 0,
        after.input == before.input,
        before.selected_index < before.candidates@.len() ==> after.confirmed
            == before.candidates@[before.selected_index as int].text,
        before.selected_index >= before.candidates@.len() ==> after.confirmed == before.input,
    ensures
        after.confirmed@ == before.input@,
        after.confirmed@ == after.input@,
{
}

} // verus!
