//! Candidates and candidate lists.
use vstd::prelude::*;
use vstd::std_specs::iter::IteratorSpec;

verus! {

/// A candidate produced for the current input.
#[derive(Debug, Clone, PartialEq, Eq)]
pub struct Candidate {
    /// Text that a commit would emit.
    pub text: String,
    /// Phonetic annotation.
    pub comment: Option<String>,
    /// Weight; higher is preferred.
    pub weight: u32,
    /// Name of the dictionary the candidate came from.
    pub source: Option<String>,
}

/// A copy of an optional string.
pub fn copy_opt_string(o: &Option<String>) -> (r: Option<String>)
    ensures
        r == *o,
{
    match o {
        Some(s) => Some(s.clone()),
        None => None,
    }
}

impl Candidate {
    /// A candidate with the given text, no comment, weight 0 and no source.
    pub fn new(text: String) -> (r: Self)
        ensures
            r.text == text,
            r.comment is None,
            r.weight == 0,
            r.source is None,
    {
        Candidate { text, comment: None, weight: 0, source: None }
    }

    /// The same candidate with the given comment.
    pub fn with_comment(self, comment: String) -> (r: Self)
        ensures
            r == (Candidate { comment: Some(comment), ..self }),
    {
        Candidate { comment: Some(comment), ..self }
    }

    /// The same candidate with the given weight.
    pub fn with_weight(self, weight: u32) -> (r: Self)
        ensures
            r == (Candidate { weight, ..self }),
    {
        Candidate { weight, ..self }
    }

    /// The same candidate with the given source.
    pub fn with_source(self, source: String) -> (r: Self)
        ensures
            r == (Candidate { source: Some(source), ..self }),
    {
        Candidate { source: Some(source), ..self }
    }

    /// An equal copy of the candidate.
    pub fn duplicate(&self) -> (r: Self)
        ensures
            r == *self,
    {
        Candidate {
            text: self.text.clone(),
            comment: copy_opt_string(&self.comment),
            weight: self.weight,
            source: copy_opt_string(&self.source),
        }
    }
}

/// An ordered list of candidates; the order is the ranked order.
#[derive(Debug, Clone)]
pub struct Candidates {
    items: Vec<Candidate>,
}

impl View for Candidates {
    type V = Seq<Candidate>;

    closed spec fn view(&self) -> Seq<Candidate> {
        self.items@
    }
}

impl Default for Candidates {
    fn default() -> (r: Candidates)
        ensures
            r@.len() == 0,
    {
        Candidates { items: Vec::new() }
    }
}

impl Candidates {
    /// An empty list.
    pub fn new() -> (r: Self)
        ensures
            r@.len() == 0,
    {
        Candidates { items: Vec::new() }
    }

    /// The list holding the given candidates in order.
    pub fn from_vec(items: Vec<Candidate>) -> (r: Self)
        ensures
            r@ == items@,
    {
        Candidates { items }
    }

    /// Appends a candidate at the end.
    pub fn add(&mut self, candidate: Candidate)
        ensures
            final(self)@ == old(self)@.push(candidate),
    {
        self.items.push(candidate);
    }

    /// The candidate at `index`, if there is one.
    pub fn get(&self, index: usize) -> (r: Option<&Candidate>)
        ensures
            index < self@.len() ==> r == Some(&self@[index as int]),
            index >= self@.len() ==> r is None,
    {
        if index < self.items.len() {
            Some(&self.items[index])
        } else {
            None
        }
    }

    /// Number of candidates.
    pub fn len(&self) -> (r: usize)
        ensures
            r == self@.len(),
    {
        self.items.len()
    }

    /// Whether the list is empty.
    pub fn is_empty(&self) -> (r: bool)
        ensures
            r == (self@.len() == 0),
    {
        self.items.len() == 0
    }

    /// The candidates, in order.
    pub fn as_slice(&self) -> (r: &[Candidate])
        ensures
            r@ == self@,
    {
        self.items.as_slice()
    }

    /// An iterator over the candidates, in order.
    pub fn iter(&self) -> (r: std::slice::Iter<'_, Candidate>)
        ensures
            r.remaining().len() == self@.len(),
            forall|i: int| 0 <= i < self@.len() ==> *r.remaining()[i] == self@[i],
    {
        self.items.as_slice().iter()
    }

    /// Removes every candidate.
    pub fn clear(&mut self)
        ensures
            final(self)@.len() == 0,
    {
        self.items.clear();
    }
}

} // verus!
