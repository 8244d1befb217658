//! Parameters of a program: a variable, whether it is private, and where in
//! the source it was declared.

use std::cmp::Ordering;
use vstd::prelude::*;
use vstd::std_specs::cmp::{PartialEqSpec, PartialOrdSpec};

verus! {

/// A stretch of source text: the hash of its module, and the lines and
/// columns at which it starts and ends.
#[derive(Debug, Clone, Copy, PartialEq, Eq, Structural)]
pub struct Span {
    pub module: u64,
    pub from_line: usize,
    pub from_col: usize,
    pub to_line: usize,
    pub to_col: usize,
}

#[derive(Debug, Clone, Copy)]
pub struct Parameter<V> {
    pub span: Option<Span>,
    pub id: V,
    pub private: bool,
}

impl<V> Parameter<V> {
    pub fn new(v: V, private: bool) -> (p: Self)
        ensures
            p == (Parameter { span: None, id: v, private }),
    {
        Parameter { span: None, id: v, private }
    }

    pub fn public(v: V) -> (p: Self)
        ensures
            p == (Parameter { span: None, id: v, private: false }),
    {
        Self::new(v, false)
    }

    pub fn private(v: V) -> (p: Self)
        ensures
            p == (Parameter { span: None, id: v, private: true }),
    {
        Self::new(v, true)
    }

    /// The same parameter with `span` as its place in the source.
    pub fn span(self, span: Option<Span>) -> (p: Self)
        ensures
            p == (Parameter { span, ..self }),
    {
        let mut p = self;
        p.span = span;
        p
    }

    pub fn get_span(&self) -> (s: Option<Span>)
        ensures
            s == self.span,
    {
        self.span
    }
}

impl Parameter<u64> {
    /// What identifies a parameter: its variable and its privacy flag. Two
    /// parameters are equal where these agree.
    pub open spec fn spec_key(&self) -> (u64, bool) {
        (self.id, self.private)
    }

    pub fn key(&self) -> (k: (u64, bool))
        ensures
            k == self.spec_key(),
    {
        (self.id, self.private)
    }
}

impl PartialEq for Parameter<u64> {
    fn eq(&self, other: &Parameter<u64>) -> (b: bool) {
        self.id == other.id && self.private == other.private
    }
}

impl Eq for Parameter<u64> {

}

impl vstd::std_specs::cmp::PartialEqSpecImpl for Parameter<u64> {
    open spec fn obeys_eq_spec() -> bool {
        true
    }

    open spec fn eq_spec(&self, other: &Parameter<u64>) -> bool {
        self.id == other.id && self.private == other.private
    }
}

impl PartialOrd for Parameter<u64> {
    /// Orders by variable, then public before private.
    fn partial_cmp(&self, other: &Parameter<u64>) -> (r: Option<Ordering>) {
        if self.id < other.id {
            Some(Ordering::Less)
        } else if self.id > other.id {
            Some(Ordering::Greater)
        } else if !self.private && other.private {
            Some(Ordering::Less)
        } else if self.private && !other.private {
            Some(Ordering::Greater)
        } else {
            Some(Ordering::Equal)
        }
    }
}

impl vstd::std_specs::cmp::PartialOrdSpecImpl for Parameter<u64> {
    open spec fn obeys_partial_cmp_spec() -> bool {
        true
    }

    open spec fn partial_cmp_spec(&self, other: &Parameter<u64>) -> Option<Ordering> {
        if self.id < other.id {
            Some(Ordering::Less)
        } else if self.id > other.id {
            Some(Ordering::Greater)
        } else if !self.private && other.private {
            Some(Ordering::Less)
        } else if self.private && !other.private {
            Some(Ordering::Greater)
        } else {
            Some(Ordering::Equal)
        }
    }
}

impl std::hash::Hash for Parameter<u64> {
    /// Trusted: feeds the pair of variable and privacy flag to std's `Hash`
    /// for tuples. The span takes no part, so equal parameters hash alike.
    #[verifier::external_body]
    fn hash<H: std::hash::Hasher>(&self, state: &mut H) {
        (self.id, self.private).hash(state);
    }
}

/// Two parameters of one variable and one privacy flag are equal, whatever
/// their spans; they have the same key, which is all that is hashed, and
/// neither comes before the other.
pub proof fn lemma_equality_ignores_span(a: Parameter<u64>, b: Parameter<u64>)
    requires
        a.id == b.id,
        a.private == b.private,
    ensures
        a.eq_spec(&b),
        a.spec_key() == b.spec_key(),
        a.partial_cmp_spec(&b) == Some(Ordering::Equal),
{
}

/// Setting a span leaves a parameter equal to what it was.
pub proof fn lemma_span_keeps_equality(a: Parameter<u64>, span: Option<Span>)
    ensures
        (Parameter { span, ..a }).eq_spec(&a),
{
}

} // verus!
