//! What an instruction reads from or writes to.

use crate::path::Lookup;
use crate::path::SegmentView;
use vstd::prelude::*;

verus! {

/// The place a value is read from or written to.
#[derive(Debug, PartialEq, Eq)]
pub enum Variable {
    /// A path into the event that the program works on.
    External(Lookup),
    /// A named local, with an optional path into its value.
    Internal(String, Option<Lookup>),
    /// Nowhere: what is written is dropped, what is read is null.
    Sink,
    /// A path into the value on top of the operand stack.
    Stack(Lookup),
}

/// What a [`Variable`] stands for.
pub enum VariableView {
    External(Seq<SegmentView>),
    Internal(Seq<char>, Option<Seq<SegmentView>>),
    Sink,
    Stack(Seq<SegmentView>),
}

impl View for Variable {
    type V = VariableView;

    open spec fn view(&self) -> VariableView {
        match self {
            Variable::External(path) => VariableView::External(path@),
            Variable::Internal(ident, path) => VariableView::Internal(
                ident@,
                match path {
                    Some(path) => Some(path@),
                    None => None,
                },
            ),
            Variable::Sink => VariableView::Sink,
            Variable::Stack(path) => VariableView::Stack(path@),
        }
    }
}

impl Variable {
    /// The local called `ident`, as a whole.
    pub fn local(ident: &str) -> (variable: Variable)
        ensures
            variable@ == VariableView::Internal(ident@, None),
    {
        Variable::Internal(String::from_str(ident), None)
    }

    /// Whether two descriptors name the same place.
    pub fn equals(&self, other: &Variable) -> (same: bool)
        ensures
            same == (self@ == other@),
    {
        match (self, other) {
            (Variable::External(a), Variable::External(b)) => a.equals(b),
            (Variable::Internal(a, p), Variable::Internal(b, q)) => {
                if *a != *b {
                    false
                } else {
                    match (p, q) {
                        (Some(p), Some(q)) => p.equals(q),
                        (None, None) => true,
                        _ => false,
                    }
                }
            },
            (Variable::Sink, Variable::Sink) => true,
            (Variable::Stack(a), Variable::Stack(b)) => a.equals(b),
            _ => false,
        }
    }
}

impl Clone for Variable {
    fn clone(&self) -> (r: Variable)
        ensures
            r@ == self@,
    {
        match self {
            Variable::External(path) => Variable::External(path.clone()),
            Variable::Internal(ident, path) => Variable::Internal(
                ident.clone(),
                match path {
                    Some(path) => Some(path.clone()),
                    None => None,
                },
            ),
            Variable::Sink => Variable::Sink,
            Variable::Stack(path) => Variable::Stack(path.clone()),
        }
    }
}

} // verus!
