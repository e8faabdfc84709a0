//! Names of globals, functions and local values.

use crate::table::{Duplicate, TableKey};
use vstd::prelude::*;

verus! {

/// The name of a global or of a local value: either a textual identifier or
/// a sequential number. Two names are equal only if both their kind and
/// their payload are.
#[derive(Debug, PartialEq, Eq, Hash)]
pub enum Name {
    /// A textual name.
    Name(String),
    /// A sequential number, as in `%3`.
    Number(usize),
}

/// What a [`Name`] stands for in specifications.
pub ghost enum NameView {
    Name(Seq<char>),
    Number(usize),
}

impl View for Name {
    type V = NameView;

    open spec fn view(&self) -> NameView {
        match self {
            Name::Name(text) => NameView::Name(text@),
            Name::Number(number) => NameView::Number(*number),
        }
    }
}

impl Clone for Name {
    fn clone(&self) -> (copy: Self)
        ensures
            copy == *self,
    {
        match self {
            Name::Name(text) => Name::Name(text.clone()),
            Name::Number(number) => Name::Number(*number),
        }
    }
}

impl Duplicate for Name {
    fn duplicated(&self) -> (copy: Self) {
        self.clone()
    }
}

impl TableKey for Name {
    fn same_key(&self, other: &Self) -> (same: bool) {
        match (self, other) {
            (Name::Name(a), Name::Name(b)) => *a == *b,
            (Name::Number(a), Name::Number(b)) => *a == *b,
            _ => false,
        }
    }
}

} // verus!
