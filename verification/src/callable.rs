//! What a function pointer can point to.

use crate::table::{Duplicate, TableKey};
use vstd::prelude::*;
use vstd::std_specs::cmp::PartialEqSpecImpl;

verus! {

/// The identity of a function hook: a native callback that stands in for a
/// function. Two hooks are the same exactly when their identities are
/// equal.
#[derive(Clone, Copy, Debug, PartialEq, Eq, Structural, Hash)]
pub struct HookId {
    pub id: usize,
}

impl View for HookId {
    type V = HookId;

    open spec fn view(&self) -> HookId {
        *self
    }
}

impl Duplicate for HookId {
    fn duplicated(&self) -> (copy: Self) {
        *self
    }
}

impl TableKey for HookId {
    fn same_key(&self, other: &Self) -> (same: bool) {
        self.id == other.id
    }
}

/// Both functions and function hooks can be given addresses, and a
/// function pointer can point to either. A function is known by its name:
/// no two functions share one.
#[derive(Debug, Hash)]
pub enum Callable {
    LLVMFunction(String),
    FunctionHook(HookId),
}

/// What a [`Callable`] stands for in specifications.
pub ghost enum CallableView {
    LLVMFunction(Seq<char>),
    FunctionHook(HookId),
}

impl View for Callable {
    type V = CallableView;

    open spec fn view(&self) -> CallableView {
        match self {
            Callable::LLVMFunction(name) => CallableView::LLVMFunction(name@),
            Callable::FunctionHook(hook) => CallableView::FunctionHook(*hook),
        }
    }
}

impl Clone for Callable {
    fn clone(&self) -> (copy: Self)
        ensures
            copy == *self,
    {
        match self {
            Callable::LLVMFunction(name) => Callable::LLVMFunction(name.clone()),
            Callable::FunctionHook(hook) => Callable::FunctionHook(*hook),
        }
    }
}

impl Duplicate for Callable {
    fn duplicated(&self) -> (copy: Self) {
        self.clone()
    }
}

impl PartialEq for Callable {
    fn eq(&self, other: &Self) -> (equal: bool) {
        match (self, other) {
            (Callable::LLVMFunction(a), Callable::LLVMFunction(b)) => *a == *b,
            (Callable::FunctionHook(a), Callable::FunctionHook(b)) => a.id == b.id,
            _ => false,
        }
    }
}

impl Eq for Callable {

}

impl PartialEqSpecImpl for Callable {
    open spec fn obeys_eq_spec() -> bool {
        true
    }

    open spec fn eq_spec(&self, other: &Self) -> bool {
        self@ == other@
    }
}

/// The text in which `Debug` shows a string: the string in double quotes,
/// with the characters escaped that `Debug` escapes.
pub uninterp spec fn debug_quoted(text: Seq<char>) -> Seq<char>;

/// Calls `fmt` of `Debug` for `str`: the result is the text in quotes,
/// with the characters escaped that `Debug` escapes. What it is depends
/// on the text alone.
#[verifier::external_body]
fn debug_text(text: &str) -> (quoted: String)
    ensures
        quoted@ == debug_quoted(text@),
{
    format!("{:?}", text)
}

impl Callable {
    /// A short text that names the callable, where `quoted_name` is the
    /// function's name as it is to be shown.
    pub fn describe_with(&self, quoted_name: &str) -> (text: String)
        ensures
            text@ == describe_callable(self@, quoted_name@),
    {
        proof {
            reveal_strlit("<Function ");
            reveal_strlit(">");
            reveal_strlit("<FunctionHook>");
        }
        match self {
            Callable::LLVMFunction(_) => {
                let mut text = String::from_str("<Function ");
                text.append(quoted_name);
                text.append(">");
                assert(text@ =~= describe_callable(self@, quoted_name@));
                text
            },
            Callable::FunctionHook(_) => {
                let text = String::from_str("<FunctionHook>");
                assert(text@ =~= describe_callable(self@, quoted_name@));
                text
            },
        }
    }

    /// A short text that names the callable: `<Function "main">` for the
    /// function `main`, with the name as `Debug` shows a string, and
    /// `<FunctionHook>` for a hook.
    pub fn describe(&self) -> (text: String)
        ensures
            text@ == description(self@),
    {
        match self {
            Callable::LLVMFunction(name) => {
                let quoted_name = debug_text(name.as_str());
                self.describe_with(quoted_name.as_str())
            },
            Callable::FunctionHook(_) => self.describe_with(""),
        }
    }
}

/// The text that names a callable: `<Function `, the function's name as
/// `Debug` shows it and `>`, or `<FunctionHook>`.
pub open spec fn description(callable: CallableView) -> Seq<char> {
    match callable {
        CallableView::LLVMFunction(name) => describe_callable(callable, debug_quoted(name)),
        CallableView::FunctionHook(_) => describe_callable(callable, Seq::empty()),
    }
}

/// The text that names a callable: `<Function `, the function's name as
/// it is to be shown and `>`, or `<FunctionHook>`.
pub open spec fn describe_callable(callable: CallableView, quoted_name: Seq<char>) -> Seq<char> {
    match callable {
        CallableView::LLVMFunction(_) => seq!['<', 'F', 'u', 'n', 'c', 't', 'i', 'o', 'n', ' ']
            + quoted_name + seq!['>'],
        CallableView::FunctionHook(_) => seq![
            '<',
            'F',
            'u',
            'n',
            'c',
            't',
            'i',
            'o',
            'n',
            'H',
            'o',
            'o',
            'k',
            '>',
        ],
    }
}

} // verus!
