//! A symbolic value that is either a bit-vector or a boolean, and the
//! conversions between the two.

use crate::symbolic::{SymbolicBV, SymbolicBool};
use crate::table::Duplicate;
use crate::term::Term;
use vstd::prelude::*;
use vstd::std_specs::cmp::PartialEqSpecImpl;
use vstd::std_specs::convert::FromSpecImpl;

verus! {

/// A symbolic value of either sort: what a variable can be bound to.
pub enum BVorBool<'ctx> {
    BV(SymbolicBV<'ctx>),
    Bool(SymbolicBool<'ctx>),
}

impl<'ctx> View for BVorBool<'ctx> {
    type V = Term;

    /// The term that the value denotes.
    open spec fn view(&self) -> Term {
        match self {
            BVorBool::BV(bv) => Term::BV(bv@),
            BVorBool::Bool(b) => Term::Bool(b@),
        }
    }
}

impl<'ctx> From<SymbolicBV<'ctx>> for BVorBool<'ctx> {
    fn from(bv: SymbolicBV<'ctx>) -> (value: BVorBool<'ctx>) {
        BVorBool::BV(bv)
    }
}

impl<'ctx> FromSpecImpl<SymbolicBV<'ctx>> for BVorBool<'ctx> {
    open spec fn obeys_from_spec() -> bool {
        true
    }

    open spec fn from_spec(bv: SymbolicBV<'ctx>) -> BVorBool<'ctx> {
        BVorBool::BV(bv)
    }
}

impl<'ctx> From<SymbolicBool<'ctx>> for BVorBool<'ctx> {
    fn from(b: SymbolicBool<'ctx>) -> (value: BVorBool<'ctx>) {
        BVorBool::Bool(b)
    }
}

impl<'ctx> FromSpecImpl<SymbolicBool<'ctx>> for BVorBool<'ctx> {
    open spec fn obeys_from_spec() -> bool {
        true
    }

    open spec fn from_spec(b: SymbolicBool<'ctx>) -> BVorBool<'ctx> {
        BVorBool::Bool(b)
    }
}

/// Whether two values are of the same sort and hold one and the same term
/// of one and the same context.
pub open spec fn same_value<'ctx>(a: BVorBool<'ctx>, b: BVorBool<'ctx>) -> bool {
    match (a, b) {
        (BVorBool::BV(a), BVorBool::BV(b)) => a.context() == b.context() && a.z3_ast()
            == b.z3_ast(),
        (BVorBool::Bool(a), BVorBool::Bool(b)) => a.context() == b.context() && a.z3_ast()
            == b.z3_ast(),
        _ => false,
    }
}

impl<'ctx> PartialEq for BVorBool<'ctx> {
    /// Two values are equal if they are of the same sort and hold one and
    /// the same term of one and the same context.
    fn eq(&self, other: &Self) -> (equal: bool) {
        match (self, other) {
            (BVorBool::BV(a), BVorBool::BV(b)) => *a == *b,
            (BVorBool::Bool(a), BVorBool::Bool(b)) => *a == *b,
            _ => false,
        }
    }
}

impl<'ctx> Eq for BVorBool<'ctx> {

}

impl<'ctx> PartialEqSpecImpl for BVorBool<'ctx> {
    open spec fn obeys_eq_spec() -> bool {
        true
    }

    open spec fn eq_spec(&self, other: &Self) -> bool {
        same_value(*self, *other)
    }
}

impl<'ctx> Duplicate for BVorBool<'ctx> {
    fn duplicated(&self) -> (copy: Self) {
        self.clone()
    }
}

impl<'ctx> Clone for BVorBool<'ctx> {
    fn clone(&self) -> (copy: Self)
        ensures
            copy == *self,
    {
        match self {
            BVorBool::BV(bv) => BVorBool::BV(bv.clone()),
            BVorBool::Bool(b) => BVorBool::Bool(b.clone()),
        }
    }
}

/// Whether `text` is `opening`, some text and ` )`.
pub open spec fn is_framed(opening: Seq<char>, text: Seq<char>) -> bool {
    exists|inner: Seq<char>| text == opening + inner + seq![' ', ')']
}

impl<'ctx> BVorBool<'ctx> {
    /// A text that shows the value: `BV( ` or `Bool( `, the term as the
    /// solver prints it, and ` )`.
    pub fn describe(&self) -> (text: String)
        ensures
            self is BV ==> is_framed(seq!['B', 'V', '(', ' '], text@),
            self is Bool ==> is_framed(seq!['B', 'o', 'o', 'l', '(', ' '], text@),
    {
        proof {
            reveal_strlit("BV( ");
            reveal_strlit("Bool( ");
            reveal_strlit(" )");
        }
        let (mut text, inner) = match self {
            BVorBool::BV(bv) => (String::from_str("BV( "), bv.to_text()),
            BVorBool::Bool(b) => (String::from_str("Bool( "), b.to_text()),
        };
        text.append(inner.as_str());
        text.append(" )");
        proof {
            assert(" )"@ =~= seq![' ', ')']);
            if self is BV {
                assert("BV( "@ =~= seq!['B', 'V', '(', ' ']);
                assert(text@ == seq!['B', 'V', '(', ' '] + inner@ + seq![' ', ')']);
            } else {
                assert("Bool( "@ =~= seq!['B', 'o', 'o', 'l', '(', ' ']);
                assert(text@ == seq!['B', 'o', 'o', 'l', '(', ' '] + inner@ + seq![' ', ')']);
            }
        }
        text
    }

    /// The context that the value's term lives in.
    pub open spec fn context(&self) -> z3::Context {
        match self {
            BVorBool::BV(bv) => bv.context(),
            BVorBool::Bool(b) => b.context(),
        }
    }

    /// Whether the value is a bit-vector.
    pub fn is_bv(&self) -> (yes: bool)
        ensures
            yes == (self is BV),
    {
        match self {
            BVorBool::BV(_) => true,
            _ => false,
        }
    }

    /// Whether the value is a boolean.
    pub fn is_bool(&self) -> (yes: bool)
        ensures
            yes == (self is Bool),
    {
        match self {
            BVorBool::Bool(_) => true,
            _ => false,
        }
    }

    /// The bit-vector that the value is.
    pub fn as_bv(&self) -> (bv: &SymbolicBV<'ctx>)
        requires
            self is BV,
        ensures
            *self == BVorBool::BV(*bv),
    {
        match self {
            BVorBool::BV(bv) => bv,
            _ => unreached(),
        }
    }

    /// The boolean that the value is.
    pub fn as_bool(&self) -> (b: &SymbolicBool<'ctx>)
        requires
            self is Bool,
        ensures
            *self == BVorBool::Bool(*b),
    {
        match self {
            BVorBool::Bool(b) => b,
            _ => unreached(),
        }
    }

    /// The bit-vector that the value is.
    pub fn into_bv(self) -> (bv: SymbolicBV<'ctx>)
        requires
            self is BV,
        ensures
            self == BVorBool::BV(bv),
    {
        match self {
            BVorBool::BV(bv) => bv,
            _ => unreached(),
        }
    }

    /// The boolean that the value is.
    pub fn into_bool(self) -> (b: SymbolicBool<'ctx>)
        requires
            self is Bool,
        ensures
            self == BVorBool::Bool(b),
    {
        match self {
            BVorBool::Bool(b) => b,
            _ => unreached(),
        }
    }

    /// The value as a bit-vector. A bit-vector is returned as it is. A
    /// boolean becomes a bit-vector of one bit: 1 if it holds, else 0.
    ///
    /// `ctx` is the context of the value.
    pub fn to_bv(self, ctx: &'ctx z3::Context) -> (bv: SymbolicBV<'ctx>)
        requires
            self.context() == *ctx,
        ensures
            bv@ == self@.to_bv(),
            bv.context() == *ctx,
            self matches BVorBool::BV(this) ==> bv == this,
    {
        match self {
            BVorBool::BV(bv) => bv,
            BVorBool::Bool(b) => b.ite(
                &SymbolicBV::from_u64(ctx, 1, 1),
                &SymbolicBV::from_u64(ctx, 0, 1),
            ),
        }
    }

    /// Whether the value can be taken as a boolean: a boolean can, and so
    /// can a bit-vector of exactly one bit.
    pub fn converts_to_bool(&self) -> (yes: bool)
        ensures
            yes == self@.converts_to_bool(),
    {
        match self {
            BVorBool::Bool(_) => true,
            BVorBool::BV(bv) => bv.get_size() == 1,
        }
    }

    /// The value as a boolean. A boolean is returned as it is. A
    /// bit-vector of one bit becomes the boolean that says that it is 1.
    /// A bit-vector of another width is no boolean.
    ///
    /// `ctx` is the context of the value.
    pub fn to_bool(self, ctx: &'ctx z3::Context) -> (b: SymbolicBool<'ctx>)
        requires
            self.context() == *ctx,
            self@.converts_to_bool(),
        ensures
            b@ == self@.to_bool(),
            b.context() == *ctx,
            self matches BVorBool::Bool(this) ==> b == this,
    {
        match self {
            BVorBool::Bool(b) => b,
            BVorBool::BV(bv) => {
                if bv.get_size() == 1 {
                    bv.equals(&SymbolicBV::from_u64(ctx, 1, 1))
                } else {
                    unreached()
                }
            },
        }
    }
}

} // verus!
