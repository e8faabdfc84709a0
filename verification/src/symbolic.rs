//! Symbolic values of the Z3 solver.
//!
//! A [`SymbolicBV`] or [`SymbolicBool`] holds a term of Z3 together with a
//! description of that term and with the context that the term lives in.
//! Z3 makes the terms; the functions of this module that call it say, in
//! their contracts, which term each call returns. Those contracts are not
//! proved: they restate what Z3 documents.

use crate::symbol::nul_free;
use crate::table::Duplicate;
use crate::term::{BoolTerm, BvTerm};
use vstd::prelude::*;
use vstd::std_specs::cmp::PartialEqSpecImpl;

verus! {

#[verifier::external_type_specification]
#[verifier::external_body]
pub struct ExContext(z3::Context);

#[verifier::external_type_specification]
#[verifier::external_body]
pub struct ExBV<'ctx>(z3::ast::BV<'ctx>);

#[verifier::external_type_specification]
#[verifier::external_body]
pub struct ExBool<'ctx>(z3::ast::Bool<'ctx>);

/// The widest bit-vector that the library makes: 2^23 bits, which is the
/// widest integer type of LLVM IR.
///
/// Z3 keeps a table with a slot for each width up to the widest sort that
/// was made. Growing that table fails on widths of about 2^29 bits and
/// more, and the largest width of all sends it past the end of the table.
pub const MAX_WIDTH: u32 = 0x80_0000;

/// Calls `eq` of `z3::Context`: whether the two are one and the same
/// context.
#[verifier::external_body]
pub(crate) fn same_context(a: &z3::Context, b: &z3::Context) -> (same: bool)
    ensures
        same == (*a == *b),
{
    a == b
}

/// A symbolic bit-vector: a bit-vector term of Z3.
pub struct SymbolicBV<'ctx> {
    ast: z3::ast::BV<'ctx>,
    term: Ghost<BvTerm>,
    ctx: &'ctx z3::Context,
}

/// A symbolic boolean: a boolean term of Z3.
pub struct SymbolicBool<'ctx> {
    ast: z3::ast::Bool<'ctx>,
    term: Ghost<BoolTerm>,
    ctx: &'ctx z3::Context,
}

impl<'ctx> View for SymbolicBV<'ctx> {
    type V = BvTerm;

    /// The term that the value denotes.
    closed spec fn view(&self) -> BvTerm {
        self.term@
    }
}

impl<'ctx> View for SymbolicBool<'ctx> {
    type V = BoolTerm;

    /// The term that the value denotes.
    closed spec fn view(&self) -> BoolTerm {
        self.term@
    }
}

impl<'ctx> SymbolicBV<'ctx> {
    /// The context that the term lives in.
    pub closed spec fn context(&self) -> z3::Context {
        *self.ctx
    }

    /// The term of Z3 that the value holds.
    pub closed spec fn z3_ast(&self) -> z3::ast::BV<'ctx> {
        self.ast
    }

    /// The term of Z3 that the value holds.
    pub fn ast(&self) -> (ast: &z3::ast::BV<'ctx>)
        ensures
            *ast == self.z3_ast(),
    {
        &self.ast
    }

    /// Calls `z3::ast::BV::new_const`: the result is the bit-vector
    /// constant of `ctx` with the name `symbol` and `bits` bits. Z3 asks
    /// for at least one bit and fails on the widest sorts, and the name is
    /// handed over as a C string, which can hold no NUL character.
    #[verifier::external_body]
    pub(crate) fn new_const(ctx: &'ctx z3::Context, symbol: &str, bits: u32) -> (bv: Self)
        requires
            0 < bits <= MAX_WIDTH,
            nul_free(symbol@),
        ensures
            bv@ == (BvTerm::Const { symbol: symbol@, bits }),
            bv.context() == *ctx,
    {
        SymbolicBV {
            ast: z3::ast::BV::new_const(ctx, symbol, bits),
            term: Ghost(BvTerm::Const { symbol: symbol@, bits }),
            ctx,
        }
    }

    /// Calls `z3::ast::BV::from_u64`: the result is the numeral `value` of
    /// `ctx` as a bit-vector of `bits` bits. Z3 asks for at least one bit
    /// and fails on the widest sorts.
    #[verifier::external_body]
    pub(crate) fn from_u64(ctx: &'ctx z3::Context, value: u64, bits: u32) -> (bv: Self)
        requires
            0 < bits <= MAX_WIDTH,
        ensures
            bv@ == (BvTerm::Literal { value, bits }),
            bv.context() == *ctx,
    {
        SymbolicBV {
            ast: z3::ast::BV::from_u64(ctx, value, bits),
            term: Ghost(BvTerm::Literal { value, bits }),
            ctx,
        }
    }

    /// Calls `z3::ast::BV::get_size`: the result is the number of bits of
    /// the bit-vector's sort.
    #[verifier::external_body]
    pub(crate) fn get_size(&self) -> (bits: u32)
        ensures
            bits == self@.width(),
    {
        self.ast.get_size()
    }

    /// Calls `z3::ast::Ast::_eq`: the result is the term that says that
    /// the two bit-vectors are equal. The call fails unless the two are of
    /// one sort, and Z3 takes terms of one context only.
    #[verifier::external_body]
    pub(crate) fn equals(&self, other: &SymbolicBV<'ctx>) -> (equal: SymbolicBool<'ctx>)
        requires
            self@.width() == other@.width(),
            self.context() == other.context(),
        ensures
            equal@ == (BoolTerm::Equal { left: Box::new(self@), right: Box::new(other@) }),
            equal.context() == self.context(),
    {
        SymbolicBool {
            ast: z3::ast::Ast::_eq(&self.ast, &other.ast),
            term: Ghost(BoolTerm::Equal { left: Box::new(self@), right: Box::new(other@) }),
            ctx: self.ctx,
        }
    }

    /// Calls `fmt` of `z3::ast::BV`: the result is the text in which Z3
    /// prints the term. Nothing is said of the text: how Z3 prints is a
    /// setting of the context.
    #[verifier::external_body]
    pub(crate) fn to_text(&self) -> (text: String) {
        format!("{}", self.ast)
    }

    /// Calls `eq` of `z3::ast::BV`: whether the two are one and the same
    /// term. The call fails on terms of different contexts.
    #[verifier::external_body]
    pub(crate) fn same_ast(&self, other: &SymbolicBV<'ctx>) -> (same: bool)
        requires
            self.context() == other.context(),
        ensures
            same == (self.z3_ast() == other.z3_ast()),
    {
        self.ast == other.ast
    }

    /// Calls `clone` of `z3::ast::BV`: the result holds the same term of
    /// the same context.
    #[verifier::external_body]
    pub(crate) fn duplicate(&self) -> (copy: Self)
        ensures
            copy == *self,
    {
        SymbolicBV { ast: self.ast.clone(), term: Ghost(self.term@), ctx: self.ctx }
    }
}

impl<'ctx> SymbolicBool<'ctx> {
    /// The context that the term lives in.
    pub closed spec fn context(&self) -> z3::Context {
        *self.ctx
    }

    /// The term of Z3 that the value holds.
    pub closed spec fn z3_ast(&self) -> z3::ast::Bool<'ctx> {
        self.ast
    }

    /// The term of Z3 that the value holds.
    pub fn ast(&self) -> (ast: &z3::ast::Bool<'ctx>)
        ensures
            *ast == self.z3_ast(),
    {
        &self.ast
    }

    /// Calls `z3::ast::Bool::new_const`: the result is the boolean
    /// constant of `ctx` with the name `symbol`. The name is handed over
    /// as a C string, which can hold no NUL character.
    #[verifier::external_body]
    pub(crate) fn new_const(ctx: &'ctx z3::Context, symbol: &str) -> (b: Self)
        requires
            nul_free(symbol@),
        ensures
            b@ == (BoolTerm::Const { symbol: symbol@ }),
            b.context() == *ctx,
    {
        SymbolicBool {
            ast: z3::ast::Bool::new_const(ctx, symbol),
            term: Ghost(BoolTerm::Const { symbol: symbol@ }),
            ctx,
        }
    }

    /// Calls `z3::ast::Bool::ite`: the result is the term that is
    /// `on_true` if this boolean holds and `on_false` if it does not. Z3
    /// asks for two branches of one sort, and takes terms of one context
    /// only.
    #[verifier::external_body]
    pub(crate) fn ite(&self, on_true: &SymbolicBV<'ctx>, on_false: &SymbolicBV<'ctx>) -> (chosen:
        SymbolicBV<'ctx>)
        requires
            on_true@.width() == on_false@.width(),
            self.context() == on_true.context(),
            self.context() == on_false.context(),
        ensures
            chosen@ == (BvTerm::Select {
                cond: Box::new(self@),
                on_true: Box::new(on_true@),
                on_false: Box::new(on_false@),
            }),
            chosen.context() == self.context(),
    {
        SymbolicBV {
            ast: self.ast.ite(&on_true.ast, &on_false.ast),
            term: Ghost(
                BvTerm::Select {
                    cond: Box::new(self@),
                    on_true: Box::new(on_true@),
                    on_false: Box::new(on_false@),
                },
            ),
            ctx: self.ctx,
        }
    }

    /// Calls `fmt` of `z3::ast::Bool`: the result is the text in which Z3
    /// prints the term. Nothing is said of the text: how Z3 prints is a
    /// setting of the context.
    #[verifier::external_body]
    pub(crate) fn to_text(&self) -> (text: String) {
        format!("{}", self.ast)
    }

    /// Calls `eq` of `z3::ast::Bool`: whether the two are one and the same
    /// term. The call fails on terms of different contexts.
    #[verifier::external_body]
    pub(crate) fn same_ast(&self, other: &SymbolicBool<'ctx>) -> (same: bool)
        requires
            self.context() == other.context(),
        ensures
            same == (self.z3_ast() == other.z3_ast()),
    {
        self.ast == other.ast
    }

    /// Calls `clone` of `z3::ast::Bool`: the result holds the same term of
    /// the same context.
    #[verifier::external_body]
    pub(crate) fn duplicate(&self) -> (copy: Self)
        ensures
            copy == *self,
    {
        SymbolicBool { ast: self.ast.clone(), term: Ghost(self.term@), ctx: self.ctx }
    }
}

impl<'ctx> PartialEq for SymbolicBV<'ctx> {
    /// Two symbolic bit-vectors are equal if they hold one and the same
    /// term of one and the same context.
    fn eq(&self, other: &Self) -> (equal: bool) {
        same_context(self.ctx, other.ctx) && self.same_ast(other)
    }
}

impl<'ctx> Eq for SymbolicBV<'ctx> {

}

impl<'ctx> PartialEqSpecImpl for SymbolicBV<'ctx> {
    open spec fn obeys_eq_spec() -> bool {
        true
    }

    open spec fn eq_spec(&self, other: &Self) -> bool {
        self.context() == other.context() && self.z3_ast() == other.z3_ast()
    }
}

impl<'ctx> PartialEq for SymbolicBool<'ctx> {
    /// Two symbolic booleans are equal if they hold one and the same term
    /// of one and the same context.
    fn eq(&self, other: &Self) -> (equal: bool) {
        same_context(self.ctx, other.ctx) && self.same_ast(other)
    }
}

impl<'ctx> Eq for SymbolicBool<'ctx> {

}

impl<'ctx> PartialEqSpecImpl for SymbolicBool<'ctx> {
    open spec fn obeys_eq_spec() -> bool {
        true
    }

    open spec fn eq_spec(&self, other: &Self) -> bool {
        self.context() == other.context() && self.z3_ast() == other.z3_ast()
    }
}

impl<'ctx> Duplicate for SymbolicBV<'ctx> {
    fn duplicated(&self) -> (copy: Self) {
        self.duplicate()
    }
}

impl<'ctx> Duplicate for SymbolicBool<'ctx> {
    fn duplicated(&self) -> (copy: Self) {
        self.duplicate()
    }
}

impl<'ctx> Clone for SymbolicBV<'ctx> {
    fn clone(&self) -> (copy: Self)
        ensures
            copy == *self,
    {
        self.duplicate()
    }
}

impl<'ctx> Clone for SymbolicBool<'ctx> {
    fn clone(&self) -> (copy: Self)
        ensures
            copy == *self,
    {
        self.duplicate()
    }
}

} // verus!
