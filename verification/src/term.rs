//! The terms that symbolic values denote.
//!
//! A symbolic value is a handle on a term of the solver. What the term is
//! cannot be seen through the handle, so each symbolic value of this
//! library comes with a description of its term: a [`BvTerm`] for a
//! bit-vector, a [`BoolTerm`] for a boolean. This module defines the
//! descriptions and what they mean.

use vstd::arithmetic::power2::{lemma2_to64, pow2};
use vstd::prelude::*;

verus! {

/// A term of bit-vector sort.
pub ghost enum BvTerm {
    /// The constant `symbol` of `bits` bits.
    Const { symbol: Seq<char>, bits: u32 },
    /// The number `value`, as a bit-vector of `bits` bits.
    Literal { value: u64, bits: u32 },
    /// `on_true` if `cond` holds, else `on_false`.
    Select { cond: Box<BoolTerm>, on_true: Box<BvTerm>, on_false: Box<BvTerm> },
}

/// A term of boolean sort.
pub ghost enum BoolTerm {
    /// The boolean constant `symbol`.
    Const { symbol: Seq<char> },
    /// Whether `left` and `right` are equal.
    Equal { left: Box<BvTerm>, right: Box<BvTerm> },
}

/// A term of either sort.
pub ghost enum Term {
    BV(BvTerm),
    Bool(BoolTerm),
}

impl BvTerm {
    /// The number of bits of the term.
    pub open spec fn width(self) -> u32
        decreases self,
    {
        match self {
            BvTerm::Const { bits, .. } => bits,
            BvTerm::Literal { bits, .. } => bits,
            BvTerm::Select { on_true, .. } => on_true.width(),
        }
    }

    /// The bit-vector 1 of one bit.
    pub open spec fn one_bit_one() -> BvTerm {
        BvTerm::Literal { value: 1, bits: 1 }
    }

    /// The bit-vector 0 of one bit.
    pub open spec fn one_bit_zero() -> BvTerm {
        BvTerm::Literal { value: 0, bits: 1 }
    }

    /// The boolean that a bit-vector of one bit stands for: whether it is
    /// equal to 1.
    pub open spec fn as_bool(self) -> BoolTerm {
        BoolTerm::Equal { left: Box::new(self), right: Box::new(BvTerm::one_bit_one()) }
    }
}

impl BoolTerm {
    /// The bit-vector of one bit that stands for a boolean: 1 if it holds,
    /// else 0.
    pub open spec fn as_bv(self) -> BvTerm {
        BvTerm::Select {
            cond: Box::new(self),
            on_true: Box::new(BvTerm::one_bit_one()),
            on_false: Box::new(BvTerm::one_bit_zero()),
        }
    }
}

impl Term {
    /// The term as a bit-vector: itself if it is one, else the bit-vector
    /// of one bit that stands for the boolean.
    pub open spec fn to_bv(self) -> BvTerm {
        match self {
            Term::BV(term) => term,
            Term::Bool(term) => term.as_bv(),
        }
    }

    /// Whether the term can be taken as a boolean: a boolean can, and so
    /// can a bit-vector of exactly one bit.
    pub open spec fn converts_to_bool(self) -> bool {
        match self {
            Term::BV(term) => term.width() == 1,
            Term::Bool(_) => true,
        }
    }

    /// The term as a boolean: itself if it is one, else the boolean that
    /// the bit-vector of one bit stands for.
    pub open spec fn to_bool(self) -> BoolTerm {
        match self {
            Term::BV(term) => term.as_bool(),
            Term::Bool(term) => term,
        }
    }
}

/// What the constants stand for: a number for each bit-vector constant, a
/// truth value for each boolean constant.
pub ghost struct Interpretation {
    pub bitvectors: spec_fn(Seq<char>, u32) -> nat,
    pub booleans: spec_fn(Seq<char>) -> bool,
}

/// The number that a bit-vector term stands for under an interpretation of
/// the constants: a number below two to the power of the term's width.
pub open spec fn bv_value(term: BvTerm, interpretation: Interpretation) -> nat
    decreases term,
{
    match term {
        BvTerm::Const { symbol, bits } => (interpretation.bitvectors)(symbol, bits) % pow2(
            bits as nat,
        ),
        BvTerm::Literal { value, bits } => (value as nat) % pow2(bits as nat),
        BvTerm::Select { cond, on_true, on_false } => if bool_value(*cond, interpretation) {
            bv_value(*on_true, interpretation)
        } else {
            bv_value(*on_false, interpretation)
        },
    }
}

/// The truth value that a boolean term stands for under an interpretation
/// of the constants.
pub open spec fn bool_value(term: BoolTerm, interpretation: Interpretation) -> bool
    decreases term,
{
    match term {
        BoolTerm::Const { symbol } => (interpretation.booleans)(symbol),
        BoolTerm::Equal { left, right } => bv_value(*left, interpretation) == bv_value(
            *right,
            interpretation,
        ),
    }
}

/// The two literals of one bit stand for 1 and 0.
proof fn lemma_one_bit_literals(interpretation: Interpretation)
    ensures
        bv_value(BvTerm::one_bit_one(), interpretation) == 1,
        bv_value(BvTerm::one_bit_zero(), interpretation) == 0,
{
    lemma2_to64();
    assert(pow2(1u32 as nat) == 2);
    assert((1u64 as nat) % 2 == 1);
    assert((0u64 as nat) % 2 == 0);
}

/// A bit-vector of one bit, taken as a boolean, holds exactly when the
/// bit-vector is 1.
pub proof fn law_bit_as_boolean(term: BvTerm, interpretation: Interpretation)
    requires
        term.width() == 1,
    ensures
        bool_value(term.as_bool(), interpretation) == (bv_value(term, interpretation) == 1),
{
    lemma_one_bit_literals(interpretation);
}

/// A boolean, taken as a bit-vector, has one bit and is 1 if the boolean
/// holds and 0 if it does not.
pub proof fn law_boolean_as_bit(term: BoolTerm, interpretation: Interpretation)
    ensures
        term.as_bv().width() == 1,
        bv_value(term.as_bv(), interpretation) == (if bool_value(term, interpretation) {
            1nat
        } else {
            0nat
        }),
{
    lemma_one_bit_literals(interpretation);
    reveal_with_fuel(BvTerm::width, 2);
}

/// Taking a boolean as a bit-vector and that bit-vector as a boolean again
/// gives a boolean with the same truth value.
pub proof fn law_boolean_round_trip(term: BoolTerm, interpretation: Interpretation)
    ensures
        Term::BV(term.as_bv()).converts_to_bool(),
        bool_value(term.as_bv().as_bool(), interpretation) == bool_value(term, interpretation),
{
    law_boolean_as_bit(term, interpretation);
    law_bit_as_boolean(term.as_bv(), interpretation);
}

} // verus!
