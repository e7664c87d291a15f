//! The capability lattice.
//!
//! Each trait names one capability of an element type, of an operation on it,
//! or of the two together. The primitive capabilities carry what an
//! implementer has to supply: the operation itself, a constant, an inverse,
//! and the proof of one law. The composite capabilities (monoid up to field)
//! ask for nothing: they are granted by the derivation rules in `blankets`,
//! and what they promise is spelled out and proved in `theorems`.
//!
//! Every executable member has a specification twin (`op` and `op_spec`,
//! `inverse` and `inverse_spec`): the twin says what the member returns, and
//! the laws are stated over the twins. A law is a proof obligation: whoever
//! declares a primitive capability for a type proves its law once, and
//! everything built on the lattice may rely on it. Nothing is checked when
//! the program runs.

use std::fmt::Debug;
use std::fmt::Display;
use vstd::prelude::*;
use vstd::std_specs::cmp::PartialEqSpec;

verus! {

/// An element of a set. Every value of the implementing type is a member.
pub trait El: Sized + Clone + Copy + Display + Debug + PartialEq {
    /// Law: `==` on elements is decided, and it is identity. Two elements
    /// compare equal exactly when they are the same member of the set.
    proof fn lemma_eq(x: Self, y: Self)
        ensures
            Self::obeys_eq_spec(),
            x.eq_spec(&y) <==> (x == y),
    ;
}

/// A binary operation on the set of `EL`. The implementing type is only a
/// tag: one element type can carry several operations, told apart by tag.
pub trait Op<EL: El> {
    /// What the operation yields on a pair of elements.
    spec fn op_spec(lhs: EL, rhs: EL) -> EL;

    /// Applies the operation. It is a function of its two operands alone.
    fn op(lhs: EL, rhs: EL) -> (res: EL)
        ensures
            res == Self::op_spec(lhs, rhs),
    ;
}

/// An operation that may be regrouped.
pub trait AssociativeOp<EL: El>: Op<EL> {
    /// Law: `(x op y) op z == x op (y op z)`.
    proof fn lemma_associative(x: EL, y: EL, z: EL)
        ensures
            Self::op_spec(Self::op_spec(x, y), z) == Self::op_spec(x, Self::op_spec(y, z)),
    ;
}

/// An operation whose operands may be swapped.
pub trait CommutativeOp<EL: El>: Op<EL> {
    /// Law: `x op y == y op x`.
    proof fn lemma_commutative(x: EL, y: EL)
        ensures
            Self::op_spec(x, y) == Self::op_spec(y, x),
    ;
}

/// An operation (the implementing tag, read as multiplication) that
/// distributes over the operation `ADD`.
pub trait DistributiveOp<EL: El, ADD: Op<EL>>: Op<EL> {
    /// Law: `x * (y + z) == x * y + x * z`.
    proof fn lemma_distributive(x: EL, y: EL, z: EL)
        ensures
            Self::op_spec(x, ADD::op_spec(y, z)) == ADD::op_spec(
                Self::op_spec(x, y),
                Self::op_spec(x, z),
            ),
    ;
}

/// An element type with a neutral element for the operation `OP`.
pub trait NeutralEl<OP: Op<Self>>: El {
    /// The neutral element of `OP`.
    const NEUTRAL_ELEMENT: Self;

    /// Law: combining with the neutral element, from either side, changes
    /// nothing.
    proof fn lemma_neutral(x: Self)
        ensures
            OP::op_spec(x, Self::NEUTRAL_ELEMENT) == x,
            OP::op_spec(Self::NEUTRAL_ELEMENT, x) == x,
    ;
}

/// A monoid: an associative operation with a neutral element.
pub trait MonoidEl<OP: AssociativeOp<Self>>: NeutralEl<OP> {
}

/// An element type in which every element has an inverse under `OP`.
pub trait InverseEl<OP: Op<Self>>: NeutralEl<OP> {
    /// The inverse of `self` under `OP`.
    spec fn inverse_spec(&self) -> Self;

    /// Computes the inverse of `self` under `OP`.
    fn inverse(&self) -> (res: Self)
        ensures
            res == self.inverse_spec(),
    ;

    /// Law: an element and its inverse combine, in either order, to the
    /// neutral element.
    proof fn lemma_inverse(x: Self)
        ensures
            OP::op_spec(x, x.inverse_spec()) == Self::NEUTRAL_ELEMENT,
            OP::op_spec(x.inverse_spec(), x) == Self::NEUTRAL_ELEMENT,
    ;
}

/// A group: a monoid in which every element has an inverse.
pub trait GroupEl<OP: AssociativeOp<Self>>: MonoidEl<OP> + InverseEl<OP> {
}

/// A group of finitely many elements.
pub trait FiniteGroupEl<OP: AssociativeOp<Self>>: GroupEl<OP> {
    /// The number of elements of the group.
    const GROUP_ORDER: usize;

    /// An order, left to the implementer: whether it is that of the group or
    /// that of `self` within it is not settled, so no contract is put on it.
    fn order(&self) -> usize;
}

/// A commutative group.
pub trait AbelianGroupEl<OP: AssociativeOp<Self> + CommutativeOp<Self>>: GroupEl<OP> {
}

/// A ring: a commutative group under `ADD`, a monoid under `MUL`, and `MUL`
/// distributes over `ADD`.
pub trait RingEl<
    ADD: AssociativeOp<Self> + CommutativeOp<Self>,
    MUL: AssociativeOp<Self> + DistributiveOp<Self, ADD>,
>: AbelianGroupEl<ADD> + MonoidEl<MUL> {
    /// The neutral element of addition.
    const ZERO: Self = <Self as NeutralEl<ADD>>::NEUTRAL_ELEMENT;

    /// The neutral element of multiplication.
    const ONE: Self = <Self as NeutralEl<MUL>>::NEUTRAL_ELEMENT;
}

/// A ring whose multiplication is commutative.
pub trait CommutativeRingEl<
    ADD: AssociativeOp<Self> + CommutativeOp<Self>,
    MUL: AssociativeOp<Self> + CommutativeOp<Self> + DistributiveOp<Self, ADD>,
>: RingEl<ADD, MUL> {
}

/// A commutative ring in which a product is zero only if a factor is.
pub trait NoZerodivisorEl<
    ADD: AssociativeOp<Self> + CommutativeOp<Self>,
    MUL: AssociativeOp<Self> + CommutativeOp<Self> + DistributiveOp<Self, ADD>,
>: CommutativeRingEl<ADD, MUL> {
    /// Law: there are no zero divisors.
    proof fn lemma_no_zerodivisor(x: Self, y: Self)
        requires
            MUL::op_spec(x, y) == <Self as RingEl<ADD, MUL>>::ZERO,
        ensures
            x == <Self as RingEl<ADD, MUL>>::ZERO || y == <Self as RingEl<ADD, MUL>>::ZERO,
    ;
}

/// An integral domain: a commutative ring without zero divisors.
pub trait IntegralDomainEl<
    ADD: AssociativeOp<Self> + CommutativeOp<Self>,
    MUL: AssociativeOp<Self> + CommutativeOp<Self> + DistributiveOp<Self, ADD>,
>: NoZerodivisorEl<ADD, MUL> {
}

/// An integral domain in which every element but zero has an inverse under
/// multiplication, so that division by a non-zero element is possible.
pub trait NonzeroMultiplicativeUnitEl<
    ADD: AssociativeOp<Self> + CommutativeOp<Self>,
    MUL: AssociativeOp<Self> + CommutativeOp<Self> + DistributiveOp<Self, ADD>,
>: IntegralDomainEl<ADD, MUL> {
    /// The inverse of `self` under multiplication. It means nothing for zero.
    spec fn multiplicative_inverse_spec(&self) -> Self;

    /// Computes the inverse of `self` under multiplication. The caller sees
    /// to it that `self` is not zero.
    fn multiplicative_inverse(&self) -> (res: Self)
        requires
            *self != <Self as RingEl<ADD, MUL>>::ZERO,
        ensures
            res == self.multiplicative_inverse_spec(),
    ;

    /// Law: a non-zero element and its multiplicative inverse multiply, in
    /// either order, to one.
    proof fn lemma_multiplicative_inverse(x: Self)
        requires
            x != <Self as RingEl<ADD, MUL>>::ZERO,
        ensures
            MUL::op_spec(x, x.multiplicative_inverse_spec()) == <Self as RingEl<ADD, MUL>>::ONE,
            MUL::op_spec(x.multiplicative_inverse_spec(), x) == <Self as RingEl<ADD, MUL>>::ONE,
    ;
}

/// A field: a commutative ring without zero divisors in which every element
/// but zero has a multiplicative inverse.
pub trait FieldEl<
    ADD: AssociativeOp<Self> + CommutativeOp<Self>,
    MUL: AssociativeOp<Self> + CommutativeOp<Self> + DistributiveOp<Self, ADD>,
>: NonzeroMultiplicativeUnitEl<ADD, MUL> {
}

/// `ZERO` and `ONE` of a ring are the neutral elements of its addition and
/// of its multiplication.
pub proof fn lemma_zero_and_one<EL, ADD, MUL>() where
    EL: RingEl<ADD, MUL>,
    ADD: AssociativeOp<EL> + CommutativeOp<EL>,
    MUL: AssociativeOp<EL> + DistributiveOp<EL, ADD>,

    ensures
        <EL as RingEl<ADD, MUL>>::ZERO == <EL as NeutralEl<ADD>>::NEUTRAL_ELEMENT,
        <EL as RingEl<ADD, MUL>>::ONE == <EL as NeutralEl<MUL>>::NEUTRAL_ELEMENT,
{
}

} // verus!
