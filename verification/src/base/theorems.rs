//! What the composite capabilities stand for, and theorems about them.
//!
//! A composite capability has no members of its own. What it promises is the
//! sum of the laws of its prerequisites: for each capability a predicate
//! spells that sum out, and a lemma shows that it holds of every element type
//! with the capability. The theorems that follow are proved from those laws.

use super::markers::{
    lemma_zero_and_one, AbelianGroupEl, AssociativeOp, CommutativeOp, CommutativeRingEl,
    DistributiveOp, El, FieldEl, GroupEl, IntegralDomainEl, InverseEl, MonoidEl, NeutralEl,
    NoZerodivisorEl, NonzeroMultiplicativeUnitEl, Op, RingEl,
};
use vstd::prelude::*;

verus! {

/// `OP` is associative on `EL`.
pub open spec fn associative<EL: El, OP: Op<EL>>() -> bool {
    forall|x: EL, y: EL, z: EL| #[trigger]
        OP::op_spec(OP::op_spec(x, y), z) == OP::op_spec(x, OP::op_spec(y, z))
}

/// `OP` is commutative on `EL`.
pub open spec fn commutative<EL: El, OP: Op<EL>>() -> bool {
    forall|x: EL, y: EL| #[trigger] OP::op_spec(x, y) == OP::op_spec(y, x)
}

/// `e` is neutral for `OP`, from either side.
pub open spec fn neutral<EL: El, OP: Op<EL>>(e: EL) -> bool {
    &&& forall|x: EL| #[trigger] OP::op_spec(x, e) == x
    &&& forall|x: EL| #[trigger] OP::op_spec(e, x) == x
}

/// The laws of a monoid: the operation is associative, and the neutral
/// element is neutral.
pub open spec fn monoid_laws<EL: MonoidEl<OP>, OP: AssociativeOp<EL>>() -> bool {
    &&& associative::<EL, OP>()
    &&& neutral::<EL, OP>(<EL as NeutralEl<OP>>::NEUTRAL_ELEMENT)
}

/// The laws of a group: those of a monoid, and every element combines with
/// its inverse, in either order, to the neutral element.
pub open spec fn group_laws<EL: GroupEl<OP>, OP: AssociativeOp<EL>>() -> bool {
    &&& monoid_laws::<EL, OP>()
    &&& forall|x: EL| #[trigger]
        OP::op_spec(x, <EL as InverseEl<OP>>::inverse_spec(&x)) == <
            EL as NeutralEl<OP>
        >::NEUTRAL_ELEMENT
    &&& forall|x: EL| #[trigger]
        OP::op_spec(<EL as InverseEl<OP>>::inverse_spec(&x), x) == <
            EL as NeutralEl<OP>
        >::NEUTRAL_ELEMENT
}

/// The laws of a commutative group.
pub open spec fn abelian_group_laws<EL, OP>() -> bool where
    EL: AbelianGroupEl<OP>,
    OP: AssociativeOp<EL> + CommutativeOp<EL>,
 {
    &&& group_laws::<EL, OP>()
    &&& commutative::<EL, OP>()
}

/// The laws of a ring: a commutative group under addition with `ZERO`
/// neutral, a monoid under multiplication with `ONE` neutral, and
/// multiplication distributes over addition.
pub open spec fn ring_laws<EL, ADD, MUL>() -> bool where
    EL: RingEl<ADD, MUL>,
    ADD: AssociativeOp<EL> + CommutativeOp<EL>,
    MUL: AssociativeOp<EL> + DistributiveOp<EL, ADD>,
 {
    &&& abelian_group_laws::<EL, ADD>()
    &&& monoid_laws::<EL, MUL>()
    &&& <EL as RingEl<ADD, MUL>>::ZERO == <EL as NeutralEl<ADD>>::NEUTRAL_ELEMENT
    &&& <EL as RingEl<ADD, MUL>>::ONE == <EL as NeutralEl<MUL>>::NEUTRAL_ELEMENT
    &&& forall|x: EL, y: EL, z: EL| #[trigger]
        MUL::op_spec(x, ADD::op_spec(y, z)) == ADD::op_spec(MUL::op_spec(x, y), MUL::op_spec(x, z))
}

/// The laws of a commutative ring.
pub open spec fn commutative_ring_laws<EL, ADD, MUL>() -> bool where
    EL: CommutativeRingEl<ADD, MUL>,
    ADD: AssociativeOp<EL> + CommutativeOp<EL>,
    MUL: AssociativeOp<EL> + CommutativeOp<EL> + DistributiveOp<EL, ADD>,
 {
    &&& ring_laws::<EL, ADD, MUL>()
    &&& commutative::<EL, MUL>()
}

/// The laws of an integral domain: those of a commutative ring, and a
/// product is zero only if a factor is.
pub open spec fn integral_domain_laws<EL, ADD, MUL>() -> bool where
    EL: IntegralDomainEl<ADD, MUL>,
    ADD: AssociativeOp<EL> + CommutativeOp<EL>,
    MUL: AssociativeOp<EL> + CommutativeOp<EL> + DistributiveOp<EL, ADD>,
 {
    &&& commutative_ring_laws::<EL, ADD, MUL>()
    &&& forall|x: EL, y: EL| #[trigger]
        MUL::op_spec(x, y) == <EL as RingEl<ADD, MUL>>::ZERO ==> x == <EL as RingEl<ADD, MUL>>::ZERO
            || y == <EL as RingEl<ADD, MUL>>::ZERO
}

/// The laws of a field: those of an integral domain, and every element but
/// zero multiplies with its multiplicative inverse, in either order, to one.
pub open spec fn field_laws<EL, ADD, MUL>() -> bool where
    EL: FieldEl<ADD, MUL>,
    ADD: AssociativeOp<EL> + CommutativeOp<EL>,
    MUL: AssociativeOp<EL> + CommutativeOp<EL> + DistributiveOp<EL, ADD>,
 {
    &&& integral_domain_laws::<EL, ADD, MUL>()
    &&& forall|x: EL|
        x != <EL as RingEl<ADD, MUL>>::ZERO ==> #[trigger] MUL::op_spec(
            x,
            x.multiplicative_inverse_spec(),
        ) == <EL as RingEl<ADD, MUL>>::ONE
    &&& forall|x: EL|
        x != <EL as RingEl<ADD, MUL>>::ZERO ==> #[trigger] MUL::op_spec(
            x.multiplicative_inverse_spec(),
            x,
        ) == <EL as RingEl<ADD, MUL>>::ONE
}

/// Every monoid obeys the laws of a monoid.
pub proof fn lemma_monoid_laws<EL: MonoidEl<OP>, OP: AssociativeOp<EL>>()
    ensures
        monoid_laws::<EL, OP>(),
{
    assert forall|x: EL, y: EL, z: EL| #[trigger]
        OP::op_spec(OP::op_spec(x, y), z) == OP::op_spec(x, OP::op_spec(y, z)) by {
        OP::lemma_associative(x, y, z);
    }
    let e = <EL as NeutralEl<OP>>::NEUTRAL_ELEMENT;
    assert forall|x: EL| #[trigger] OP::op_spec(x, e) == x by {
        <EL as NeutralEl<OP>>::lemma_neutral(x);
    }
    assert forall|x: EL| #[trigger] OP::op_spec(e, x) == x by {
        <EL as NeutralEl<OP>>::lemma_neutral(x);
    }
}

/// Every group obeys the laws of a group.
pub proof fn lemma_group_laws<EL: GroupEl<OP>, OP: AssociativeOp<EL>>()
    ensures
        group_laws::<EL, OP>(),
{
    lemma_monoid_laws::<EL, OP>();
    let e = <EL as NeutralEl<OP>>::NEUTRAL_ELEMENT;
    assert forall|x: EL| #[trigger]
        OP::op_spec(x, <EL as InverseEl<OP>>::inverse_spec(&x)) == e by {
        <EL as InverseEl<OP>>::lemma_inverse(x);
    }
    assert forall|x: EL| #[trigger]
        OP::op_spec(<EL as InverseEl<OP>>::inverse_spec(&x), x) == e by {
        <EL as InverseEl<OP>>::lemma_inverse(x);
    }
}

/// Every commutative group obeys the laws of a commutative group.
pub proof fn lemma_abelian_group_laws<EL, OP>() where
    EL: AbelianGroupEl<OP>,
    OP: AssociativeOp<EL> + CommutativeOp<EL>,

    ensures
        abelian_group_laws::<EL, OP>(),
{
    lemma_group_laws::<EL, OP>();
    assert forall|x: EL, y: EL| #[trigger] OP::op_spec(x, y) == OP::op_spec(y, x) by {
        OP::lemma_commutative(x, y);
    }
}

/// Every ring obeys the laws of a ring.
pub proof fn lemma_ring_laws<EL, ADD, MUL>() where
    EL: RingEl<ADD, MUL>,
    ADD: AssociativeOp<EL> + CommutativeOp<EL>,
    MUL: AssociativeOp<EL> + DistributiveOp<EL, ADD>,

    ensures
        ring_laws::<EL, ADD, MUL>(),
{
    lemma_abelian_group_laws::<EL, ADD>();
    lemma_monoid_laws::<EL, MUL>();
    lemma_zero_and_one::<EL, ADD, MUL>();
    assert forall|x: EL, y: EL, z: EL| #[trigger]
        MUL::op_spec(x, ADD::op_spec(y, z)) == ADD::op_spec(
            MUL::op_spec(x, y),
            MUL::op_spec(x, z),
        ) by {
        MUL::lemma_distributive(x, y, z);
    }
}

/// Every commutative ring obeys the laws of a commutative ring.
pub proof fn lemma_commutative_ring_laws<EL, ADD, MUL>() where
    EL: CommutativeRingEl<ADD, MUL>,
    ADD: AssociativeOp<EL> + CommutativeOp<EL>,
    MUL: AssociativeOp<EL> + CommutativeOp<EL> + DistributiveOp<EL, ADD>,

    ensures
        commutative_ring_laws::<EL, ADD, MUL>(),
{
    lemma_ring_laws::<EL, ADD, MUL>();
    assert forall|x: EL, y: EL| #[trigger] MUL::op_spec(x, y) == MUL::op_spec(y, x) by {
        MUL::lemma_commutative(x, y);
    }
}

/// Every integral domain obeys the laws of an integral domain.
pub proof fn lemma_integral_domain_laws<EL, ADD, MUL>() where
    EL: IntegralDomainEl<ADD, MUL>,
    ADD: AssociativeOp<EL> + CommutativeOp<EL>,
    MUL: AssociativeOp<EL> + CommutativeOp<EL> + DistributiveOp<EL, ADD>,

    ensures
        integral_domain_laws::<EL, ADD, MUL>(),
{
    lemma_commutative_ring_laws::<EL, ADD, MUL>();
    let zero = <EL as RingEl<ADD, MUL>>::ZERO;
    assert forall|x: EL, y: EL| #[trigger] MUL::op_spec(x, y) == zero implies x == zero || y
        == zero by {
        <EL as NoZerodivisorEl<ADD, MUL>>::lemma_no_zerodivisor(x, y);
    }
}

/// Every field obeys the laws of a field.
pub proof fn lemma_field_laws<EL, ADD, MUL>() where
    EL: FieldEl<ADD, MUL>,
    ADD: AssociativeOp<EL> + CommutativeOp<EL>,
    MUL: AssociativeOp<EL> + CommutativeOp<EL> + DistributiveOp<EL, ADD>,

    ensures
        field_laws::<EL, ADD, MUL>(),
{
    lemma_integral_domain_laws::<EL, ADD, MUL>();
    let zero = <EL as RingEl<ADD, MUL>>::ZERO;
    let one = <EL as RingEl<ADD, MUL>>::ONE;
    assert forall|x: EL| x != zero implies #[trigger] MUL::op_spec(
        x,
        x.multiplicative_inverse_spec(),
    ) == one by {
        <EL as NonzeroMultiplicativeUnitEl<ADD, MUL>>::lemma_multiplicative_inverse(x);
    }
    assert forall|x: EL| x != zero implies #[trigger] MUL::op_spec(
        x.multiplicative_inverse_spec(),
        x,
    ) == one by {
        <EL as NonzeroMultiplicativeUnitEl<ADD, MUL>>::lemma_multiplicative_inverse(x);
    }
}

/// In a group, the only element that absorbs itself is the neutral one.
pub proof fn lemma_idempotent_is_neutral<EL: GroupEl<OP>, OP: AssociativeOp<EL>>(x: EL)
    requires
        OP::op_spec(x, x) == x,
    ensures
        x == <EL as NeutralEl<OP>>::NEUTRAL_ELEMENT,
{
    let inv = <EL as InverseEl<OP>>::inverse_spec(&x);
    <EL as InverseEl<OP>>::lemma_inverse(x);
    OP::lemma_associative(x, x, inv);
    <EL as NeutralEl<OP>>::lemma_neutral(x);
}

/// In a group, the neutral element is its own inverse.
pub proof fn lemma_inverse_of_neutral<EL: GroupEl<OP>, OP: AssociativeOp<EL>>()
    ensures
        <EL as InverseEl<OP>>::inverse_spec(&<EL as NeutralEl<OP>>::NEUTRAL_ELEMENT) == <
            EL as NeutralEl<OP>
        >::NEUTRAL_ELEMENT,
{
    let e = <EL as NeutralEl<OP>>::NEUTRAL_ELEMENT;
    <EL as InverseEl<OP>>::lemma_inverse(e);
    <EL as NeutralEl<OP>>::lemma_neutral(<EL as InverseEl<OP>>::inverse_spec(&e));
}

/// In a ring, any multiple of zero is zero.
pub proof fn lemma_mul_zero<EL, ADD, MUL>(x: EL) where
    EL: RingEl<ADD, MUL>,
    ADD: AssociativeOp<EL> + CommutativeOp<EL>,
    MUL: AssociativeOp<EL> + DistributiveOp<EL, ADD>,

    ensures
        MUL::op_spec(x, <EL as RingEl<ADD, MUL>>::ZERO) == <EL as RingEl<ADD, MUL>>::ZERO,
{
    let zero = <EL as RingEl<ADD, MUL>>::ZERO;
    lemma_zero_and_one::<EL, ADD, MUL>();
    <EL as NeutralEl<ADD>>::lemma_neutral(zero);
    MUL::lemma_distributive(x, zero, zero);
    lemma_idempotent_is_neutral::<EL, ADD>(MUL::op_spec(x, zero));
}

/// In a field, dividing by an element other than zero and multiplying by it
/// again gives back what one started with.
pub proof fn lemma_divide_multiply<EL, ADD, MUL>(x: EL, d: EL) where
    EL: FieldEl<ADD, MUL>,
    ADD: AssociativeOp<EL> + CommutativeOp<EL>,
    MUL: AssociativeOp<EL> + CommutativeOp<EL> + DistributiveOp<EL, ADD>,

    requires
        d != <EL as RingEl<ADD, MUL>>::ZERO,
    ensures
        MUL::op_spec(MUL::op_spec(x, d.multiplicative_inverse_spec()), d) == x,
{
    lemma_zero_and_one::<EL, ADD, MUL>();
    MUL::lemma_associative(x, d.multiplicative_inverse_spec(), d);
    <EL as NonzeroMultiplicativeUnitEl<ADD, MUL>>::lemma_multiplicative_inverse(d);
    <EL as NeutralEl<MUL>>::lemma_neutral(x);
}

} // verus!
