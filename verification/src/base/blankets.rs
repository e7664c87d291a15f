//! The derivation rules: each composite capability is granted to every
//! element type that has its prerequisites, with nothing more to declare.
//!
//! An implementer declares the primitives for an element type once: the
//! operations with their laws, a neutral element for each, an inverse, and,
//! for a field, that there are no zero divisors and that every element but
//! zero has a multiplicative inverse. Monoid, group, commutative group, ring,
//! commutative ring, integral domain and field then follow by these rules.

use super::markers::{
    AbelianGroupEl, AssociativeOp, CommutativeOp, CommutativeRingEl, DistributiveOp, FieldEl,
    GroupEl, IntegralDomainEl, InverseEl, MonoidEl, NeutralEl, NoZerodivisorEl,
    NonzeroMultiplicativeUnitEl, RingEl,
};
use super::theorems::{
    abelian_group_laws, commutative_ring_laws, field_laws, group_laws, integral_domain_laws,
    lemma_commutative_ring_laws, lemma_field_laws, monoid_laws, ring_laws,
};
use vstd::prelude::*;

verus! {

impl<EL: NeutralEl<OP>, OP: AssociativeOp<EL>> MonoidEl<OP> for EL {
}

impl<EL: MonoidEl<OP> + InverseEl<OP>, OP: AssociativeOp<EL>> GroupEl<OP> for EL {
}

impl<EL: GroupEl<OP>, OP: AssociativeOp<EL> + CommutativeOp<EL>> AbelianGroupEl<OP> for EL {
}

impl<
    EL: AbelianGroupEl<ADD> + MonoidEl<MUL>,
    ADD: AssociativeOp<EL> + CommutativeOp<EL>,
    MUL: AssociativeOp<EL> + DistributiveOp<EL, ADD>,
> RingEl<ADD, MUL> for EL {
}

impl<
    EL: RingEl<ADD, MUL>,
    ADD: AssociativeOp<EL> + CommutativeOp<EL>,
    MUL: AssociativeOp<EL> + CommutativeOp<EL> + DistributiveOp<EL, ADD>,
> CommutativeRingEl<ADD, MUL> for EL {
}

impl<
    EL: NoZerodivisorEl<ADD, MUL>,
    ADD: AssociativeOp<EL> + CommutativeOp<EL>,
    MUL: AssociativeOp<EL> + CommutativeOp<EL> + DistributiveOp<EL, ADD>,
> IntegralDomainEl<ADD, MUL> for EL {
}

impl<
    EL: NonzeroMultiplicativeUnitEl<ADD, MUL>,
    ADD: AssociativeOp<EL> + CommutativeOp<EL>,
    MUL: AssociativeOp<EL> + CommutativeOp<EL> + DistributiveOp<EL, ADD>,
> FieldEl<ADD, MUL> for EL {
}

/// Derivation, up to the commutative ring: an element type for which only
/// the primitives are declared (two operations, associative and commutative,
/// of which the second distributes over the first; a neutral element for
/// each; an inverse for the first) has every composite capability up to the
/// commutative ring, with the laws of each.
pub proof fn lemma_commutative_ring_derived<EL, ADD, MUL>() where
    EL: NeutralEl<ADD> + InverseEl<ADD> + NeutralEl<MUL>,
    ADD: AssociativeOp<EL> + CommutativeOp<EL>,
    MUL: AssociativeOp<EL> + CommutativeOp<EL> + DistributiveOp<EL, ADD>,

    ensures
        monoid_laws::<EL, ADD>(),
        monoid_laws::<EL, MUL>(),
        group_laws::<EL, ADD>(),
        abelian_group_laws::<EL, ADD>(),
        ring_laws::<EL, ADD, MUL>(),
        commutative_ring_laws::<EL, ADD, MUL>(),
{
    lemma_commutative_ring_laws::<EL, ADD, MUL>();
}

/// Derivation, up to the field: an element type for which, beyond the
/// primitives of a commutative ring, only the absence of zero divisors and
/// the multiplicative inverse are declared is an integral domain and a
/// field, with the laws of each.
pub proof fn lemma_field_derived<EL, ADD, MUL>() where
    EL: NeutralEl<ADD> + InverseEl<ADD> + NeutralEl<MUL> + NoZerodivisorEl<
        ADD,
        MUL,
    > + NonzeroMultiplicativeUnitEl<ADD, MUL>,
    ADD: AssociativeOp<EL> + CommutativeOp<EL>,
    MUL: AssociativeOp<EL> + CommutativeOp<EL> + DistributiveOp<EL, ADD>,

    ensures
        integral_domain_laws::<EL, ADD, MUL>(),
        field_laws::<EL, ADD, MUL>(),
{
    lemma_field_laws::<EL, ADD, MUL>();
}

} // verus!
