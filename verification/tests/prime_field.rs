use algebra::algorithms::gaussian_elimination::gaussian_elimination;
use algebra::base::markers::{
    AssociativeOp, CommutativeOp, DistributiveOp, El, FiniteGroupEl, InverseEl, NeutralEl,
    NoZerodivisorEl, NonzeroMultiplicativeUnitEl, Op, RingEl,
};
use algebra::base::types::{Matrix, Vector};
use std::fmt;

// The integers modulo 7: a field in which every computation is exact. Only
// the primitives are declared for it; the members that only carry
// specifications and proofs are never run.

#[derive(Clone, Copy, Debug, PartialEq)]
struct Z7(u8);

struct Plus;

struct Times;

impl fmt::Display for Z7 {
    fn fmt(&self, f: &mut fmt::Formatter<'_>) -> fmt::Result {
        self.0.fmt(f)
    }
}

impl From<u8> for Z7 {
    fn from(value: u8) -> Self {
        Z7(value % 7)
    }
}

impl El for Z7 {
    fn lemma_eq(_: Self, _: Self) {}
}

impl Op<Z7> for Plus {
    fn op_spec(lhs: Z7, rhs: Z7) -> Z7 {
        Z7((lhs.0 + rhs.0) % 7)
    }

    fn op(lhs: Z7, rhs: Z7) -> Z7 {
        Z7((lhs.0 + rhs.0) % 7)
    }
}

impl Op<Z7> for Times {
    fn op_spec(lhs: Z7, rhs: Z7) -> Z7 {
        Z7((lhs.0 * rhs.0) % 7)
    }

    fn op(lhs: Z7, rhs: Z7) -> Z7 {
        Z7((lhs.0 * rhs.0) % 7)
    }
}

impl AssociativeOp<Z7> for Plus {
    fn lemma_associative(_: Z7, _: Z7, _: Z7) {}
}

impl CommutativeOp<Z7> for Plus {
    fn lemma_commutative(_: Z7, _: Z7) {}
}

impl AssociativeOp<Z7> for Times {
    fn lemma_associative(_: Z7, _: Z7, _: Z7) {}
}

impl CommutativeOp<Z7> for Times {
    fn lemma_commutative(_: Z7, _: Z7) {}
}

impl DistributiveOp<Z7, Plus> for Times {
    fn lemma_distributive(_: Z7, _: Z7, _: Z7) {}
}

impl NeutralEl<Plus> for Z7 {
    const NEUTRAL_ELEMENT: Self = Z7(0);

    fn lemma_neutral(_: Self) {}
}

impl NeutralEl<Times> for Z7 {
    const NEUTRAL_ELEMENT: Self = Z7(1);

    fn lemma_neutral(_: Self) {}
}

impl InverseEl<Plus> for Z7 {
    fn inverse_spec(&self) -> Self {
        Z7((7 - self.0) % 7)
    }

    fn inverse(&self) -> Self {
        Z7((7 - self.0) % 7)
    }

    fn lemma_inverse(_: Self) {}
}

impl NoZerodivisorEl<Plus, Times> for Z7 {
    fn lemma_no_zerodivisor(_: Self, _: Self) {}
}

impl NonzeroMultiplicativeUnitEl<Plus, Times> for Z7 {
    fn multiplicative_inverse_spec(&self) -> Self {
        self.multiplicative_inverse()
    }

    fn multiplicative_inverse(&self) -> Self {
        let mut power = Z7(1);
        for _ in 0..5 {
            power = Times::op(power, *self);
        }
        power
    }

    fn lemma_multiplicative_inverse(_: Self) {}
}

impl FiniteGroupEl<Plus> for Z7 {
    const GROUP_ORDER: usize = 7;

    fn order(&self) -> usize {
        let mut sum = *self;
        let mut steps = 1;
        while sum != Z7(0) {
            sum = Plus::op(sum, *self);
            steps += 1;
        }
        steps
    }
}

fn matrix<const M: usize, const N: usize>(rows: [[u8; N]; M]) -> Matrix<Z7, M, N> {
    rows.into()
}

fn eliminate<const M: usize, const N: usize>(rows: [[u8; N]; M]) -> Matrix<Z7, M, N> {
    gaussian_elimination::<Z7, Plus, Times, M, N>(matrix(rows))
}

// What the capabilities derived from the primitives give, used through
// bounds that name a composite capability only.

fn zero_of_a_ring<EL, ADD, MUL>() -> EL
where
    EL: RingEl<ADD, MUL>,
    ADD: AssociativeOp<EL> + CommutativeOp<EL>,
    MUL: AssociativeOp<EL> + DistributiveOp<EL, ADD>,
{
    EL::ZERO
}

fn quotient_in_a_field<EL, ADD, MUL>(x: EL, d: EL) -> EL
where
    EL: algebra::base::markers::FieldEl<ADD, MUL>,
    ADD: AssociativeOp<EL> + CommutativeOp<EL>,
    MUL: AssociativeOp<EL> + CommutativeOp<EL> + DistributiveOp<EL, ADD>,
{
    MUL::op(x, d.multiplicative_inverse())
}

fn is_monoid<EL: algebra::base::markers::MonoidEl<OP>, OP: AssociativeOp<EL>>() -> EL {
    EL::NEUTRAL_ELEMENT
}

fn is_group<EL: algebra::base::markers::GroupEl<OP>, OP: AssociativeOp<EL>>(x: EL) -> EL {
    OP::op(x, x.inverse())
}

fn is_abelian_group<EL, OP>(x: EL, y: EL) -> bool
where
    EL: algebra::base::markers::AbelianGroupEl<OP>,
    OP: AssociativeOp<EL> + CommutativeOp<EL>,
{
    OP::op(x, y) == OP::op(y, x)
}

fn is_commutative_ring<EL, ADD, MUL>(x: EL, y: EL) -> bool
where
    EL: algebra::base::markers::CommutativeRingEl<ADD, MUL>,
    ADD: AssociativeOp<EL> + CommutativeOp<EL>,
    MUL: AssociativeOp<EL> + CommutativeOp<EL> + DistributiveOp<EL, ADD>,
{
    MUL::op(x, y) == MUL::op(y, x)
}

fn is_integral_domain<EL, ADD, MUL>(x: EL, y: EL) -> bool
where
    EL: algebra::base::markers::IntegralDomainEl<ADD, MUL>,
    ADD: AssociativeOp<EL> + CommutativeOp<EL>,
    MUL: AssociativeOp<EL> + CommutativeOp<EL> + DistributiveOp<EL, ADD>,
{
    MUL::op(x, y) != EL::ZERO || x == EL::ZERO || y == EL::ZERO
}

#[test]
fn composite_capabilities_follow_from_the_primitives() {
    assert_eq!(is_monoid::<Z7, Plus>(), Z7(0));
    assert_eq!(is_monoid::<Z7, Times>(), Z7(1));
    assert_eq!(is_group::<Z7, Plus>(Z7(3)), Z7(0));
    assert!(is_abelian_group::<Z7, Plus>(Z7(3), Z7(5)));
    assert_eq!(zero_of_a_ring::<Z7, Plus, Times>(), Z7(0));
    assert_eq!(<Z7 as RingEl<Plus, Times>>::ONE, Z7(1));
    assert!(is_commutative_ring::<Z7, Plus, Times>(Z7(3), Z7(5)));
    assert!(is_integral_domain::<Z7, Plus, Times>(Z7(3), Z7(5)));
    assert_eq!(quotient_in_a_field::<Z7, Plus, Times>(Z7(3), Z7(5)), Z7(2));
}

#[test]
fn laws_hold_of_every_element() {
    for x in 0..7u8 {
        let x = Z7(x);
        assert_eq!(Plus::op(x, Z7(0)), x);
        assert_eq!(Plus::op(Z7(0), x), x);
        assert_eq!(Times::op(x, Z7(1)), x);
        assert_eq!(Times::op(Z7(1), x), x);
        assert_eq!(Plus::op(x, x.inverse()), Z7(0));
        assert_eq!(Times::op(x, Z7(0)), Z7(0));
        if x != Z7(0) {
            assert_eq!(Times::op(x, x.multiplicative_inverse()), Z7(1));
            assert_eq!(Times::op(x.multiplicative_inverse(), x), Z7(1));
        }
        for y in 0..7u8 {
            let y = Z7(y);
            assert_eq!(Plus::op(x, y), Plus::op(y, x));
            assert_eq!(Times::op(x, y), Times::op(y, x));
            if Times::op(x, y) == Z7(0) {
                assert!(x == Z7(0) || y == Z7(0));
            }
            if y != Z7(0) {
                assert_eq!(Times::op(quotient_in_a_field::<Z7, Plus, Times>(x, y), y), x);
            }
            for z in 0..7u8 {
                let z = Z7(z);
                assert_eq!(Plus::op(Plus::op(x, y), z), Plus::op(x, Plus::op(y, z)));
                assert_eq!(Times::op(Times::op(x, y), z), Times::op(x, Times::op(y, z)));
                assert_eq!(
                    Times::op(x, Plus::op(y, z)),
                    Plus::op(Times::op(x, y), Times::op(x, z))
                );
            }
        }
    }
}

#[test]
fn finite_group_of_seven_elements() {
    assert_eq!(<Z7 as FiniteGroupEl<Plus>>::GROUP_ORDER, 7);
    assert_eq!(Z7(0).order(), 1);
    assert_eq!(Z7(3).order(), 7);
}

#[test]
fn elimination_is_exact_modulo_seven() {
    // Row 1 loses 3 times row 0 and row 2 loses 5 times row 0, which leaves
    // [0, 2, 2] and [0, 3, 6]; then row 2 loses 3 / 2 = 5 times row 1.
    assert_eq!(
        eliminate([[1, 2, 3], [3, 1, 4], [5, 6, 0]]),
        matrix([[1, 2, 3], [0, 2, 2], [0, 0, 3]])
    );
}

#[test]
fn reduction_divides_by_the_pivot() {
    // 4 / 3 = 4 * 5 = 6 modulo 7: row 1 loses 6 times row 0.
    assert_eq!(eliminate([[3, 1], [4, 2]]), matrix([[3, 1], [0, 3]]));
}

#[test]
fn every_column_below_a_nonzero_pivot_is_zero() {
    for a in 0..7u8 {
        for b in 0..7u8 {
            for c in 0..7u8 {
                let res = eliminate([[1, a, b], [c, 2, a], [b, c, 3], [a, 4, c]]);
                assert_eq!(res[0], Vector::from([1u8, a, b]));
                for j in 0..3 {
                    if res[j][j] != Z7(0) {
                        for i in (j + 1)..4 {
                            assert_eq!(res[i][j], Z7(0));
                        }
                    }
                }
            }
        }
    }
}

#[test]
fn zero_pivot_pass_changes_nothing() {
    // Every pivot is zero when its pass is due, so no pass changes anything.
    let rows = [[0, 1, 2], [3, 0, 4], [5, 6, 0]];
    assert_eq!(eliminate(rows), matrix(rows));
}

#[test]
fn pivot_that_becomes_zero_leaves_its_column() {
    // The pass on column 0 makes the pivot of column 1 zero, so the pass on
    // column 1 is passed over and the 1 below that pivot stays.
    let res = eliminate([[1, 1], [1, 1], [1, 2]]);
    assert_eq!(res, matrix([[1, 1], [0, 0], [0, 1]]));
    assert_eq!(res[1][1], Z7(0));
    assert_eq!(res[2][1], Z7(1));
}

#[test]
fn conversion_is_applied_to_each_item() {
    let v: Vector<Z7, 4> = [7u8, 8, 13, 6].into();
    assert_eq!(v[0], Z7(0));
    assert_eq!(v[1], Z7(1));
    assert_eq!(v[2], Z7(6));
    assert_eq!(v[3], Z7(6));
    assert_eq!(matrix([[9, 14]]), matrix([[2, 0]]));
}
