//! Containers of fixed size: `Vector`, a row of `M` elements, and `Matrix`,
//! `M` rows of `N` elements each. The sizes are part of the type and never
//! change; entries are read and written by index.
//!
//! A vector is viewed as the sequence of its entries, a matrix as the
//! sequence of its rows, each a sequence of entries.

use super::markers::El;
use std::ops::{Index, IndexMut};
use vstd::prelude::*;
use vstd::std_specs::convert::IntoSpec;

verus! {

/// `<[S; K]>::map` of the standard library: the array that holds, at each
/// index, what `f` gives for the item of `data` at that index. `f` must
/// accept every item of `data`.
#[verifier::external_body]
fn map_array<S, T, F: Fn(S) -> T, const K: usize>(data: [S; K], f: F) -> (res: [T; K])
    requires
        forall|i: int| 0 <= i < K ==> call_requires(f, (#[trigger] data@[i],)),
    ensures
        forall|i: int| 0 <= i < K ==> call_ensures(f, (#[trigger] data@[i],), res@[i]),
{
    data.map(f)
}

/// An ordered sequence of exactly `M` elements.
#[derive(Debug)]
pub struct Vector<EL: El, const M: usize> {
    inner: [EL; M],
}

/// An ordered sequence of exactly `M` rows, each a `Vector` of `N` elements.
#[derive(Debug)]
pub struct Matrix<EL: El, const M: usize, const N: usize> {
    inner: [Vector<EL, N>; M],
}

/// Tag of the addition of floating-point numbers. The operation is declared
/// where such numbers are made elements.
pub struct FloatingPointAddition {}

/// Tag of the multiplication of floating-point numbers. The operation is
/// declared where such numbers are made elements.
pub struct FloatingPointMultiplication {}

/// `m` has `rows` rows of `cols` entries each.
pub open spec fn has_shape<EL>(m: Seq<Seq<EL>>, rows: nat, cols: nat) -> bool {
    &&& m.len() == rows
    &&& forall|i: int| 0 <= i < rows ==> (#[trigger] m[i]).len() == cols
}

/// The items of `data`, each converted by `into`.
pub open spec fn converted<S: Into<T>, T>(data: Seq<S>) -> Seq<T> {
    data.map_values(|s: S| s.into_spec())
}

/// The rows of `data`, each converted by `into` and viewed.
pub open spec fn converted_rows<S: Into<Vector<EL, N>>, EL: El, const N: usize>(
    data: Seq<S>,
) -> Seq<Seq<EL>> {
    data.map_values(|s: S| s.into_spec()@)
}

/// The vector whose entries are the items of `data`, each converted.
pub open spec fn vector_of<EL: El, S: Into<EL>, const M: usize>(data: [S; M]) -> Vector<EL, M> {
    choose|v: Vector<EL, M>| v@ == converted::<S, EL>(data@)
}

/// The matrix whose rows are the items of `data`, each converted.
pub open spec fn matrix_of<EL: El, S: Into<Vector<EL, N>>, const M: usize, const N: usize>(
    data: [S; M],
) -> Matrix<EL, M, N> {
    choose|m: Matrix<EL, M, N>| m@ == converted_rows::<S, EL, N>(data@)
}

impl<EL: El, const M: usize> View for Vector<EL, M> {
    type V = Seq<EL>;

    closed spec fn view(&self) -> Seq<EL> {
        self.inner@
    }
}

impl<EL: El, const M: usize> Vector<EL, M> {
    /// A vector has exactly `M` entries.
    pub proof fn lemma_len(&self)
        ensures
            self@.len() == M,
    {
    }

    /// A vector is nothing but its entries.
    pub proof fn lemma_view_injective(&self, other: &Self)
        requires
            self@ == other@,
        ensures
            *self == *other,
    {
        assert(self.inner =~= other.inner);
    }
}

impl<EL: El, const M: usize> vstd::std_specs::core::IndexSpecImpl<usize> for Vector<EL, M> {
    open spec fn index_req(&self, index: &usize) -> bool {
        *index < M
    }
}

impl<EL: El, const M: usize> Index<usize> for Vector<EL, M> {
    type Output = EL;

    /// The entry at `index`, which must be below `M`.
    fn index(&self, index: usize) -> (output: &EL)
        ensures
            *output == self@[index as int],
    {
        &self.inner[index]
    }
}

impl<EL: El, const M: usize> IndexMut<usize> for Vector<EL, M> {
    /// The place of the entry at `index`, which must be below `M`. Whatever
    /// is written there becomes that entry; the others stay.
    fn index_mut(&mut self, index: usize) -> (output: &mut EL)
        requires
            index < M,
        ensures
            *output == old(self)@[index as int],
            final(self)@ == old(self)@.update(index as int, *final(output)),
    {
        &mut self.inner[index]
    }
}

impl<EL: El, S: Into<EL>, const M: usize> From<[S; M]> for Vector<EL, M> {
    /// Builds the vector of the items of `data`, each converted by `into`,
    /// in their order.
    fn from(data: [S; M]) -> (res: Self)
        ensures
            res@.len() == M,
            forall|i: int| 0 <= i < M ==> call_ensures(S::into, (#[trigger] data@[i],), res@[i]),
    {
        let convert = |s: S| -> (e: EL) ensures call_ensures(S::into, (s,), e) { s.into() };
        let res = Vector { inner: map_array(data, convert) };
        proof {
            if S::obeys_into_spec() {
                assert(res@ =~= converted::<S, EL>(data@));
                res.lemma_view_injective(&vector_of::<EL, S, M>(data));
            }
        }
        res
    }
}

impl<EL: El, S: Into<EL>, const M: usize> vstd::std_specs::convert::FromSpecImpl<[S; M]>
    for Vector<EL, M> {
    open spec fn obeys_from_spec() -> bool {
        S::obeys_into_spec()
    }

    open spec fn from_spec(data: [S; M]) -> Self {
        vector_of(data)
    }
}

impl<EL: El, const M: usize> Clone for Vector<EL, M> {
    /// A copy of the vector, entry for entry.
    fn clone(&self) -> (res: Self)
        ensures
            res == *self,
    {
        Vector { inner: self.inner }
    }
}

impl<EL: El, const M: usize> PartialEq for Vector<EL, M> {
    /// Decides whether the two vectors agree entry by entry.
    fn eq(&self, other: &Self) -> (res: bool) {
        let mut i: usize = 0;
        while i < M
            invariant
                i <= M,
                forall|k: int| 0 <= k < i ==> self@[k] == other@[k],
            decreases M - i,
        {
            proof {
                EL::lemma_eq(self@[i as int], other@[i as int]);
            }
            if self[i] != other[i] {
                return false;
            }
            i += 1;
        }
        assert(self@ =~= other@);
        true
    }
}

impl<EL: El, const M: usize> vstd::std_specs::cmp::PartialEqSpecImpl for Vector<EL, M> {
    open spec fn obeys_eq_spec() -> bool {
        true
    }

    open spec fn eq_spec(&self, other: &Self) -> bool {
        self@ == other@
    }
}

impl<EL: El, const M: usize, const N: usize> View for Matrix<EL, M, N> {
    type V = Seq<Seq<EL>>;

    closed spec fn view(&self) -> Seq<Seq<EL>> {
        Seq::new(M as nat, |i: int| self.inner@[i]@)
    }
}

impl<EL: El, const M: usize, const N: usize> Matrix<EL, M, N> {
    /// The row at index `i`, as a vector.
    pub closed spec fn row(&self, i: int) -> Vector<EL, N> {
        self.inner@[i]
    }

    /// A matrix has exactly `M` rows of `N` entries each, and its rows are
    /// those that `row` gives.
    pub proof fn lemma_shape(&self)
        ensures
            has_shape(self@, M as nat, N as nat),
            forall|i: int| 0 <= i < M ==> self@[i] == (#[trigger] self.row(i))@,
    {
    }

    /// A matrix is nothing but its entries.
    pub proof fn lemma_view_injective(&self, other: &Self)
        requires
            self@ == other@,
        ensures
            *self == *other,
    {
        assert forall|i: int| 0 <= i < M implies self.inner@[i] == other.inner@[i] by {
            assert(self@[i] == other@[i]);
            self.inner@[i].lemma_view_injective(&other.inner@[i]);
        }
        assert(self.inner =~= other.inner);
    }
}

impl<EL: El, const M: usize, const N: usize> vstd::std_specs::core::IndexSpecImpl<usize>
    for Matrix<EL, M, N> {
    open spec fn index_req(&self, index: &usize) -> bool {
        *index < M
    }
}

impl<EL: El, const M: usize, const N: usize> Index<usize> for Matrix<EL, M, N> {
    type Output = Vector<EL, N>;

    /// The row at `index`, which must be below `M`.
    fn index(&self, index: usize) -> (output: &Vector<EL, N>)
        ensures
            *output == self.row(index as int),
            output@ == self@[index as int],
    {
        &self.inner[index]
    }
}

impl<EL: El, const M: usize, const N: usize> IndexMut<usize> for Matrix<EL, M, N> {
    /// The place of the row at `index`, which must be below `M`. Whatever
    /// is written there becomes that row; the others stay.
    fn index_mut(&mut self, index: usize) -> (output: &mut Vector<EL, N>)
        requires
            index < M,
        ensures
            *output == old(self).row(index as int),
            output@ == old(self)@[index as int],
            final(self)@ == old(self)@.update(index as int, final(output)@),
    {
        &mut self.inner[index]
    }
}

impl<EL: El, S: Into<Vector<EL, N>>, const M: usize, const N: usize> From<[S; M]>
    for Matrix<EL, M, N> {
    /// Builds the matrix of the items of `data`, each converted by `into`
    /// to a row, in their order.
    fn from(data: [S; M]) -> (res: Self)
        ensures
            has_shape(res@, M as nat, N as nat),
            forall|i: int| 0 <= i < M ==> res@[i] == (#[trigger] res.row(i))@,
            forall|i: int| 0 <= i < M ==> call_ensures(S::into, (#[trigger] data@[i],), res.row(i)),
    {
        let convert =
            |s: S| -> (r: Vector<EL, N>) ensures call_ensures(S::into, (s,), r) { s.into() };
        let res = Matrix { inner: map_array(data, convert) };
        proof {
            if S::obeys_into_spec() {
                assert(res@ =~= converted_rows::<S, EL, N>(data@));
                res.lemma_view_injective(&matrix_of::<EL, S, M, N>(data));
            }
        }
        res
    }
}

impl<EL: El, S: Into<Vector<EL, N>>, const M: usize, const N: usize>
    vstd::std_specs::convert::FromSpecImpl<[S; M]> for Matrix<EL, M, N> {
    open spec fn obeys_from_spec() -> bool {
        S::obeys_into_spec()
    }

    open spec fn from_spec(data: [S; M]) -> Self {
        matrix_of(data)
    }
}

impl<EL: El, const M: usize, const N: usize> Clone for Matrix<EL, M, N> {
    /// A copy of the matrix, entry for entry.
    fn clone(&self) -> (res: Self)
        ensures
            res == *self,
    {
        let res = Matrix { inner: self.inner.clone() };
        proof {
            assert(res@ =~= self@);
            res.lemma_view_injective(self);
        }
        res
    }
}

impl<EL: El, const M: usize, const N: usize> PartialEq for Matrix<EL, M, N> {
    /// Decides whether the two matrices agree entry by entry.
    fn eq(&self, other: &Self) -> (res: bool) {
        let mut i: usize = 0;
        while i < M
            invariant
                i <= M,
                forall|k: int| 0 <= k < i ==> self@[k] == other@[k],
            decreases M - i,
        {
            if self[i] != other[i] {
                return false;
            }
            i += 1;
        }
        assert(self@ =~= other@);
        true
    }
}

impl<EL: El, const M: usize, const N: usize> vstd::std_specs::cmp::PartialEqSpecImpl
    for Matrix<EL, M, N> {
    open spec fn obeys_eq_spec() -> bool {
        true
    }

    open spec fn eq_spec(&self, other: &Self) -> bool {
        self@ == other@
    }
}

} // verus!
