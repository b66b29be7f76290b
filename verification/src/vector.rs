//! A fixed-length vector with elementwise arithmetic.

use vstd::prelude::*;
use vstd::slice::slice_to_vec;
use vstd::std_specs::ops::{AddSpec, SubSpec, MulSpec, DivSpec};
use std::ops::{Add, Sub, Mul, Div, Index, IndexMut};
use crate::scalar::{is_sum, is_difference, is_product, is_quotient};

verus! {

/// `N` elements of one type, the length being part of the type.
pub struct Vector<T, const N: usize> where T: Copy + Default {
    tab: [T; N],
}

impl<T, const N: usize> Clone for Vector<T, N> where T: Copy + Default {
    fn clone(&self) -> (v: Self)
        ensures
            v == *self,
    {
        *self
    }
}

impl<T, const N: usize> Copy for Vector<T, N> where T: Copy + Default {

}

impl<T, const N: usize> Vector<T, N> where T: Copy + Default {
    /// The element at position `i`.
    pub closed spec fn entry(&self, i: int) -> T {
        self.tab@[i]
    }

    /// The vector as a sequence of `N` elements.
    pub open spec fn view(&self) -> Seq<T> {
        Seq::new(N as nat, |i: int| self.entry(i))
    }

    /// Two vectors that hold the same elements are the same vector.
    pub proof fn lemma_view_determines(a: Self, b: Self)
        requires
            a@ == b@,
        ensures
            a == b,
    {
        assert forall|i: int| 0 <= i < N implies a.tab[i] == b.tab[i] by {
            assert(a@[i] == a.entry(i));
            assert(b@[i] == b.entry(i));
        }
        assert(a.tab =~= b.tab);
    }

    /// A vector whose every element is the default value of `T`.
    pub fn new() -> (v: Self)
        ensures
            forall|i: int| 0 <= i < N ==> call_ensures(T::default, (), #[trigger] v@[i]),
            forall|i: int, j: int| 0 <= i < N && 0 <= j < N ==> v@[i] == v@[j],
    {
        Self::default()
    }

    /// A vector whose every element is `val`.
    pub fn value(val: T) -> (v: Self)
        ensures
            v@ == Seq::new(N as nat, |i: int| val),
    {
        let v = Self { tab: [val;N] };
        assert(v@ =~= Seq::new(N as nat, |i: int| val));
        v
    }

    /// The number of elements.
    pub fn len(&self) -> (n: usize)
        ensures
            n == N,
    {
        N
    }

    /// A copy of the elements in a growable vector.
    pub fn to_vec(&self) -> (v: Vec<T>)
        ensures
            v@ == self@,
    {
        let v = slice_to_vec(self.tab.as_slice());
        assert(v@ =~= self@);
        v
    }

    /// The elements as a slice.
    pub fn as_ref(&self) -> (s: &[T])
        ensures
            s@ == self@,
    {
        let s = self.tab.as_slice();
        assert(s@ =~= self@);
        s
    }
}

impl<T, const N: usize> Default for Vector<T, N> where T: Copy + Default {
    fn default() -> (v: Self)
        ensures
            forall|i: int| 0 <= i < N ==> call_ensures(T::default, (), #[trigger] v@[i]),
            forall|i: int, j: int| 0 <= i < N && 0 <= j < N ==> v@[i] == v@[j],
    {
        let d = T::default();
        Self { tab: [d;N] }
    }
}

/// The elementwise sum of two sequences of one length.
pub open spec fn elementwise_add<T: Add<Output = T>>(a: Seq<T>, b: Seq<T>) -> Seq<T> {
    Seq::new(a.len(), |i: int| a[i].add_spec(b[i]))
}

impl<T, const N: usize> Add for Vector<T, N> where T: Copy + Default + Add<Output = T> {
    type Output = Vector<T, N>;

    /// The elementwise sum.
    fn add(self, rhs: Self) -> (res: Vector<T, N>)
        ensures
            forall|k: int| 0 <= k < N ==> is_sum(self@[k], rhs@[k], #[trigger] res@[k]),
            T::obeys_add_spec() ==> res@ == elementwise_add(self@, rhs@),
    {
        let mut res = Vector::<T, N>::new();
        for i in 0..N
            invariant
                forall|k: int| 0 <= k < N ==> (#[trigger] self@[k]).add_req(rhs@[k]),
                forall|k: int| 0 <= k < i ==> is_sum(self@[k], rhs@[k], #[trigger] res@[k]),
                T::obeys_add_spec() ==> forall|k: int|
                    0 <= k < i ==> #[trigger] res@[k] == self@[k].add_spec(rhs@[k]),
        {
            *res.index_mut(i) = self[i] + rhs[i];
        }
        proof {
            if T::obeys_add_spec() {
                assert(res@ =~= elementwise_add(self@, rhs@));
                let chosen = choose|v: Self| v@ == elementwise_add(self@, rhs@);
                Self::lemma_view_determines(res, chosen);
            }
        }
        res
    }
}

impl<T, const N: usize> vstd::std_specs::ops::AddSpecImpl for Vector<T, N> where T: Copy + Default + Add<Output = T> {
    open spec fn obeys_add_spec() -> bool {
        T::obeys_add_spec()
    }

    open spec fn add_req(self, rhs: Self) -> bool {
        forall|k: int| 0 <= k < N ==> (#[trigger] self@[k]).add_req(rhs@[k])
    }

    open spec fn add_spec(self, rhs: Self) -> Self {
        choose|v: Self| v@ == elementwise_add(self@, rhs@)
    }
}

/// The elementwise difference of two sequences of one length.
pub open spec fn elementwise_sub<T: Sub<Output = T>>(a: Seq<T>, b: Seq<T>) -> Seq<T> {
    Seq::new(a.len(), |i: int| a[i].sub_spec(b[i]))
}

impl<T, const N: usize> Sub for Vector<T, N> where T: Copy + Default + Sub<Output = T> {
    type Output = Vector<T, N>;

    /// The elementwise difference.
    fn sub(self, rhs: Self) -> (res: Vector<T, N>)
        ensures
            forall|k: int| 0 <= k < N ==> is_difference(self@[k], rhs@[k], #[trigger] res@[k]),
            T::obeys_sub_spec() ==> res@ == elementwise_sub(self@, rhs@),
    {
        let mut res = Vector::<T, N>::new();
        for i in 0..N
            invariant
                forall|k: int| 0 <= k < N ==> (#[trigger] self@[k]).sub_req(rhs@[k]),
                forall|k: int| 0 <= k < i ==> is_difference(self@[k], rhs@[k], #[trigger] res@[k]),
                T::obeys_sub_spec() ==> forall|k: int|
                    0 <= k < i ==> #[trigger] res@[k] == self@[k].sub_spec(rhs@[k]),
        {
            *res.index_mut(i) = self[i] - rhs[i];
        }
        proof {
            if T::obeys_sub_spec() {
                assert(res@ =~= elementwise_sub(self@, rhs@));
                let chosen = choose|v: Self| v@ == elementwise_sub(self@, rhs@);
                Self::lemma_view_determines(res, chosen);
            }
        }
        res
    }
}

impl<T, const N: usize> vstd::std_specs::ops::SubSpecImpl for Vector<T, N> where T: Copy + Default + Sub<Output = T> {
    open spec fn obeys_sub_spec() -> bool {
        T::obeys_sub_spec()
    }

    open spec fn sub_req(self, rhs: Self) -> bool {
        forall|k: int| 0 <= k < N ==> (#[trigger] self@[k]).sub_req(rhs@[k])
    }

    open spec fn sub_spec(self, rhs: Self) -> Self {
        choose|v: Self| v@ == elementwise_sub(self@, rhs@)
    }
}

/// The elementwise product of two sequences of one length.
pub open spec fn elementwise_mul<T: Mul<Output = T>>(a: Seq<T>, b: Seq<T>) -> Seq<T> {
    Seq::new(a.len(), |i: int| a[i].mul_spec(b[i]))
}

impl<T, const N: usize> Mul for Vector<T, N> where T: Copy + Default + Mul<Output = T> {
    type Output = Vector<T, N>;

    /// The elementwise product.
    fn mul(self, rhs: Self) -> (res: Vector<T, N>)
        ensures
            forall|k: int| 0 <= k < N ==> is_product(self@[k], rhs@[k], #[trigger] res@[k]),
            T::obeys_mul_spec() ==> res@ == elementwise_mul(self@, rhs@),
    {
        let mut res = Vector::<T, N>::new();
        for i in 0..N
            invariant
                forall|k: int| 0 <= k < N ==> (#[trigger] self@[k]).mul_req(rhs@[k]),
                forall|k: int| 0 <= k < i ==> is_product(self@[k], rhs@[k], #[trigger] res@[k]),
                T::obeys_mul_spec() ==> forall|k: int|
                    0 <= k < i ==> #[trigger] res@[k] == self@[k].mul_spec(rhs@[k]),
        {
            *res.index_mut(i) = self[i] * rhs[i];
        }
        proof {
            if T::obeys_mul_spec() {
                assert(res@ =~= elementwise_mul(self@, rhs@));
                let chosen = choose|v: Self| v@ == elementwise_mul(self@, rhs@);
                Self::lemma_view_determines(res, chosen);
            }
        }
        res
    }
}

impl<T, const N: usize> vstd::std_specs::ops::MulSpecImpl for Vector<T, N> where T: Copy + Default + Mul<Output = T> {
    open spec fn obeys_mul_spec() -> bool {
        T::obeys_mul_spec()
    }

    open spec fn mul_req(self, rhs: Self) -> bool {
        forall|k: int| 0 <= k < N ==> (#[trigger] self@[k]).mul_req(rhs@[k])
    }

    open spec fn mul_spec(self, rhs: Self) -> Self {
        choose|v: Self| v@ == elementwise_mul(self@, rhs@)
    }
}

/// The elementwise quotient of two sequences of one length.
pub open spec fn elementwise_div<T: Div<Output = T>>(a: Seq<T>, b: Seq<T>) -> Seq<T> {
    Seq::new(a.len(), |i: int| a[i].div_spec(b[i]))
}

impl<T, const N: usize> Div for Vector<T, N> where T: Copy + Default + Div<Output = T> {
    type Output = Vector<T, N>;

    /// The elementwise quotient.
    fn div(self, rhs: Self) -> (res: Vector<T, N>)
        ensures
            forall|k: int| 0 <= k < N ==> is_quotient(self@[k], rhs@[k], #[trigger] res@[k]),
            T::obeys_div_spec() ==> res@ == elementwise_div(self@, rhs@),
    {
        let mut res = Vector::<T, N>::new();
        for i in 0..N
            invariant
                forall|k: int| 0 <= k < N ==> (#[trigger] self@[k]).div_req(rhs@[k]),
                forall|k: int| 0 <= k < i ==> is_quotient(self@[k], rhs@[k], #[trigger] res@[k]),
                T::obeys_div_spec() ==> forall|k: int|
                    0 <= k < i ==> #[trigger] res@[k] == self@[k].div_spec(rhs@[k]),
        {
            *res.index_mut(i) = self[i] / rhs[i];
        }
        proof {
            if T::obeys_div_spec() {
                assert(res@ =~= elementwise_div(self@, rhs@));
                let chosen = choose|v: Self| v@ == elementwise_div(self@, rhs@);
                Self::lemma_view_determines(res, chosen);
            }
        }
        res
    }
}

impl<T, const N: usize> vstd::std_specs::ops::DivSpecImpl for Vector<T, N> where T: Copy + Default + Div<Output = T> {
    open spec fn obeys_div_spec() -> bool {
        T::obeys_div_spec()
    }

    open spec fn div_req(self, rhs: Self) -> bool {
        forall|k: int| 0 <= k < N ==> (#[trigger] self@[k]).div_req(rhs@[k])
    }

    open spec fn div_spec(self, rhs: Self) -> Self {
        choose|v: Self| v@ == elementwise_div(self@, rhs@)
    }
}

impl<T, const N: usize> Index<usize> for Vector<T, N> where T: Copy + Default {
    type Output = T;

    fn index(&self, index: usize) -> (r: &T)
        ensures
            *r == self@[index as int],
    {
        &self.tab[index]
    }
}

impl<T, const N: usize> vstd::std_specs::core::IndexSpecImpl<usize> for Vector<T, N> where T: Copy + Default {
    open spec fn index_req(&self, index: &usize) -> bool {
        *index < N
    }
}

impl<T, const N: usize> IndexMut<usize> for Vector<T, N> where T: Copy + Default {
    fn index_mut(&mut self, index: usize) -> (r: &mut T)
        requires
            index < N,
        ensures
            *r == old(self)@[index as int],
            final(self)@ == old(self)@.update(index as int, *final(r)),
    {
        &mut self.tab[index]
    }
}

} // verus!
