//! Fixed-length vectors of double-precision scalars, carried as bit
//! patterns, with elementwise addition, subtraction, scaling and the dot
//! product.
use vstd::prelude::*;
use crate::scalar::{add_bits, sub_bits, mul_bits, is_nan_bits, f_add, f_sub, f_mul};
use crate::NetworkError;

verus! {

/// Ordered sequence of scalars; its length is fixed at construction and
/// never changes afterwards.
pub struct Vector {
    inner: Vec<u64>,
}

impl View for Vector {
    type V = Seq<u64>;

    closed spec fn view(&self) -> Seq<u64> {
        self.inner@
    }
}

pub open spec fn spec_vec_add(a: Seq<u64>, b: Seq<u64>) -> Seq<u64> {
    Seq::new(a.len(), |i: int| add_bits(a[i], b[i]))
}

pub open spec fn spec_vec_sub(a: Seq<u64>, b: Seq<u64>) -> Seq<u64> {
    Seq::new(a.len(), |i: int| sub_bits(a[i], b[i]))
}

pub open spec fn spec_vec_scale(v: Seq<u64>, factor: u64) -> Seq<u64> {
    Seq::new(v.len(), |i: int| mul_bits(v[i], factor))
}

/// The sum of the first `n` elementwise products of `a` and `b`, added up
/// left to right starting from +0.0.
pub open spec fn spec_dot_prefix(a: Seq<u64>, b: Seq<u64>, n: nat) -> u64
    decreases n,
{
    if n == 0 {
        0u64
    } else {
        add_bits(spec_dot_prefix(a, b, (n - 1) as nat), mul_bits(a[n - 1], b[n - 1]))
    }
}

pub open spec fn spec_dot(a: Seq<u64>, b: Seq<u64>) -> u64 {
    spec_dot_prefix(a, b, a.len())
}

impl Vector {
    /// Zero vector of length `n`.
    pub fn new(n: usize) -> (v: Vector)
        ensures
            v@.len() == n,
            forall|i: int| 0 <= i < n ==> v@[i] == 0u64,
    {
        let mut inner: Vec<u64> = Vec::new();
        let mut i: usize = 0;
        while i < n
            invariant
                i <= n,
                inner@.len() == i,
                forall|k: int| 0 <= k < i ==> inner@[k] == 0u64,
            decreases n - i,
        {
            inner.push(0u64);
            i += 1;
        }
        Vector { inner }
    }

    /// Wraps an existing sequence of scalars, taking its length as given.
    pub fn from(scalars: Vec<u64>) -> (v: Vector)
        ensures
            v@ == scalars@,
    {
        Vector { inner: scalars }
    }

    pub fn len(&self) -> (n: usize)
        ensures
            n == self@.len(),
    {
        self.inner.len()
    }

    pub fn inner_ref(&self) -> (r: &Vec<u64>)
        ensures
            r@ == self@,
    {
        &self.inner
    }

    /// Elementwise sum; lengths must agree.
    pub fn add(&self, rhs: &Vector) -> (r: Result<Vector, NetworkError>)
        ensures
            match r {
                Ok(v) => self@.len() == rhs@.len() && v@ == spec_vec_add(self@, rhs@),
                Err(e) => self@.len() != rhs@.len() && e == NetworkError::DimensionMismatch,
            },
    {
        if self.inner.len() != rhs.inner.len() {
            return Err(NetworkError::DimensionMismatch);
        }
        let mut out: Vec<u64> = Vec::new();
        let mut i: usize = 0;
        while i < self.inner.len()
            invariant
                i <= self@.len(),
                self@.len() == rhs@.len(),
                out@.len() == i,
                forall|k: int| 0 <= k < i ==> out@[k] == add_bits(self@[k], rhs@[k]),
            decreases self@.len() - i,
        {
            let s = f_add(self.inner[i], rhs.inner[i]);
            out.push(s);
            i += 1;
        }
        proof {
            assert(out@ =~= spec_vec_add(self@, rhs@));
        }
        Ok(Vector { inner: out })
    }

    /// Elementwise difference; lengths must agree.
    pub fn sub(&self, rhs: &Vector) -> (r: Result<Vector, NetworkError>)
        ensures
            match r {
                Ok(v) => self@.len() == rhs@.len() && v@ == spec_vec_sub(self@, rhs@),
                Err(e) => self@.len() != rhs@.len() && e == NetworkError::DimensionMismatch,
            },
    {
        if self.inner.len() != rhs.inner.len() {
            return Err(NetworkError::DimensionMismatch);
        }
        let mut out: Vec<u64> = Vec::new();
        let mut i: usize = 0;
        while i < self.inner.len()
            invariant
                i <= self@.len(),
                self@.len() == rhs@.len(),
                out@.len() == i,
                forall|k: int| 0 <= k < i ==> out@[k] == sub_bits(self@[k], rhs@[k]),
            decreases self@.len() - i,
        {
            let s = f_sub(self.inner[i], rhs.inner[i]);
            out.push(s);
            i += 1;
        }
        proof {
            assert(out@ =~= spec_vec_sub(self@, rhs@));
        }
        Ok(Vector { inner: out })
    }

    /// Elementwise multiplication by a scalar; always succeeds.
    pub fn scale(&self, factor: u64) -> (r: Vector)
        ensures
            r@ == spec_vec_scale(self@, factor),
    {
        let mut out: Vec<u64> = Vec::new();
        let mut i: usize = 0;
        while i < self.inner.len()
            invariant
                i <= self@.len(),
                out@.len() == i,
                forall|k: int| 0 <= k < i ==> out@[k] == mul_bits(self@[k], factor),
            decreases self@.len() - i,
        {
            let s = f_mul(self.inner[i], factor);
            out.push(s);
            i += 1;
        }
        proof {
            assert(out@ =~= spec_vec_scale(self@, factor));
        }
        Vector { inner: out }
    }

    /// Sum of elementwise products, added up left to right; lengths must
    /// agree.
    pub fn dot(&self, rhs: &Vector) -> (r: Result<u64, NetworkError>)
        ensures
            match r {
                Ok(v) => self@.len() == rhs@.len() && v == spec_dot(self@, rhs@),
                Err(e) => self@.len() != rhs@.len() && e == NetworkError::DimensionMismatch,
            },
    {
        if self.inner.len() != rhs.inner.len() {
            return Err(NetworkError::DimensionMismatch);
        }
        let mut acc: u64 = 0;
        let mut i: usize = 0;
        while i < self.inner.len()
            invariant
                i <= self@.len(),
                self@.len() == rhs@.len(),
                acc == spec_dot_prefix(self@, rhs@, i as nat),
            decreases self@.len() - i,
        {
            let p = f_mul(self.inner[i], rhs.inner[i]);
            acc = f_add(acc, p);
            i += 1;
        }
        Ok(acc)
    }
}

impl Clone for Vector {
    /// The copy has the same scalars.
    fn clone(&self) -> (r: Self)
        ensures
            r@ == self@,
    {
        let mut inner: Vec<u64> = Vec::new();
        let mut i: usize = 0;
        while i < self.inner.len()
            invariant
                i <= self@.len(),
                inner@.len() == i,
                forall|k: int| 0 <= k < i ==> inner@[k] == self@[k],
            decreases self@.len() - i,
        {
            let s = self.inner[i];
            inner.push(s);
            i += 1;
        }
        proof {
            assert(inner@ =~= self@);
        }
        Vector { inner }
    }
}

/// Elementwise multiplication by a scalar.
pub trait Scale {
    type Output;

    fn scale(self, factor: u64) -> Self::Output;
}

/// Dot product.
pub trait Dot {
    type Output;

    fn dot(self, rhs: Self) -> Self::Output;
}

impl Scale for &Vector {
    type Output = Vector;

    fn scale(self, factor: u64) -> (r: Self::Output)
        ensures
            r@ == spec_vec_scale(self@, factor),
    {
        Vector::scale(self, factor)
    }
}

impl Dot for &Vector {
    type Output = Result<u64, NetworkError>;

    fn dot(self, rhs: Self) -> (r: Self::Output)
        ensures
            match r {
                Ok(v) => self@.len() == rhs@.len() && v == spec_dot(self@, rhs@),
                Err(e) => self@.len() != rhs@.len() && e == NetworkError::DimensionMismatch,
            },
    {
        Vector::dot(self, rhs)
    }
}

pub proof fn lemma_dot_prefix_commutes(a: Seq<u64>, b: Seq<u64>, n: nat)
    requires
        n <= a.len(),
        n <= b.len(),
        forall|i: int| 0 <= i < n ==> !is_nan_bits(a[i]) && !is_nan_bits(b[i]),
    ensures
        spec_dot_prefix(a, b, n) == spec_dot_prefix(b, a, n),
    decreases n,
{
    if n > 0 {
        lemma_dot_prefix_commutes(a, b, (n - 1) as nat);
        assert(mul_bits(a[n - 1], b[n - 1]) == mul_bits(b[n - 1], a[n - 1]));
    }
}

/// Law: scaling a vector without NaN entries by 1.0 returns it unchanged,
/// since the product of a non-NaN double with 1.0 is that double exactly.
pub proof fn lemma_scale_by_one(v: Seq<u64>)
    requires
        forall|i: int| 0 <= i < v.len() ==> !is_nan_bits(v[i]),
    ensures
        spec_vec_scale(v, crate::scalar::ONE_BITS) == v,
{
    assert((0x3FF0_0000_0000_0000u64 & 0x7FF0_0000_0000_0000u64) >> 52u64 == 0x3FFu64)
        by (bit_vector);
    assert(!is_nan_bits(crate::scalar::ONE_BITS));
    assert forall|i: int| 0 <= i < v.len() implies spec_vec_scale(v, crate::scalar::ONE_BITS)[i]
        == v[i] by {
        assert(!is_nan_bits(v[i]));
    }
    assert(spec_vec_scale(v, crate::scalar::ONE_BITS) =~= v);
}

/// Law: the dot product of two equal-length vectors without NaN entries is
/// the same in either order. Each pairwise product commutes, and the
/// products are added up in the same order on both sides.
pub proof fn lemma_dot_commutes(a: Seq<u64>, b: Seq<u64>)
    requires
        a.len() == b.len(),
        forall|i: int| 0 <= i < a.len() ==> !is_nan_bits(a[i]) && !is_nan_bits(b[i]),
    ensures
        spec_dot(a, b) == spec_dot(b, a),
{
    lemma_dot_prefix_commutes(a, b, a.len());
}

} // verus!
