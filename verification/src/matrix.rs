//! The dense fixed-dimension matrix and its operations.
//!
//! A `Matrix<T, ROWS, COLS>` holds exactly `ROWS * COLS` elements in one
//! contiguous buffer.  The logical position `(row, col)` lives at the linear
//! offset `row + col * COLS` — a deliberate, unusual flattening that the
//! whole crate is built around: the multiplication algorithm's index
//! arithmetic is written against it.  The bound the buffer enforces is on the
//! combination, `row + col * COLS < ROWS * COLS`, which is more permissive
//! than bounding each coordinate on its own; the contracts below state the
//! combined bound, which is what multiplication relies on.

use vstd::prelude::*;

use crate::num::Arith;
use crate::num::Sqrt;
use crate::num::Zero;

verus! {

/// A dense matrix of `ROWS * COLS` elements of `T`, with the dimensions part
/// of the type: two matrices of different shapes are different types, so a
/// shape mismatch is rejected when a program is built, not at run time.
#[derive(Debug, Clone)]
pub struct Matrix<T, const ROWS: usize, const COLS: usize> {
    /// The linear element buffer; `wf()` says it holds exactly
    /// `ROWS * COLS` elements.  Every operation of this crate requires and
    /// preserves that.
    pub data: Vec<T>,
}

/// A running dot product over prefixes of two linear buffers: the sum of the
/// first `n` products `a[a_base + k] * b[b_base + k * b_stride]`, accumulated
/// left to right starting from the additive identity.  This fixes the
/// accumulation order, which matters for element types whose addition is not
/// associative.
pub open spec fn dot_prefix<T: Arith + Zero>(
    a: Seq<T>,
    b: Seq<T>,
    a_base: int,
    b_base: int,
    b_stride: int,
    n: int,
) -> T
    decreases n,
{
    if n <= 0 {
        T::zero_spec()
    } else {
        dot_prefix(a, b, a_base, b_base, b_stride, n - 1).add_spec(
            a[a_base + (n - 1)].mul_spec(b[b_base + (n - 1) * b_stride]),
        )
    }
}

/// The buffer of the product of an `m x n` matrix (buffer `a`) and an
/// `n x l` matrix (buffer `b`): entry `idx` is the dot product of row
/// `idx / l` of the left operand (a contiguous run of `n` elements) with
/// column `idx % l` of the right operand (stride `l`).
pub open spec fn product_seq<T: Arith + Zero>(
    a: Seq<T>,
    b: Seq<T>,
    m: int,
    n: int,
    l: int,
) -> Seq<T> {
    Seq::new((m * l) as nat, |idx: int| dot_prefix(a, b, (idx / l) * n, idx % l, l, n))
}

/// The sum of squares of the first `n` elements of `v`, accumulated left to
/// right starting from the additive identity.
pub open spec fn sum_of_squares<T: Arith + Zero>(v: Seq<T>, n: int) -> T {
    dot_prefix(v, v, 0, 0, 1, n)
}

impl<T, const ROWS: usize, const COLS: usize> Matrix<T, ROWS, COLS> {
    /// Well-formed: the buffer holds exactly `ROWS * COLS` elements.
    pub open spec fn wf(self) -> bool {
        self.data@.len() == (ROWS as int) * (COLS as int)
    }

    /// The element at logical position `(row, col)`, through the crate's
    /// flattening `row + col * COLS`.
    pub open spec fn entry(self, row: int, col: int) -> T {
        self.data@[row + col * (COLS as int)]
    }
}

impl<T, const ROWS: usize, const COLS: usize> View for Matrix<T, ROWS, COLS> {
    type V = Seq<T>;

    open spec fn view(&self) -> Seq<T> {
        self.data@
    }
}

impl<T: Zero, const ROWS: usize, const COLS: usize> Matrix<T, ROWS, COLS> {
    /// The generic zero constructor: builds each of the `ROWS * COLS`
    /// elements independently by asking `T` for its additive identity once
    /// per position.  Correct for every type with the `Zero` capability.
    pub fn zero() -> (r: Self)
        requires
            (ROWS as int) * (COLS as int) <= usize::MAX as int,
        ensures
            r.wf(),
            forall|i: int| 0 <= i < r@.len() ==> r@[i] == T::zero_spec(),
    {
        let n: usize = ROWS * COLS;
        let mut data: Vec<T> = Vec::new();
        let mut i: usize = 0;
        while i < n
            invariant
                i <= n,
                data@.len() == i as int,
                forall|j: int| 0 <= j < i ==> data@[j] == T::zero_spec(),
            decreases n - i,
        {
            data.push(T::zero());
            i = i + 1;
        }
        Matrix { data }
    }
}

impl<T: Zero + Copy, const ROWS: usize, const COLS: usize> Matrix<T, ROWS, COLS> {
    /// The bulk-fill zero constructor for elements that are cheap to
    /// duplicate: computes the additive identity once and replicates it
    /// across all `ROWS * COLS` positions.  Purely an optimisation — it
    /// produces a matrix observably identical to [`Matrix::zero`].
    pub fn zero_filled() -> (r: Self)
        requires
            (ROWS as int) * (COLS as int) <= usize::MAX as int,
        ensures
            r.wf(),
            forall|i: int| 0 <= i < r@.len() ==> r@[i] == T::zero_spec(),
    {
        let n: usize = ROWS * COLS;
        let z: T = T::zero();
        let mut data: Vec<T> = Vec::new();
        let mut i: usize = 0;
        while i < n
            invariant
                i <= n,
                z == T::zero_spec(),
                data@.len() == i as int,
                forall|j: int| 0 <= j < i ==> data@[j] == T::zero_spec(),
            decreases n - i,
        {
            data.push(z);
            i = i + 1;
        }
        Matrix { data }
    }
}

impl<T: Copy, const ROWS: usize, const COLS: usize> Matrix<T, ROWS, COLS> {
    /// Read the element at `(row, col)`.  The bound required is the one the
    /// buffer enforces: the flattened offset must lie inside it.
    pub fn get(&self, row: usize, col: usize) -> (r: T)
        requires
            self.wf(),
            row + col * (COLS as int) < (ROWS as int) * (COLS as int),
        ensures
            r == self.entry(row as int, col as int),
    {
        // Reading the length first puts it in scope as a `usize`, so the
        // offset arithmetic below is known to stay within the machine word.
        let len: usize = self.data.len();
        let off: usize = row + col * COLS;
        self.data[off]
    }

    /// Write `v` to the element at `(row, col)`; every other element keeps
    /// its value.  Reading the same position immediately afterwards returns
    /// `v`.
    pub fn set(&mut self, row: usize, col: usize, v: T)
        requires
            old(self).wf(),
            row + col * (COLS as int) < (ROWS as int) * (COLS as int),
        ensures
            final(self).wf(),
            final(self)@ == old(self)@.update(row + col * (COLS as int), v),
            final(self).entry(row as int, col as int) == v,
    {
        // As in `get`: the length bounds the offset arithmetic.
        let len: usize = self.data.len();
        let off: usize = row + col * COLS;
        self.data[off] = v;
    }

    /// Apply `f` to every element independently, producing a matrix of the
    /// same dimensions whose element type may differ.  The element count is
    /// always preserved.
    pub fn apply<U, F: Fn(T) -> U>(self, f: F) -> (r: Matrix<U, ROWS, COLS>)
        requires
            self.wf(),
            forall|i: int| 0 <= i < self@.len() ==> call_requires(f, (self@[i],)),
        ensures
            r.wf(),
            r@.len() == self@.len(),
            forall|i: int| 0 <= i < self@.len() ==> call_ensures(f, (self@[i],), #[trigger] r@[i]),
    {
        let n: usize = self.data.len();
        let mut data: Vec<U> = Vec::new();
        let mut i: usize = 0;
        while i < n
            invariant
                i <= n,
                n == self@.len(),
                self.wf(),
                forall|j: int| 0 <= j < n ==> call_requires(f, (self@[j],)),
                data@.len() == i as int,
                forall|j: int| 0 <= j < i ==> call_ensures(f, (self@[j],), #[trigger] data@[j]),
            decreases n - i,
        {
            let x: T = self.data[i];
            data.push(f(x));
            i = i + 1;
        }
        Matrix { data }
    }

    /// Apply `f` to every element in place: the same transformation as
    /// [`Matrix::apply`] restricted to endofunctions, reusing the buffer so
    /// a same-type transform needs no fresh allocation.
    pub fn apply_into<F: Fn(T) -> T>(self, f: F) -> (r: Self)
        requires
            self.wf(),
            forall|i: int| 0 <= i < self@.len() ==> call_requires(f, (self@[i],)),
        ensures
            r.wf(),
            r@.len() == self@.len(),
            forall|i: int| 0 <= i < self@.len() ==> call_ensures(f, (self@[i],), #[trigger] r@[i]),
    {
        let ghost orig: Seq<T> = self@;
        let mut m = self;
        let n: usize = m.data.len();
        let mut i: usize = 0;
        while i < n
            invariant
                i <= n,
                n == orig.len(),
                m.data@.len() == orig.len(),
                forall|j: int| 0 <= j < n ==> call_requires(f, (orig[j],)),
                forall|j: int| i <= j < n ==> m.data@[j] == orig[j],
                forall|j: int| 0 <= j < i ==> call_ensures(f, (orig[j],), #[trigger] m.data@[j]),
            decreases n - i,
        {
            let x: T = m.data[i];
            proof {
                assert(x == orig[i as int]);
                assert(call_requires(f, (orig[i as int],)));
            }
            m.data[i] = f(x);
            i = i + 1;
        }
        m
    }
}

impl<T: Arith + Copy, const ROWS: usize, const COLS: usize> Matrix<T, ROWS, COLS> {
    /// Multiply every element by the scalar `rhs`, on the right: each entry
    /// of the result is the matching entry of `self` multiplied by `rhs`.
    pub fn mul_scalar(self, rhs: T) -> (r: Self)
        requires
            self.wf(),
        ensures
            r.wf(),
            r@.len() == self@.len(),
            forall|i: int| 0 <= i < self@.len() ==> #[trigger] r@[i] == self@[i].mul_spec(rhs),
            forall|row: int, col: int|
                0 <= row && 0 <= col && row + col * (COLS as int) < (ROWS as int) * (COLS as int)
                    ==> #[trigger] r.entry(row, col) == self.entry(row, col).mul_spec(rhs),
    {
        let g = |el: T| -> (res: T)
            ensures
                res == el.mul_spec(rhs),
            { el.mul(rhs) };
        let r = self.apply_into(g);
        proof {
            assert forall|i: int| 0 <= i < self@.len() implies #[trigger] r@[i]
                == self@[i].mul_spec(rhs) by {
                assert(call_ensures(g, (self@[i],), r@[i]));
            }
        }
        r
    }
}

impl<T: Arith + Zero + Copy, const M: usize, const N: usize> Matrix<T, M, N> {
    /// Matrix–matrix multiplication: the inner dimension `N` is shared by
    /// the two operand types, so incompatible shapes do not build.  Each
    /// output position accumulates its dot product left to right over the
    /// shared dimension, starting from the additive identity — the exact
    /// order `dot_prefix` states.
    pub fn matmul<const L: usize>(&self, rhs: &Matrix<T, N, L>) -> (r: Matrix<T, M, L>)
        requires
            self.wf(),
            rhs.wf(),
            (M as int) * (L as int) <= usize::MAX as int,
        ensures
            r.wf(),
            r@ == product_seq(self@, rhs@, M as int, N as int, L as int),
    {
        let out_len: usize = M * L;
        let mut data: Vec<T> = Vec::new();
        let mut idx: usize = 0;
        while idx < out_len
            invariant
                idx <= out_len,
                out_len == (M as int) * (L as int),
                self.wf(),
                rhs.wf(),
                data@.len() == idx as int,
                forall|j: int| 0 <= j < idx ==> #[trigger] data@[j]
                    == product_seq(self@, rhs@, M as int, N as int, L as int)[j],
            decreases out_len - idx,
        {
            proof {
                assert(L > 0) by (nonlinear_arith)
                    requires
                        idx < (M as int) * (L as int),
                        0 <= idx,
                ;
            }
            let row: usize = idx / L;
            let col: usize = idx % L;
            proof {
                assert(row < M && col < L) by (nonlinear_arith)
                    requires
                        L > 0,
                        idx < (M as int) * (L as int),
                        0 <= idx,
                        row == idx as int / L as int,
                        col == idx as int % L as int,
                ;
            }
            let mut acc: T = T::zero();
            let mut i: usize = 0;
            while i < N
                invariant
                    i <= N,
                    row < M,
                    col < L,
                    self.wf(),
                    rhs.wf(),
                    acc == dot_prefix(
                        self@,
                        rhs@,
                        (row as int) * (N as int),
                        col as int,
                        L as int,
                        i as int,
                    ),
                decreases N - i,
            {
                proof {
                    assert(i + row * (N as int) < (M as int) * (N as int)
                        && col + i * (L as int) < (N as int) * (L as int)) by (nonlinear_arith)
                        requires
                            0 <= i < N,
                            0 <= row < M,
                            0 <= col < L,
                    ;
                }
                let a: T = self.get(i, row);
                let b: T = rhs.get(col, i);
                acc = acc.add(a.mul(b));
                i = i + 1;
            }
            proof {
                vstd::arithmetic::div_mod::lemma_fundamental_div_mod(idx as int, L as int);
            }
            data.push(acc);
            idx = idx + 1;
        }
        let r = Matrix { data };
        proof {
            assert(r@ =~= product_seq(self@, rhs@, M as int, N as int, L as int));
        }
        r
    }
}

impl<T: Arith + Zero + Copy, const ROWS: usize> Matrix<T, ROWS, 1> {
    /// The squared Euclidean norm of a column vector: each element
    /// multiplied by itself, summed left to right from the additive
    /// identity.
    pub fn norm_squared(self) -> (r: T)
        requires
            self.wf(),
        ensures
            r == sum_of_squares(self@, ROWS as int),
    {
        let n: usize = self.data.len();
        let mut acc: T = T::zero();
        let mut i: usize = 0;
        while i < n
            invariant
                i <= n,
                n == self@.len(),
                self.wf(),
                acc == sum_of_squares(self@, i as int),
            decreases n - i,
        {
            let x: T = self.data[i];
            acc = acc.add(x.mul(x));
            i = i + 1;
        }
        acc
    }
}

impl<T: Arith + Zero + Sqrt + Copy, const ROWS: usize> Matrix<T, ROWS, 1> {
    /// The Euclidean norm of a column vector: one square root applied to the
    /// squared norm.
    pub fn norm(self) -> (r: T)
        requires
            self.wf(),
        ensures
            r == sum_of_squares(self@, ROWS as int).sqrt_spec(),
    {
        self.norm_squared().sqrt()
    }
}

} // verus!
