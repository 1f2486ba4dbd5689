//! Laws that relate several operations of the crate, stated and proved once
//! so every caller can rely on them.

use vstd::prelude::*;

use crate::matrix::dot_prefix;
use crate::matrix::product_seq;
use crate::matrix::Matrix;
use crate::num::Arith;
use crate::num::Zero;
use vstd::arithmetic::div_mod::lemma_fundamental_div_mod_converse;

verus! {

/// The two zero-construction strategies agree.  `zero` and `zero_filled`
/// each ensure a well-formed matrix whose every element is the additive
/// identity; any two matrices of the same shape with that property have
/// equal element sequences, so the bulk-fill path is observably identical
/// to the per-element path.
pub proof fn lemma_zero_paths_agree<T: Zero, const ROWS: usize, const COLS: usize>(
    a: Matrix<T, ROWS, COLS>,
    b: Matrix<T, ROWS, COLS>,
)
    requires
        a.wf(),
        b.wf(),
        forall|i: int| 0 <= i < a@.len() ==> a@[i] == T::zero_spec(),
        forall|i: int| 0 <= i < b@.len() ==> b@[i] == T::zero_spec(),
    ensures
        a@ == b@,
{
    assert(a@ =~= b@);
}

/// Read-after-write consistency.  `after` is `before` with `v` written at
/// `(row, col)` — exactly what `set` ensures; then reading the same
/// position returns `v`, and every other position is unchanged.
pub proof fn lemma_read_after_write<T, const ROWS: usize, const COLS: usize>(
    before: Matrix<T, ROWS, COLS>,
    after: Matrix<T, ROWS, COLS>,
    row: int,
    col: int,
    v: T,
)
    requires
        before.wf(),
        0 <= row,
        0 <= col,
        row + col * (COLS as int) < (ROWS as int) * (COLS as int),
        after@ == before@.update(row + col * (COLS as int), v),
    ensures
        after.entry(row, col) == v,
        forall|r: int, c: int|
            0 <= r && 0 <= c && r + c * (COLS as int) < (ROWS as int) * (COLS as int)
                && r + c * (COLS as int) != row + col * (COLS as int)
                ==> #[trigger] after.entry(r, c) == before.entry(r, c),
{
}

/// The algebraic laws of an element type under which matrix multiplication
/// is associative: addition is a commutative monoid over the additive
/// identity, multiplication is associative, distributes over addition on
/// both sides, and annihilates the identity.  The wrapping machine integers
/// satisfy every law (`lemma_u64_ring_laws`); floating-point addition
/// satisfies neither associativity nor distributivity exactly, which is why
/// the associativity of matrix multiplication cannot be exact for such
/// elements.
///
/// The predicate is opaque: the quantified laws, taken together, would send
/// the solver into a matching loop, so proofs take single instances through
/// the `law_` lemmas below.
#[verifier::opaque]
pub open spec fn ring_laws<T: Arith + Zero>() -> bool {
    &&& forall|x: T| #[trigger] x.add_spec(T::zero_spec()) == x
    &&& forall|x: T| #[trigger] T::zero_spec().add_spec(x) == x
    &&& forall|x: T, y: T| #[trigger] x.add_spec(y) == y.add_spec(x)
    &&& forall|x: T, y: T, z: T|
        #![trigger x.add_spec(y).add_spec(z)]
        x.add_spec(y).add_spec(z) == x.add_spec(y.add_spec(z))
    &&& forall|x: T, y: T, z: T| #[trigger] x.mul_spec(y.add_spec(z)) == x.mul_spec(y).add_spec(
        x.mul_spec(z),
    )
    &&& forall|x: T, y: T, z: T| #[trigger] x.add_spec(y).mul_spec(z) == x.mul_spec(z).add_spec(
        y.mul_spec(z),
    )
    &&& forall|x: T, y: T, z: T|
        #![trigger x.mul_spec(y).mul_spec(z)]
        x.mul_spec(y).mul_spec(z) == x.mul_spec(y.mul_spec(z))
    &&& forall|x: T| #[trigger] x.mul_spec(T::zero_spec()) == T::zero_spec()
    &&& forall|x: T| #[trigger] T::zero_spec().mul_spec(x) == T::zero_spec()
}

proof fn law_add_identity<T: Arith + Zero>(x: T)
    requires
        ring_laws::<T>(),
    ensures
        x.add_spec(T::zero_spec()) == x,
        T::zero_spec().add_spec(x) == x,
{
    reveal(ring_laws);
}

proof fn law_add_comm<T: Arith + Zero>(x: T, y: T)
    requires
        ring_laws::<T>(),
    ensures
        x.add_spec(y) == y.add_spec(x),
{
    reveal(ring_laws);
}

proof fn law_add_assoc<T: Arith + Zero>(x: T, y: T, z: T)
    requires
        ring_laws::<T>(),
    ensures
        x.add_spec(y).add_spec(z) == x.add_spec(y.add_spec(z)),
{
    reveal(ring_laws);
}

proof fn law_distr_left<T: Arith + Zero>(x: T, y: T, z: T)
    requires
        ring_laws::<T>(),
    ensures
        x.mul_spec(y.add_spec(z)) == x.mul_spec(y).add_spec(x.mul_spec(z)),
{
    reveal(ring_laws);
}

proof fn law_distr_right<T: Arith + Zero>(x: T, y: T, z: T)
    requires
        ring_laws::<T>(),
    ensures
        x.add_spec(y).mul_spec(z) == x.mul_spec(z).add_spec(y.mul_spec(z)),
{
    reveal(ring_laws);
}

proof fn law_mul_assoc<T: Arith + Zero>(x: T, y: T, z: T)
    requires
        ring_laws::<T>(),
    ensures
        x.mul_spec(y).mul_spec(z) == x.mul_spec(y.mul_spec(z)),
{
    reveal(ring_laws);
}

proof fn law_mul_zero<T: Arith + Zero>(x: T)
    requires
        ring_laws::<T>(),
    ensures
        x.mul_spec(T::zero_spec()) == T::zero_spec(),
        T::zero_spec().mul_spec(x) == T::zero_spec(),
{
    reveal(ring_laws);
}

/// The sum of `f(0)`, …, `f(n - 1)`, accumulated left to right from the
/// additive identity.
spec fn sum<T: Arith + Zero>(f: spec_fn(int) -> T, n: int) -> T
    decreases n,
{
    if n <= 0 {
        T::zero_spec()
    } else {
        sum(f, n - 1).add_spec(f(n - 1))
    }
}

proof fn lemma_sum_congruence<T: Arith + Zero>(f: spec_fn(int) -> T, g: spec_fn(int) -> T, n: int)
    requires
        forall|j: int| 0 <= j < n ==> #[trigger] f(j) == g(j),
    ensures
        sum(f, n) == sum(g, n),
    decreases n,
{
    if n > 0 {
        lemma_sum_congruence(f, g, n - 1);
    }
}

proof fn lemma_sum_zero<T: Arith + Zero>(n: int)
    requires
        ring_laws::<T>(),
    ensures
        sum(|j: int| T::zero_spec(), n) == T::zero_spec(),
    decreases n,
{
    if n > 0 {
        lemma_sum_zero::<T>(n - 1);
        law_add_identity(T::zero_spec());
    }
}

/// Sums add termwise: the sum of `f(j) + g(j)` is `sum f + sum g`.
proof fn lemma_sum_add<T: Arith + Zero>(f: spec_fn(int) -> T, g: spec_fn(int) -> T, n: int)
    requires
        ring_laws::<T>(),
    ensures
        sum(|j: int| f(j).add_spec(g(j)), n) == sum(f, n).add_spec(sum(g, n)),
    decreases n,
{
    if n <= 0 {
        law_add_identity(T::zero_spec());
    } else {
        lemma_sum_add(f, g, n - 1);
        let sf = sum(f, n - 1);
        let sg = sum(g, n - 1);
        let af = f(n - 1);
        let ag = g(n - 1);
        law_add_assoc(sf, sg, af.add_spec(ag));
        law_add_assoc(sg, af, ag);
        law_add_comm(sg, af);
        law_add_assoc(af, sg, ag);
        law_add_assoc(sf, af, sg.add_spec(ag));
    }
}

/// A common factor on the right distributes out of a sum.
proof fn lemma_sum_mul_right<T: Arith + Zero>(f: spec_fn(int) -> T, c: T, n: int)
    requires
        ring_laws::<T>(),
    ensures
        sum(|j: int| f(j).mul_spec(c), n) == sum(f, n).mul_spec(c),
    decreases n,
{
    if n <= 0 {
        law_mul_zero(c);
    } else {
        lemma_sum_mul_right(f, c, n - 1);
        law_distr_right(sum(f, n - 1), f(n - 1), c);
    }
}

/// A common factor on the left distributes out of a sum.
proof fn lemma_sum_mul_left<T: Arith + Zero>(c: T, f: spec_fn(int) -> T, n: int)
    requires
        ring_laws::<T>(),
    ensures
        sum(|j: int| c.mul_spec(f(j)), n) == c.mul_spec(sum(f, n)),
    decreases n,
{
    if n <= 0 {
        law_mul_zero(c);
    } else {
        lemma_sum_mul_left(c, f, n - 1);
        law_distr_left(c, sum(f, n - 1), f(n - 1));
    }
}

/// The order of a double sum can be exchanged.
proof fn lemma_sum_swap<T: Arith + Zero>(h: spec_fn(int, int) -> T, n: int, l: int)
    requires
        ring_laws::<T>(),
    ensures
        sum(|k: int| sum(|j: int| h(j, k), n), l) == sum(|j: int| sum(|k: int| h(j, k), l), n),
    decreases l,
{
    if l <= 0 {
        lemma_sum_congruence(|j: int| sum(|k: int| h(j, k), l), |j: int| T::zero_spec(), n);
        lemma_sum_zero::<T>(n);
    } else {
        let lm1: int = l - 1;
        let sk = |k: int| sum(|j: int| h(j, k), n);
        let rl = |j: int| sum(|k: int| h(j, k), l);
        let rl1 = |j: int| sum(|k: int| h(j, k), lm1);
        let fstar = |j: int| h(j, lm1);
        lemma_sum_swap(h, n, l - 1);
        assert(sum(sk, l) == sum(sk, lm1).add_spec(sk(lm1)));
        assert(sk(lm1) == sum(fstar, n)) by {
            lemma_sum_congruence(|j: int| h(j, lm1), fstar, n);
        }
        lemma_sum_add(rl1, fstar, n);
        assert forall|j: int| 0 <= j < n implies #[trigger] rl1(j).add_spec(fstar(j)) == rl(
            j,
        ) by {
            assert(rl(j) == sum(|k: int| h(j, k), l - 1).add_spec(h(j, l - 1)));
        }
        lemma_sum_congruence(|j: int| rl1(j).add_spec(fstar(j)), rl, n);
    }
}

/// `dot_prefix` is the generic sum of its products.
proof fn lemma_dot_prefix_is_sum<T: Arith + Zero>(
    a: Seq<T>,
    b: Seq<T>,
    a_base: int,
    b_base: int,
    b_stride: int,
    n: int,
)
    ensures
        dot_prefix(a, b, a_base, b_base, b_stride, n) == sum(
            |j: int| a[a_base + j].mul_spec(b[b_base + j * b_stride]),
            n,
        ),
    decreases n,
{
    if n > 0 {
        lemma_dot_prefix_is_sum(a, b, a_base, b_base, b_stride, n - 1);
    }
}

/// One entry of the associativity law: see `lemma_matmul_assoc`.
proof fn lemma_matmul_assoc_entry<T: Arith + Zero>(
    a: Seq<T>,
    b: Seq<T>,
    c: Seq<T>,
    m: int,
    n: int,
    l: int,
    p: int,
    idx: int,
)
    requires
        ring_laws::<T>(),
        0 <= m,
        0 <= n,
        0 <= l,
        0 <= p,
        a.len() == m * n,
        b.len() == n * l,
        c.len() == l * p,
        0 <= idx < m * p,
    ensures
        product_seq(product_seq(a, b, m, n, l), c, m, l, p)[idx] == product_seq(
            a,
            product_seq(b, c, n, l, p),
            m,
            n,
            p,
        )[idx],
{
    let ab = product_seq(a, b, m, n, l);
    let bc = product_seq(b, c, n, l, p);
    assert(p > 0) by (nonlinear_arith)
        requires
            0 <= m,
            0 <= idx < m * p,
    ;
    let r = idx / p;
    let q = idx % p;
    vstd::arithmetic::div_mod::lemma_fundamental_div_mod(idx, p);
    assert(0 <= q < p);
    assert(0 <= r < m) by (nonlinear_arith)
        requires
            p > 0,
            0 <= idx < m * p,
            idx == p * r + q,
            0 <= q < p,
    ;
    // The element-level factors, with the product associated to the left.
    let h = |j: int, k: int| a[r * n + j].mul_spec(b[k + j * l]).mul_spec(c[q + k * p]);
    // The left-hand entry is the double sum over k, then j.
    assert(product_seq(ab, c, m, l, p)[idx] == dot_prefix(ab, c, r * l, q, p, l));
    lemma_dot_prefix_is_sum(ab, c, r * l, q, p, l);
    let f1 = |k: int| ab[r * l + k].mul_spec(c[q + k * p]);
    let f2 = |k: int| sum(|j: int| a[r * n + j].mul_spec(b[k + j * l]), n).mul_spec(c[q + k * p]);
    let f3 = |k: int| sum(|j: int| h(j, k), n);
    assert forall|k: int| 0 <= k < l implies #[trigger] f1(k) == f2(k) by {
        assert(0 <= r * l + k < m * l) by (nonlinear_arith)
            requires
                0 <= r < m,
                0 <= k < l,
        ;
        lemma_fundamental_div_mod_converse(r * l + k, l, r, k);
        assert(ab[r * l + k] == dot_prefix(a, b, r * n, k, l, n));
        lemma_dot_prefix_is_sum(a, b, r * n, k, l, n);
    }
    lemma_sum_congruence(f1, f2, l);
    assert forall|k: int| 0 <= k < l implies #[trigger] f2(k) == f3(k) by {
        let fk = |j: int| a[r * n + j].mul_spec(b[k + j * l]);
        let ck = c[q + k * p];
        lemma_sum_mul_right(fk, ck, n);
        lemma_sum_congruence(|j: int| fk(j).mul_spec(ck), |j: int| h(j, k), n);
    }
    lemma_sum_congruence(f2, f3, l);
    // The right-hand entry is the double sum over j, then k.
    assert(product_seq(a, bc, m, n, p)[idx] == dot_prefix(a, bc, r * n, q, p, n));
    lemma_dot_prefix_is_sum(a, bc, r * n, q, p, n);
    let g1 = |j: int| a[r * n + j].mul_spec(bc[q + j * p]);
    let g3 = |j: int| sum(|k: int| h(j, k), l);
    assert forall|j: int| 0 <= j < n implies #[trigger] g1(j) == g3(j) by {
        assert(0 <= q + j * p < n * p) by (nonlinear_arith)
            requires
                0 <= q < p,
                0 <= j < n,
        ;
        lemma_fundamental_div_mod_converse(q + j * p, p, j, q);
        assert(bc[q + j * p] == dot_prefix(b, c, j * l, q, p, l));
        lemma_dot_prefix_is_sum(b, c, j * l, q, p, l);
        let aj = a[r * n + j];
        let fj = |k: int| b[j * l + k].mul_spec(c[q + k * p]);
        lemma_sum_mul_left(aj, fj, l);
        assert forall|k: int| 0 <= k < l implies #[trigger] aj.mul_spec(fj(k)) == h(j, k) by {
            law_mul_assoc(aj, b[j * l + k], c[q + k * p]);
        }
        lemma_sum_congruence(|k: int| aj.mul_spec(fj(k)), |k: int| h(j, k), l);
    }
    lemma_sum_congruence(g1, g3, n);
    // Exchange the double sum to close the gap.
    lemma_sum_swap(h, n, l);
}

/// Matrix multiplication is associative over the element buffers: for
/// compatible shapes `m x n`, `n x l` and `l x p`, multiplying the product
/// of the first two by the third gives the same buffer as multiplying the
/// first by the product of the last two — exactly, whenever the element
/// type satisfies `ring_laws`.
pub proof fn lemma_matmul_assoc<T: Arith + Zero>(
    a: Seq<T>,
    b: Seq<T>,
    c: Seq<T>,
    m: int,
    n: int,
    l: int,
    p: int,
)
    requires
        ring_laws::<T>(),
        0 <= m,
        0 <= n,
        0 <= l,
        0 <= p,
        a.len() == m * n,
        b.len() == n * l,
        c.len() == l * p,
    ensures
        product_seq(product_seq(a, b, m, n, l), c, m, l, p) == product_seq(
            a,
            product_seq(b, c, n, l, p),
            m,
            n,
            p,
        ),
{
    let lhs = product_seq(product_seq(a, b, m, n, l), c, m, l, p);
    let rhs = product_seq(a, product_seq(b, c, n, l, p), m, n, p);
    assert forall|idx: int| 0 <= idx < m * p implies #[trigger] lhs[idx] == rhs[idx] by {
        lemma_matmul_assoc_entry(a, b, c, m, n, l, p, idx);
    }
    assert(lhs =~= rhs);
}

/// The associativity law at the matrix level: with the shapes enforced by
/// the types, the buffer `matmul` ensures for `(a * b) * c` equals the one
/// it ensures for `a * (b * c)`.
pub proof fn lemma_matmul_associative<
    T: Arith + Zero,
    const M: usize,
    const N: usize,
    const L: usize,
    const P: usize,
>(a: Matrix<T, M, N>, b: Matrix<T, N, L>, c: Matrix<T, L, P>)
    requires
        ring_laws::<T>(),
        a.wf(),
        b.wf(),
        c.wf(),
    ensures
        product_seq(
            product_seq(a@, b@, M as int, N as int, L as int),
            c@,
            M as int,
            L as int,
            P as int,
        ) == product_seq(
            a@,
            product_seq(b@, c@, N as int, L as int, P as int),
            M as int,
            N as int,
            P as int,
        ),
{
    lemma_matmul_assoc(a@, b@, c@, M as int, N as int, L as int, P as int);
}

/// Wrapping addition of `u64` is addition modulo 2^64.
proof fn lemma_wadd_mod(x: u64, y: u64)
    ensures
        (x.add_spec(y)) as int == ((x as int) + (y as int)) % 0x1_0000_0000_0000_0000,
{
    let m: int = 0x1_0000_0000_0000_0000;
    let s: int = (x as int) + (y as int);
    if s > u64::MAX as int {
        vstd::arithmetic::div_mod::lemma_fundamental_div_mod_converse_mod(s, m, 1, s - m);
    } else {
        vstd::arithmetic::div_mod::lemma_small_mod(s as nat, m as nat);
    }
}

/// Wrapping multiplication of `u64` is multiplication modulo 2^64.
proof fn lemma_wmul_mod(x: u64, y: u64)
    ensures
        (x.mul_spec(y)) as int == ((x as int) * (y as int)) % 0x1_0000_0000_0000_0000,
{
    let m: int = 0x1_0000_0000_0000_0000;
    let prod: int = (x as int) * (y as int);
    assert((x as int) * (y as int) >= 0) by (nonlinear_arith)
        requires
            x as int >= 0,
            y as int >= 0,
    ;
    assert(0 <= prod % m < m);
}

/// The wrapping arithmetic of `u64` satisfies every law the associativity
/// of matrix multiplication needs: both operations act modulo 2^64, under
/// which addition is a commutative monoid and multiplication associates,
/// distributes and annihilates zero.
pub proof fn lemma_u64_ring_laws()
    ensures
        ring_laws::<u64>(),
{
    let m: int = 0x1_0000_0000_0000_0000;
    assert forall|x: u64, y: u64, z: u64|
        #![trigger x.add_spec(y).add_spec(z)]
        x.add_spec(y).add_spec(z) == x.add_spec(y.add_spec(z)) by {
        lemma_wadd_mod(x, y);
        lemma_wadd_mod(x.add_spec(y), z);
        lemma_wadd_mod(y, z);
        lemma_wadd_mod(x, y.add_spec(z));
        vstd::arithmetic::div_mod::lemma_add_mod_noop_right(
            z as int,
            (x as int) + (y as int),
            m,
        );
        vstd::arithmetic::div_mod::lemma_add_mod_noop_right(
            x as int,
            (y as int) + (z as int),
            m,
        );
    }
    assert forall|x: u64, y: u64, z: u64| #[trigger]
        x.mul_spec(y.add_spec(z)) == x.mul_spec(y).add_spec(x.mul_spec(z)) by {
        lemma_wadd_mod(y, z);
        lemma_wmul_mod(x, y.add_spec(z));
        lemma_wmul_mod(x, y);
        lemma_wmul_mod(x, z);
        lemma_wadd_mod(x.mul_spec(y), x.mul_spec(z));
        vstd::arithmetic::div_mod::lemma_mul_mod_noop_right(
            x as int,
            (y as int) + (z as int),
            m,
        );
        assert((x as int) * ((y as int) + (z as int)) == (x as int) * (y as int) + (x as int)
            * (z as int)) by (nonlinear_arith);
        vstd::arithmetic::div_mod::lemma_add_mod_noop(
            (x as int) * (y as int),
            (x as int) * (z as int),
            m,
        );
    }
    assert forall|x: u64, y: u64, z: u64| #[trigger]
        x.add_spec(y).mul_spec(z) == x.mul_spec(z).add_spec(y.mul_spec(z)) by {
        lemma_wadd_mod(x, y);
        lemma_wmul_mod(x.add_spec(y), z);
        lemma_wmul_mod(x, z);
        lemma_wmul_mod(y, z);
        lemma_wadd_mod(x.mul_spec(z), y.mul_spec(z));
        vstd::arithmetic::div_mod::lemma_mul_mod_noop_left(
            (x as int) + (y as int),
            z as int,
            m,
        );
        assert(((x as int) + (y as int)) * (z as int) == (x as int) * (z as int) + (y as int)
            * (z as int)) by (nonlinear_arith);
        vstd::arithmetic::div_mod::lemma_add_mod_noop(
            (x as int) * (z as int),
            (y as int) * (z as int),
            m,
        );
    }
    assert forall|x: u64, y: u64, z: u64|
        #![trigger x.mul_spec(y).mul_spec(z)]
        x.mul_spec(y).mul_spec(z) == x.mul_spec(y.mul_spec(z)) by {
        lemma_wmul_mod(x, y);
        lemma_wmul_mod(x.mul_spec(y), z);
        lemma_wmul_mod(y, z);
        lemma_wmul_mod(x, y.mul_spec(z));
        vstd::arithmetic::div_mod::lemma_mul_mod_noop_left(
            (x as int) * (y as int),
            z as int,
            m,
        );
        vstd::arithmetic::div_mod::lemma_mul_mod_noop_right(
            x as int,
            (y as int) * (z as int),
            m,
        );
        assert(((x as int) * (y as int)) * (z as int) == (x as int) * ((y as int) * (z as int)))
            by (nonlinear_arith);
    }
    reveal(ring_laws);
}

} // verus!
