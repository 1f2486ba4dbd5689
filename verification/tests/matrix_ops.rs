use fixmat::Arith;
use fixmat::Matrix;
use fixmat::Sqrt;
use fixmat::Zero;

/// A float element type, defined here because the verified crate keeps its
/// own element implementations to the machine integers.
#[derive(Clone, Copy, PartialEq, Debug)]
struct F(f64);

// The `*_spec` items below are the compiled remnants of the trait's
// specification functions; they are never called at run time.
impl Zero for F {
    fn zero_spec() -> F {
        F(0.0)
    }

    fn zero() -> F {
        F(0.0)
    }
}

impl Arith for F {
    fn add_spec(self, rhs: F) -> F {
        F(self.0 + rhs.0)
    }

    fn mul_spec(self, rhs: F) -> F {
        F(self.0 * rhs.0)
    }

    fn add(self, rhs: F) -> F {
        F(self.0 + rhs.0)
    }

    fn mul(self, rhs: F) -> F {
        F(self.0 * rhs.0)
    }
}

impl Sqrt for F {
    fn sqrt_spec(self) -> F {
        F(self.0.sqrt())
    }

    fn sqrt(self) -> F {
        F(self.0.sqrt())
    }
}

#[test]
fn it_works() {
    let mut m1 = Matrix::<F, 2, 3>::zero();
    m1.set(0, 0, F(1.));
    m1.set(1, 0, F(2.));
    m1.set(2, 0, F(3.));
    m1.set(0, 1, F(4.));
    m1.set(1, 1, F(5.));
    m1.set(2, 1, F(6.));
    let mut m2 = Matrix::<F, 3, 2>::zero();
    m2.set(0, 0, F(10.));
    m2.set(1, 0, F(11.));
    m2.set(0, 1, F(20.));
    m2.set(1, 1, F(21.));
    m2.set(0, 2, F(30.));
    m2.set(1, 2, F(31.));
    let res = m1.matmul(&m2);
    assert_eq!(res.get(0, 0), F(140.));
    assert_eq!(res.get(1, 0), F(146.));
    assert_eq!(res.get(0, 1), F(320.));
    assert_eq!(res.get(1, 1), F(335.));
}

#[test]
fn matmul_standard_example_integers() {
    let mut m1 = Matrix::<u64, 2, 3>::zero();
    m1.set(0, 0, 1);
    m1.set(1, 0, 2);
    m1.set(2, 0, 3);
    m1.set(0, 1, 4);
    m1.set(1, 1, 5);
    m1.set(2, 1, 6);
    let mut m2 = Matrix::<u64, 3, 2>::zero();
    m2.set(0, 0, 10);
    m2.set(1, 0, 11);
    m2.set(0, 1, 20);
    m2.set(1, 1, 21);
    m2.set(0, 2, 30);
    m2.set(1, 2, 31);
    let res = m1.matmul(&m2);
    assert_eq!(res.get(0, 0), 140);
    assert_eq!(res.get(1, 0), 146);
    assert_eq!(res.get(0, 1), 320);
    assert_eq!(res.get(1, 1), 335);
}

// With the flattening `row + col * COLS`, the positions that cover each of
// the `ROWS * COLS` buffer slots exactly once are `row < COLS`, `col < ROWS`
// — the same ranges the multiplication algorithm indexes with, and the ones
// these tests iterate.

#[test]
fn zero_fills_every_element() {
    let m = Matrix::<u64, 3, 4>::zero();
    for row in 0..4 {
        for col in 0..3 {
            assert_eq!(m.get(row, col), 0);
        }
    }
}

#[test]
fn zero_paths_agree() {
    let a = Matrix::<u64, 5, 2>::zero();
    let b = Matrix::<u64, 5, 2>::zero_filled();
    for row in 0..2 {
        for col in 0..5 {
            assert_eq!(a.get(row, col), b.get(row, col));
        }
    }
}

#[test]
fn scalar_mul_multiplies_each_entry() {
    let mut m = Matrix::<u64, 2, 2>::zero();
    m.set(0, 0, 1);
    m.set(1, 0, 2);
    m.set(0, 1, 3);
    m.set(1, 1, 4);
    let unscaled = m.clone();
    let scaled = m.mul_scalar(7);
    for row in 0..2 {
        for col in 0..2 {
            assert_eq!(scaled.get(row, col), unscaled.get(row, col) * 7);
        }
    }
    assert_eq!(scaled.get(1, 1), 28);
}

#[test]
fn scalar_mul_wraps_like_the_element_type() {
    let mut m = Matrix::<u64, 1, 1>::zero();
    m.set(0, 0, u64::MAX);
    let scaled = m.mul_scalar(2);
    assert_eq!(scaled.get(0, 0), u64::MAX.wrapping_mul(2));
}

#[test]
fn matmul_is_associative_on_integers() {
    let mut a = Matrix::<u64, 2, 3>::zero();
    let mut next: u64 = 1;
    for col in 0..2 {
        for row in 0..3 {
            a.set(row, col, next * 3 % 11);
            next += 1;
        }
    }
    let mut b = Matrix::<u64, 3, 2>::zero();
    for col in 0..3 {
        for row in 0..2 {
            b.set(row, col, next * 5 % 13);
            next += 1;
        }
    }
    let mut c = Matrix::<u64, 2, 2>::zero();
    for col in 0..2 {
        for row in 0..2 {
            c.set(row, col, next * 7 % 17);
            next += 1;
        }
    }
    let left = a.matmul(&b).matmul(&c);
    let right = a.matmul(&b.matmul(&c));
    for row in 0..2 {
        for col in 0..2 {
            assert_eq!(left.get(row, col), right.get(row, col));
        }
    }
}

#[test]
fn matmul_is_associative_even_when_products_wrap() {
    let mut a = Matrix::<u64, 1, 2>::zero();
    a.set(0, 0, u64::MAX - 4);
    a.set(1, 0, (1 << 63) + 5);
    let mut b = Matrix::<u64, 2, 2>::zero();
    b.set(0, 0, (1 << 62) + 7);
    b.set(1, 0, 3);
    b.set(0, 1, 11);
    b.set(1, 1, u64::MAX - 1);
    let mut c = Matrix::<u64, 2, 1>::zero();
    c.set(0, 0, (1 << 61) + 13);
    c.set(1, 0, u64::MAX);
    let left = a.matmul(&b).matmul(&c);
    let right = a.matmul(&b.matmul(&c));
    assert_eq!(left.get(0, 0), right.get(0, 0));
}

#[test]
fn apply_changes_values_but_not_count() {
    let mut m = Matrix::<u64, 2, 3>::zero();
    m.set(0, 0, 4);
    m.set(1, 1, 9);
    let halved: Matrix<u32, 2, 3> = m.apply(|x: u64| (x / 2) as u32);
    assert_eq!(halved.get(0, 0), 2);
    assert_eq!(halved.get(1, 1), 4);
    let mut count = 0;
    for row in 0..3 {
        for col in 0..2 {
            let _ = halved.get(row, col);
            count += 1;
        }
    }
    assert_eq!(count, 6);
}

#[test]
fn apply_into_transforms_in_place() {
    let mut m = Matrix::<u64, 2, 2>::zero();
    m.set(0, 0, 1);
    m.set(1, 0, 2);
    m.set(0, 1, 3);
    m.set(1, 1, 4);
    let bumped = m.apply_into(|x: u64| x + 10);
    assert_eq!(bumped.get(0, 0), 11);
    assert_eq!(bumped.get(1, 0), 12);
    assert_eq!(bumped.get(0, 1), 13);
    assert_eq!(bumped.get(1, 1), 14);
}

#[test]
fn norm_of_float_three_four_is_five() {
    let mut v = Matrix::<F, 2, 1>::zero();
    v.set(0, 0, F(3.0));
    v.set(1, 0, F(4.0));
    assert_eq!(v.norm_squared(), F(25.0));
    let mut w = Matrix::<F, 2, 1>::zero();
    w.set(0, 0, F(3.0));
    w.set(1, 0, F(4.0));
    assert_eq!(w.norm(), F(5.0));
}

#[test]
fn set_then_get_returns_assigned_value() {
    let mut m = Matrix::<u64, 3, 3>::zero();
    m.set(2, 1, 42);
    assert_eq!(m.get(2, 1), 42);
    m.set(2, 1, 7);
    assert_eq!(m.get(2, 1), 7);
    assert_eq!(m.get(0, 0), 0);
}

#[test]
fn permissive_offsets_inside_the_buffer_are_usable() {
    // With the crate's flattening, (row, col) is in bounds whenever
    // row + col * COLS stays under ROWS * COLS; the row coordinate alone may
    // exceed ROWS, exactly as the multiplication algorithm relies on.
    let mut m = Matrix::<u64, 2, 3>::zero();
    m.set(2, 1, 99);
    assert_eq!(m.get(2, 1), 99);
}
