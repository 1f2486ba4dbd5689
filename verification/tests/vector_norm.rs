use fixmat::Matrix;
use fixmat::Sqrt;

#[test]
fn norm_squared_of_three_four_is_twenty_five() {
    let mut v = Matrix::<u64, 2, 1>::zero();
    v.set(0, 0, 3);
    v.set(1, 0, 4);
    assert_eq!(v.norm_squared(), 25);
}

#[test]
fn norm_of_three_four_is_five() {
    let mut v = Matrix::<u64, 2, 1>::zero();
    v.set(0, 0, 3);
    v.set(1, 0, 4);
    assert_eq!(v.norm(), 5);
}

#[test]
fn norm_squared_of_empty_vector_is_zero() {
    let v = Matrix::<u64, 0, 1>::zero();
    assert_eq!(v.norm_squared(), 0);
}

#[test]
fn integer_sqrt_rounds_down() {
    assert_eq!(0u64.sqrt(), 0);
    assert_eq!(1u64.sqrt(), 1);
    assert_eq!(24u64.sqrt(), 4);
    assert_eq!(25u64.sqrt(), 5);
    assert_eq!(26u64.sqrt(), 5);
    assert_eq!(u64::MAX.sqrt(), 4294967295);
}
