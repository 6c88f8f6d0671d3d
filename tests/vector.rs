use geom2d::vector::Vector;

fn v(x: i64, y: i64) -> Vector {
    Vector::new(x, y)
}

#[test]
fn vector_scale() {
    let vec = v(1, 2);
    assert_eq!(vec * 2, v(2, 4));
    assert_eq!(vec.scale(2), v(2, 4));
    assert_eq!(v(2, 4).checked_div(2), Some(vec));
    // (0.5, 1) is not a lattice vector.
    assert_eq!(vec.checked_div(2), None);
    assert_eq!(-vec, v(-1, -2));
}

#[test]
fn scale_assign() {
    let mut vec = v(1, 2);
    vec.mul_assign(2);
    assert_eq!(vec, v(2, 4));
    vec = vec.checked_div(2).unwrap();
    assert_eq!(vec, v(1, 2));
}

#[test]
fn vector_add() {
    assert_eq!(v(4, 12) + v(2, -3), v(6, 9))
}

#[test]
fn vector_add_assign() {
    let mut vec = v(1, 3);
    vec.add_assign(v(-1, -2));
    assert_eq!(vec, v(0, 1));
}

#[test]
fn vector_sub() {
    assert_eq!(v(4, 12) - v(2, -3), v(2, 15))
}

#[test]
fn vector_sub_assign() {
    let mut vec = v(1, 3);
    vec.sub_assign(v(-1, -2));
    assert_eq!(vec, v(2, 5));
}

#[test]
fn perp() {
    assert_eq!(v(3, 5).perp(), v(-5, 3))
}

#[test]
fn dot() {
    assert_eq!(Vector::dot(v(1, -2), v(3, 4)), -5)
}

#[test]
fn perp_dot() {
    assert_eq!(Vector::perp_dot(v(1, -2), v(3, 4)), 10)
}

#[test]
fn norm_sq() {
    assert_eq!(Vector::zero().norm_sq(), 0);
    assert_eq!(v(3, 4).norm_sq(), 25);
}

#[test]
fn complex_product() {
    assert_eq!(
        Vector::complex_product(Vector::unit_y(), Vector::unit_y() * 2),
        Vector::unit_x() * -2
    )
}

#[test]
fn norm_sq_is_positive_off_zero() {
    assert_eq!(v(-1, 0).norm_sq(), 1);
    assert_eq!(v(0, -7).norm_sq(), 49);
    assert_eq!(v(-3, -4).norm_sq(), 25);
}

#[test]
fn checked_div_rejects_non_positive_divisors() {
    assert_eq!(v(4, 6).checked_div(0), None);
    assert_eq!(v(4, 6).checked_div(-2), None);
    assert_eq!(v(-4, 6).checked_div(2), Some(v(-2, 3)));
    assert_eq!(v(-3, 6).checked_div(2), None);
}
