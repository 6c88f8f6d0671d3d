use geom2d::transform::{ScaledRotation, Similarity, Transform, Translation};
use geom2d::vector::Vector;

fn v(x: i64, y: i64) -> Vector {
    Vector::new(x, y)
}

fn sim(re: i64, im: i64, tx: i64, ty: i64) -> Similarity {
    Similarity::new(ScaledRotation::new(v(re, im)), Translation::new(tx, ty))
}

// A scale `s` with a rotation by a quarter turn is the complex number `s i`.

#[test]
fn scaled_rotation_scale() {
    let scale = ScaledRotation::new(v(2, 0));
    assert_eq!(scale.apply(Vector::unit_x()), Vector::unit_x() * 2)
}

#[test]
fn rotate() {
    let rot = ScaledRotation::new(v(0, 1));
    assert_eq!(rot.apply(Vector::unit_x()), Vector::unit_y())
}

#[test]
fn scale_rot() {
    let scale_rot = ScaledRotation::new(v(0, 2));
    assert_eq!(scale_rot.apply(Vector::unit_y()), Vector::unit_x() * -2)
}

#[test]
fn scaled_rotation_compose() {
    // scale 2 by half a turn, then scale 3 by minus a quarter turn
    let t1 = ScaledRotation::new(v(-2, 0));
    let t2 = ScaledRotation::new(v(0, -3));
    assert_eq!(t1.compose(t2), ScaledRotation::new(v(0, 6)));
}

#[test]
fn extract_parts() {
    let t = ScaledRotation::new(v(0, 2));
    assert_eq!(t.scale_sq(), 4);
    assert_eq!((t.re(), t.im()), (0, 2));
}

#[test]
fn scaled_rotation_is_commutative_and_has_identity() {
    let a = ScaledRotation::new(v(2, -3));
    let b = ScaledRotation::new(v(-1, 5));
    let c = ScaledRotation::new(v(4, 1));
    assert_eq!(a.compose(b), b.compose(a));
    assert_eq!(a.compose(b).compose(c), a.compose(b.compose(c)));
    assert_eq!(ScaledRotation::ident().compose(a), a);
    assert_eq!(a.compose(ScaledRotation::ident()), a);
}

#[test]
fn apply() {
    let sim = sim(0, 3, 2, 3);
    assert_eq!(sim.apply(Vector::unit_y()), v(-1, 3));
}

// Composition is the true similarity-group law: `(r1, t1)∘(r2, t2)` is
// `(r1 r2, r1 t2 + t1)`. The translation is therefore `3i (-1 + i) + (2 + 3i)`,
// not the plain sum of the two offsets.
#[test]
fn similarity_compose() {
    let sim_1 = sim(0, 3, 2, 3);
    let sim_2 = sim(-2, 0, -1, 1);
    assert_eq!(sim_1.compose(&sim_2), sim(0, -6, -1, 0));
}

#[test]
fn similarity_compose_assign() {
    let mut sim_1 = sim(0, 3, 2, 3);
    sim_1.mul_assign(&sim(-2, 0, -1, 1));
    assert_eq!(sim_1, sim(0, -6, -1, 0));
}

#[test]
fn similarity_compose_applies_second_first() {
    let a = sim(0, 3, 2, 3);
    let b = sim(-2, 0, -1, 1);
    let p = v(5, -7);
    assert_eq!(a.compose(&b).apply(p), a.apply(b.apply(p)));
}

#[test]
fn similarity_compose_is_associative() {
    let a = sim(1, 2, 3, -4);
    let b = sim(0, -1, 5, 6);
    let c = sim(3, 0, -2, 2);
    assert_eq!(a.compose(&b).compose(&c), a.compose(&b.compose(&c)));
    assert_eq!(Similarity::ident().compose(&a), a);
    assert_eq!(a.compose(&Similarity::ident()), a);
}

#[test]
fn similarity_round_trip() {
    let s = sim(1, 2, 3, -4);
    let p = v(7, -9);
    assert_eq!(s.unapply(s.apply(p)), Some(p));
    // a point off the image lattice has no preimage
    assert_eq!(s.unapply(v(4, -4)), None);
    // a similarity of scale zero has no inverse
    assert_eq!(sim(0, 0, 1, 1).unapply(v(1, 1)), None);
}

#[test]
fn transform_trait_composes() {
    let a = Translation::new(1, 2);
    let b = Translation::new(-4, 6);
    let ab = Transform::compose(&a, &b);
    assert_eq!(Transform::apply(&ab, v(0, 0)), v(-3, 8));
}

#[test]
fn translate() {
    let translation = Translation::from_vector(v(-1, 2));
    assert_eq!(translation.apply(v(3, 4)), v(2, 6));
}

#[test]
fn translation_compose() {
    let translation_1 = Translation::from_vector(v(2, 3));
    let translation_2 = Translation::from_vector(v(-3, 4));
    assert_eq!(
        translation_1.compose(translation_2),
        Translation::from_vector(v(-1, 7))
    );
}

#[test]
fn translation_compose_assign() {
    let mut translation = Translation::from_vector(v(2, 3));
    translation.mul_assign(Translation::from_vector(v(-3, 4)));
    assert_eq!(translation, Translation::from_vector(v(-1, 7)));
}

#[test]
fn checked_apply_reports_overflow() {
    let s = sim(0, 3, 2, 3);
    assert_eq!(s.checked_apply(Vector::unit_y()), Some(v(-1, 3)));
    assert_eq!(sim(2, 0, 0, 0).checked_apply(v(i64::MAX, 0)), None);
    assert_eq!(sim(1, 0, 1, 0).checked_apply(v(i64::MAX, 0)), None);
    assert_eq!(sim(1, 0, -1, 0).checked_apply(v(i64::MAX, 0)), Some(v(i64::MAX - 1, 0)));
}

#[test]
fn similarity_parts() {
    let s = Similarity::from_scaled_rotation(ScaledRotation::new(v(0, 2)));
    assert_eq!(s.scaled_rotation(), ScaledRotation::new(v(0, 2)));
    assert_eq!(s.translation(), Translation::ident());
    assert_eq!(s.translation_vector(), v(0, 0));
    assert_eq!(s.apply(v(1, 0)), v(0, 2));
    let t = Similarity::from_translation(Translation::new(3, 4));
    assert_eq!(t.translation_vector(), v(3, 4));
    assert_eq!(Translation::new(3, 4).as_vector(), v(3, 4));
}

#[test]
fn similarity_inverse() {
    let s = sim(0, 1, 2, 3);
    let inv = s.inverse().unwrap();
    assert_eq!(inv, sim(0, -1, -3, 2));
    let p = v(5, -7);
    assert_eq!(s.apply(p), v(9, 8));
    assert_eq!(inv.apply(s.apply(p)), p);
    assert_eq!(inv.compose(&s), Similarity::ident());
    assert_eq!(s.compose(&inv), Similarity::ident());
    assert_eq!(sim(-1, 0, 4, -4).inverse(), Some(sim(-1, 0, 4, -4)));
    // only units have an inverse on the lattice
    assert_eq!(sim(1, 1, 0, 0).inverse(), None);
    assert_eq!(sim(2, 0, 0, 0).inverse(), None);
    assert_eq!(sim(0, 0, 0, 0).inverse(), None);
    assert_eq!(sim(1, 0, i64::MIN, 0).inverse(), None);
}
