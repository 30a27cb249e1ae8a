use netconomy_cube::vecs::{ivec2, ivec3};
use netconomy_cube::vecs::{IVec2, IVec3};

#[test]
fn cross_products_of_axes() {
    let x = ivec3(1, 0, 0);
    let y = ivec3(0, 1, 0);
    let z = ivec3(0, 0, 1);
    assert_eq!(x.cross(y), z);
    assert_eq!(y.cross(z), x);
    assert_eq!(z.cross(x), y);
    assert_eq!(y.cross(x), ivec3(0, 0, -1));
}

#[test]
fn vector_addition() {
    let a = ivec3(2, -3, 5);
    let b = ivec3(-1, 4, -5);
    assert_eq!(a.vadd(b), ivec3(1, 1, 0));
}

#[test]
fn hinge_rotation_steps() {
    let h = ivec2(1, 0);
    let h1 = h.rotated();
    let h2 = h1.rotated();
    let h3 = h2.rotated();
    let h4 = h3.rotated();
    assert_eq!(h1, ivec2(0, -1));
    assert_eq!(h2, ivec2(-1, 0));
    assert_eq!(h3, ivec2(0, 1));
    assert_eq!(h4, h);
}

#[test]
fn hinge_combination_selects_direction() {
    let e1 = ivec3(0, 1, 0);
    let e2 = ivec3(0, 0, 1);
    assert_eq!(IVec3::hinge_comb(ivec2(1, 0), e1, e2), e1);
    assert_eq!(IVec3::hinge_comb(ivec2(0, 1), e1, e2), e2);
    assert_eq!(IVec3::hinge_comb(ivec2(-1, 0), e1, e2), ivec3(0, -1, 0));
    assert_eq!(IVec3::hinge_comb(ivec2(0, -1), e1, e2), ivec3(0, 0, -1));
}

#[test]
fn vector_constructors_expose_components() {
    let v: IVec3 = ivec3(7, -8, 9);
    assert_eq!((v.x, v.y, v.z), (7, -8, 9));
    let h: IVec2 = ivec2(-4, 6);
    assert_eq!((h.x, h.y), (-4, 6));
}
