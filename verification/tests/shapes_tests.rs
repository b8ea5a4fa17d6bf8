use mathlib::shapes::{sphere, Cube, Plane, Sphere};

#[test]
fn sphere_constructors_agree() {
    assert_eq!(sphere(), Sphere::new());
    assert_eq!(Sphere::default(), Sphere {});
}

#[test]
fn canonical_shapes_are_stateless() {
    assert_eq!(Plane {}, Plane {});
    assert_eq!(Cube {}, Cube {});
    assert_eq!(Sphere {}, Sphere {});
}
