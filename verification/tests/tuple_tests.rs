use mathlib::cmp::ApproxEq;
use mathlib::tuple::TuplType;

#[test]
fn tuple_w1_is_point() {
    let w = TuplType::Point;
    assert_eq!(w.w(), 1);
    assert_eq!(w, TuplType::Point);
    assert_ne!(w, TuplType::Vector);
}

#[test]
fn w0_is_vector() {
    let w = TuplType::Vector;
    assert_eq!(w.w(), 0);
    assert_eq!(w, TuplType::Vector);
    assert_ne!(w, TuplType::Point);
}

#[test]
fn approx_eq_tests() {
    assert!(TuplType::Point.apx_eq(&TuplType::Point));
    assert!(TuplType::Vector.apx_eq(&TuplType::Vector));
    assert!(!TuplType::Point.apx_eq(&TuplType::Vector));
}

#[test]
fn add_tupls() {
    // point + vector moves the point; point + point has no meaning.
    assert_eq!(TuplType::Point.add(TuplType::Vector), Some(TuplType::Point));
    assert_eq!(TuplType::Vector.add(TuplType::Point), Some(TuplType::Point));
    assert_eq!(
        TuplType::Vector.add(TuplType::Vector),
        Some(TuplType::Vector)
    );
    assert_eq!(TuplType::Point.add(TuplType::Point), None);
}

#[test]
fn subtracting_tupls() {
    // point - point spans a vector; vector - point has no meaning.
    assert_eq!(TuplType::Point.sub(TuplType::Point), Some(TuplType::Vector));
    assert_eq!(TuplType::Point.sub(TuplType::Vector), Some(TuplType::Point));
    assert_eq!(
        TuplType::Vector.sub(TuplType::Vector),
        Some(TuplType::Vector)
    );
    assert_eq!(TuplType::Vector.sub(TuplType::Point), None);
}
