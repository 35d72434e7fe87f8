use geosphere::location::spherical::Position;
use geosphere::location::Norm;
use geosphere::location::One;
use geosphere::location::Trigonometric;
use geosphere::location::Vector2d;
use geosphere::location::Vector3d;
use std::f64::consts::PI;
use std::ops::Add;
use std::ops::Div;
use std::ops::Mul;
use std::ops::Sub;

/// Double precision numbers with everything the vectors ask for.
#[derive(Clone, Copy, Debug, Default, PartialEq)]
struct Real(f64);

impl One for Real {
    const ONE: Real = Real(1.0);
}

impl Norm for Real {
    type Output = Real;

    fn norm(v: &[Real]) -> Real {
        let mut n = 0.0;
        for x in v.iter() {
            n += x.0 * x.0;
        }
        Real(n.sqrt())
    }
}

impl Trigonometric for Real {
    type Output = Real;

    fn sin(&self) -> Real {
        Real(f64::sin(self.0))
    }

    fn cos(&self) -> Real {
        Real(f64::cos(self.0))
    }

    fn tan(&self) -> Real {
        Real(f64::tan(self.0))
    }

    fn asin(f: Real) -> Real {
        Real(f64::asin(f.0))
    }

    fn acos(f: Real) -> Real {
        Real(f64::acos(f.0))
    }

    fn atan(f: Real) -> Real {
        Real(f64::atan(f.0))
    }
}

impl Add for Real {
    type Output = Real;

    fn add(self, other: Real) -> Real {
        Real(self.0 + other.0)
    }
}

impl Sub for Real {
    type Output = Real;

    fn sub(self, other: Real) -> Real {
        Real(self.0 - other.0)
    }
}

impl Mul for Real {
    type Output = Real;

    fn mul(self, other: Real) -> Real {
        Real(self.0 * other.0)
    }
}

impl Mul<usize> for Real {
    type Output = Real;

    fn mul(self, other: usize) -> Real {
        Real(self.0 * other as f64)
    }
}

impl Div for Real {
    type Output = Real;

    fn div(self, other: Real) -> Real {
        Real(self.0 / other.0)
    }
}

fn v3(x: f64, y: f64, z: f64) -> Vector3d<Real> {
    Vector3d::new(Real(x), Real(y), Real(z))
}

fn v2(x: f64, y: f64) -> Vector2d<Real> {
    Vector2d::new(Real(x), Real(y))
}

fn close(a: f64, b: f64) -> bool {
    (a - b).abs() < 1e-12
}

#[test]
fn vector3d_new_keeps_its_components() {
    let v = v3(1.0, 2.0, 3.0);
    assert_eq!((v.x, v.y, v.z), (Real(1.0), Real(2.0), Real(3.0)));
}

#[test]
fn vector3d_len_is_the_norm() {
    let l: Real = v3(3.0, 4.0, 12.0).len();
    assert_eq!(l, Real(13.0));
    let l: Real = v3(0.0, 0.0, 0.0).len();
    assert_eq!(l, Real(0.0));
}

#[test]
fn vector3d_normal_divides_by_the_length() {
    let n = v3(3.0, 4.0, 12.0).normal();
    assert_eq!((n.x.0, n.y.0, n.z.0), (3.0 / 13.0, 4.0 / 13.0, 12.0 / 13.0));
    let l: Real = n.len();
    assert!(close(l.0, 1.0));
}

#[test]
fn vector3d_scalar_adds_up_as_written() {
    // x*x' + y*y', then both third components.
    let s = v3(1.0, 2.0, 3.0).scalar(v3(4.0, 5.0, 6.0));
    assert_eq!(s, Real(1.0 * 4.0 + 2.0 * 5.0 + 3.0 + 6.0));
    let s = v3(1.0, 0.0, 0.0).scalar(v3(0.0, 1.0, 0.0));
    assert_eq!(s, Real(0.0));
}

#[test]
fn vector3d_clone_and_equality() {
    let v = v3(1.0, 2.0, 3.0);
    let w = v.clone();
    assert!(v == w);
    assert!(v != v3(1.0, 2.0, 4.0));
    assert!(v != v3(1.0, 0.0, 3.0));
    assert!(v != v3(0.0, 2.0, 3.0));
    assert!(v3(f64::NAN, 0.0, 0.0) != v3(f64::NAN, 0.0, 0.0));
}

#[test]
fn vector3d_default_is_made_of_defaults() {
    let v: Vector3d<Real> = Vector3d::default();
    assert!(v == v3(0.0, 0.0, 0.0));
    let w: Vector3d<u8> = Vector3d::default();
    assert_eq!((w.x, w.y, w.z), (0, 0, 0));
}

#[test]
fn vector3d_adds_by_component() {
    let s = v3(1.0, 2.0, 3.0) + v3(10.0, 20.0, 30.0);
    assert!(s == v3(11.0, 22.0, 33.0));
}

#[test]
fn vector3d_times_vector_is_the_cross_product() {
    let c = v3(1.0, 0.0, 0.0) * v3(0.0, 1.0, 0.0);
    assert!(c == v3(0.0, 0.0, 1.0));
    let c = v3(0.0, 1.0, 0.0) * v3(1.0, 0.0, 0.0);
    assert!(c == v3(0.0, 0.0, -1.0));
    let c = v3(1.0, 2.0, 3.0) * v3(4.0, 5.0, 6.0);
    assert!(c == v3(2.0 * 6.0 - 3.0 * 5.0, 3.0 * 4.0 - 1.0 * 6.0, 1.0 * 5.0 - 2.0 * 4.0));
}

#[test]
fn vector3d_times_number_scales() {
    let s = v3(1.0, -2.0, 3.0) * Real(2.0);
    assert!(s == v3(2.0, -4.0, 6.0));
}

#[test]
fn vector3d_over_number_divides() {
    let s = v3(1.0, -2.0, 3.0) / Real(2.0);
    assert!(s == v3(0.5, -1.0, 1.5));
}

#[test]
fn vector3d_of_integers() {
    let v = Vector3d::new(1u32, 2, 3) + Vector3d::new(4, 5, 6);
    assert_eq!((v.x, v.y, v.z), (5, 7, 9));
    assert_eq!(Vector3d::new(1u32, 2, 3).scalar(Vector3d::new(4, 5, 6)), 4 + 10 + 3 + 6);
    let w = Vector3d::new(8u32, 6, 4) / 2;
    assert_eq!((w.x, w.y, w.z), (4, 3, 2));
}

#[test]
fn vector2d_new_len_normal_unit() {
    let v = v2(3.0, 4.0);
    assert_eq!((v.x, v.y), (Real(3.0), Real(4.0)));
    let l: Real = v.len();
    assert_eq!(l, Real(5.0));
    let n = v.normal();
    assert_eq!((n.x.0, n.y.0), (3.0 / 5.0, 4.0 / 5.0));
    let u = Vector2d::unit(Real(3.0), Real(4.0));
    assert!(u == n);
}

#[test]
fn vector2d_scalar_and_cross() {
    assert_eq!(v2(1.0, 2.0).scalar(v2(3.0, 4.0)), Real(11.0));
    assert_eq!(v2(1.0, 2.0) * v2(3.0, 4.0), Real(1.0 * 4.0 - 2.0 * 3.0));
    assert_eq!(v2(1.0, 0.0) * v2(0.0, 1.0), Real(1.0));
}

#[test]
fn vector2d_clone_and_equality() {
    let v = v2(1.0, 2.0);
    assert!(v.clone() == v);
    assert!(v != v2(1.0, 3.0));
    assert!(v != v2(0.0, 2.0));
}

#[test]
fn position_as_vector_uses_both_angles() {
    let p = Position::new(Real(PI / 2.0), Real(0.0));
    let v = p.as_vector(Real(2.0));
    assert!(close(v.x.0, 2.0));
    assert!(close(v.y.0, 0.0));
    assert!(close(v.z.0, 0.0));
    let p = Position::new(Real(PI / 2.0), Real(PI / 2.0));
    let v = p.as_unit();
    assert!(close(v.x.0, 0.0));
    assert!(close(v.y.0, 1.0));
    assert!(close(v.z.0, 0.0));
    let p = Position::new(Real(0.0), Real(1.0));
    let v = p.as_unit();
    assert!(close(v.x.0, 0.0));
    assert!(close(v.y.0, 0.0));
    assert!(close(v.z.0, 1.0));
    let p = Position::new(Real(0.3), Real(0.7));
    let v = p.as_vector(Real(5.0));
    assert_eq!(v.x.0, 5.0 * f64::sin(0.3) * f64::cos(0.7));
    assert_eq!(v.y.0, 5.0 * f64::sin(0.3) * f64::sin(0.7));
    assert_eq!(v.z.0, 5.0 * f64::cos(0.3));
}

#[test]
fn position_from_a_vector() {
    let v = v3(1.0, 2.0, 2.0);
    let p = Position::from(v);
    // The angles come back out through the unit vector.
    let expected_polar = f64::acos(2.0 / 3.0);
    let expected_azimuth = f64::atan(2.0 / 2.0);
    let u = p.as_unit();
    assert_eq!(u.z.0, f64::cos(expected_polar));
    assert_eq!(u.x.0, 1.0 * f64::sin(expected_polar) * f64::cos(expected_azimuth));
    assert_eq!(u.y.0, 1.0 * f64::sin(expected_polar) * f64::sin(expected_azimuth));
}

#[test]
fn position_distance_is_cross_over_scalar() {
    let a = Position::new(Real(0.4), Real(0.2));
    let b = Position::new(Real(1.1), Real(0.9));
    let d = a.distance(&b);
    let u = a.as_unit();
    let w = b.as_unit();
    let cross: Real = (u * w).len();
    assert_eq!(d, cross / u.scalar(w));
}

#[test]
fn position_move_to_follows_its_formula() {
    let a = Position::new(Real(0.4), Real(0.2));
    let b = Position::new(Real(1.1), Real(0.9));
    let f = Real(0.5);
    let moved = a.move_to(&b, f);

    let angle = a.distance(&b);
    let x = Vector2d::unit(Real(1.0) - angle.cos(), angle.sin());
    let f_angle = f * angle;
    let y = Vector2d::unit(Real(1.0) - f_angle.cos(), f_angle.sin());
    let k = x.scalar(y);
    let p = a.as_unit() * (Real(1.0) - k) + b.as_unit() * k;
    let expected = Position::from(p);
    assert!(moved.as_unit() == expected.as_unit());
}

#[test]
fn position_mean_sums_the_unit_vectors() {
    let a = Position::new(Real(0.4), Real(0.2));
    let b = Position::new(Real(1.1), Real(0.9));
    let c = Position::new(Real(0.8), Real(0.1));
    let one = Position::mean(&[Position::new(Real(0.4), Real(0.2))]);
    assert!(one.as_unit() == Position::from(a.as_unit()).as_unit());
    let all = Position::mean(&[
        Position::new(Real(0.4), Real(0.2)),
        Position::new(Real(1.1), Real(0.9)),
        Position::new(Real(0.8), Real(0.1)),
    ]);
    let sum = a.as_unit() + b.as_unit() + c.as_unit();
    assert!(all.as_unit() == Position::from(sum).as_unit());
}
