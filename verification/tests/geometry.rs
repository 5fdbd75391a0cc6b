use raybounce::mirror::IntersectionOutcome;
use raybounce::mirror::Mirror;
use raybounce::rational::Rational;
use raybounce::ray::Ray;
use raybounce::vector::Vector2;

fn rat(num: i64, den: i64) -> Rational {
    Rational::new(num, den)
}

fn same(a: Rational, b: Rational) -> bool {
    a.eq_rat(b).unwrap()
}

fn same_vec(a: Vector2, b: Vector2) -> bool {
    same(a.x, b.x) && same(a.y, b.y)
}

fn point(x: i64, y: i64) -> Vector2 {
    Vector2::from_ints(x, y)
}

fn mirror(x1: i64, y1: i64, x2: i64, y2: i64, absorption: Rational) -> Mirror {
    Mirror::new(point(x1, y1), point(x2, y2), absorption)
}

fn ray(origin: Vector2, dir: Vector2) -> Ray {
    Ray::new(origin, dir, Rational::from_int(1))
}

#[test]
fn rational_arithmetic_is_exact() {
    let half = rat(1, 2);
    let third = rat(1, 3);
    let sum = half.add(third).unwrap();
    assert!(same(sum, rat(5, 6)));
    let diff = half.sub(third).unwrap();
    assert!(same(diff, rat(1, 6)));
    let prod = half.mul(rat(2, 3)).unwrap();
    assert!(same(prod, rat(1, 3)));
    let quot = half.div(rat(-2, 1)).unwrap();
    assert!(same(quot, rat(-1, 4)));
    assert!(quot.den > 0);
    assert!(same(rat(2, 4), half));
    assert!(rat(1, 3).lt(half).unwrap());
    assert!(!half.lt(third).unwrap());
}

#[test]
fn axis_aligned_hit_keeps_origin_height() {
    // A horizontal ray into a vertical mirror hits at the ray's own height.
    let m = mirror(5, -5, 5, 5, Rational::from_int(0));
    let r = ray(point(0, 3), point(1, 0));
    match m.intersect(&r) {
        IntersectionOutcome::Hit(p) => {
            assert!(same(p.y, rat(3, 1)));
            assert!(same_vec(p, point(5, 3)));
        }
        IntersectionOutcome::Miss => panic!("expected a hit"),
    }
}

#[test]
fn parallel_ray_misses() {
    let m = mirror(0, 1, 10, 1, Rational::from_int(0));
    let r = ray(point(0, 0), point(1, 0));
    assert!(matches!(m.intersect(&r), IntersectionOutcome::Miss));
}

#[test]
fn mirror_behind_ray_misses() {
    let m = mirror(-5, -5, -5, 5, Rational::from_int(0));
    let r = ray(point(0, 0), point(1, 0));
    assert!(matches!(m.intersect(&r), IntersectionOutcome::Miss));
}

#[test]
fn endpoint_hit_is_excluded() {
    // The ray aims exactly at the mirror's first endpoint; the segment
    // parameter is 0, which the strict bounds exclude.
    let m = mirror(5, 0, 5, 5, Rational::from_int(0));
    let r = ray(point(0, 0), point(1, 0));
    assert!(matches!(m.intersect(&r), IntersectionOutcome::Miss));
}

#[test]
fn oblique_intersection_point_is_exact() {
    // Ray along the diagonal against a vertical mirror at x = 4.
    let m = mirror(4, 0, 4, 10, Rational::from_int(0));
    let r = ray(point(0, 0), point(1, 1));
    match m.intersect(&r) {
        IntersectionOutcome::Hit(p) => assert!(same_vec(p, point(4, 4))),
        IntersectionOutcome::Miss => panic!("expected a hit"),
    }
}

#[test]
fn reflect_about_opposite_normal_restores_vector() {
    // Reflecting about n and then about -n gives the original vector back.
    let v = point(3, 4);
    let n = point(1, 2);
    let minus_n = point(-1, -2);
    let once = v.reflect(n).unwrap();
    let twice = once.reflect(minus_n).unwrap();
    assert!(same_vec(twice, v));
}

#[test]
fn reflect_off_vertical_mirror_reverses_x() {
    let m = mirror(5, -5, 5, 5, Rational::from_int(0));
    let n = m.normal().unwrap();
    // The segment delta is (0, 10), so the normal is (-10, 0).
    assert!(same_vec(n, point(-10, 0)));
    let v = point(1, 0);
    let reflected = v.reflect(n).unwrap();
    assert!(same_vec(reflected, point(-1, 0)));
}

#[test]
fn reflection_preserves_magnitude() {
    let v = point(3, 4);
    let n = point(1, 1);
    let reflected = v.reflect(n).unwrap();
    let before = v.norm_sq().unwrap();
    let after = reflected.norm_sq().unwrap();
    assert!(same(before, after));
}

#[test]
fn normal_is_perpendicular_to_segment() {
    let m = mirror(1, 2, 4, 6, Rational::from_int(0));
    let n = m.normal().unwrap();
    let delta = m.end_pos.sub(m.start_pos).unwrap();
    let d = n.dot(delta).unwrap();
    assert!(d.is_zero());
}

#[test]
fn distance_sq_is_squared_euclidean() {
    let r = ray(point(1, 2), point(1, 0));
    let d = r.distance_sq(&point(4, 6)).unwrap();
    assert!(same(d, rat(25, 1)));
}
