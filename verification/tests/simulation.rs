use raybounce::field::generate_rays;
use raybounce::generate::generate_mirrors;
use raybounce::generate::MIRROR_COORD_MAX;
use raybounce::generate::MIRROR_COORD_MIN;
use raybounce::mirror::Mirror;
use raybounce::rational::Rational;
use raybounce::ray::Ray;
use raybounce::resolve::find_closest_mirror;
use raybounce::resolve::BounceOutcome;
use raybounce::simulate::find_closest_mirror_reflections;
use raybounce::vector::Vector2;

fn rat(num: i64, den: i64) -> Rational {
    Rational::new(num, den)
}

fn same(a: Rational, b: Rational) -> bool {
    a.eq_rat(b).unwrap()
}

fn same_vec(a: Vector2, b: Vector2) -> bool {
    same(a.x, b.x) && same(a.y, b.y)
}

fn point(x: i64, y: i64) -> Vector2 {
    Vector2::from_ints(x, y)
}

fn mirror(x1: i64, y1: i64, x2: i64, y2: i64, absorption: Rational) -> Mirror {
    Mirror::new(point(x1, y1), point(x2, y2), absorption)
}

fn ray(origin: Vector2, dir: Vector2) -> Ray {
    Ray::new(origin, dir, Rational::from_int(1))
}

#[test]
fn resolve_with_no_mirrors_misses() {
    let r = ray(point(0, 0), point(1, 0));
    let mirrors: Vec<Mirror> = Vec::new();
    assert!(matches!(find_closest_mirror(&r, &mirrors), BounceOutcome::Miss));
}

#[test]
fn resolve_suppresses_self_hit() {
    // The ray starts a hair's breadth before the mirror plane: the forward
    // intersection exists but lies within the epsilon distance, so it is
    // rejected as a self-hit.
    let m = mirror(5, -5, 5, 5, Rational::from_int(0));
    let origin = Vector2::new(rat(4_999_999_999_999, 1_000_000_000_000), rat(0, 1));
    let r = ray(origin, point(1, 0));
    assert!(matches!(find_closest_mirror(&r, &vec![m]), BounceOutcome::Miss));
}

#[test]
fn resolve_picks_nearest_mirror() {
    let far = mirror(5, -5, 5, 5, Rational::from_int(0));
    let near = mirror(3, -5, 3, 5, Rational::from_int(0));
    let r = ray(point(0, 0), point(1, 0));
    match find_closest_mirror(&r, &vec![far, near]) {
        BounceOutcome::Hit { point: p, mirror: idx } => {
            assert_eq!(idx, 1);
            assert!(same_vec(p, point(3, 0)));
        }
        BounceOutcome::Miss => panic!("expected a hit"),
    }
}

#[test]
fn end_to_end_single_mirror_bounce() {
    // One ray along the x axis, one vertical mirror: the first tick draws
    // exactly the segment from the origin to (5, 0) and reflects the ray
    // to direction (-1, 0); the second tick finds nothing ahead and the
    // chain ends.
    let m = mirror(5, -5, 5, 5, Rational::from_int(0));
    let rays = vec![ray(point(0, 0), point(1, 0))];
    let first = find_closest_mirror_reflections(&rays, &vec![m]);
    assert_eq!(first.draw_line.len(), 1);
    assert!(same_vec(first.draw_line[0].from, point(0, 0)));
    assert!(same_vec(first.draw_line[0].to, point(5, 0)));
    assert_eq!(first.reflected_rays.len(), 1);
    let bounced = first.reflected_rays[0];
    assert!(same_vec(bounced.start_pos, point(5, 0)));
    let dir = bounced.vector;
    assert!(same(dir.x, rat(-1, 1)));
    assert!(same(dir.y, rat(0, 1)));
    assert!(same(bounced.intensity, rat(1, 1)));
    let second = find_closest_mirror_reflections(&first.reflected_rays, &vec![m]);
    assert_eq!(second.draw_line.len(), 0);
    assert_eq!(second.reflected_rays.len(), 0);
}

#[test]
fn fully_absorbing_mirror_kills_ray() {
    let m = mirror(5, -5, 5, 5, Rational::from_int(1));
    let rays = vec![ray(point(0, 0), point(1, 0))];
    let out = find_closest_mirror_reflections(&rays, &vec![m]);
    // The hit still draws its segment, but the reflected intensity 0 falls
    // below the liveness threshold and the chain dies.
    assert_eq!(out.draw_line.len(), 1);
    assert_eq!(out.reflected_rays.len(), 0);
}

#[test]
fn partial_absorption_attenuates_intensity() {
    let m = mirror(5, -5, 5, 5, rat(1, 2));
    let rays = vec![ray(point(0, 0), point(1, 0))];
    let out = find_closest_mirror_reflections(&rays, &vec![m]);
    assert_eq!(out.reflected_rays.len(), 1);
    assert!(same(out.reflected_rays[0].intensity, rat(1, 2)));
}

#[test]
fn ray_missing_everything_terminates_chain() {
    // The ray points away from every mirror: no segment, no next ray.
    let m = mirror(5, 1, 10, 1, Rational::from_int(0));
    let rays = vec![ray(point(0, 0), point(0, -1))];
    let out = find_closest_mirror_reflections(&rays, &vec![m]);
    assert_eq!(out.draw_line.len(), 0);
    assert_eq!(out.reflected_rays.len(), 0);
}

#[test]
fn two_facing_mirrors_keep_bouncing_until_budget() {
    // The chain between two perfect mirrors never dies by itself; the
    // caller's bounce budget is what bounds it.
    let left = mirror(0, -5, 0, 5, Rational::from_int(0));
    let right = mirror(5, -5, 5, 5, Rational::from_int(0));
    let mirrors = vec![left, right];
    let mut rays = vec![ray(point(2, 0), point(1, 0))];
    let budget = 4;
    let mut segments = 0;
    for _ in 0..budget {
        let out = find_closest_mirror_reflections(&rays, &mirrors);
        segments += out.draw_line.len();
        // Reducing each generation keeps the exact representations small
        // across arbitrarily many bounces.
        rays = out.reflected_rays.iter().map(|r| r.reduced()).collect();
    }
    assert_eq!(segments, budget);
    assert_eq!(rays.len(), 1);
}

#[test]
fn ray_field_of_four_gives_cardinal_directions() {
    let rays = generate_rays(point(0, 0), 4);
    assert_eq!(rays.len(), 4);
    let expected = [(1, 0), (0, 1), (-1, 0), (0, -1)];
    for (k, (ex, ey)) in expected.iter().enumerate() {
        assert!(same_vec(rays[k].start_pos, point(0, 0)));
        assert!(same(rays[k].vector.x, rat(*ex, 1)));
        assert!(same(rays[k].vector.y, rat(*ey, 1)));
        assert!(same(rays[k].intensity, rat(1, 1)));
    }
}

#[test]
fn ray_field_is_deterministic_and_well_shaped() {
    let rays = generate_rays(point(7, -3), 12);
    assert_eq!(rays.len(), 12);
    let again = generate_rays(point(7, -3), 12);
    for k in 0..12 {
        assert!(same_vec(rays[k].start_pos, point(7, -3)));
        assert!(same_vec(rays[k].vector, again[k].vector));
        // Directions lie close to the unit circle: |d|^2 within [0.9, 1.1].
        let norm = rays[k].vector.norm_sq().unwrap();
        assert!(rat(9, 10).le(norm).unwrap());
        assert!(norm.le(rat(11, 10)).unwrap());
    }
    // The first direction points along the positive x axis for every count.
    assert!(same(rays[0].vector.x, rat(1, 1)));
    assert!(same(rays[0].vector.y, rat(0, 1)));
}

#[test]
fn generated_mirrors_stay_in_range_and_nondegenerate() {
    let mirrors = generate_mirrors(50);
    assert!(mirrors.len() <= 50);
    assert!(mirrors.len() >= 1);
    for m in &mirrors {
        for c in [m.start_pos.x, m.start_pos.y, m.end_pos.x, m.end_pos.y] {
            assert_eq!(c.den, 1);
            assert!(c.num >= MIRROR_COORD_MIN as i128);
            assert!(c.num <= MIRROR_COORD_MAX as i128);
        }
        let distinct = !(same(m.start_pos.x, m.end_pos.x) && same(m.start_pos.y, m.end_pos.y));
        assert!(distinct);
        assert!(m.absorption_factor.is_zero());
    }
}
