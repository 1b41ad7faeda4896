use space_artillery::sim::{
    calculate_missile_path, check_stop_reasons, FieldBounds, MissileResult, Planet,
    MAX_PATH_LENGTH,
};
use space_artillery::vec2::Vector2;

/// One scene unit in fixed-point representation.
const FX: i64 = 1_000_000;

fn v(x: i64, y: i64) -> Vector2 {
    Vector2::new(x * FX, y * FX)
}

fn bounds(width: i64, height: i64) -> FieldBounds {
    FieldBounds { width: width * FX, height: height * FX }
}

#[test]
fn path_length_is_always_bounded() {
    // A missile with no velocity never moves and burns through its fuel.
    let planets: Vec<Planet> = Vec::new();
    let (path, reason) = calculate_missile_path(
        v(500, 350),
        Vector2::new(0, 0),
        v(4000, 400),
        bounds(1000, 700),
        &planets,
    );
    assert_eq!(reason, MissileResult::OutOfFuel);
    assert_eq!(path.len(), MAX_PATH_LENGTH);
    assert!(path.len() >= 1);
    assert!(path.len() <= MAX_PATH_LENGTH + 1);
    for p in &path {
        assert_eq!(*p, v(500, 350));
    }
}

#[test]
fn straight_line_without_planets() {
    // Unit direction (0.6, 0.8): velocity (2.4, 3.2), one step advances
    // the position by exactly (1.2, 1.6).
    let planets: Vec<Planet> = Vec::new();
    let start = v(40, 400);
    let dir = Vector2::new(600_000, 800_000);
    let (path, reason) = calculate_missile_path(
        start,
        dir,
        v(4000, 400),
        bounds(1000, 700),
        &planets,
    );
    for (i, p) in path.iter().enumerate() {
        let k = i as i64;
        assert_eq!(p.x, 40 * FX + 1_200_000 * k);
        assert_eq!(p.y, 400 * FX + 1_600_000 * k);
    }
    // y reaches the 700 line first: 400 + 1.6k >= 700 at k = 188.
    assert_eq!(reason, MissileResult::OutOfRange);
    assert_eq!(path.len(), 189);
}

#[test]
fn unreachable_enemy_far_field_runs_out_of_fuel() {
    // The field edge lies 480 steps away, past the 300-sample fuel limit,
    // so the fuel check fires first.
    let planets: Vec<Planet> = Vec::new();
    let (path, reason) = calculate_missile_path(
        v(40, 400),
        Vector2::new(FX, 0),
        v(4000, 400),
        bounds(1000, 700),
        &planets,
    );
    assert_eq!(reason, MissileResult::OutOfFuel);
    assert_eq!(path.len(), 300);
    assert_eq!(path[299], v(638, 400));
}

#[test]
fn unreachable_enemy_leaves_the_field() {
    // With a narrower field the missile reaches the edge within its fuel:
    // x = 40 + 2k hits 600 at k = 280, one sample per step plus the start.
    let planets: Vec<Planet> = Vec::new();
    let (path, reason) = calculate_missile_path(
        v(40, 400),
        Vector2::new(FX, 0),
        v(4000, 400),
        bounds(600, 700),
        &planets,
    );
    assert_eq!(reason, MissileResult::OutOfRange);
    assert_eq!(path.len(), 281);
    assert_eq!(path[280], v(600, 400));
}

#[test]
fn enemy_boundary_exact_hit() {
    // The enemy sits exactly the collision radius (16) above the straight
    // path; the hit is reported at the first sample where the distance
    // condition holds with equality, x = 100 at step 30.
    let planets: Vec<Planet> = Vec::new();
    let (path, reason) = calculate_missile_path(
        v(40, 400),
        Vector2::new(FX, 0),
        v(100, 416),
        bounds(1000, 700),
        &planets,
    );
    assert_eq!(reason, MissileResult::HitEnemy);
    assert_eq!(path.len(), 31);
    assert_eq!(path[30], v(100, 400));
}

#[test]
fn out_of_range_beats_hit_planet() {
    // A massless speck of a planet placed just past the field edge: at
    // x = 1000 the missile is both out of range and touching the planet,
    // and neither condition held a step earlier. Range wins.
    let planets = vec![Planet { position: Vector2::new(1000 * FX + 1, 400 * FX), radius: 1 }];
    let (path, reason) = calculate_missile_path(
        v(440, 400),
        Vector2::new(FX, 0),
        v(4000, 400),
        bounds(1000, 700),
        &planets,
    );
    assert_eq!(reason, MissileResult::OutOfRange);
    assert_eq!(path.len(), 281);
    assert_eq!(path[280], v(1000, 400));
}

#[test]
fn out_of_fuel_beats_out_of_range() {
    // The missile reaches x = 638 exactly when its 300th sample is taken;
    // the fuel check is evaluated first and wins over the range check.
    let planets: Vec<Planet> = Vec::new();
    let (path, reason) = calculate_missile_path(
        v(40, 400),
        Vector2::new(FX, 0),
        v(4000, 400),
        bounds(638, 700),
        &planets,
    );
    assert_eq!(reason, MissileResult::OutOfFuel);
    assert_eq!(path.len(), 300);
    assert_eq!(path[299], v(638, 400));
}

#[test]
fn missile_falls_into_planet() {
    // A heavy planet straight ahead: the missile flies right at it and
    // must strike it.
    let planets = vec![Planet { position: v(500, 400), radius: 50 * FX }];
    let (path, reason) = calculate_missile_path(
        v(40, 400),
        Vector2::new(FX, 0),
        v(4000, 400),
        bounds(1000, 700),
        &planets,
    );
    assert_eq!(reason, MissileResult::HitPlanet);
    // The pull is along the line of flight only.
    for p in &path {
        assert_eq!(p.y, 400 * FX);
    }
    // Gravity only speeds the missile up, so it strikes no later than the
    // unaccelerated flight would: (450 - 40) / 2 steps.
    assert!(path.len() <= 206);
}

#[test]
fn mirrored_scene_gives_mirrored_path() {
    // The second scene is the first mirrored across the field's horizontal
    // midline (y = 350): same reason, same length, mirrored samples.
    let planets_a = vec![Planet { position: v(500, 200), radius: 50 * FX }];
    let planets_b = vec![Planet { position: v(500, 500), radius: 50 * FX }];
    let dir_a = Vector2::new(800_000, 600_000);
    let dir_b = Vector2::new(800_000, -600_000);
    let (path_a, reason_a) = calculate_missile_path(
        v(40, 300),
        dir_a,
        v(900, 300),
        bounds(1000, 700),
        &planets_a,
    );
    let (path_b, reason_b) = calculate_missile_path(
        v(40, 400),
        dir_b,
        v(900, 400),
        bounds(1000, 700),
        &planets_b,
    );
    assert_eq!(reason_a, reason_b);
    assert_eq!(path_a.len(), path_b.len());
    for (pa, pb) in path_a.iter().zip(path_b.iter()) {
        assert_eq!(pa.x, pb.x);
        assert_eq!(pa.y + pb.y, 700 * FX);
    }
}

#[test]
fn stop_reasons_in_isolation() {
    let planets = vec![Planet { position: v(500, 400), radius: 50 * FX }];
    let dims = bounds(1000, 700);
    let enemy = v(900, 400);
    // Fuel dominates everything, even a position far outside the field.
    assert_eq!(
        check_stop_reasons(v(5000, 5000), enemy, &planets, dims, 300),
        Some(MissileResult::OutOfFuel),
    );
    // On the edge counts as out of range.
    assert_eq!(
        check_stop_reasons(v(1000, 350), enemy, &planets, dims, 10),
        Some(MissileResult::OutOfRange),
    );
    assert_eq!(
        check_stop_reasons(Vector2::new(0, 350 * FX), enemy, &planets, dims, 10),
        Some(MissileResult::OutOfRange),
    );
    // Touching the planet's surface counts as a strike.
    assert_eq!(
        check_stop_reasons(v(550, 400), enemy, &planets, dims, 10),
        Some(MissileResult::HitPlanet),
    );
    // Touching the enemy's collision circle counts as a hit.
    assert_eq!(
        check_stop_reasons(v(884, 400), enemy, &planets, dims, 10),
        Some(MissileResult::HitEnemy),
    );
    // Otherwise the flight goes on.
    assert_eq!(check_stop_reasons(v(200, 100), enemy, &planets, dims, 10), None);
}

#[test]
fn path_starts_at_the_launch_position() {
    let planets = vec![Planet { position: v(150, 340), radius: 50 * FX }];
    let start = v(40, 400);
    let (path, _) = calculate_missile_path(
        start,
        Vector2::new(600_000, -800_000),
        v(250, 400),
        bounds(1000, 700),
        &planets,
    );
    assert_eq!(path[0], start);
}

#[test]
fn vector_operations_are_exact() {
    assert_eq!(v(1, 2).plus(v(3, 4)), v(4, 6));
    assert_eq!(v(1, 2).minus(v(3, 7)), v(-2, -5));
    assert_eq!(v(3, -4).scaled(2 * FX), v(6, -8));
    assert_eq!(v(0, 0).dist(v(3, 4)), 5 * FX);
    assert_eq!(v(0, 0).dist_sq(v(3, 4)), 25 * FX);
    assert_eq!(v(3, -4).normalized(), Vector2::new(600_000, -800_000));
    assert_eq!(v(0, 0).normalized(), v(0, 0));
    // Scaling truncates toward zero.
    assert_eq!(Vector2::new(3, -3).scaled(500_000), Vector2::new(1, -1));
    // Additions saturate instead of wrapping.
    let big = Vector2::new(i64::MAX, i64::MAX);
    assert_eq!(big.plus(big), Vector2::new(i64::MAX, i64::MAX));
    assert_eq!(Vector2::new(-i64::MAX, 0).minus(big), Vector2::new(-i64::MAX, -i64::MAX));
}
