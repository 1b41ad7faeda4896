//! The missile trajectory simulator.
//!
//! A missile is launched with a fixed speed along a direction, advances in
//! fixed time increments, and is pulled toward every planet by gravity.
//! After each advance the simulator decides, in a strict priority order,
//! whether the flight is over: out of fuel first, then out of the field,
//! then a planet strike, then an enemy strike.
//!
//! The whole integration step is mirrored by spec-level functions over
//! [`GVec`] models ([`s_step`], [`s_iter`], [`s_stop`]), and the executable
//! simulator is proved to produce exactly the modelled path and reason.

use vstd::prelude::*;
use crate::fixp::{s_fmul, s_fdiv, s_fsqrt};
use crate::fixp;
use crate::vec2::{Vector2, GVec, s_vadd, s_vsub, s_vscale, s_dist_sq, s_dist};

verus! {

/// Speed a missile is launched with, in scene units per time unit.
pub const FX_INITIAL_SPEED: i64 = 4_000_000;

/// Length of one integration time increment (half a time unit).
pub const FX_TIME_INCREMENT: i64 = 500_000;

/// The gravitational constant of the scene.
pub const FX_GRAV: i64 = 10_000;

/// `(4/3) * pi`, the factor turning a radius cubed into a planet's mass
/// at unit density.
pub const FX_FOUR_THIRDS_PI: i64 = 4_188_790;

/// A missile closer to the enemy ship than this has hit it.
pub const FX_ENEMY_RADIUS: i64 = 16_000_000;

/// A path may hold at most this many samples; reaching the limit means
/// the missile ran out of fuel.
pub const MAX_PATH_LENGTH: usize = 300;

/// A gravitating body, fixed for the duration of a simulation run.
#[derive(Clone, Copy, PartialEq, Eq, Structural, Debug)]
pub struct Planet {
    pub position: Vector2,
    pub radius: i64,
}

/// The playable rectangle `[0, width] x [0, height]`.
#[derive(Clone, Copy, PartialEq, Eq, Structural, Debug)]
pub struct FieldBounds {
    pub width: i64,
    pub height: i64,
}

/// Why a missile's flight ended. Exactly one reason is produced per run.
#[derive(Clone, Copy, PartialEq, Eq, Structural, Debug)]
pub enum MissileResult {
    OutOfRange,
    OutOfFuel,
    HitPlanet,
    HitEnemy,
}

/// The model of a missile in flight: where it is and how it moves.
pub ghost struct GState {
    pub pos: GVec,
    pub vel: GVec,
}

/// The velocity change one planet works on a missile at `pos`: an
/// acceleration of magnitude `G * mass / d^2` toward the planet's center,
/// applied for one time increment. A missile exactly at the center is
/// left untouched, so degenerate scenes stay well defined.
pub open spec fn s_grav_one(vel: GVec, pos: GVec, p: Planet) -> GVec {
    let d2 = s_dist_sq(pos, p.position@);
    if d2 == 0 {
        vel
    } else {
        let diff = s_vsub(p.position@, pos);
        let dist = s_fsqrt(d2);
        let r3 = s_fmul(s_fmul(p.radius as int, p.radius as int), p.radius as int);
        let mass = s_fmul(FX_FOUR_THIRDS_PI as int, r3);
        let mag = s_fdiv(s_fmul(FX_GRAV as int, mass), d2);
        let accel = GVec {
            x: s_fdiv(s_fmul(diff.x, mag), dist),
            y: s_fdiv(s_fmul(diff.y, mag), dist),
        };
        s_vadd(vel, s_vscale(accel, FX_TIME_INCREMENT as int))
    }
}

/// The velocity after every planet of the list, in order, has pulled on
/// the missile once.
pub open spec fn s_vel_after(vel: GVec, pos: GVec, planets: Seq<Planet>) -> GVec
    decreases planets.len(),
{
    if planets.len() == 0 {
        vel
    } else {
        s_grav_one(s_vel_after(vel, pos, planets.drop_last()), pos, planets.last())
    }
}

/// One integration step: advance by `velocity * dt`, then let every planet
/// bend the velocity at the new position.
pub open spec fn s_step(st: GState, planets: Seq<Planet>) -> GState {
    let npos = s_vadd(st.pos, s_vscale(st.vel, FX_TIME_INCREMENT as int));
    GState { pos: npos, vel: s_vel_after(st.vel, npos, planets) }
}

/// The missile's state after `k` integration steps.
pub open spec fn s_iter(init: GState, planets: Seq<Planet>, k: nat) -> GState
    decreases k,
{
    if k == 0 {
        init
    } else {
        s_step(s_iter(init, planets, (k - 1) as nat), planets)
    }
}

/// The state a launch begins in: the start position, and the launch
/// direction scaled to the initial speed.
pub open spec fn s_launch(start: GVec, dir: GVec) -> GState {
    GState { pos: start, vel: s_vscale(dir, FX_INITIAL_SPEED as int) }
}

/// Whether the missile at `pos` is inside planet `p`.
pub open spec fn s_planet_hit(pos: GVec, p: Planet) -> bool {
    s_dist(pos, p.position@) <= p.radius as int
}

/// The termination decision after a step, given the path length so far:
/// out of fuel before out of range, before a planet strike, before an
/// enemy strike; `None` if the flight goes on.
pub open spec fn s_stop(
    pos: GVec,
    enemy: GVec,
    planets: Seq<Planet>,
    dims: FieldBounds,
    path_len: int,
) -> Option<MissileResult> {
    if path_len >= MAX_PATH_LENGTH as int {
        Some(MissileResult::OutOfFuel)
    } else if pos.x >= dims.width as int || pos.y >= dims.height as int || pos.x <= 0 || pos.y
        <= 0 {
        Some(MissileResult::OutOfRange)
    } else if exists|i: int| 0 <= i < planets.len() && s_planet_hit(pos, planets[i]) {
        Some(MissileResult::HitPlanet)
    } else if s_dist(pos, enemy) <= FX_ENEMY_RADIUS as int {
        Some(MissileResult::HitEnemy)
    } else {
        None
    }
}

/// One planet's pull applied to the velocity.
fn gravity_step(vel: Vector2, pos: Vector2, p: &Planet) -> (r: Vector2)
    ensures
        r@ == s_grav_one(vel@, pos@, *p),
{
    let d2 = pos.dist_sq(p.position);
    if d2 == 0 {
        vel
    } else {
        let diff = p.position.minus(pos);
        let dist = fixp::fx_sqrt(d2);
        let r3 = fixp::fx_mul(fixp::fx_mul(p.radius, p.radius), p.radius);
        let mass = fixp::fx_mul(FX_FOUR_THIRDS_PI, r3);
        let mag = fixp::fx_div(fixp::fx_mul(FX_GRAV, mass), d2);
        let accel = Vector2::new(
            fixp::fx_div(fixp::fx_mul(diff.x, mag), dist),
            fixp::fx_div(fixp::fx_mul(diff.y, mag), dist),
        );
        vel.plus(accel.scaled(FX_TIME_INCREMENT))
    }
}

/// Every planet's pull applied to the velocity, in list order.
fn apply_gravity(vel: Vector2, pos: Vector2, planets: &Vec<Planet>) -> (r: Vector2)
    ensures
        r@ == s_vel_after(vel@, pos@, planets@),
{
    let mut cur = vel;
    let mut i: usize = 0;
    while i < planets.len()
        invariant
            i <= planets.len(),
            cur@ == s_vel_after(vel@, pos@, planets@.take(i as int)),
        decreases planets.len() - i,
    {
        cur = gravity_step(cur, pos, &planets[i]);
        proof {
            assert(planets@.take(i + 1).drop_last() =~= planets@.take(i as int));
            assert(planets@.take(i + 1).last() == planets@[i as int]);
        }
        i = i + 1;
    }
    proof {
        assert(planets@.take(planets@.len() as int) =~= planets@);
    }
    cur
}

/// Decide whether the flight is over, in the strict priority order of
/// [`s_stop`]: fuel, field bounds, planets (first match in list order),
/// enemy.
pub fn check_stop_reasons(
    position: Vector2,
    enemy_pos: Vector2,
    planets: &Vec<Planet>,
    dimensions: FieldBounds,
    path_length: usize,
) -> (r: Option<MissileResult>)
    ensures
        r == s_stop(position@, enemy_pos@, planets@, dimensions, path_length as int),
{
    // Check for maximum travel time.
    if path_length >= MAX_PATH_LENGTH {
        return Some(MissileResult::OutOfFuel);
    }
    // Check for leaving the field.
    if position.x >= dimensions.width || position.y >= dimensions.height || position.x <= 0
        || position.y <= 0 {
        return Some(MissileResult::OutOfRange);
    }
    // Check for a collision with a planet.
    let mut i: usize = 0;
    while i < planets.len()
        invariant
            i <= planets.len(),
            (path_length as int) < MAX_PATH_LENGTH as int,
            position@.x < dimensions.width as int,
            position@.y < dimensions.height as int,
            position@.x > 0,
            position@.y > 0,
            forall|j: int| 0 <= j < i ==> !s_planet_hit(position@, planets@[j]),
        decreases planets.len() - i,
    {
        if position.dist(planets[i].position) <= planets[i].radius {
            proof {
                assert(s_planet_hit(position@, planets@[i as int]));
            }
            return Some(MissileResult::HitPlanet);
        }
        i = i + 1;
    }
    // Check for a collision with the enemy, approximated as a circle.
    if position.dist(enemy_pos) <= FX_ENEMY_RADIUS {
        return Some(MissileResult::HitEnemy);
    }
    None
}

/// Fly a missile from `start_pos` along `launch_dir` — the unit vector of
/// the launch angle, as the scene's rotation convention maps it — and
/// report every position it occupies together with the reason the flight
/// ended.
///
/// The returned path holds the start position followed by one sample per
/// integration step; its `i`-th element is exactly the modelled position
/// after `i` steps. The reason is the first one [`s_stop`] yields along
/// the flight, so every run terminates within the fuel limit.
pub fn calculate_missile_path(
    start_pos: Vector2,
    launch_dir: Vector2,
    enemy_pos: Vector2,
    dimensions: FieldBounds,
    planets: &Vec<Planet>,
) -> (r: (Vec<Vector2>, MissileResult))
    ensures
        2 <= r.0@.len() <= MAX_PATH_LENGTH as int,
        r.0@[0]@ == start_pos@,
        forall|i: int|
            0 <= i < r.0@.len() ==> r.0@[i]@ == s_iter(
                s_launch(start_pos@, launch_dir@),
                planets@,
                i as nat,
            ).pos,
        s_stop(
            s_iter(s_launch(start_pos@, launch_dir@), planets@, (r.0@.len() - 1) as nat).pos,
            enemy_pos@,
            planets@,
            dimensions,
            r.0@.len() as int,
        ) == Some(r.1),
        forall|k: int|
            1 <= k < r.0@.len() - 1 ==> s_stop(
                (#[trigger] s_iter(s_launch(start_pos@, launch_dir@), planets@, k as nat)).pos,
                enemy_pos@,
                planets@,
                dimensions,
                k + 1,
            ) is None,
{
    let ghost init = s_launch(start_pos@, launch_dir@);
    let mut position = start_pos;
    let mut velocity = launch_dir.scaled(FX_INITIAL_SPEED);
    let mut path: Vec<Vector2> = Vec::new();
    path.push(position);
    loop
        invariant
            init == s_launch(start_pos@, launch_dir@),
            1 <= path@.len() < MAX_PATH_LENGTH as int,
            position@ == s_iter(init, planets@, (path@.len() - 1) as nat).pos,
            velocity@ == s_iter(init, planets@, (path@.len() - 1) as nat).vel,
            forall|i: int|
                0 <= i < path@.len() ==> path@[i]@ == s_iter(init, planets@, i as nat).pos,
            forall|k: int|
                1 <= k < path@.len() ==> s_stop(
                    (#[trigger] s_iter(init, planets@, k as nat)).pos,
                    enemy_pos@,
                    planets@,
                    dimensions,
                    k + 1,
                ) is None,
        decreases MAX_PATH_LENGTH as int - path@.len(),
    {
        let ghost steps_before = (path@.len() - 1) as nat;
        let ghost prev_path = path@;
        // Move one increment.
        position = position.plus(velocity.scaled(FX_TIME_INCREMENT));
        path.push(position);
        // Update the velocity vector.
        velocity = apply_gravity(velocity, position, planets);
        proof {
            assert(s_iter(init, planets@, steps_before + 1) == s_step(
                s_iter(init, planets@, steps_before),
                planets@,
            ));
            assert(position@ == s_iter(init, planets@, steps_before + 1).pos);
            assert(velocity@ == s_iter(init, planets@, steps_before + 1).vel);
            assert(path@ == prev_path.push(position));
            assert forall|i: int|
                0 <= i < path@.len() implies path@[i]@ == s_iter(init, planets@, i as nat).pos by {
                if i < prev_path.len() {
                    assert(path@[i] == prev_path[i]);
                } else {
                    assert(path@[i] == position);
                    assert(i as nat == steps_before + 1);
                }
            }
        }
        if let Some(stop_reason) = check_stop_reasons(
            position,
            enemy_pos,
            planets,
            dimensions,
            path.len(),
        ) {
            return (path, stop_reason);
        }
    }
}

} // verus!

