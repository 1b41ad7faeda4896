//! General properties of the simulator, stated and proved over its
//! spec-level model.

use vstd::prelude::*;
use vstd::arithmetic::div_mod::{lemma_div_is_ordered, lemma_div_multiples_vanish};
use crate::fixp::{tdiv, s_add, s_sub, s_fmul, s_fdiv, FX_SCALE, FX_CLIP_MAX};
use crate::vec2::{GVec, s_vadd, s_vscale, s_dist};
use crate::sim::{
    Planet, GState, FieldBounds, s_grav_one, s_vel_after, s_step, s_iter, s_stop,
    s_planet_hit, FX_TIME_INCREMENT,
};

verus! {

/// A vector mirrored across the horizontal axis.
pub open spec fn s_mirror(v: GVec) -> GVec {
    GVec { x: v.x, y: -v.y }
}

/// A missile state mirrored across the horizontal axis.
pub open spec fn s_mirror_state(st: GState) -> GState {
    GState { pos: s_mirror(st.pos), vel: s_mirror(st.vel) }
}

/// `ps2` is `ps1` with every planet mirrored across the horizontal axis.
pub open spec fn s_planets_mirrored(ps1: Seq<Planet>, ps2: Seq<Planet>) -> bool {
    &&& ps2.len() == ps1.len()
    &&& forall|i: int|
        0 <= i < ps1.len() ==> (#[trigger] ps2[i]).position@ == s_mirror(ps1[i].position@)
            && ps2[i].radius == ps1[i].radius
}

/// Truncating division is odd in its dividend.
proof fn lemma_tdiv_neg(a: int, b: int)
    requires
        b > 0,
    ensures
        tdiv(-a, b) == -tdiv(a, b),
{
}

/// Fixed-point multiplication is odd in its first factor.
proof fn lemma_fmul_neg(a: int, b: int)
    ensures
        s_fmul(-a, b) == -s_fmul(a, b),
{
    assert((-a) * b == -(a * b)) by (nonlinear_arith);
    lemma_tdiv_neg(a * b, FX_SCALE as int);
}

/// Fixed-point division is odd in its dividend.
proof fn lemma_fdiv_neg(a: int, b: int)
    ensures
        s_fdiv(-a, b) == -s_fdiv(a, b),
{
    if b > 0 {
        assert((-a) * (FX_SCALE as int) == -(a * (FX_SCALE as int))) by (nonlinear_arith);
        lemma_tdiv_neg(a * (FX_SCALE as int), b);
    }
}

/// A fixed-point square does not see the sign of its argument.
proof fn lemma_fmul_square_neg(a: int)
    ensures
        s_fmul(-a, -a) == s_fmul(a, a),
{
    assert((-a) * (-a) == a * a) by (nonlinear_arith);
}

/// One planet's pull commutes with mirroring across the horizontal axis.
proof fn lemma_grav_one_mirror(vel: GVec, pos: GVec, p1: Planet, p2: Planet)
    requires
        p2.position@ == s_mirror(p1.position@),
        p2.radius == p1.radius,
    ensures
        s_grav_one(s_mirror(vel), s_mirror(pos), p2) == s_mirror(s_grav_one(vel, pos, p1)),
{
    let dx = s_sub(p1.position@.x, pos.x);
    let dy = s_sub(p1.position@.y, pos.y);
    assert(s_sub(p2.position@.y, -pos.y) == -dy);
    lemma_fmul_square_neg(dy);
    let d2 = s_add(s_fmul(dx, dx), s_fmul(dy, dy));
    if d2 != 0 {
        let r3 = s_fmul(s_fmul(p1.radius as int, p1.radius as int), p1.radius as int);
        let mass = s_fmul(crate::sim::FX_FOUR_THIRDS_PI as int, r3);
        let mag = s_fdiv(s_fmul(crate::sim::FX_GRAV as int, mass), d2);
        let dist = crate::fixp::s_fsqrt(d2);
        lemma_fmul_neg(dy, mag);
        lemma_fdiv_neg(s_fmul(dy, mag), dist);
        lemma_fmul_neg(s_fdiv(s_fmul(dy, mag), dist), FX_TIME_INCREMENT as int);
    }
}

/// The whole gravity pass commutes with mirroring.
proof fn lemma_vel_after_mirror(vel: GVec, pos: GVec, ps1: Seq<Planet>, ps2: Seq<Planet>)
    requires
        s_planets_mirrored(ps1, ps2),
    ensures
        s_vel_after(s_mirror(vel), s_mirror(pos), ps2) == s_mirror(s_vel_after(vel, pos, ps1)),
    decreases ps1.len(),
{
    if ps1.len() > 0 {
        assert(s_planets_mirrored(ps1.drop_last(), ps2.drop_last()));
        lemma_vel_after_mirror(vel, pos, ps1.drop_last(), ps2.drop_last());
        assert(ps2.last() == ps2[ps1.len() - 1]);
        lemma_grav_one_mirror(s_vel_after(vel, pos, ps1.drop_last()), pos, ps1.last(), ps2.last());
    }
}

/// One integration step commutes with mirroring.
proof fn lemma_step_mirror(st: GState, ps1: Seq<Planet>, ps2: Seq<Planet>)
    requires
        s_planets_mirrored(ps1, ps2),
    ensures
        s_step(s_mirror_state(st), ps2) == s_mirror_state(s_step(st, ps1)),
{
    lemma_fmul_neg(st.vel.y, FX_TIME_INCREMENT as int);
    let npos = s_vadd(st.pos, s_vscale(st.vel, FX_TIME_INCREMENT as int));
    assert(s_vadd(s_mirror(st.pos), s_vscale(s_mirror(st.vel), FX_TIME_INCREMENT as int))
        == s_mirror(npos));
    lemma_vel_after_mirror(st.vel, npos, ps1, ps2);
}

/// Mirror symmetry of the physics: flying a missile in a scene mirrored
/// across the horizontal axis (launch state and every planet mirrored)
/// produces, step for step, exactly the mirrored states of the original
/// flight. In particular the gravitational pull points the mirrored way.
pub proof fn lemma_mirror_symmetry(init: GState, ps1: Seq<Planet>, ps2: Seq<Planet>, k: nat)
    requires
        s_planets_mirrored(ps1, ps2),
    ensures
        s_iter(s_mirror_state(init), ps2, k) == s_mirror_state(s_iter(init, ps1, k)),
    decreases k,
{
    if k > 0 {
        lemma_mirror_symmetry(init, ps1, ps2, (k - 1) as nat);
        lemma_step_mirror(s_iter(init, ps1, (k - 1) as nat), ps1, ps2);
    }
}

/// A vector mirrored across the horizontal line at height `h` (for
/// `h` the field height, the field's own mirror image).
pub open spec fn s_mirror_mid(v: GVec, h: int) -> GVec {
    GVec { x: v.x, y: h - v.y }
}

/// `ps2` is `ps1` with every planet mirrored across the line at height `h`.
pub open spec fn s_planets_mirrored_mid(ps1: Seq<Planet>, ps2: Seq<Planet>, h: int) -> bool {
    &&& ps2.len() == ps1.len()
    &&& forall|i: int|
        0 <= i < ps1.len() ==> (#[trigger] ps2[i]).position@ == s_mirror_mid(ps1[i].position@, h)
            && ps2[i].radius == ps1[i].radius
}

/// Distances do not see a mirroring across a horizontal line.
proof fn lemma_dist_midline(a: GVec, b: GVec, h: int)
    ensures
        s_dist(s_mirror_mid(a, h), s_mirror_mid(b, h)) == s_dist(a, b),
{
    lemma_fmul_square_neg(s_sub(b.y, a.y));
}

/// The termination decision is invariant under mirroring the whole scene
/// across the field's horizontal midline: the mirrored missile position,
/// enemy and planets yield exactly the reason of the original scene, for
/// any path length.
pub proof fn lemma_stop_midline_mirror(
    pos: GVec,
    enemy: GVec,
    ps1: Seq<Planet>,
    ps2: Seq<Planet>,
    dims: FieldBounds,
    path_len: int,
)
    requires
        s_planets_mirrored_mid(ps1, ps2, dims.height as int),
    ensures
        s_stop(
            s_mirror_mid(pos, dims.height as int),
            s_mirror_mid(enemy, dims.height as int),
            ps2,
            dims,
            path_len,
        ) == s_stop(pos, enemy, ps1, dims, path_len),
{
    let h = dims.height as int;
    lemma_dist_midline(pos, enemy, h);
    assert forall|i: int| 0 <= i < ps1.len() implies (s_planet_hit(pos, ps1[i])
        <==> s_planet_hit(s_mirror_mid(pos, h), #[trigger] ps2[i])) by {
        lemma_dist_midline(pos, ps1[i].position@, h);
    }
    if exists|i: int| 0 <= i < ps1.len() && s_planet_hit(pos, ps1[i]) {
        let i = choose|i: int| 0 <= i < ps1.len() && s_planet_hit(pos, ps1[i]);
        assert(s_planet_hit(s_mirror_mid(pos, h), ps2[i]));
    }
    if exists|i: int| 0 <= i < ps2.len() && s_planet_hit(s_mirror_mid(pos, h), ps2[i]) {
        let i = choose|i: int| 0 <= i < ps2.len() && s_planet_hit(s_mirror_mid(pos, h), ps2[i]);
        assert(s_planet_hit(pos, ps1[i]));
    }
}

/// A missile state mirrored across the horizontal line at height `h`:
/// the position is reflected, the velocity's vertical component flips.
pub open spec fn s_mirror_mid_state(st: GState, h: int) -> GState {
    GState { pos: s_mirror_mid(st.pos, h), vel: s_mirror(st.vel) }
}

/// The advance of a step stays away from the saturation bounds, in the
/// scene and in its midline mirror: the one situation in which saturating
/// arithmetic is not mirror-symmetric.
pub open spec fn s_mid_step_exact(st: GState, h: int) -> bool {
    let t = s_fmul(st.vel.y, FX_TIME_INCREMENT as int);
    &&& -(FX_CLIP_MAX as int) <= st.pos.y + t <= FX_CLIP_MAX as int
    &&& -(FX_CLIP_MAX as int) <= h - st.pos.y - t <= FX_CLIP_MAX as int
}

/// One planet's pull commutes with the midline mirror.
proof fn lemma_grav_one_midline(vel: GVec, pos: GVec, p1: Planet, p2: Planet, h: int)
    requires
        p2.position@ == s_mirror_mid(p1.position@, h),
        p2.radius == p1.radius,
    ensures
        s_grav_one(s_mirror(vel), s_mirror_mid(pos, h), p2) == s_mirror(
            s_grav_one(vel, pos, p1),
        ),
{
    let dy = s_sub(p1.position@.y, pos.y);
    assert(s_sub(p2.position@.y, h - pos.y) == -dy);
    lemma_fmul_square_neg(dy);
    let dx = s_sub(p1.position@.x, pos.x);
    let d2 = s_add(s_fmul(dx, dx), s_fmul(dy, dy));
    if d2 != 0 {
        let r3 = s_fmul(s_fmul(p1.radius as int, p1.radius as int), p1.radius as int);
        let mass = s_fmul(crate::sim::FX_FOUR_THIRDS_PI as int, r3);
        let mag = s_fdiv(s_fmul(crate::sim::FX_GRAV as int, mass), d2);
        let dist = crate::fixp::s_fsqrt(d2);
        lemma_fmul_neg(dy, mag);
        lemma_fdiv_neg(s_fmul(dy, mag), dist);
        lemma_fmul_neg(s_fdiv(s_fmul(dy, mag), dist), FX_TIME_INCREMENT as int);
    }
}

/// The whole gravity pass commutes with the midline mirror.
proof fn lemma_vel_after_midline(
    vel: GVec,
    pos: GVec,
    ps1: Seq<Planet>,
    ps2: Seq<Planet>,
    h: int,
)
    requires
        s_planets_mirrored_mid(ps1, ps2, h),
    ensures
        s_vel_after(s_mirror(vel), s_mirror_mid(pos, h), ps2) == s_mirror(
            s_vel_after(vel, pos, ps1),
        ),
    decreases ps1.len(),
{
    if ps1.len() > 0 {
        assert(s_planets_mirrored_mid(ps1.drop_last(), ps2.drop_last(), h));
        lemma_vel_after_midline(vel, pos, ps1.drop_last(), ps2.drop_last(), h);
        assert(ps2.last() == ps2[ps1.len() - 1]);
        lemma_grav_one_midline(
            s_vel_after(vel, pos, ps1.drop_last()),
            pos,
            ps1.last(),
            ps2.last(),
            h,
        );
    }
}

/// One step commutes with the midline mirror whenever its advance does
/// not saturate.
proof fn lemma_step_midline(st: GState, ps1: Seq<Planet>, ps2: Seq<Planet>, h: int)
    requires
        s_planets_mirrored_mid(ps1, ps2, h),
        s_mid_step_exact(st, h),
    ensures
        s_step(s_mirror_mid_state(st, h), ps2) == s_mirror_mid_state(s_step(st, ps1), h),
{
    lemma_fmul_neg(st.vel.y, FX_TIME_INCREMENT as int);
    let npos = s_vadd(st.pos, s_vscale(st.vel, FX_TIME_INCREMENT as int));
    assert(s_vadd(
        s_mirror_mid(st.pos, h),
        s_vscale(s_mirror(st.vel), FX_TIME_INCREMENT as int),
    ) == s_mirror_mid(npos, h));
    lemma_vel_after_midline(st.vel, npos, ps1, ps2, h);
}

/// Mirror symmetry of a whole flight across the field's horizontal
/// midline: launching the mirrored state among the mirrored planets
/// produces, step for step, the mirrored states of the original flight.
/// Together with [`lemma_stop_midline_mirror`] the mirrored flight also
/// ends for the same reason at the same step. The one proviso is that no
/// advance of the flight saturates, since clamping to the representable
/// range is not symmetric about an arbitrary midline.
pub proof fn lemma_midline_mirror_symmetry(
    init: GState,
    ps1: Seq<Planet>,
    ps2: Seq<Planet>,
    h: int,
    k: nat,
)
    requires
        s_planets_mirrored_mid(ps1, ps2, h),
        forall|j: nat| j < k ==> s_mid_step_exact(#[trigger] s_iter(init, ps1, j), h),
    ensures
        s_iter(s_mirror_mid_state(init, h), ps2, k) == s_mirror_mid_state(
            s_iter(init, ps1, k),
            h,
        ),
    decreases k,
{
    if k > 0 {
        lemma_midline_mirror_symmetry(init, ps1, ps2, h, (k - 1) as nat);
        assert(s_mid_step_exact(s_iter(init, ps1, (k - 1) as nat), h));
        lemma_step_midline(s_iter(init, ps1, (k - 1) as nat), ps1, ps2, h);
    }
}

/// Scaling by the time increment never grows a scalar's magnitude.
proof fn lemma_time_scale_bounded(v: int, bound: int)
    requires
        0 <= bound,
        -bound <= v <= bound,
        bound <= 0x7fff_ffff_ffff_ffff,
    ensures
        -bound <= s_fmul(v, FX_TIME_INCREMENT as int) <= bound,
{
    let s = FX_SCALE as int;
    let h = FX_TIME_INCREMENT as int;
    if v >= 0 {
        assert(v * h <= v * s) by (nonlinear_arith)
            requires
                v >= 0,
                0 < h <= s,
        ;
        assert(v * h >= 0) by (nonlinear_arith)
            requires
                v >= 0,
                h > 0,
        ;
        lemma_div_is_ordered(v * h, v * s, s);
        lemma_div_multiples_vanish(v, s);
        assert(tdiv(v * h, s) <= v);
        assert(tdiv(v * h, s) >= 0) by {
            assert(v * h / s >= 0) by (nonlinear_arith)
                requires
                    v * h >= 0,
                    s > 0,
            ;
        };
    } else {
        let w = -v;
        assert(w * h <= w * s) by (nonlinear_arith)
            requires
                w >= 0,
                0 < h <= s,
        ;
        assert(w * h >= 0) by (nonlinear_arith)
            requires
                w >= 0,
                h > 0,
        ;
        lemma_div_is_ordered(w * h, w * s, s);
        lemma_div_multiples_vanish(w, s);
        assert(tdiv(w * h, s) <= w);
        assert(tdiv(w * h, s) >= 0) by {
            assert(w * h / s >= 0) by (nonlinear_arith)
                requires
                    w * h >= 0,
                    s > 0,
            ;
        };
        lemma_fmul_neg(w, h);
        assert(s_fmul(v, h) == -s_fmul(w, h));
    }
}

/// Without planets and away from the saturation bounds, the path is
/// exactly the line `start + k * (velocity * dt)`: the closed form of
/// [`lemma_no_gravity_straight_line`], for launch states whose
/// coordinates leave the fuel-limited flight no room to saturate.
pub proof fn lemma_no_gravity_linear_path(init: GState, planets: Seq<Planet>, k: nat)
    requires
        planets.len() == 0,
        k <= 300,
        -0x4000_0000_0000_0000 <= init.pos.x <= 0x4000_0000_0000_0000,
        -0x4000_0000_0000_0000 <= init.pos.y <= 0x4000_0000_0000_0000,
        -0x100_0000_0000 <= init.vel.x <= 0x100_0000_0000,
        -0x100_0000_0000 <= init.vel.y <= 0x100_0000_0000,
    ensures
        s_iter(init, planets, k).pos.x == init.pos.x + k * s_fmul(
            init.vel.x,
            FX_TIME_INCREMENT as int,
        ),
        s_iter(init, planets, k).pos.y == init.pos.y + k * s_fmul(
            init.vel.y,
            FX_TIME_INCREMENT as int,
        ),
    decreases k,
{
    let dx = s_fmul(init.vel.x, FX_TIME_INCREMENT as int);
    let dy = s_fmul(init.vel.y, FX_TIME_INCREMENT as int);
    lemma_time_scale_bounded(init.vel.x, 0x100_0000_0000);
    lemma_time_scale_bounded(init.vel.y, 0x100_0000_0000);
    if k == 0 {
        assert(s_iter(init, planets, 0) == init);
        assert(init.pos.x + 0 * dx == init.pos.x);
        assert(init.pos.y + 0 * dy == init.pos.y);
    } else {
        let j = (k - 1) as nat;
        lemma_no_gravity_linear_path(init, planets, j);
        lemma_no_gravity_straight_line(init, planets, j);
        let prev = s_iter(init, planets, j);
        assert(s_iter(init, planets, k) == s_step(prev, planets));
        assert(prev.vel == init.vel);
        assert(prev.pos.x == init.pos.x + j * dx);
        assert(j * dx <= 300 * 0x100_0000_0000 && -300 * 0x100_0000_0000 <= j * dx)
            by (nonlinear_arith)
            requires
                0 <= j <= 300,
                -0x100_0000_0000 <= dx <= 0x100_0000_0000,
        ;
        assert(j * dy <= 300 * 0x100_0000_0000 && -300 * 0x100_0000_0000 <= j * dy)
            by (nonlinear_arith)
            requires
                0 <= j <= 300,
                -0x100_0000_0000 <= dy <= 0x100_0000_0000,
        ;
        assert(j * dx + dx == k * dx) by (nonlinear_arith)
            requires
                j + 1 == k,
        ;
        assert(j * dy + dy == k * dy) by (nonlinear_arith)
            requires
                j + 1 == k,
        ;
    }
}

/// Without planets the path is a straight line: the velocity never
/// changes, and each step advances the position by the same displacement
/// `velocity * dt`.
pub proof fn lemma_no_gravity_straight_line(init: GState, planets: Seq<Planet>, k: nat)
    requires
        planets.len() == 0,
    ensures
        s_iter(init, planets, k).vel == init.vel,
        s_iter(init, planets, k + 1).pos == s_vadd(
            s_iter(init, planets, k).pos,
            s_vscale(init.vel, FX_TIME_INCREMENT as int),
        ),
    decreases k,
{
    if k == 0 {
        assert(s_iter(init, planets, 0) == init);
        assert(s_iter(init, planets, 1) == s_step(s_iter(init, planets, 0), planets));
    } else {
        lemma_no_gravity_straight_line(init, planets, (k - 1) as nat);
        assert(s_iter(init, planets, k) == s_step(s_iter(init, planets, (k - 1) as nat), planets));
        assert(s_iter(init, planets, k + 1) == s_step(s_iter(init, planets, k), planets));
    }
}

} // verus!
