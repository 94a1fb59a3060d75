//! The spherical movement model for the player ball: tangent-plane input
//! acceleration, a one-shot dash impulse at the end of the dash window,
//! exponential friction, and a soft maximum-speed clamp that lerps one tenth
//! of the way toward the clamped velocity each tick.
//!
//! The per-tick friction retention factor (`friction` raised to `dt * 60`)
//! is computed by the caller's clock layer and handed in as a fixed-point
//! value in thousandths; everything else is integer arithmetic and verified.

use vstd::prelude::*;

use crate::settings::{DashSettings, DashState, PlayerSettings};
use crate::vecmath::{
    absi, is_sqrt_floor, lemma_decay_contract, lemma_mul_abs_bound, lemma_norm_sq_nonneg,
    muldiv_trunc, muldiv_trunc_i64, rescale_to, Vec2Milli, Vec3Milli, V3,
};

verus! {

/// Joystick output consumed by the movement model: a direction in
/// `[-1000, 1000]^2` thousandths, `(0, 0)` when idle.
#[derive(Clone, Copy, PartialEq, Eq, Structural, Debug)]
pub struct VjoyOutput {
    pub dir: Vec2Milli,
}

impl Default for VjoyOutput {
    fn default() -> (r: VjoyOutput)
        ensures
            r.dir.x == 0 && r.dir.y == 0,
    {
        VjoyOutput { dir: Vec2Milli { x: 0, y: 0 } }
    }
}

/// The player ball: tangential velocity, hit points (thousandths, 100_000
/// is full) and the remaining invincibility window in milliseconds.
#[derive(Clone, Copy, PartialEq, Eq, Structural, Debug)]
pub struct PlayerBall {
    pub current_velocity: Vec3Milli,
    pub hp: i64,
    pub invincibility_timer: u64,
}

impl Default for PlayerBall {
    fn default() -> (r: PlayerBall)
        ensures
            r.current_velocity.x == 0 && r.current_velocity.y == 0 && r.current_velocity.z == 0,
            r.hp == 0,
            r.invincibility_timer == 0,
    {
        PlayerBall {
            current_velocity: Vec3Milli { x: 0, y: 0, z: 0 },
            hp: 0,
            invincibility_timer: 0,
        }
    }
}

impl PlayerBall {
    /// Session start or world reset: full health, at rest, vulnerable.
    pub fn reset(&mut self)
        ensures
            final(self).current_velocity == (Vec3Milli { x: 0, y: 0, z: 0 }),
            final(self).hp == 100_000,
            final(self).invincibility_timer == 0,
    {
        self.current_velocity = Vec3Milli { x: 0, y: 0, z: 0 };
        self.hp = 100_000;
        self.invincibility_timer = 0;
    }
}

/// Squared joystick deflection, in squared thousandths.
pub open spec fn joy_len_sq(j: Vec2Milli) -> int {
    j.x * j.x + j.y * j.y
}

/// The joystick direction lifted to the tangent plane: `(x, 0, -y)`.
pub open spec fn joy_vec(j: Vec2Milli) -> V3 {
    V3 { x: j.x as int, y: 0, z: -(j.y as int) }
}

/// `clamp(4.0 / player_radius, 0.2, 2.0)` in thousandths: smaller (more
/// damaged) balls respond more nimbly.
pub open spec fn size_factor_spec(radius: int) -> int {
    let raw = 4_000_000int / radius;
    if raw < 200 {
        200
    } else if raw > 2000 {
        2000
    } else {
        raw
    }
}

/// A base quantity scaled by the size factor (both in thousandths).
pub open spec fn eff_scale(base: int, sf: int) -> int {
    base * sf / 1000
}

/// Velocity after input acceleration: when the stick is deflected beyond
/// the threshold, `(x, 0, -y) * eff_accel * dt` is integrated.
pub open spec fn accel_step(v: V3, j: Vec2Milli, ea: int, dt: int) -> V3 {
    if joy_len_sq(j) > 100 {
        v.plus(joy_vec(j).scale_div(ea * dt, 1_000_000))
    } else {
        v
    }
}

/// The dash injects its impulse on the tick in which the active window
/// reaches its end.
pub open spec fn dash_fires(ds: DashState, dcfg: DashSettings, dt: int) -> bool {
    ds.is_active && ds.duration_timer_ms + dt >= dcfg.dash_duration_ms
}

/// Relation between the velocity before and after the dash impulse: on the
/// firing tick an impulse of `eff_force` is added along the normalized
/// input direction, or along the normalized velocity when the stick is
/// near center; a degenerate (zero) direction skips the impulse.
pub open spec fn dash_step_rel(v: V3, j: Vec2Milli, fires: bool, eff_force: int, v2: V3) -> bool {
    if !fires {
        v2 == v
    } else if joy_len_sq(j) > 10_000 {
        exists|len: int|
            #![auto]
            is_sqrt_floor(joy_vec(j).norm_sq(), len) && 1 <= len && v2 == v.plus(
                joy_vec(j).scale_div(1000, len).scale_div(eff_force, 1000),
            )
    } else if v.norm_sq() > 0 {
        exists|len: int|
            #![auto]
            is_sqrt_floor(v.norm_sq(), len) && 1 <= len && v2 == v.plus(
                v.scale_div(1000, len).scale_div(eff_force, 1000),
            )
    } else {
        v2 == v
    }
}

/// Velocity after friction: componentwise `v * retention / 1000`.
pub open spec fn retention_step(v: V3, retention: int) -> V3 {
    v.scale_div(retention, 1000)
}

/// Relation of the soft maximum-speed clamp: while dashing the clamp is
/// bypassed; otherwise a velocity above `eff_max` lerps one tenth of the
/// way toward the velocity rescaled to `eff_max`.
pub open spec fn clamp_rel(v: V3, eff_max: int, dashing: bool, out: V3) -> bool {
    if dashing || v.norm_sq() <= eff_max * eff_max {
        out == v
    } else {
        exists|len: int|
            #![auto]
            is_sqrt_floor(v.norm_sq(), len) && 1 <= len && out == v.plus(
                v.scale_div(eff_max, len).minus(v).scale_div(1, 10),
            )
    }
}

/// The whole velocity update of one tick, staged exactly as executed:
/// input acceleration, dash impulse, friction retention, soft clamp.
pub open spec fn velocity_tick_rel(
    v0: V3,
    j: Vec2Milli,
    dt: int,
    cfg: PlayerSettings,
    dcfg: DashSettings,
    ds: DashState,
    friction_ret: int,
    dash_ret: int,
    vout: V3,
) -> bool {
    let sf = size_factor_spec(cfg.player_radius as int);
    let ea = eff_scale(cfg.acceleration as int, sf);
    let em = eff_scale(cfg.max_speed as int, sf);
    let ef = eff_scale(dcfg.dash_force as int, sf);
    let v1 = accel_step(v0, j, ea, dt);
    exists|v2: V3|
        #![auto]
        dash_step_rel(v1, j, dash_fires(ds, dcfg, dt), ef, v2) && clamp_rel(
            retention_step(
                v2,
                if ds.is_active {
                    dash_ret
                } else {
                    friction_ret
                },
            ),
            em,
            ds.is_active,
            vout,
        )
}

/// Friction never reverses a velocity component, never grows the speed,
/// and strictly shrinks nonzero components while retention is below one:
/// with zero input the velocity converges toward zero and never flips sign.
pub proof fn lemma_retention_converges(v: V3, ret: int)
    requires
        0 <= ret <= 1000,
    ensures
        v.x >= 0 ==> 0 <= retention_step(v, ret).x <= v.x,
        v.x <= 0 ==> v.x <= retention_step(v, ret).x <= 0,
        v.y >= 0 ==> 0 <= retention_step(v, ret).y <= v.y,
        v.y <= 0 ==> v.y <= retention_step(v, ret).y <= 0,
        v.z >= 0 ==> 0 <= retention_step(v, ret).z <= v.z,
        v.z <= 0 ==> v.z <= retention_step(v, ret).z <= 0,
        ret < 1000 && v.x != 0 ==> absi(retention_step(v, ret).x) < absi(v.x),
        ret < 1000 && v.y != 0 ==> absi(retention_step(v, ret).y) < absi(v.y),
        ret < 1000 && v.z != 0 ==> absi(retention_step(v, ret).z) < absi(v.z),
        retention_step(v, ret).norm_sq() <= v.norm_sq(),
{
    lemma_decay_contract(v.x, ret);
    lemma_decay_contract(v.y, ret);
    lemma_decay_contract(v.z, ret);
    let w = retention_step(v, ret);
    assert(w.norm_sq() <= v.norm_sq()) by (nonlinear_arith)
        requires
            absi(w.x) <= absi(v.x),
            absi(w.y) <= absi(v.y),
            absi(w.z) <= absi(v.z),
            w.norm_sq() == w.x * w.x + w.y * w.y + w.z * w.z,
            v.norm_sq() == v.x * v.x + v.y * v.y + v.z * v.z,
    {
        assert(w.x * w.x <= v.x * v.x);
        assert(w.y * w.y <= v.y * v.y);
        assert(w.z * w.z <= v.z * v.z);
    }
}

/// `clamp(4.0 / player_radius, 0.2, 2.0)` in thousandths.
pub fn size_factor(radius: i64) -> (r: i64)
    requires
        1 <= radius,
    ensures
        r == size_factor_spec(radius as int),
        200 <= r <= 2000,
{
    let raw: i64 = (4_000_000u64 / (radius as u64)) as i64;
    proof {
        vstd::arithmetic::div_mod::lemma_div_is_ordered(0, 4_000_000int, radius as int);
        assert(4_000_000u64 / (radius as u64) <= 4_000_000);
    }
    if raw < 200 {
        200
    } else if raw > 2000 {
        2000
    } else {
        raw
    }
}

/// A base quantity scaled by the size factor.
fn eff_scale_exec(base: i64, sf: i64) -> (r: i64)
    requires
        0 <= base <= 1_000_000,
        0 <= sf <= 2000,
    ensures
        r == eff_scale(base as int, sf as int),
        0 <= r <= 2_000_000,
{
    proof {
        lemma_mul_abs_bound(base as int, sf as int, 1_000_000, 2000);
        vstd::arithmetic::div_mod::lemma_div_is_ordered(
            (base as int) * (sf as int),
            2_000_000_000int,
            1000,
        );
    }
    let p: i64 = base * sf;
    ((p as u64) / 1000) as i64
}

/// One tick of the player's velocity update. The retention factors are the
/// caller-computed `friction^(dt*60)` and `0.99^(dt*60)` in thousandths.
/// Position and visual roll are the pivot layer's concern; the hit points
/// and invincibility window are untouched.
pub fn planetary_control_tick(
    ball: &mut PlayerBall,
    joy: &VjoyOutput,
    dt_ms: u64,
    settings: &PlayerSettings,
    dash_settings: &DashSettings,
    dash: &DashState,
    friction_retention: i64,
    dash_retention: i64,
)
    requires
        1 <= dt_ms <= 4_000,
        1 <= settings.player_radius,
        0 <= settings.acceleration <= 1_000_000,
        5 <= settings.max_speed <= 400_000,
        0 <= dash_settings.dash_force <= 1_000_000,
        dash.duration_timer_ms <= 1_000_000_000,
        dash_settings.dash_duration_ms <= 1_000_000_000,
        0 <= friction_retention <= 1000,
        0 <= dash_retention <= 1000,
        -1000 <= joy.dir.x <= 1000,
        -1000 <= joy.dir.y <= 1000,
        old(ball).current_velocity@.bounded(10_000_000),
    ensures
        final(ball).hp == old(ball).hp,
        final(ball).invincibility_timer == old(ball).invincibility_timer,
        velocity_tick_rel(
            old(ball).current_velocity@,
            joy.dir,
            dt_ms as int,
            *settings,
            *dash_settings,
            *dash,
            friction_retention as int,
            dash_retention as int,
            final(ball).current_velocity@,
        ),
        final(ball).current_velocity@.bounded(36_000_000),
{
    let sf: i64 = size_factor(settings.player_radius);
    let ea: i64 = eff_scale_exec(settings.acceleration, sf);
    let em: i64 = eff_scale_exec(settings.max_speed, sf);
    let ef: i64 = eff_scale_exec(dash_settings.dash_force, sf);
    proof {
        assert(em >= 1) by {
            assert(settings.max_speed as int * sf >= 5 * 200) by (nonlinear_arith)
                requires
                    settings.max_speed >= 5,
                    sf >= 200,
            ;
            vstd::arithmetic::div_mod::lemma_div_is_ordered(
                1000int,
                (settings.max_speed as int) * (sf as int),
                1000,
            );
        }
        assert(em <= 800_000) by {
            lemma_mul_abs_bound(settings.max_speed as int, sf as int, 400_000, 2000);
            vstd::arithmetic::div_mod::lemma_div_is_ordered(
                (settings.max_speed as int) * (sf as int),
                800_000_000int,
                1000,
            );
        }
    }

    // Input acceleration on the tangent plane.
    let jx: i64 = joy.dir.x;
    let jy: i64 = joy.dir.y;
    proof {
        lemma_mul_abs_bound(jx as int, jx as int, 1000, 1000);
        lemma_mul_abs_bound(jy as int, jy as int, 1000, 1000);
    }
    let jlen_sq: i64 = jx * jx + jy * jy;
    let mut v: Vec3Milli = ball.current_velocity;
    if jlen_sq > 100 {
        let jvec: Vec3Milli = Vec3Milli { x: jx, y: 0, z: -jy };
        proof {
            lemma_mul_abs_bound(ea as int, dt_ms as int, 2_000_000, 4_000);
        }
        let num: i64 = ea * dt_ms as i64;
        let dv: Vec3Milli = jvec.scale_div(num, 1_000_000);
        proof {
            assert(dv@.bounded(1000 * (num as int) / 1_000_000));
            vstd::arithmetic::div_mod::lemma_div_is_ordered(
                1000 * (num as int),
                8_000_000_000_000int,
                1_000_000,
            );
        }
        v = v.plus(&dv);
    }
    proof {
        assert(v@ == accel_step(
            old(ball).current_velocity@,
            joy.dir,
            ea as int,
            dt_ms as int,
        ));
        assert(v@.bounded(30_000_000));
    }
    let ghost v1 = v@;

    // One-shot dash impulse at the end of the active window.
    if dash.is_active && dash.duration_timer_ms + dt_ms >= dash_settings.dash_duration_ms {
        if jlen_sq > 10_000 {
            let jvec: Vec3Milli = Vec3Milli { x: jx, y: 0, z: -jy };
            proof {
                lemma_norm_sq_nonneg(jvec@);
                assert(jvec@.norm_sq() == joy_len_sq(joy.dir)) by (nonlinear_arith)
                    requires
                        jvec@.x == joy.dir.x as int,
                        jvec@.y == 0,
                        jvec@.z == -(joy.dir.y as int),
                        jvec@.norm_sq() == jvec@.x * jvec@.x + jvec@.y * jvec@.y + jvec@.z
                            * jvec@.z,
                        joy_len_sq(joy.dir) == (joy.dir.x as int) * (joy.dir.x as int) + (
                        joy.dir.y as int) * (joy.dir.y as int),
                ;
            }
            let dir: Vec3Milli = rescale_to(&jvec, 1000);
            let impulse: Vec3Milli = dir.scale_div(ef, 1000);
            proof {
                assert(impulse@.bounded(1000 * (ef as int) / 1000));
                vstd::arithmetic::div_mod::lemma_div_is_ordered(
                    1000 * (ef as int),
                    2_000_000_000int,
                    1000,
                );
            }
            v = v.plus(&impulse);
            proof {
                let len = choose|len: int|
                    #![auto]
                    is_sqrt_floor(jvec@.norm_sq(), len) && dir@ == jvec@.scale_div(1000, len);
                assert(len >= 1) by (nonlinear_arith)
                    requires
                        jvec@.norm_sq() > 10_000,
                        len >= 0,
                        jvec@.norm_sq() < (len + 1) * (len + 1),
                ;
                assert(jvec@ == joy_vec(joy.dir));
                assert(is_sqrt_floor(joy_vec(joy.dir).norm_sq(), len) && 1 <= len && v@
                    == v1.plus(joy_vec(joy.dir).scale_div(1000, len).scale_div(ef as int, 1000)));
            }
        } else {
            let nsq: i64 = v.norm_sq();
            if nsq > 0 {
                let vc: Vec3Milli = v;
                let dir: Vec3Milli = rescale_to(&vc, 1000);
                let impulse: Vec3Milli = dir.scale_div(ef, 1000);
                proof {
                    assert(impulse@.bounded(1000 * (ef as int) / 1000));
                    vstd::arithmetic::div_mod::lemma_div_is_ordered(
                        1000 * (ef as int),
                        2_000_000_000int,
                        1000,
                    );
                }
                v = v.plus(&impulse);
                proof {
                    let len = choose|len: int|
                        #![auto]
                        is_sqrt_floor(vc@.norm_sq(), len) && dir@ == vc@.scale_div(1000, len);
                    assert(len >= 1) by (nonlinear_arith)
                        requires
                            vc@.norm_sq() > 0,
                            len >= 0,
                            vc@.norm_sq() < (len + 1) * (len + 1),
                    ;
                    assert(is_sqrt_floor(v1.norm_sq(), len) && 1 <= len && v@ == v1.plus(
                        v1.scale_div(1000, len).scale_div(ef as int, 1000),
                    ));
                }
            }
        }
    }
    proof {
        assert(dash_step_rel(
            v1,
            joy.dir,
            dash_fires(*dash, *dash_settings, dt_ms as int),
            ef as int,
            v@,
        ));
        assert(v@.bounded(32_000_000));
    }
    let ghost v2 = v@;

    // Friction retention (near-frictionless while dashing).
    let ret: i64 = if dash.is_active {
        dash_retention
    } else {
        friction_retention
    };
    v = v.scale_div(ret, 1000);
    proof {
        assert(v@ == retention_step(v2, ret as int));
        assert(v@.bounded(32_000_000 * (ret as int) / 1000));
        vstd::arithmetic::div_mod::lemma_div_is_ordered(
            32_000_000 * (ret as int),
            32_000_000_000int,
            1000,
        );
        assert(v@.bounded(32_000_000));
    }
    let ghost v3 = v@;

    // Soft maximum-speed clamp, bypassed while dashing.
    if !dash.is_active {
        let nsq: i64 = v.norm_sq();
        proof {
            lemma_mul_abs_bound(em as int, em as int, 2_000_000, 2_000_000);
        }
        if nsq > em * em {
            let vc: Vec3Milli = v;
            proof {
                assert(vc@.norm_sq() > 0) by (nonlinear_arith)
                    requires
                        vc@.norm_sq() > (em as int) * (em as int),
                        em >= 1,
                ;
            }
            let target: Vec3Milli = rescale_to(&vc, em);
            let delta: Vec3Milli = target.minus(&vc);
            let step: Vec3Milli = delta.scale_div(1, 10);
            proof {
                assert(step@.bounded(34_000_000int * 1 / 10));
            }
            v = v.plus(&step);
            proof {
                let len = choose|len: int|
                    #![auto]
                    is_sqrt_floor(vc@.norm_sq(), len) && target@ == vc@.scale_div(em as int, len);
                assert(len >= 1) by (nonlinear_arith)
                    requires
                        vc@.norm_sq() > 0,
                        len >= 0,
                        vc@.norm_sq() < (len + 1) * (len + 1),
                ;
                assert(is_sqrt_floor(v3.norm_sq(), len) && 1 <= len && v@ == v3.plus(
                    v3.scale_div(em as int, len).minus(v3).scale_div(1, 10),
                ));
            }
        }
    }
    proof {
        assert(clamp_rel(v3, em as int, dash.is_active, v@));
    }
    ball.current_velocity = v;
}


/// Relation of one Euler step followed by reprojection onto the sphere
/// shell: `normalize(pos + vel * dt) * shell_radius`, with the degenerate
/// center point left where it was.
pub open spec fn advance_rel(pos: V3, vel: V3, dt: int, shell: int, out: V3) -> bool {
    let moved = pos.plus(vel.scale_div(dt, 1000));
    if moved.norm_sq() > 0 {
        exists|len: int|
            #![auto]
            is_sqrt_floor(moved.norm_sq(), len) && 1 <= len && out == moved.scale_div(shell, len)
    } else {
        out == pos
    }
}

/// Euler step then reprojection onto the sphere shell. The result stays
/// within a few fixed-point steps of the shell radius whenever the moved
/// point is not degenerate.
pub fn advance_on_sphere(pos: &Vec3Milli, vel: &Vec3Milli, dt_ms: u64, shell_radius: i64) -> (r:
    Vec3Milli)
    requires
        pos@.bounded(2_000_000),
        vel@.bounded(40_000_000),
        1 <= dt_ms <= 4_000,
        1 <= shell_radius <= 1_000_000,
    ensures
        advance_rel(pos@, vel@, dt_ms as int, shell_radius as int, r@),
        pos@.plus(vel@.scale_div(dt_ms as int, 1000)).norm_sq() > 0 ==> r@.bounded(
            shell_radius as int,
        ) && r@.norm_sq() >= shell_radius * shell_radius - 6 * shell_radius,
{
    proof {
        lemma_mul_abs_bound(vel@.x, dt_ms as int, 40_000_000, 4_000);
        lemma_mul_abs_bound(vel@.y, dt_ms as int, 40_000_000, 4_000);
        lemma_mul_abs_bound(vel@.z, dt_ms as int, 40_000_000, 4_000);
    }
    let delta: Vec3Milli = vel.scale_div(dt_ms as i64, 1000);
    proof {
        assert(delta@.bounded(40_000_000 * (dt_ms as int) / 1000));
        vstd::arithmetic::div_mod::lemma_div_is_ordered(
            40_000_000 * (dt_ms as int),
            160_000_000_000int,
            1000,
        );
    }
    let moved: Vec3Milli = pos.plus(&delta);
    let nsq: i64 = moved.norm_sq();
    if nsq > 0 {
        let res: Vec3Milli = rescale_to(&moved, shell_radius);
        proof {
            let len = choose|len: int|
                #![auto]
                is_sqrt_floor(moved@.norm_sq(), len) && res@ == moved@.scale_div(
                    shell_radius as int,
                    len,
                );
            assert(len >= 1) by (nonlinear_arith)
                requires
                    moved@.norm_sq() > 0,
                    len >= 0,
                    moved@.norm_sq() < (len + 1) * (len + 1),
            ;
        }
        res
    } else {
        *pos
    }
}


/// Friction frame-independence in fixed point: decaying twice by a
/// retention factor differs from decaying once by the squared factor only
/// by rounding - at most four steps plus one part in a thousand of the
/// component. (The exponential `friction^(dt*60)` itself is the clock
/// layer's concern; this pins the integer part of the claim.)
pub proof fn lemma_retention_compose(x: int, r: int)
    requires
        0 <= r <= 1000,
    ensures
        absi(
            muldiv_trunc(muldiv_trunc(x, r, 1000), r, 1000) - muldiv_trunc(x, r * r / 1000, 1000),
        ) <= 4 + absi(x) / 1000,
{
    let t1 = muldiv_trunc(x, r, 1000);
    crate::vecmath::lemma_div_trunc_decomp(x * r, 1000);
    let e1 = x * r - 1000 * t1;
    let t2 = muldiv_trunc(t1, r, 1000);
    crate::vecmath::lemma_div_trunc_decomp(t1 * r, 1000);
    let e2 = t1 * r - 1000 * t2;
    assert(r * r >= 0) by (nonlinear_arith)
        requires
            r >= 0,
    ;
    let s = r * r / 1000;
    vstd::arithmetic::div_mod::lemma_fundamental_div_mod(r * r, 1000);
    let es = r * r - 1000 * s;
    assert(0 <= es < 1000);
    let d = muldiv_trunc(x, s, 1000);
    crate::vecmath::lemma_div_trunc_decomp(x * s, 1000);
    let e3 = x * s - 1000 * d;
    assert(1_000_000 * t2 == x * (r * r) - e1 * r - 1000 * e2) by (nonlinear_arith)
        requires
            1000 * t1 == x * r - e1,
            1000 * t2 == t1 * r - e2,
    ;
    assert(1_000_000 * d == x * (r * r) - x * es - 1000 * e3) by (nonlinear_arith)
        requires
            1000 * d == x * s - e3,
            1000 * s == r * r - es,
    ;
    lemma_mul_abs_bound(e1, r, 1000, 1000);
    lemma_mul_abs_bound(x, es, absi(x), 1000);
    assert(absi(1_000_000 * (t2 - d)) <= 3_000_000 + 1000 * absi(x));
    vstd::arithmetic::div_mod::lemma_fundamental_div_mod(absi(x), 1000);
    assert(absi(t2 - d) <= 4 + absi(x) / 1000) by (nonlinear_arith)
        requires
            absi(1_000_000 * (t2 - d)) <= 3_000_000 + 1000 * absi(x),
            absi(x) == 1000 * (absi(x) / 1000) + absi(x) % 1000,
            0 <= absi(x) % 1000 < 1000,
            absi(x) >= 0,
    {
        assert(absi(1_000_000 * (t2 - d)) == 1_000_000 * absi(t2 - d));
        if absi(t2 - d) > 4 + absi(x) / 1000 {
            assert(absi(t2 - d) >= 5 + absi(x) / 1000);
            assert(1_000_000 * absi(t2 - d) >= 5_000_000 + 1_000_000 * (absi(x) / 1000));
            assert(1_000_000 * (absi(x) / 1000) == 1000 * (1000 * (absi(x) / 1000)));
            assert(1000 * (1000 * (absi(x) / 1000)) >= 1000 * absi(x) - 1_000_000);
            assert(false);
        }
    }
}

/// The virtual joystick filter: scales the raw pointer offset by the
/// sensitivity, clamps each axis to full deflection, and zeroes the vector
/// inside the deadzone. The vertical screen axis is flipped.
pub fn joystick_filter(rel_x: i64, rel_y: i64, sensitivity: i64, deadzone: i64) -> (r: Vec2Milli)
    requires
        -10_000 <= rel_x <= 10_000,
        -10_000 <= rel_y <= 10_000,
        0 <= sensitivity <= 10_000,
        0 <= deadzone <= 1_000,
    ensures
        ({
            let vx = clamp1000(muldiv_trunc(rel_x as int, sensitivity as int, 1000));
            let vy = clamp1000(muldiv_trunc(-(rel_y as int), sensitivity as int, 1000));
            if vx * vx + vy * vy < deadzone * deadzone {
                r == (Vec2Milli { x: 0, y: 0 })
            } else {
                r == (Vec2Milli { x: vx as i64, y: vy as i64 })
            }
        }),
        -1000 <= r.x <= 1000,
        -1000 <= r.y <= 1000,
{
    proof {
        lemma_mul_abs_bound(rel_x as int, sensitivity as int, 10_000, 10_000);
        lemma_mul_abs_bound(-(rel_y as int), sensitivity as int, 10_000, 10_000);
    }
    let sx: i64 = muldiv_trunc_i64(rel_x, sensitivity, 1000);
    let sy: i64 = muldiv_trunc_i64(-rel_y, sensitivity, 1000);
    let vx: i64 = if sx > 1000 {
        1000
    } else if sx < -1000 {
        -1000
    } else {
        sx
    };
    let vy: i64 = if sy > 1000 {
        1000
    } else if sy < -1000 {
        -1000
    } else {
        sy
    };
    proof {
        lemma_mul_abs_bound(vx as int, vx as int, 1000, 1000);
        lemma_mul_abs_bound(vy as int, vy as int, 1000, 1000);
        lemma_mul_abs_bound(deadzone as int, deadzone as int, 1000, 1000);
    }
    if vx * vx + vy * vy < deadzone * deadzone {
        Vec2Milli { x: 0, y: 0 }
    } else {
        Vec2Milli { x: vx, y: vy }
    }
}

/// Clamp to one full deflection in thousandths.
pub open spec fn clamp1000(v: int) -> int {
    if v > 1000 {
        1000
    } else if v < -1000 {
        -1000
    } else {
        v
    }
}

/// The ball's visual roll axis: `velocity x normal` for the tangent-plane
/// model, i.e. `(v.z, 0, -v.x)` normalized; `None` when degenerate (the
/// rotation step is skipped rather than producing an invalid axis).
pub fn roll_axis(v: &Vec3Milli) -> (r: Option<Vec3Milli>)
    requires
        v@.bounded(100_000_000),
    ensures
        (v.z == 0 && v.x == 0) <==> r is None,
        (r matches Some(axis) ==> axis@.bounded(1000) && exists|len: int|
            is_sqrt_floor((V3 { x: v@.z, y: 0, z: -v@.x }).norm_sq(), len) && 1 <= len && axis@
                == #[trigger] (V3 { x: v@.z, y: 0, z: -v@.x }).scale_div(1000, len)),
{
    let raw: Vec3Milli = Vec3Milli { x: v.z, y: 0, z: -v.x };
    let nsq: i64 = raw.norm_sq();
    proof {
        if v.z == 0 && v.x == 0 {
            assert(raw@.norm_sq() == 0) by (nonlinear_arith)
                requires
                    raw@.x == 0,
                    raw@.y == 0,
                    raw@.z == 0,
                    raw@.norm_sq() == raw@.x * raw@.x + raw@.y * raw@.y + raw@.z * raw@.z,
            ;
        }
        if !(v.z == 0 && v.x == 0) {
            assert(raw@.norm_sq() > 0) by (nonlinear_arith)
                requires
                    raw@.x == v@.z,
                    raw@.y == 0,
                    raw@.z == -v@.x,
                    !(v@.z == 0 && v@.x == 0),
                    raw@.norm_sq() == raw@.x * raw@.x + raw@.y * raw@.y + raw@.z * raw@.z,
            ;
        }
    }
    if nsq == 0 {
        None
    } else {
        let res: Vec3Milli = rescale_to(&raw, 1000);
        proof {
            let len = choose|len: int|
                #![auto]
                is_sqrt_floor(raw@.norm_sq(), len) && res@ == raw@.scale_div(1000, len);
            assert(len >= 1) by (nonlinear_arith)
                requires
                    raw@.norm_sq() > 0,
                    len >= 0,
                    raw@.norm_sq() < (len + 1) * (len + 1),
            ;
            assert(raw@ == (V3 { x: v@.z, y: 0, z: -v@.x }));
            assert(res@ == (V3 { x: v@.z, y: 0, z: -v@.x }).scale_div(1000, len));
        }
        Some(res)
    }
}

/// The roll rate in milliradians for this tick: `|v| * dt / ball_radius`.
pub fn roll_rate(speed: i64, dt_ms: u64, ball_radius: i64) -> (r: i64)
    requires
        0 <= speed <= 100_000_000,
        1 <= dt_ms <= 10_000,
        1 <= ball_radius,
    ensures
        r == muldiv_trunc(speed as int, dt_ms as int, ball_radius as int),
{
    proof {
        lemma_mul_abs_bound(speed as int, dt_ms as int, 100_000_000, 10_000);
    }
    muldiv_trunc_i64(speed, dt_ms as i64, ball_radius)
}

} // verus!
