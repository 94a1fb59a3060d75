//! Enemy factories and roaming machines: spawn timers, the difficulty
//! director, tangent-plane pursuit steering, and the player-versus-enemy
//! collision pass.

use vstd::prelude::*;

use crate::movement::{advance_on_sphere, advance_rel, retention_step, PlayerBall};
use crate::rng::rand_below;
use crate::score::{ScoreMessage, FACTORY_KILL_POINTS, MACHINE_KILL_POINTS};
use crate::settings::EnemySettings;
use crate::tiles::within;
use crate::vecmath::{
    is_sqrt_floor, lemma_mul_abs_bound, rescale_to, tangent_component, tangent_spec, Vec3Milli,
    V3,
};

verus! {

/// An explicit elapsed-time accumulator compared against a threshold each
/// update call.
#[derive(Clone, Copy, PartialEq, Eq, Structural, Debug)]
pub struct TickTimer {
    pub accum_ms: u64,
}

impl Default for TickTimer {
    fn default() -> (r: TickTimer)
        ensures
            r.accum_ms == 0,
    {
        TickTimer { accum_ms: 0 }
    }
}

impl TickTimer {
    /// Advances by `dt` and fires at most once, dropping all accumulated
    /// time on fire (the contagion-clock style).
    pub fn advance_reset(&mut self, dt_ms: u64, period_ms: u64) -> (fired: bool)
        requires
            old(self).accum_ms + dt_ms <= u64::MAX,
        ensures
            fired == (old(self).accum_ms + dt_ms >= period_ms),
            final(self).accum_ms == if old(self).accum_ms + dt_ms >= period_ms {
                0u64
            } else {
                (old(self).accum_ms + dt_ms) as u64
            },
    {
        self.accum_ms = self.accum_ms + dt_ms;
        if self.accum_ms >= period_ms {
            self.accum_ms = 0;
            true
        } else {
            false
        }
    }

    /// Advances by `dt` and fires at most once, keeping the overshoot (the
    /// repeating-timer style).
    pub fn advance_carry(&mut self, dt_ms: u64, period_ms: u64) -> (fired: bool)
        requires
            old(self).accum_ms + dt_ms <= u64::MAX,
        ensures
            fired == (old(self).accum_ms + dt_ms >= period_ms),
            final(self).accum_ms == if old(self).accum_ms + dt_ms >= period_ms {
                (old(self).accum_ms + dt_ms - period_ms) as u64
            } else {
                (old(self).accum_ms + dt_ms) as u64
            },
    {
        self.accum_ms = self.accum_ms + dt_ms;
        if self.accum_ms >= period_ms {
            self.accum_ms = self.accum_ms - period_ms;
            true
        } else {
            false
        }
    }
}

/// A roaming enemy unit: position on the sphere shell and tangential
/// velocity.
#[derive(Clone, Copy, PartialEq, Eq, Structural, Debug)]
pub struct AlienMachine {
    pub position: Vec3Milli,
    pub velocity: Vec3Milli,
}

/// The steering decision: pursue when the player is within detection range
/// but beyond the 5-unit standoff distance.
pub open spec fn pursues(m: V3, p: V3, detection: int) -> bool {
    let d = m.minus(p).norm_sq();
    d < detection * detection && d > 25_000_000
}

/// Relation between the velocity before and after steering: while
/// pursuing, acceleration is applied along the normalized tangential
/// direction toward the player; a degenerate direction skips the step.
pub open spec fn steer_rel(m: V3, v: V3, p: V3, detection: int, ea_dt: int, v1: V3) -> bool {
    if !pursues(m, p, detection) {
        v1 == v
    } else {
        exists|nlen: int, t: V3|
            #![auto]
            is_sqrt_floor(m.norm_sq(), nlen) && 1 <= nlen && t == tangent_spec(
                p.minus(m),
                m.scale_div(1000, nlen),
            ) && if t.norm_sq() > 0 {
                exists|tlen: int|
                    #![auto]
                    is_sqrt_floor(t.norm_sq(), tlen) && 1 <= tlen && v1 == v.plus(
                        t.scale_div(1000, tlen).scale_div(ea_dt, 1_000_000),
                    )
            } else {
                v1 == v
            }
    }
}

/// The hard speed clamp of the machine model: a velocity above `speed` is
/// rescaled exactly onto the cap.
pub open spec fn hard_clamp_rel(v: V3, speed: int, out: V3) -> bool {
    if v.norm_sq() <= speed * speed {
        out == v
    } else {
        exists|len: int|
            #![auto]
            is_sqrt_floor(v.norm_sq(), len) && 1 <= len && out == v.scale_div(speed, len)
    }
}

impl AlienMachine {
    /// A machine freshly spawned at `position`, at rest.
    pub fn spawn(position: Vec3Milli) -> (r: AlienMachine)
        ensures
            r.position == position,
            r.velocity == (Vec3Milli { x: 0, y: 0, z: 0 }),
    {
        AlienMachine { position, velocity: Vec3Milli { x: 0, y: 0, z: 0 } }
    }

    /// One steering and integration tick: accelerate toward the player on
    /// the local tangent plane when in range, decay by the caller-computed
    /// retention factor (`0.95^(dt*60)` in thousandths), clamp hard to the
    /// maximum speed, and reproject onto the shell at `radius + 3`.
    pub fn ai_tick(
        &mut self,
        player_pos: &Vec3Milli,
        dt_ms: u64,
        settings: &EnemySettings,
        planet_radius: i64,
        retention: i64,
    )
        requires
            1 <= dt_ms <= 4_000,
            1 <= planet_radius <= 900_000,
            0 <= retention <= 1000,
            1 <= settings.machine_speed <= 1_000_000,
            0 <= settings.machine_acceleration <= 1_000_000,
            0 <= settings.machine_detection_range <= 2_000_000,
            old(self).position@.bounded(2_000_000),
            old(self).position@.norm_sq() >= 1_000_000,
            old(self).velocity@.bounded(10_000_000),
            player_pos@.bounded(2_000_000),
        ensures
            exists|v1: V3, v3: V3|
                #![auto]
                steer_rel(
                    old(self).position@,
                    old(self).velocity@,
                    player_pos@,
                    settings.machine_detection_range as int,
                    settings.machine_acceleration * dt_ms,
                    v1,
                ) && hard_clamp_rel(retention_step(v1, retention as int), settings.machine_speed as int, v3)
                    && final(self).velocity@ == v3 && advance_rel(
                    old(self).position@,
                    v3,
                    dt_ms as int,
                    planet_radius + 3_000,
                    final(self).position@,
                ),
            final(self).velocity@.bounded(14_000_000),
    {
        let mut v: Vec3Milli = self.velocity;
        let ghost v0 = v@;
        let dsq: i64 = self.position.dist_sq(player_pos);
        proof {
            lemma_mul_abs_bound(
                settings.machine_detection_range as int,
                settings.machine_detection_range as int,
                2_000_000,
                2_000_000,
            );
        }
        if dsq < settings.machine_detection_range * settings.machine_detection_range && dsq
            > 25_000_000 {
            let normal: Vec3Milli = rescale_to(&self.position, 1000);
            let ghost nlen = choose|len: int|
                #![auto]
                is_sqrt_floor(self.position@.norm_sq(), len) && normal@
                    == self.position@.scale_div(1000, len);
            proof {
                assert(nlen >= 1) by (nonlinear_arith)
                    requires
                        self.position@.norm_sq() >= 1_000_000,
                        nlen >= 0,
                        self.position@.norm_sq() < (nlen + 1) * (nlen + 1),
                ;
                assert(normal@.norm_sq() >= 1000 * 1000 - 6 * 1000);
            }
            let to_player: Vec3Milli = player_pos.minus(&self.position);
            let t: Vec3Milli = tangent_component(&to_player, &normal);
            let tsq: i64 = t.norm_sq();
            if tsq > 0 {
                let dir: Vec3Milli = rescale_to(&t, 1000);
                proof {
                    lemma_mul_abs_bound(
                        settings.machine_acceleration as int,
                        dt_ms as int,
                        1_000_000,
                        4_000,
                    );
                }
                let num: i64 = settings.machine_acceleration * dt_ms as i64;
                let dv: Vec3Milli = dir.scale_div(num, 1_000_000);
                proof {
                    assert(dv@.bounded(1000 * (num as int) / 1_000_000));
                    vstd::arithmetic::div_mod::lemma_div_is_ordered(
                        1000 * (num as int),
                        4_000_000_000_000int,
                        1_000_000,
                    );
                }
                v = v.plus(&dv);
                proof {
                    let tlen = choose|len: int|
                        #![auto]
                        is_sqrt_floor(t@.norm_sq(), len) && dir@ == t@.scale_div(1000, len);
                    assert(tlen >= 1) by (nonlinear_arith)
                        requires
                            t@.norm_sq() > 0,
                            len_bound(tlen, t@.norm_sq()),
                    ;
                    assert(steer_rel(
                        self.position@,
                        v0,
                        player_pos@,
                        settings.machine_detection_range as int,
                        num as int,
                        v@,
                    ));
                }
            } else {
                proof {
                    assert(steer_rel(
                        self.position@,
                        v0,
                        player_pos@,
                        settings.machine_detection_range as int,
                        settings.machine_acceleration * dt_ms,
                        v@,
                    ));
                }
            }
        }
        proof {
            assert(steer_rel(
                self.position@,
                v0,
                player_pos@,
                settings.machine_detection_range as int,
                settings.machine_acceleration * dt_ms,
                v@,
            ));
            assert(v@.bounded(14_000_000));
        }
        let ghost v1 = v@;

        v = v.scale_div(retention, 1000);
        proof {
            assert(v@ == retention_step(v1, retention as int));
            assert(v@.bounded(14_000_000 * (retention as int) / 1000));
            vstd::arithmetic::div_mod::lemma_div_is_ordered(
                14_000_000 * (retention as int),
                14_000_000_000int,
                1000,
            );
        }
        let ghost v2 = v@;

        let nsq: i64 = v.norm_sq();
        proof {
            lemma_mul_abs_bound(
                settings.machine_speed as int,
                settings.machine_speed as int,
                1_000_000,
                1_000_000,
            );
        }
        if nsq > settings.machine_speed * settings.machine_speed {
            let vc: Vec3Milli = v;
            proof {
                assert(vc@.norm_sq() > 0) by (nonlinear_arith)
                    requires
                        vc@.norm_sq() > (settings.machine_speed as int) * (
                        settings.machine_speed as int),
                        settings.machine_speed >= 1,
                ;
            }
            v = rescale_to(&vc, settings.machine_speed);
            proof {
                let len = choose|len: int|
                    #![auto]
                    is_sqrt_floor(vc@.norm_sq(), len) && v@ == vc@.scale_div(
                        settings.machine_speed as int,
                        len,
                    );
                assert(len >= 1) by (nonlinear_arith)
                    requires
                        vc@.norm_sq() > 0,
                        len_bound(len, vc@.norm_sq()),
                ;
                assert(hard_clamp_rel(v2, settings.machine_speed as int, v@));
            }
        }
        proof {
            assert(hard_clamp_rel(v2, settings.machine_speed as int, v@));
            assert(v@.bounded(14_000_000));
        }

        let new_pos: Vec3Milli = advance_on_sphere(
            &self.position,
            &v,
            dt_ms,
            planet_radius + 3_000,
        );
        self.velocity = v;
        self.position = new_pos;
    }
}

/// Helper for square-root witness bounds.
pub open spec fn len_bound(len: int, q: int) -> bool {
    len >= 0 && q < (len + 1) * (len + 1)
}

/// The background director: difficulty grows monotonically with time, the
/// spawn timer ticks faster as difficulty rises, and each new factory's
/// machine-spawn interval shrinks as `10 / difficulty` seconds.
#[derive(Clone, Copy, PartialEq, Eq, Structural, Debug)]
pub struct FactoryDirector {
    /// Current difficulty multiplier, in thousandths (1000 is 1.0).
    pub difficulty_scale: u64,
    pub spawn_timer: TickTimer,
}

impl Default for FactoryDirector {
    fn default() -> (r: FactoryDirector)
        ensures
            r.difficulty_scale == 1000,
            r.spawn_timer.accum_ms == 0,
    {
        FactoryDirector { difficulty_scale: 1000, spawn_timer: TickTimer { accum_ms: 0 } }
    }
}

impl FactoryDirector {
    /// One director tick: grow the difficulty, advance the spawn timer at
    /// difficulty-scaled speed, and on fire return the machine-spawn
    /// interval for the newly deployed factory.
    pub fn tick(&mut self, dt_ms: u64, growth_rate: u64, period_ms: u64) -> (spawn: Option<u64>)
        requires
            1 <= dt_ms <= 4_000,
            growth_rate <= 1_000_000,
            1 <= period_ms <= 1_000_000_000,
            1000 <= old(self).difficulty_scale <= 1_000_000_000,
            old(self).spawn_timer.accum_ms <= 2_000_000_000_000,
        ensures
            final(self).difficulty_scale == old(self).difficulty_scale + growth_rate * dt_ms
                / 1000,
            ({
                let scaled_dt = dt_ms * final(self).difficulty_scale / 1000;
                let fired = old(self).spawn_timer.accum_ms + scaled_dt >= period_ms;
                &&& (spawn is Some) == fired
                &&& final(self).spawn_timer.accum_ms == if fired {
                    old(self).spawn_timer.accum_ms + scaled_dt - period_ms
                } else {
                    old(self).spawn_timer.accum_ms + scaled_dt
                }
                &&& (spawn matches Some(interval) ==> interval == 10_000_000u64 / final(self).difficulty_scale)
            }),
    {
        proof {
            lemma_mul_abs_bound(growth_rate as int, dt_ms as int, 1_000_000, 4_000);
            vstd::arithmetic::div_mod::lemma_div_is_ordered(
                (growth_rate as int) * (dt_ms as int),
                4_000_000_000int,
                1000,
            );
        }
        self.difficulty_scale = self.difficulty_scale + (growth_rate * dt_ms) / 1000;
        proof {
            lemma_mul_abs_bound(dt_ms as int, self.difficulty_scale as int, 4_000, 2_000_000_000);
            vstd::arithmetic::div_mod::lemma_div_is_ordered(
                (dt_ms as int) * (self.difficulty_scale as int),
                8_000_000_000_000int,
                1000,
            );
        }
        let scaled_dt: u64 = dt_ms * self.difficulty_scale / 1000;
        let fired: bool = self.spawn_timer.advance_carry(scaled_dt, period_ms);
        if fired {
            Some(10_000_000u64 / self.difficulty_scale)
        } else {
            None
        }
    }
}

/// Decides whether a factory spawns a machine this tick and, if so, where:
/// a random tangential offset of 15 units from the factory, reprojected
/// onto the shell at `radius + 3`. Whatever the random draws, a spawned
/// position lies on that shell within a few fixed-point steps; a degenerate
/// random direction skips the spawn.
pub fn factory_spawn_tick(
    spawner: &mut TickTimer,
    factory_pos: &Vec3Milli,
    dt_ms: u64,
    interval_ms: u64,
    planet_radius: i64,
) -> (spawn: Option<Vec3Milli>)
    requires
        old(spawner).accum_ms + dt_ms <= u64::MAX,
        factory_pos@.bounded(2_000_000),
        factory_pos@.norm_sq() >= 1_000_000,
        1 <= planet_radius <= 900_000,
    ensures
        (old(spawner).accum_ms + dt_ms < interval_ms) ==> spawn is None && final(spawner).accum_ms
            == old(spawner).accum_ms + dt_ms,
        (old(spawner).accum_ms + dt_ms >= interval_ms) ==> final(spawner).accum_ms == old(
            spawner,
        ).accum_ms + dt_ms - interval_ms,
        (spawn matches Some(p) ==> p@.bounded(planet_radius + 3_000) && p@.norm_sq() >= (
        planet_radius + 3_000) * (planet_radius + 3_000) - 6 * (planet_radius + 3_000)),
{
    let fired: bool = spawner.advance_carry(dt_ms, interval_ms);
    if !fired {
        return None;
    }
    let rx: i64 = rand_below(2001) as i64 - 1000;
    let ry: i64 = rand_below(2001) as i64 - 1000;
    let rz: i64 = rand_below(2001) as i64 - 1000;
    let rv: Vec3Milli = Vec3Milli { x: rx, y: ry, z: rz };
    let normal: Vec3Milli = rescale_to(factory_pos, 1000);
    let t: Vec3Milli = tangent_component(&rv, &normal);
    let tsq: i64 = t.norm_sq();
    if tsq == 0 {
        return None;
    }
    let dir: Vec3Milli = rescale_to(&t, 1000);
    let offset: Vec3Milli = dir.scale_div(15_000, 1000);
    proof {
        assert(offset@.bounded(1000 * 15_000int / 1000));
    }
    let moved: Vec3Milli = factory_pos.plus(&offset);
    let msq: i64 = moved.norm_sq();
    if msq == 0 {
        return None;
    }
    let shell: i64 = planet_radius + 3_000;
    let p: Vec3Milli = rescale_to(&moved, shell);
    Some(p)
}

/// Running state of one collision pass: current hit points, the remaining
/// invincibility window, which entities were destroyed, and the score
/// events awarded so far.
pub struct CollisionSpec {
    pub hp: int,
    pub inv: int,
    pub destroyed: Seq<usize>,
    pub events: Seq<ScoreMessage>,
}

/// One machine considered: a dashing player destroys it for 300 points; a
/// vulnerable, non-dashing player takes 25 damage, gains a 5-second
/// invincibility window, and the machine is destroyed without points.
pub open spec fn machine_hit_step(
    st: CollisionSpec,
    hit: bool,
    idx: usize,
    dashing: bool,
    god: bool,
) -> CollisionSpec {
    if !hit {
        st
    } else if dashing {
        CollisionSpec {
            destroyed: st.destroyed.push(idx),
            events: st.events.push(ScoreMessage(MACHINE_KILL_POINTS)),
            ..st
        }
    } else if !god && st.inv <= 0 {
        CollisionSpec {
            hp: if st.hp - 25_000 >= 0 {
                st.hp - 25_000
            } else {
                0
            },
            inv: 5_000,
            destroyed: st.destroyed.push(idx),
            events: st.events,
        }
    } else {
        st
    }
}

/// The machine pass folded over the first `i` machines in order.
pub open spec fn machine_pass(
    p: V3,
    ms: Seq<Vec3Milli>,
    dashing: bool,
    god: bool,
    thresh: int,
    st0: CollisionSpec,
    i: int,
) -> CollisionSpec
    decreases i,
{
    if i <= 0 {
        st0
    } else {
        let pre = machine_pass(p, ms, dashing, god, thresh, st0, i - 1);
        machine_hit_step(
            pre,
            within(ms[i - 1]@, p, thresh * thresh),
            (i - 1) as usize,
            dashing,
            god,
        )
    }
}

/// The factory pass folded over the first `i` factories: only a dashing
/// player destroys factories, for 500 points each.
pub open spec fn factory_pass(
    p: V3,
    fs: Seq<Vec3Milli>,
    dashing: bool,
    thresh: int,
    st0: CollisionSpec,
    i: int,
) -> CollisionSpec
    decreases i,
{
    if i <= 0 {
        st0
    } else {
        let pre = factory_pass(p, fs, dashing, thresh, st0, i - 1);
        if dashing && within(fs[i - 1]@, p, thresh * thresh) {
            CollisionSpec {
                destroyed: pre.destroyed.push((i - 1) as usize),
                events: pre.events.push(ScoreMessage(FACTORY_KILL_POINTS)),
                ..pre
            }
        } else {
            pre
        }
    }
}

/// Initial collision-pass state for a given ball.
pub open spec fn collision_start(ball: PlayerBall) -> CollisionSpec {
    CollisionSpec {
        hp: ball.hp as int,
        inv: ball.invincibility_timer as int,
        destroyed: Seq::empty(),
        events: Seq::empty(),
    }
}

/// Outcome of one collision pass.
pub struct CollisionOutcome {
    pub destroyed_machines: Vec<usize>,
    pub destroyed_factories: Vec<usize>,
    pub events: Vec<ScoreMessage>,
}

/// The player-versus-enemy collision pass, machines first (in index
/// order), then factories. The ball's hit points and invincibility window
/// are updated in place; destroyed entity indices and score events are
/// returned for the world layer to apply.
pub fn enemy_collision_tick(
    ball: &mut PlayerBall,
    player_pos: &Vec3Milli,
    machines: &Vec<Vec3Milli>,
    factories: &Vec<Vec3Milli>,
    dashing: bool,
    god_mode: bool,
    player_radius: i64,
) -> (out: CollisionOutcome)
    requires
        player_pos@.bounded(400_000_000),
        crate::tiles::all_bounded(machines@, 400_000_000),
        crate::tiles::all_bounded(factories@, 400_000_000),
        0 <= player_radius <= 1_000_000,
        0 <= old(ball).hp,
    ensures
        ({
            let after_m = machine_pass(
                player_pos@,
                machines@,
                dashing,
                god_mode,
                player_radius + 3_000,
                collision_start(*old(ball)),
                machines@.len() as int,
            );
            let after_f = factory_pass(
                player_pos@,
                factories@,
                dashing,
                player_radius + 6_000,
                CollisionSpec { destroyed: Seq::empty(), ..after_m },
                factories@.len() as int,
            );
            &&& final(ball).hp == after_f.hp
            &&& final(ball).invincibility_timer == after_f.inv
            &&& out.destroyed_machines@ == after_m.destroyed
            &&& out.destroyed_factories@ == after_f.destroyed
            &&& out.events@ == after_f.events
        }),
        final(ball).current_velocity == old(ball).current_velocity,
{
    let ghost st0 = collision_start(*ball);
    let mthresh: i64 = player_radius + 3_000;
    let fthresh: i64 = player_radius + 6_000;
    let mut destroyed_machines: Vec<usize> = Vec::new();
    let mut events: Vec<ScoreMessage> = Vec::new();
    let mut hp: i64 = ball.hp;
    let mut inv: u64 = ball.invincibility_timer;
    let n: usize = machines.len();
    let mut i: usize = 0;
    proof {
        lemma_mul_abs_bound(mthresh as int, mthresh as int, 1_003_000, 1_003_000);
        lemma_mul_abs_bound(fthresh as int, fthresh as int, 1_006_000, 1_006_000);
    }
    while i < n
        invariant
            0 <= i <= n,
            n == machines@.len(),
            player_pos@.bounded(400_000_000),
            crate::tiles::all_bounded(machines@, 400_000_000),
            mthresh == player_radius + 3_000,
            0 <= mthresh <= 1_003_000,
            hp >= 0,
            st0 == collision_start(*old(ball)),
            ({
                let st = machine_pass(
                    player_pos@,
                    machines@,
                    dashing,
                    god_mode,
                    mthresh as int,
                    st0,
                    i as int,
                );
                hp == st.hp && inv == st.inv && destroyed_machines@ == st.destroyed && events@
                    == st.events
            }),
        decreases n - i,
    {
        proof {
            lemma_mul_abs_bound(mthresh as int, mthresh as int, 1_003_000, 1_003_000);
            crate::vecmath::lemma_dist_sq_sym(player_pos@, machines@[i as int]@);
        }
        let d: i64 = player_pos.dist_sq(&machines[i]);
        if d < mthresh * mthresh {
            if dashing {
                destroyed_machines.push(i);
                events.push(ScoreMessage(MACHINE_KILL_POINTS));
            } else if !god_mode && inv == 0 {
                if hp >= 25_000 {
                    hp = hp - 25_000;
                } else {
                    hp = 0;
                }
                inv = 5_000;
                destroyed_machines.push(i);
            }
        }
        i = i + 1;
    }
    let ghost after_m = machine_pass(
        player_pos@,
        machines@,
        dashing,
        god_mode,
        mthresh as int,
        st0,
        machines@.len() as int,
    );
    let ghost stf0 = CollisionSpec { destroyed: Seq::<usize>::empty(), ..after_m };
    let mut destroyed_factories: Vec<usize> = Vec::new();
    let fcount: usize = factories.len();
    let mut k: usize = 0;
    while k < fcount
        invariant
            0 <= k <= fcount,
            fcount == factories@.len(),
            player_pos@.bounded(400_000_000),
            crate::tiles::all_bounded(factories@, 400_000_000),
            fthresh == player_radius + 6_000,
            0 <= fthresh <= 1_006_000,
            stf0 == (CollisionSpec { destroyed: Seq::<usize>::empty(), ..after_m }),
            hp == after_m.hp,
            inv == after_m.inv,
            ({
                let st = factory_pass(
                    player_pos@,
                    factories@,
                    dashing,
                    fthresh as int,
                    stf0,
                    k as int,
                );
                destroyed_factories@ == st.destroyed && events@ == st.events && st.hp == after_m.hp
                    && st.inv == after_m.inv
            }),
        decreases fcount - k,
    {
        proof {
            lemma_mul_abs_bound(fthresh as int, fthresh as int, 1_006_000, 1_006_000);
            crate::vecmath::lemma_dist_sq_sym(player_pos@, factories@[k as int]@);
        }
        let d: i64 = player_pos.dist_sq(&factories[k]);
        if dashing && d < fthresh * fthresh {
            destroyed_factories.push(k);
            events.push(ScoreMessage(FACTORY_KILL_POINTS));
        }
        k = k + 1;
    }
    ball.hp = hp;
    ball.invincibility_timer = inv;
    CollisionOutcome { destroyed_machines, destroyed_factories, events }
}

} // verus!
