//! Session-level state: the game flow states, the session clock, the player
//! profile, health/size coupling, the invincibility window and the death
//! check.

use vstd::prelude::*;

use crate::movement::PlayerBall;
use crate::settings::PlayerSettings;
use crate::vecmath::Vec2Milli;

verus! {

/// The game's flow states.
#[derive(Clone, Copy, PartialEq, Eq, Structural, Debug, Hash)]
pub enum GameState {
    MainMenu,
    Resetting,
    GameOver,
    Playing,
}

impl Default for GameState {
    fn default() -> (r: GameState)
        ensures
            r == GameState::MainMenu,
    {
        GameState::MainMenu
    }
}

/// Which state a world reset lands in.
#[derive(Clone, Copy, PartialEq, Eq, Structural, Debug)]
pub struct ResetTarget(pub GameState);

impl Default for ResetTarget {
    fn default() -> (r: ResetTarget)
        ensures
            r.0 == GameState::MainMenu,
    {
        ResetTarget(GameState::MainMenu)
    }
}

/// Last known pointer position, in fixed-point screen units.
#[derive(Clone, Copy, PartialEq, Eq, Structural, Debug)]
pub struct MousePosition {
    pub coords: Vec2Milli,
}

/// Relies on `String::from_iter` (through `Iterator::collect`): the
/// resulting string holds exactly the given characters in order.
#[verifier::external_body]
fn chars_to_string(cs: &Vec<char>) -> (r: String)
    ensures
        r@ == cs@,
{
    cs.iter().collect()
}

/// The decimal digit character for `d`.
pub open spec fn digit_char(d: int) -> char {
    if d == 0 {
        '0'
    } else if d == 1 {
        '1'
    } else if d == 2 {
        '2'
    } else if d == 3 {
        '3'
    } else if d == 4 {
        '4'
    } else if d == 5 {
        '5'
    } else if d == 6 {
        '6'
    } else if d == 7 {
        '7'
    } else if d == 8 {
        '8'
    } else {
        '9'
    }
}

fn digit_exec(d: u64) -> (c: char)
    requires
        d < 10,
    ensures
        c == digit_char(d as int),
{
    if d == 0 {
        '0'
    } else if d == 1 {
        '1'
    } else if d == 2 {
        '2'
    } else if d == 3 {
        '3'
    } else if d == 4 {
        '4'
    } else if d == 5 {
        '5'
    } else if d == 6 {
        '6'
    } else if d == 7 {
        '7'
    } else if d == 8 {
        '8'
    } else {
        '9'
    }
}

/// Monotonic session clock, reset at session boundaries.
#[derive(Clone, Copy, PartialEq, Eq, Structural, Debug)]
pub struct SessionTime {
    pub elapsed_ms: u64,
}

impl Default for SessionTime {
    fn default() -> (r: SessionTime)
        ensures
            r.elapsed_ms == 0,
    {
        SessionTime { elapsed_ms: 0 }
    }
}

impl SessionTime {
    /// One tick of the session clock.
    pub fn advance(&mut self, dt_ms: u64)
        requires
            old(self).elapsed_ms + dt_ms <= u64::MAX,
        ensures
            final(self).elapsed_ms == old(self).elapsed_ms + dt_ms,
    {
        self.elapsed_ms = self.elapsed_ms + dt_ms;
    }

    /// Session reset.
    pub fn reset(&mut self)
        ensures
            final(self).elapsed_ms == 0,
    {
        self.elapsed_ms = 0;
    }

    /// The HUD clock string `MM:SS` (two digits each; the display caps at
    /// 99 minutes, hence the bound on the elapsed time).
    pub fn format(&self) -> (r: String)
        requires
            self.elapsed_ms < 6_000_000,
        ensures
            r@ == seq![
                digit_char((self.elapsed_ms as int) / 60_000 / 10),
                digit_char((self.elapsed_ms as int) / 60_000 % 10),
                ':',
                digit_char((self.elapsed_ms as int) / 1000 % 60 / 10),
                digit_char((self.elapsed_ms as int) / 1000 % 60 % 10),
            ],
    {
        let mins: u64 = self.elapsed_ms / 60_000;
        let secs: u64 = (self.elapsed_ms / 1000) % 60;
        proof {
            vstd::arithmetic::div_mod::lemma_div_is_ordered(
                self.elapsed_ms as int,
                5_999_999int,
                60_000,
            );
        }
        let mut cs: Vec<char> = Vec::new();
        cs.push(digit_exec(mins / 10));
        cs.push(digit_exec(mins % 10));
        cs.push(':');
        cs.push(digit_exec(secs / 10));
        cs.push(digit_exec(secs % 10));
        proof {
            assert(cs@ =~= seq![
                digit_char((self.elapsed_ms as int) / 60_000 / 10),
                digit_char((self.elapsed_ms as int) / 60_000 % 10),
                ':',
                digit_char((self.elapsed_ms as int) / 1000 % 60 / 10),
                digit_char((self.elapsed_ms as int) / 1000 % 60 % 10),
            ]);
        }
        chars_to_string(&cs)
    }
}

/// Maximum username length accepted by the profile editor.
pub const USERNAME_MAX_LEN: usize = 12;

/// The player's profile: the username under editing in the main menu.
/// Control-character filtering happens at the input layer; the profile
/// enforces the length cap.
#[derive(Clone, PartialEq, Eq, Debug)]
pub struct PlayerProfile {
    pub username: Vec<char>,
}

impl Default for PlayerProfile {
    fn default() -> (r: PlayerProfile)
        ensures
            r.username@.len() == 0,
    {
        PlayerProfile { username: Vec::new() }
    }
}

impl PlayerProfile {
    /// Appends one typed character, refusing input beyond the length cap.
    pub fn push_char(&mut self, c: char) -> (accepted: bool)
        ensures
            accepted == (old(self).username@.len() < USERNAME_MAX_LEN),
            final(self).username@ == if old(self).username@.len() < USERNAME_MAX_LEN {
                old(self).username@.push(c)
            } else {
                old(self).username@
            },
    {
        if self.username.len() < USERNAME_MAX_LEN {
            self.username.push(c);
            true
        } else {
            false
        }
    }

    /// Removes the last character (backspace); empty input stays empty.
    pub fn pop_char(&mut self)
        ensures
            final(self).username@ == if old(self).username@.len() > 0 {
                old(self).username@.drop_last()
            } else {
                old(self).username@
            },
    {
        if self.username.len() > 0 {
            let _ = self.username.pop();
            proof {
                assert(self.username@ =~= old(self).username@.drop_last());
            }
        }
    }

    /// Clears the username (after a successful score submission).
    pub fn clear(&mut self)
        ensures
            final(self).username@.len() == 0,
    {
        self.username = Vec::new();
    }

    /// The username as a string.
    pub fn username_string(&self) -> (r: String)
        ensures
            r@ == self.username@,
    {
        chars_to_string(&self.username)
    }
}

/// Couples health to ball size: the radius tracks `hp / 100 *
/// max_hp_radius`, floored at 2 units so the ball never vanishes. All
/// other settings are untouched.
pub fn player_health_sync(settings: &mut PlayerSettings, hp: i64)
    requires
        0 <= hp <= 100_000,
        0 <= old(settings).max_hp_radius <= 1_000_000,
    ensures
        final(settings).player_radius == if hp * old(settings).max_hp_radius / 100_000 >= 2_000 {
            hp * old(settings).max_hp_radius / 100_000
        } else {
            2_000int
        },
        *final(settings) == (PlayerSettings {
            player_radius: final(settings).player_radius,
            ..*old(settings)
        }),
{
    proof {
        crate::vecmath::lemma_mul_abs_bound(hp as int, settings.max_hp_radius as int, 100_000, 1_000_000);
        vstd::arithmetic::div_mod::lemma_div_is_ordered(
            (hp as int) * (settings.max_hp_radius as int),
            100_000_000_000int,
            100_000,
        );
    }
    let target: i64 = ((hp as u64 * settings.max_hp_radius as u64) / 100_000) as i64;
    settings.player_radius = if target >= 2_000 {
        target
    } else {
        2_000
    };
}

/// One tick of the invincibility window: counts down to zero and stops.
pub fn player_invincibility_tick(ball: &mut PlayerBall, dt_ms: u64)
    ensures
        final(ball).invincibility_timer == if old(ball).invincibility_timer >= dt_ms {
            (old(ball).invincibility_timer - dt_ms) as u64
        } else {
            0u64
        },
        final(ball).hp == old(ball).hp,
        final(ball).current_velocity == old(ball).current_velocity,
{
    if ball.invincibility_timer >= dt_ms {
        ball.invincibility_timer = ball.invincibility_timer - dt_ms;
    } else {
        ball.invincibility_timer = 0;
    }
}

/// The death check: a session ends exactly when hit points reach zero.
pub fn death_transition(hp: i64) -> (r: Option<GameState>)
    ensures
        (r is Some) == (hp <= 0),
        (r matches Some(s) ==> s == GameState::GameOver),
{
    if hp <= 0 {
        Some(GameState::GameOver)
    } else {
        None
    }
}

} // verus!
