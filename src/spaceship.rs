//! The player's ship: steering, thrust and drag, speed limits, shield and
//! the invincibility window that follows a hit.

use vstd::prelude::*;

use crate::asteroid::Asteroid;
use crate::bullet::{Bullet, BULLET_SPEED};
use crate::random::DIRECTION_INNER;
use crate::geometry::{
    ceil_sqrt, ceil_sqrt_spec, contact, contact_spec, mul_div, mul_div_spec, translate,
    translated, wrap, wrapped, Screen, Vec2, REACH_LIMIT, SCALE,
};

verus! {

/// The ship's collision radius, in pixels.
pub const SPACESHIP_HEIGHT: i64 = 25;

/// Largest speed on each axis, in fixed-point units per tick.
pub const SPACESHIP_MAX_SPEED: i64 = 3 * SCALE;

/// Cruising speed that an idle ship keeps, in fixed-point units per tick.
pub const SPACESHIP_MIN_SPEED: i64 = 500;

/// Below this speed an idle ship is pushed back up to cruising speed (nine
/// tenths of the cruising speed).
pub const SPACESHIP_LOW_SPEED: i64 = 450;

/// Rotation per tick of steering, in milliradians.
pub const TURN_STEP: i64 = 30;

/// The orientation saturates at plus or minus this many milliradians.
pub const ORIENTATION_LIMIT: i64 = 1_000_000_000_000_000;

/// Length of the invincibility window after a hit, in milliseconds.
pub const INVINCIBILITY_MS: i64 = 1000;

/// Shield points of a new ship.
pub const SHIELD_INIT: u8 = 10;

/// Longest frame time that one tick accepts, in milliseconds.
pub const ELAPSED_LIMIT: i64 = 1_000_000;

/// Forward thrust is the facing vector divided by this.
pub const FORWARD_DIVISOR: i64 = 30;

/// Reverse thrust is the opposite of the facing vector divided by this.
pub const REVERSE_DIVISOR: i64 = 40;

/// A facing vector: the unit vector the ship points along, in fixed-point
/// units (`(sin o, -cos o)` for orientation `o`, rounded), so each component
/// is within one unit and its length within one percent of a unit.
pub open spec fn is_facing(v: Vec2) -> bool {
    v.bounded_by(SCALE as int) && DIRECTION_INNER * DIRECTION_INNER <= v.norm_sq()
}

/// The orientation after one step of steering (`'L'` or `'R'`).
pub open spec fn turned(orientation: int, dir: char) -> int {
    let o = if dir == 'L' {
        orientation - TURN_STEP
    } else {
        orientation + TURN_STEP
    };
    if o < -ORIENTATION_LIMIT {
        -ORIENTATION_LIMIT as int
    } else if o > ORIENTATION_LIMIT {
        ORIENTATION_LIMIT as int
    } else {
        o
    }
}

/// The controls held during one frame.
#[derive(Clone, Copy, Debug, PartialEq, Eq, Structural)]
pub struct Commands {
    pub left: bool,
    pub right: bool,
    pub forward: bool,
    pub reverse: bool,
    pub fire: bool,
}

/// No steering or thrust control is held.
pub open spec fn idle(commands: Commands) -> bool {
    !commands.forward && !commands.reverse && !commands.left && !commands.right
}

/// The acceleration that the controls ask for: the facing vector over 30
/// forward, its opposite over 40 in reverse, forward winning if both are held.
pub open spec fn thrust_of(commands: Commands, facing: Vec2) -> Vec2 {
    if commands.forward {
        Vec2 {
            x: mul_div_spec(facing.x as int, 1, FORWARD_DIVISOR as int) as i64,
            y: mul_div_spec(facing.y as int, 1, FORWARD_DIVISOR as int) as i64,
        }
    } else if commands.reverse {
        Vec2 {
            x: mul_div_spec(-facing.x, 1, REVERSE_DIVISOR as int) as i64,
            y: mul_div_spec(-facing.y, 1, REVERSE_DIVISOR as int) as i64,
        }
    } else {
        Vec2 { x: 0, y: 0 }
    }
}

/// The velocity a ship moves with in a tick, before the speed limit: idle
/// drag when no control is held, then thrust.
pub open spec fn driven_speed(v: Vec2, commands: Commands, facing: Vec2) -> Vec2 {
    let v0 = if idle(commands) {
        idle_speed(v, facing)
    } else {
        v
    };
    let a = thrust_of(commands, facing);
    Vec2 { x: (v0.x + a.x) as i64, y: (v0.y + a.y) as i64 }
}

/// The acceleration that the controls ask for: see [`thrust_of`].
pub fn thrust(commands: Commands, facing: Vec2) -> (r: Vec2)
    requires
        is_facing(facing),
    ensures
        r == thrust_of(commands, facing),
        r.bounded_by(SCALE as int),
{
    proof {
        lemma_part_bound(facing.x as int, 1);
        lemma_part_bound(facing.y as int, 1);
    }
    if commands.forward {
        Vec2 { x: mul_div(facing.x, 1, FORWARD_DIVISOR), y: mul_div(facing.y, 1, FORWARD_DIVISOR) }
    } else if commands.reverse {
        assert(-facing.x * 1 / 40 >= -1000 && -facing.y * 1 / 40 >= -1000) by (nonlinear_arith)
            requires
                is_facing(facing),
        ;
        let x = mul_div(-facing.x, 1, REVERSE_DIVISOR);
        let y = mul_div(-facing.y, 1, REVERSE_DIVISOR);
        proof {
            lemma_part_bound(-facing.x, 1);
            lemma_part_bound(-facing.y, 1);
            lemma_div_shrinks(-facing.x, REVERSE_DIVISOR as int);
            lemma_div_shrinks(-facing.y, REVERSE_DIVISOR as int);
        }
        Vec2 { x, y }
    } else {
        Vec2 { x: 0, y: 0 }
    }
}

/// The velocity after a bounce: reversed and damped to four fifths.
pub open spec fn damped(v: Vec2) -> Vec2 {
    Vec2 { x: mul_div_spec(-v.x, 4, 5) as i64, y: mul_div_spec(-v.y, 4, 5) as i64 }
}

/// The velocity of an idle ship after one tick of drag: above cruising speed
/// it slows by two per mille; below nine tenths of it, it is pushed along
/// `facing` by the shortfall; in between it keeps its velocity.
pub open spec fn idle_speed(v: Vec2, facing: Vec2) -> Vec2 {
    let n = v.norm_sq();
    if n > SPACESHIP_MIN_SPEED * SPACESHIP_MIN_SPEED {
        Vec2 { x: mul_div_spec(v.x as int, 998, 1000) as i64, y: mul_div_spec(v.y as int, 998, 1000) as i64 }
    } else if n < SPACESHIP_LOW_SPEED * SPACESHIP_LOW_SPEED {
        let deficit = SPACESHIP_MIN_SPEED - ceil_sqrt_spec(n);
        Vec2 {
            x: (v.x + mul_div_spec(facing.x as int, deficit, SCALE as int)) as i64,
            y: (v.y + mul_div_spec(facing.y as int, deficit, SCALE as int)) as i64,
        }
    } else {
        v
    }
}

/// A velocity component limited to the maximum speed.
pub open spec fn clamp_speed(c: int) -> int {
    if c < -SPACESHIP_MAX_SPEED {
        -SPACESHIP_MAX_SPEED as int
    } else if c > SPACESHIP_MAX_SPEED {
        SPACESHIP_MAX_SPEED as int
    } else {
        c
    }
}

/// The shield after a hit: one point less, unless the ship is invincible
/// (or has no shield left).
pub open spec fn shield_after_hit(shield: int, timer: int) -> int {
    if timer <= 0 && shield > 0 {
        shield - 1
    } else {
        shield
    }
}

/// The bullet a ship fires along `facing`.
pub open spec fn fired(ship: Spaceship, facing: Vec2) -> Bullet {
    Bullet {
        position: translated(
            ship.position,
            Vec2 {
                x: mul_div_spec(facing.x as int, SPACESHIP_HEIGHT as int, 2) as i64,
                y: mul_div_spec(facing.y as int, SPACESHIP_HEIGHT as int, 2) as i64,
            },
        ),
        speed: Vec2 { x: (facing.x * BULLET_SPEED) as i64, y: (facing.y * BULLET_SPEED) as i64 },
        touched: false,
    }
}

/// The invincibility timer after one frame of `elapsed` milliseconds.
pub open spec fn decayed_timer(timer: int, elapsed: int) -> int {
    if timer > 0 {
        timer - elapsed
    } else {
        timer
    }
}

/// A hit never raises the shield; it takes exactly one point from a ship
/// that is not invincible and has points left, and none from an invincible one.
pub proof fn lemma_shield_monotone(shield: int, timer: int)
    requires
        0 <= shield,
    ensures
        0 <= shield_after_hit(shield, timer) <= shield,
        timer <= 0 && shield > 0 ==> shield_after_hit(shield, timer) == shield - 1,
        timer > 0 ==> shield_after_hit(shield, timer) == shield,
{
}

/// The invincibility timer only goes down as real time passes: an open
/// window shrinks by exactly the elapsed time (so one opened at the full
/// length has the length minus the elapsed time left), and a closed one
/// (at or below zero) stays where it is until a hit opens it again.
pub proof fn lemma_invincibility_decay(timer: int, elapsed: int)
    requires
        0 <= elapsed,
    ensures
        decayed_timer(timer, elapsed) <= timer,
        timer <= 0 ==> decayed_timer(timer, elapsed) == timer,
        decayed_timer(INVINCIBILITY_MS as int, elapsed) == INVINCIBILITY_MS - elapsed,
        decayed_timer(timer, elapsed) <= 0 ==> decayed_timer(decayed_timer(timer, elapsed), elapsed)
            == decayed_timer(timer, elapsed),
{
}

/// The timer after frames of the given lengths, in order.
pub open spec fn decayed_over(timer: int, frames: Seq<int>) -> int
    decreases frames.len(),
{
    if frames.len() == 0 {
        timer
    } else {
        decayed_timer(decayed_over(timer, frames.drop_last()), frames.last())
    }
}

/// The total length of the given frames.
pub open spec fn total_time(frames: Seq<int>) -> int
    decreases frames.len(),
{
    if frames.len() == 0 {
        0
    } else {
        total_time(frames.drop_last()) + frames.last()
    }
}

/// An invincibility window of `timer` milliseconds, decayed frame by frame:
/// while less time than the window has passed, exactly that much is gone;
/// once the window's length has passed, it is closed (at or below zero) and,
/// if it closed in the last frame, by less than that frame's length.
pub proof fn lemma_invincibility_over_frames(timer: int, frames: Seq<int>)
    requires
        0 < timer,
        forall|i: int| 0 <= i < frames.len() ==> 0 <= #[trigger] frames[i],
    ensures
        total_time(frames) < timer ==> decayed_over(timer, frames) == timer - total_time(frames),
        total_time(frames) >= timer ==> decayed_over(timer, frames) <= 0,
        frames.len() > 0 && total_time(frames.drop_last()) < timer <= total_time(frames)
            ==> decayed_over(timer, frames) > -frames.last(),
    decreases frames.len(),
{
    if frames.len() > 0 {
        let init = frames.drop_last();
        assert forall|i: int| 0 <= i < init.len() implies 0 <= #[trigger] init[i] by {
            assert(init[i] == frames[i]);
        }
        lemma_invincibility_over_frames(timer, init);
        lemma_total_time_grows(frames);
    }
}

proof fn lemma_total_time_grows(frames: Seq<int>)
    requires
        frames.len() > 0,
        forall|i: int| 0 <= i < frames.len() ==> 0 <= #[trigger] frames[i],
    ensures
        total_time(frames.drop_last()) <= total_time(frames),
{
    assert(frames[frames.len() - 1] == frames.last());
}

/// The player's ship.
#[derive(Clone, Copy, Debug, PartialEq, Eq, Structural)]
pub struct Spaceship {
    pub position: Vec2,
    pub speed: Vec2,
    /// Milliradians; 0 points up the screen.
    pub orientation: i64,
    pub shield: u8,
    /// Milliseconds of invincibility left; at or below zero the ship can be hurt.
    pub invincibility_timer: i64,
}

impl Spaceship {
    pub open spec fn wf(&self) -> bool {
        &&& self.position.wf()
        &&& self.speed.bounded_by(SPACESHIP_MAX_SPEED as int)
        &&& -ORIENTATION_LIMIT <= self.orientation <= ORIENTATION_LIMIT
        &&& -ELAPSED_LIMIT <= self.invincibility_timer <= INVINCIBILITY_MS
    }

    /// This ship after a collision response with push `correction`.
    pub open spec fn hit(self, correction: Vec2) -> Spaceship {
        Spaceship {
            position: translated(self.position, correction),
            speed: damped(self.speed),
            orientation: self.orientation,
            shield: shield_after_hit(self.shield as int, self.invincibility_timer as int) as u8,
            invincibility_timer: if self.invincibility_timer <= 0 {
                INVINCIBILITY_MS
            } else {
                self.invincibility_timer
            },
        }
    }

    /// A ship at the centre of the screen, pointing up and drifting slowly upwards.
    pub open spec fn new_spec(screen: Screen) -> Spaceship {
        Spaceship {
            position: Vec2 { x: (screen.width / 2) as i64, y: (screen.height / 2) as i64 },
            speed: Vec2 { x: 0, y: -700i64 },
            orientation: 0,
            shield: SHIELD_INIT,
            invincibility_timer: 0,
        }
    }

    /// A ship at the centre of the screen, pointing up and drifting slowly upwards.
    pub fn new(screen: Screen) -> (r: Spaceship)
        requires
            screen.wf(),
        ensures
            r == Self::new_spec(screen),
            r.wf(),
            r.position == (Vec2 { x: (screen.width / 2) as i64, y: (screen.height / 2) as i64 }),
            r.speed == (Vec2 { x: 0, y: -700i64 }),
            r.orientation == 0,
            r.shield == SHIELD_INIT,
            r.invincibility_timer == 0,
    {
        Spaceship {
            position: Vec2 { x: screen.width / 2, y: screen.height / 2 },
            speed: Vec2 { x: 0, y: -700 },
            orientation: 0,
            shield: SHIELD_INIT,
            invincibility_timer: 0,
        }
    }

    pub fn get_height(&self) -> (r: i64)
        ensures
            r == SPACESHIP_HEIGHT,
    {
        SPACESHIP_HEIGHT
    }

    pub fn get_position(&self) -> (r: Vec2)
        ensures
            r == self.position,
    {
        self.position
    }

    pub fn get_speed(&self) -> (r: Vec2)
        ensures
            r == self.speed,
    {
        self.speed
    }

    pub fn get_orientation(&self) -> (r: i64)
        ensures
            r == self.orientation,
    {
        self.orientation
    }

    pub fn get_shield(&self) -> (r: u8)
        ensures
            r == self.shield,
    {
        self.shield
    }

    pub fn get_invicibility(&self) -> (r: i64)
        ensures
            r == self.invincibility_timer,
    {
        self.invincibility_timer
    }

    /// Takes one shield point away.
    pub fn set_shield(&mut self)
        requires
            old(self).shield > 0,
        ensures
            *final(self) == (Spaceship { shield: (old(self).shield - 1) as u8, ..*old(self) }),
    {
        self.shield = self.shield - 1;
    }

    /// Starts the invincibility window.
    pub fn init_invicibility(&mut self)
        ensures
            *final(self) == (Spaceship { invincibility_timer: INVINCIBILITY_MS, ..*old(self) }),
    {
        self.invincibility_timer = INVINCIBILITY_MS;
    }

    /// Takes `time` milliseconds off the invincibility window.
    pub fn set_invicibility(&mut self, time: i64)
        requires
            0 <= time <= ELAPSED_LIMIT,
            -ELAPSED_LIMIT <= old(self).invincibility_timer <= INVINCIBILITY_MS,
        ensures
            *final(self) == (Spaceship {
                invincibility_timer: (old(self).invincibility_timer - time) as i64,
                ..*old(self)
            }),
    {
        self.invincibility_timer = self.invincibility_timer - time;
    }

    /// One frame of invincibility decay: while the window is open it shrinks
    /// by the elapsed real time; once it is at or below zero it stays put.
    pub fn decay_invincibility(&mut self, elapsed: i64)
        requires
            old(self).wf(),
            0 <= elapsed <= ELAPSED_LIMIT,
        ensures
            final(self).wf(),
            *final(self) == (Spaceship {
                invincibility_timer: decayed_timer(
                    old(self).invincibility_timer as int,
                    elapsed as int,
                ) as i64,
                ..*old(self)
            }),
            final(self).invincibility_timer <= old(self).invincibility_timer,
    {
        if self.invincibility_timer > 0 {
            self.set_invicibility(elapsed);
        }
    }

    /// Turns the ship one step left (`'L'`) or right (`'R'`).
    pub fn set_orientation(&mut self, dir: char)
        requires
            dir == 'L' || dir == 'R',
            -ORIENTATION_LIMIT <= old(self).orientation <= ORIENTATION_LIMIT,
        ensures
            *final(self) == (Spaceship {
                orientation: turned(old(self).orientation as int, dir) as i64,
                ..*old(self)
            }),
    {
        let o = if dir == 'L' {
            self.orientation - TURN_STEP
        } else {
            self.orientation + TURN_STEP
        };
        self.orientation = if o < -ORIENTATION_LIMIT {
            -ORIENTATION_LIMIT
        } else if o > ORIENTATION_LIMIT {
            ORIENTATION_LIMIT
        } else {
            o
        };
    }

    /// Adds an acceleration to the velocity.
    pub fn set_speed(&mut self, acc: Vec2)
        requires
            old(self).speed.bounded_by(REACH_LIMIT as int),
            acc.bounded_by(REACH_LIMIT as int),
        ensures
            *final(self) == (Spaceship {
                speed: Vec2 {
                    x: (old(self).speed.x + acc.x) as i64,
                    y: (old(self).speed.y + acc.y) as i64,
                },
                ..*old(self)
            }),
    {
        self.speed = Vec2 { x: self.speed.x + acc.x, y: self.speed.y + acc.y };
    }

    /// Wraps the ship back onto the screen and returns its new position.
    pub fn bound_pos(&mut self, screen: Screen) -> (r: Vec2)
        requires
            old(self).position.wf(),
            screen.wf(),
        ensures
            *final(self) == (Spaceship {
                position: wrapped(old(self).position, screen),
                ..*old(self)
            }),
            r == final(self).position,
    {
        self.position = wrap(self.position, screen);
        self.position
    }

    /// Reverses the velocity and damps it to four fifths.
    pub fn bounce(&mut self)
        requires
            old(self).speed.bounded_by(REACH_LIMIT as int),
        ensures
            *final(self) == (Spaceship { speed: damped(old(self).speed), ..*old(self) }),
    {
        self.speed = Vec2 { x: mul_div(-self.speed.x, 4, 5), y: mul_div(-self.speed.y, 4, 5) };
    }

    /// Drag on an idle ship, which keeps it from ever coming to rest: see
    /// [`idle_speed`]. `facing` is the ship's facing vector.
    pub fn min_speed(&mut self, facing: Vec2)
        requires
            old(self).speed.bounded_by(SPACESHIP_MAX_SPEED as int),
            is_facing(facing),
        ensures
            *final(self) == (Spaceship { speed: idle_speed(old(self).speed, facing), ..*old(self) }),
            final(self).speed.bounded_by(SPACESHIP_MAX_SPEED as int),
    {
        let v = self.speed;
        assert(0 <= v.x * v.x <= 9_000_000 && 0 <= v.y * v.y <= 9_000_000) by (nonlinear_arith)
            requires
                v.bounded_by(SPACESHIP_MAX_SPEED as int),
        ;
        let n = v.x * v.x + v.y * v.y;
        if n > SPACESHIP_MIN_SPEED * SPACESHIP_MIN_SPEED {
            let x = mul_div(v.x, 998, 1000);
            let y = mul_div(v.y, 998, 1000);
            assert(-v.x <= x <= v.x || v.x <= x <= -v.x) by (nonlinear_arith)
                requires
                    x == mul_div_spec(v.x as int, 998, 1000),
            ;
            assert(-v.y <= y <= v.y || v.y <= y <= -v.y) by (nonlinear_arith)
                requires
                    y == mul_div_spec(v.y as int, 998, 1000),
            ;
            self.speed = Vec2 { x, y };
        } else if n < SPACESHIP_LOW_SPEED * SPACESHIP_LOW_SPEED {
            let root = ceil_sqrt(n);
            assert(root <= SPACESHIP_LOW_SPEED) by (nonlinear_arith)
                requires
                    n < SPACESHIP_LOW_SPEED * SPACESHIP_LOW_SPEED,
                    root == 0 || (root - 1) * (root - 1) < n,
                    0 <= root,
            ;
            assert(-SPACESHIP_LOW_SPEED <= v.x <= SPACESHIP_LOW_SPEED && -SPACESHIP_LOW_SPEED
                <= v.y <= SPACESHIP_LOW_SPEED) by (nonlinear_arith)
                requires
                    v.x * v.x + v.y * v.y < SPACESHIP_LOW_SPEED * SPACESHIP_LOW_SPEED,
            ;
            let deficit = SPACESHIP_MIN_SPEED - root;
            let ax = mul_div(facing.x, deficit, SCALE);
            let ay = mul_div(facing.y, deficit, SCALE);
            proof {
                lemma_part_bound(facing.x as int, deficit as int);
                lemma_part_bound(facing.y as int, deficit as int);
            }
            self.speed = Vec2 { x: v.x + ax, y: v.y + ay };
        }
    }

    /// Limits each velocity component to the maximum speed.
    pub fn max_speed(&mut self)
        ensures
            *final(self) == (Spaceship {
                speed: Vec2 {
                    x: clamp_speed(old(self).speed.x as int) as i64,
                    y: clamp_speed(old(self).speed.y as int) as i64,
                },
                ..*old(self)
            }),
            final(self).speed.bounded_by(SPACESHIP_MAX_SPEED as int),
    {
        let x = if self.speed.x < -SPACESHIP_MAX_SPEED {
            -SPACESHIP_MAX_SPEED
        } else if self.speed.x > SPACESHIP_MAX_SPEED {
            SPACESHIP_MAX_SPEED
        } else {
            self.speed.x
        };
        let y = if self.speed.y < -SPACESHIP_MAX_SPEED {
            -SPACESHIP_MAX_SPEED
        } else if self.speed.y > SPACESHIP_MAX_SPEED {
            SPACESHIP_MAX_SPEED
        } else {
            self.speed.y
        };
        self.speed = Vec2 { x, y };
    }

    /// Collision response: a hurtable ship loses one shield point and becomes
    /// invincible for a while; in any case it is pushed by `correction` and
    /// bounces with damping.
    pub fn handle_collision(&mut self, correction: Vec2)
        requires
            old(self).wf(),
            correction.bounded_by(REACH_LIMIT as int),
        ensures
            *final(self) == old(self).hit(correction),
            final(self).wf(),
            final(self).shield <= old(self).shield,
            old(self).invincibility_timer > 0 ==> final(self).shield == old(self).shield,
            old(self).invincibility_timer <= 0 && old(self).shield > 0 ==> final(self).shield
                == old(self).shield - 1,
            old(self).invincibility_timer <= 0 ==> final(self).invincibility_timer
                == INVINCIBILITY_MS,
            old(self).invincibility_timer > 0 ==> final(self).invincibility_timer == old(
                self,
            ).invincibility_timer,
    {
        if self.invincibility_timer <= 0 {
            if self.shield > 0 {
                self.set_shield();
            }
            self.init_invicibility();
        }
        self.position = translate(self.position, correction);
        let v = self.speed;
        self.bounce();
        proof {
            lemma_damped_bound(v.x as int);
            lemma_damped_bound(v.y as int);
        }
    }

    /// One tick of flight.
    pub fn move_object(&mut self)
        requires
            old(self).position.wf(),
            old(self).speed.bounded_by(REACH_LIMIT as int),
        ensures
            *final(self) == (Spaceship {
                position: translated(old(self).position, old(self).speed),
                ..*old(self)
            }),
            final(self).position.wf(),
    {
        self.position = translate(self.position, self.speed);
    }

    /// Tests the ship against an asteroid and, if they overlap, pushes both
    /// apart by half the overlap each: the ship takes a hit, the asteroid bounces.
    pub fn collided(&mut self, other: &mut Asteroid) -> (r: bool)
        requires
            old(self).wf(),
            old(other).wf(),
        ensures
            r == contact_spec(
                old(self).position,
                old(other).position,
                (SPACESHIP_HEIGHT + old(other).width) * SCALE,
            ).is_some(),
            match contact_spec(
                old(self).position,
                old(other).position,
                (SPACESHIP_HEIGHT + old(other).width) * SCALE,
            ) {
                Some(c) => *final(self) == old(self).hit(crate::geometry::opposite(c))
                    && *final(other) == old(other).pushed(c),
                None => *final(self) == *old(self) && *final(other) == *old(other),
            },
            final(self).wf(),
            final(other).wf(),
    {
        let reach = (self.get_height() + other.width) * SCALE;
        match contact(self.position, other.position, reach) {
            Some(c) => {
                self.handle_collision(c.neg());
                other.handle_collision(c);
                true
            },
            None => false,
        }
    }

    /// A bullet fired along `facing`: it starts half a ship height ahead of
    /// the ship and flies at four times the facing vector per tick.
    pub fn fire(&self, facing: Vec2) -> (r: Bullet)
        requires
            self.position.wf(),
            is_facing(facing),
        ensures
            r == fired(*self, facing),
            !r.touched,
            r.wf(),
    {
        let ox = mul_div(facing.x, SPACESHIP_HEIGHT, 2);
        let oy = mul_div(facing.y, SPACESHIP_HEIGHT, 2);
        proof {
            lemma_part_bound(facing.x as int, SPACESHIP_HEIGHT as int);
            lemma_part_bound(facing.y as int, SPACESHIP_HEIGHT as int);
        }
        let offset = Vec2 { x: ox, y: oy };
        Bullet::new(
            translate(self.position, offset),
            Vec2 { x: facing.x * BULLET_SPEED, y: facing.y * BULLET_SPEED },
        )
    }
}

proof fn lemma_part_bound(f: int, len: int)
    requires
        -SCALE <= f <= SCALE,
        0 <= len <= SCALE,
    ensures
        -len <= mul_div_spec(f, len, SCALE as int) <= len,
        -1_000_000 <= mul_div_spec(f, len, 2) <= 1_000_000,
{
    let m = if f >= 0 { f } else { -f };
    assert(0 <= m * len / (SCALE as int) <= len) by (nonlinear_arith)
        requires
            0 <= m <= SCALE,
            0 <= len,
    ;
    assert(0 <= m * len <= 1_000_000) by (nonlinear_arith)
        requires
            0 <= m <= 1000,
            0 <= len <= 1000,
    ;
}

proof fn lemma_div_shrinks(f: int, den: int)
    requires
        -SCALE <= f <= SCALE,
        0 < den,
    ensures
        -SCALE <= mul_div_spec(f, 1, den) <= SCALE,
{
    let m = if f >= 0 { f } else { -f };
    assert(0 <= m * 1 / den <= m) by (nonlinear_arith)
        requires
            0 <= m,
            0 < den,
    ;
}

proof fn lemma_damped_bound(c: int)
    ensures
        -c <= mul_div_spec(-c, 4, 5) <= c || c <= mul_div_spec(-c, 4, 5) <= -c,
{
    let m = if c >= 0 { c } else { -c };
    assert(0 <= m * 4 / 5 <= m) by (nonlinear_arith)
        requires
            0 <= m,
    ;
}

} // verus!
