//! Asteroids: spawning near the screen edges, drifting, wrapping and bouncing.

use vstd::prelude::*;

use crate::geometry::{
    contact, contact_spec, opposite, translate, translated, wrap, wrapped, Screen, Vec2,
    REACH_LIMIT, SCALE,
};
use crate::random::{is_direction, random_direction, random_in};

verus! {

/// Radius of a freshly spawned asteroid, in pixels.
pub const ASTEROID_INIT_SIZE: i64 = 50;

/// Radius of the middle size tier, in pixels.
pub const ASTEROID_MID_SIZE: i64 = 25;

/// Radius of the smallest size tier, in pixels; such an asteroid never splits.
pub const ASTEROID_MIN_SIZE: i64 = 15;

/// The three asteroid radii.
pub open spec fn is_tier(width: int) -> bool {
    width == ASTEROID_INIT_SIZE || width == ASTEROID_MID_SIZE || width == ASTEROID_MIN_SIZE
}

/// A spawn position: within half to one initial radius of one of the four
/// edges, and anywhere across the screen along that edge.
pub open spec fn edge_biased(p: Vec2, screen: Screen) -> bool {
    let lo = ASTEROID_INIT_SIZE * SCALE / 2;
    let hi = ASTEROID_INIT_SIZE * SCALE;
    let across_x = 0 <= p.x <= screen.width;
    let across_y = 0 <= p.y <= screen.height;
    (lo <= p.y <= hi && across_x) || (screen.width - hi <= p.x <= screen.width - lo && across_y)
        || (screen.height - hi <= p.y <= screen.height - lo && across_x) || (lo <= p.x <= hi
        && across_y)
}

/// The draws of a spawn point are in range: a side (1 top, 2 right,
/// 3 bottom, 4 left), a distance from that side within the edge band, and a
/// place along that side.
pub open spec fn spawn_draws_ok(side: int, near: int, along: int, screen: Screen) -> bool {
    &&& 1 <= side <= 4
    &&& ASTEROID_INIT_SIZE * SCALE / 2 <= near <= ASTEROID_INIT_SIZE * SCALE
    &&& 0 <= along
    &&& (side == 1 || side == 3 ==> along <= screen.width)
    &&& (side == 2 || side == 4 ==> along <= screen.height)
}

/// The spawn point for the given draws.
pub open spec fn spawn_spec(side: int, near: int, along: int, screen: Screen) -> Vec2 {
    if side == 1 {
        Vec2 { x: along as i64, y: near as i64 }
    } else if side == 2 {
        Vec2 { x: (screen.width - near) as i64, y: along as i64 }
    } else if side == 3 {
        Vec2 { x: along as i64, y: (screen.height - near) as i64 }
    } else {
        Vec2 { x: near as i64, y: along as i64 }
    }
}

/// Places a spawn point from its draws (see [`spawn_draws_ok`]): `near`
/// from the chosen side, `along` it.
pub fn spawn_position(side: i64, near: i64, along: i64, screen: Screen) -> (r: Vec2)
    requires
        screen.wf(),
        spawn_draws_ok(side as int, near as int, along as int, screen),
    ensures
        r == spawn_spec(side as int, near as int, along as int, screen),
        r.wf(),
        edge_biased(r, screen),
{
    if side == 1 {
        Vec2 { x: along, y: near }
    } else if side == 2 {
        Vec2 { x: screen.width - near, y: along }
    } else if side == 3 {
        Vec2 { x: along, y: screen.height - near }
    } else {
        Vec2 { x: near, y: along }
    }
}

/// An asteroid: a circle of radius `width` pixels drifting at `speed` per tick.
#[derive(Clone, Copy, Debug, PartialEq, Eq, Structural)]
pub struct Asteroid {
    pub position: Vec2,
    pub speed: Vec2,
    pub width: i64,
    pub collided: bool,
    pub touched: bool,
}

impl Asteroid {
    pub open spec fn wf(&self) -> bool {
        self.position.wf() && self.speed.bounded_by(SCALE as int) && is_tier(self.width as int)
    }

    /// This asteroid after a collision response: pushed by `correction` and
    /// with its velocity reversed.
    pub open spec fn pushed(self, correction: Vec2) -> Asteroid {
        Asteroid {
            position: translated(self.position, correction),
            speed: opposite(self.speed),
            ..self
        }
    }

    /// A full-size asteroid near a random edge, heading in a random direction.
    pub fn new(screen: Screen) -> (r: Asteroid)
        requires
            screen.wf(),
        ensures
            r.wf(),
            r.width == ASTEROID_INIT_SIZE,
            edge_biased(r.position, screen),
            exists|side: int, near: int, along: int|
                spawn_draws_ok(side, near, along, screen) && r.position == #[trigger] spawn_spec(
                    side,
                    near,
                    along,
                    screen,
                ),
            is_direction(r.speed),
            !r.touched,
            !r.collided,
    {
        Asteroid {
            position: Self::new_alea_pos(screen),
            speed: Self::new_alea_speed(),
            width: ASTEROID_INIT_SIZE,
            collided: false,
            touched: false,
        }
    }

    /// An asteroid of the given radius at the given place, heading in a random direction.
    pub fn new2(position: Vec2, width: i64) -> (r: Asteroid)
        requires
            position.wf(),
            is_tier(width as int),
        ensures
            r.wf(),
            r.position == position,
            r.width == width,
            is_direction(r.speed),
            !r.touched,
            !r.collided,
    {
        Asteroid { position, speed: Self::new_alea_speed(), width, collided: false, touched: false }
    }

    pub fn get_position(&self) -> (r: Vec2)
        ensures
            r == self.position,
    {
        self.position
    }

    pub fn get_width(&self) -> (r: i64)
        ensures
            r == self.width,
    {
        self.width
    }

    pub fn get_speed(&self) -> (r: Vec2)
        ensures
            r == self.speed,
    {
        self.speed
    }

    pub fn get_touched(&self) -> (r: bool)
        ensures
            r == self.touched,
    {
        self.touched
    }

    pub fn set_collision(&mut self, collided: bool)
        ensures
            *final(self) == (Asteroid { collided, ..*old(self) }),
    {
        self.collided = collided;
    }

    /// Marks the asteroid for removal; marking it again changes nothing.
    pub fn set_touched(&mut self)
        ensures
            *final(self) == (Asteroid { touched: true, ..*old(self) }),
    {
        self.touched = true;
    }

    /// A random spawn point near one of the four edges: a side, a distance
    /// from it in the edge band and a place along it are drawn, then placed
    /// by [`spawn_position`].
    fn new_alea_pos(screen: Screen) -> (r: Vec2)
        requires
            screen.wf(),
        ensures
            r.wf(),
            edge_biased(r, screen),
            exists|side: int, near: int, along: int|
                spawn_draws_ok(side, near, along, screen) && r == #[trigger] spawn_spec(
                    side,
                    near,
                    along,
                    screen,
                ),
    {
        let near = random_in(ASTEROID_INIT_SIZE * SCALE / 2, ASTEROID_INIT_SIZE * SCALE);
        let side = random_in(1, 4);
        let along = if side == 1 || side == 3 {
            random_in(0, screen.width)
        } else {
            random_in(0, screen.height)
        };
        let r = spawn_position(side, near, along, screen);
        assert(spawn_draws_ok(side as int, near as int, along as int, screen));
        r
    }

    /// A random direction of unit length.
    fn new_alea_speed() -> (r: Vec2)
        ensures
            is_direction(r),
            r.bounded_by(SCALE as int),
    {
        random_direction()
    }

    /// Wraps the asteroid back onto the screen and returns its new position.
    pub fn bound_pos(&mut self, screen: Screen) -> (r: Vec2)
        requires
            old(self).position.wf(),
            screen.wf(),
        ensures
            *final(self) == (Asteroid { position: wrapped(old(self).position, screen), ..*old(self) }),
            r == final(self).position,
    {
        self.position = wrap(self.position, screen);
        self.position
    }

    /// Reverses the velocity on both axes.
    pub fn bounce(&mut self)
        requires
            old(self).speed.bounded_by(SCALE as int),
        ensures
            *final(self) == (Asteroid { speed: opposite(old(self).speed), ..*old(self) }),
    {
        self.speed = self.speed.neg();
    }

    /// Collision response: pushed by `correction`, then bounced.
    pub fn handle_collision(&mut self, correction: Vec2)
        requires
            old(self).wf(),
            correction.bounded_by(REACH_LIMIT as int),
        ensures
            *final(self) == old(self).pushed(correction),
            final(self).wf(),
    {
        self.position = translate(self.position, correction);
        self.bounce();
    }

    /// One tick of drift.
    pub fn move_object(&mut self)
        requires
            old(self).wf(),
        ensures
            *final(self) == (Asteroid {
                position: translated(old(self).position, old(self).speed),
                ..*old(self)
            }),
            final(self).wf(),
    {
        self.position = translate(self.position, self.speed);
    }

    /// Tests this asteroid against `other` and, if they overlap, pushes both
    /// apart by half the overlap each and bounces both.
    pub fn collided(&mut self, other: &mut Asteroid) -> (r: bool)
        requires
            old(self).wf(),
            old(other).wf(),
        ensures
            r == contact_spec(
                old(self).position,
                old(other).position,
                (old(self).width + old(other).width) * SCALE,
            ).is_some(),
            match contact_spec(
                old(self).position,
                old(other).position,
                (old(self).width + old(other).width) * SCALE,
            ) {
                Some(c) => *final(self) == old(self).pushed(opposite(c)) && *final(other) == old(
                    other,
                ).pushed(c),
                None => *final(self) == *old(self) && *final(other) == *old(other),
            },
            final(self).wf(),
            final(other).wf(),
    {
        let reach = (self.width + other.width) * SCALE;
        match contact(self.position, other.position, reach) {
            Some(c) => {
                self.handle_collision(c.neg());
                other.handle_collision(c);
                true
            },
            None => false,
        }
    }
}

} // verus!
