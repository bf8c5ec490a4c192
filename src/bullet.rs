//! Bullets: straight-line shots that vanish off screen or on impact.

use vstd::prelude::*;

use crate::asteroid::Asteroid;
use crate::geometry::{contact, overlapping, translate, translated, Screen, Vec2, SCALE};

verus! {

/// Radius of every bullet, in pixels.
pub const BULLET_INIT_SIZE: i64 = 5;

/// Bullet speed, as a multiple of the unit facing vector.
pub const BULLET_SPEED: i64 = 4;

/// A bullet: a small circle moving at `speed` per tick.
#[derive(Clone, Copy, Debug, PartialEq, Eq, Structural)]
pub struct Bullet {
    pub position: Vec2,
    pub speed: Vec2,
    pub touched: bool,
}

/// The point lies outside the screen.
pub open spec fn out_of(p: Vec2, screen: Screen) -> bool {
    p.x < 0 || p.x > screen.width || p.y < 0 || p.y > screen.height
}

impl Bullet {
    pub open spec fn wf(&self) -> bool {
        self.position.wf() && self.speed.bounded_by(BULLET_SPEED * SCALE)
    }

    pub fn new(position: Vec2, speed: Vec2) -> (r: Bullet)
        ensures
            r.position == position,
            r.speed == speed,
            !r.touched,
    {
        Bullet { position, speed, touched: false }
    }

    pub fn get_size(&self) -> (r: i64)
        ensures
            r == BULLET_INIT_SIZE,
    {
        BULLET_INIT_SIZE
    }

    pub fn get_position(&self) -> (r: Vec2)
        ensures
            r == self.position,
    {
        self.position
    }

    pub fn get_speed(&self) -> (r: Vec2)
        ensures
            r == self.speed,
    {
        self.speed
    }

    pub fn get_touched(&self) -> (r: bool)
        ensures
            r == self.touched,
    {
        self.touched
    }

    /// Marks the bullet for removal; marking it again changes nothing.
    pub fn set_touched(&mut self)
        ensures
            *final(self) == (Bullet { touched: true, ..*old(self) }),
    {
        self.touched = true;
    }

    /// The bullet has left the screen.
    pub fn is_out(&self, screen: Screen) -> (r: bool)
        ensures
            r == out_of(self.position, screen),
    {
        self.position.x < 0 || self.position.x > screen.width || self.position.y < 0
            || self.position.y > screen.height
    }

    /// Collision response: the bullet is spent.
    pub fn handle_collision(&mut self)
        ensures
            *final(self) == (Bullet { touched: true, ..*old(self) }),
    {
        self.set_touched();
    }

    /// One tick of flight.
    pub fn move_object(&mut self)
        requires
            old(self).wf(),
        ensures
            *final(self) == (Bullet {
                position: translated(old(self).position, old(self).speed),
                ..*old(self)
            }),
            final(self).wf(),
    {
        self.position = translate(self.position, self.speed);
    }

    /// Tests this bullet against an asteroid; on overlap both are marked for removal.
    pub fn collided(&mut self, other: &mut Asteroid) -> (r: bool)
        requires
            old(self).wf(),
            old(other).wf(),
        ensures
            r == overlapping(
                old(self).position,
                old(other).position,
                (BULLET_INIT_SIZE + old(other).width) * SCALE,
            ),
            r ==> *final(self) == (Bullet { touched: true, ..*old(self) }) && *final(other) == (
            Asteroid { touched: true, ..*old(other) }),
            !r ==> *final(self) == *old(self) && *final(other) == *old(other),
    {
        let reach = (self.get_size() + other.width) * SCALE;
        if contact(self.position, other.position, reach).is_some() {
            self.handle_collision();
            other.set_touched();
            true
        } else {
            false
        }
    }
}

} // verus!
