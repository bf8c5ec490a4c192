//! Behaviour shared by everything that flies.

use vstd::prelude::*;

use crate::asteroid::Asteroid;
use crate::bullet::Bullet;
use crate::spaceship::Spaceship;

verus! {

/// Something that drifts one tick at a time and responds to touching an
/// asteroid. The exact behaviour of each kind is stated on its own methods.
pub trait StellarObject: Sized {
    /// The object's own invariant.
    spec fn well_formed(&self) -> bool;

    /// One tick of motion along the object's velocity.
    fn move_object(&mut self)
        requires
            old(self).well_formed(),
        ensures
            final(self).well_formed(),
    ;

    /// Tests the object against an asteroid and responds on overlap;
    /// returns whether they overlapped.
    fn collided(&mut self, other: &mut Asteroid) -> (r: bool)
        requires
            old(self).well_formed(),
            old(other).wf(),
        ensures
            final(self).well_formed(),
            final(other).wf(),
    ;
}

impl StellarObject for Asteroid {
    open spec fn well_formed(&self) -> bool {
        self.wf()
    }

    fn move_object(&mut self) {
        Asteroid::move_object(self);
    }

    fn collided(&mut self, other: &mut Asteroid) -> (r: bool) {
        Asteroid::collided(self, other)
    }
}

impl StellarObject for Spaceship {
    open spec fn well_formed(&self) -> bool {
        self.wf()
    }

    fn move_object(&mut self) {
        Spaceship::move_object(self);
    }

    fn collided(&mut self, other: &mut Asteroid) -> (r: bool) {
        Spaceship::collided(self, other)
    }
}

impl StellarObject for Bullet {
    open spec fn well_formed(&self) -> bool {
        self.wf()
    }

    fn move_object(&mut self) {
        Bullet::move_object(self);
    }

    fn collided(&mut self, other: &mut Asteroid) -> (r: bool) {
        Bullet::collided(self, other)
    }
}

} // verus!
