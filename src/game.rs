//! A round of play: setting it up, and the per-tick update of every entity.

use vstd::prelude::*;

use crate::asteroid::{edge_biased, spawn_draws_ok, spawn_spec, Asteroid, ASTEROID_MIN_SIZE};
use crate::bullet::{out_of, Bullet, BULLET_INIT_SIZE};
use crate::geometry::{COORD_LIMIT, contact_spec, opposite, overlapping, translated, wrapped, Screen, Vec2, SCALE};
use crate::random::is_direction;
use crate::spaceship::{
    decayed_timer, driven_speed, fired, is_facing, Commands, Spaceship, ELAPSED_LIMIT,
};

verus! {

/// How many asteroids a round starts with.
#[derive(Clone, Copy, Debug, PartialEq, Eq, Structural)]
pub enum Difficulty {
    Easy,
    Medium,
    Hard,
}

/// The number of asteroids a round of the given difficulty starts with.
pub open spec fn asteroid_count(difficulty: Difficulty) -> nat {
    match difficulty {
        Difficulty::Easy => 3,
        Difficulty::Medium => 6,
        Difficulty::Hard => 10,
    }
}

/// A full-size asteroid as a round spawns it: near an edge, heading in a
/// random direction.
pub open spec fn spawned(a: Asteroid, screen: Screen) -> bool {
    &&& a.wf()
    &&& a.width == crate::asteroid::ASTEROID_INIT_SIZE
    &&& edge_biased(a.position, screen)
    &&& exists|side: int, near: int, along: int|
        spawn_draws_ok(side, near, along, screen) && a.position == #[trigger] spawn_spec(
            side,
            near,
            along,
            screen,
        )
    &&& is_direction(a.speed)
    &&& !a.touched
}

/// Some asteroid of `s` sits at `p`.
pub open spec fn occupied(s: Seq<Asteroid>, p: Vec2) -> bool {
    exists|m: int| 0 <= m < s.len() && (#[trigger] s[m]).position == p
}

/// No two asteroids of `s` sit at the same position.
pub open spec fn distinct_positions(s: Seq<Asteroid>) -> bool {
    forall|i: int, j: int|
        0 <= i < s.len() && 0 <= j < s.len() && i != j ==> (#[trigger] s[i]).position != (
        #[trigger] s[j]).position
}

/// Among more slots than asteroids, some slot `(t, y)` is free.
proof fn lemma_free_slot(s: Seq<Asteroid>, slots: Set<int>, y: i64)
    requires
        slots.finite(),
        slots.len() > s.len(),
        forall|t: int| slots.contains(t) ==> 0 <= t <= 1_000_000,
    ensures
        exists|t: int| slots.contains(t) && !occupied(s, Vec2 { x: t as i64, y }),
    decreases s.len(),
{
    if s.len() == 0 {
        let t = slots.choose();
        vstd::set::axiom_set_choose_len(slots);
        assert(slots.contains(t) && !occupied(s, Vec2 { x: t as i64, y }));
    } else {
        let e = s.last();
        let s2 = s.drop_last();
        let rest = slots.remove(e.position.x as int);
        vstd::set::axiom_set_remove_finite(slots, e.position.x as int);
        vstd::set::axiom_set_remove_len(slots, e.position.x as int);
        lemma_free_slot(s2, rest, y);
        let t = choose|t: int| rest.contains(t) && !occupied(s2, Vec2 { x: t as i64, y });
        assert(slots.contains(t));
        assert forall|m: int| 0 <= m < s.len() implies (#[trigger] s[m]).position != (Vec2 {
            x: t as i64,
            y,
        }) by {
            if m < s2.len() {
                assert(s[m] == s2[m]);
            }
        }
    }
}

/// Whether some asteroid sits at `p`.
fn occupied_by(asteroids: &Vec<Asteroid>, p: Vec2) -> (r: bool)
    ensures
        r == occupied(asteroids@, p),
{
    let mut m: usize = 0;
    while m < asteroids.len()
        invariant
            m <= asteroids.len(),
            forall|i: int| 0 <= i < m ==> (#[trigger] asteroids@[i]).position != p,
        decreases asteroids.len() - m,
    {
        if asteroids[m].position == p {
            return true;
        }
        m = m + 1;
    }
    false
}

/// How many times a spawn that lands on an existing asteroid is drawn again.
const SPAWN_TRIES: u32 = 64;

/// The asteroids a round starts with: full-size ones near the edges, each at
/// its own position. A spawn that lands on an earlier asteroid is drawn
/// again; should every draw clash, it takes the first free point `(t, lo)`
/// (`t` from 0, `lo` the near edge of the top band), of which there is
/// always one.
pub fn create_asteroids(difficulty: Difficulty, screen: Screen) -> (r: Vec<Asteroid>)
    requires
        screen.wf(),
    ensures
        r.len() == asteroid_count(difficulty),
        forall|i: int| 0 <= i < r.len() ==> spawned(#[trigger] r[i], screen),
        distinct_positions(r@),
{
    let count: usize = match difficulty {
        Difficulty::Easy => 3,
        Difficulty::Medium => 6,
        Difficulty::Hard => 10,
    };
    let lo: i64 = crate::asteroid::ASTEROID_INIT_SIZE * SCALE / 2;
    let mut asteroids: Vec<Asteroid> = Vec::new();
    let mut k: usize = 0;
    while k < count
        invariant
            k <= count,
            count == asteroid_count(difficulty),
            lo == crate::asteroid::ASTEROID_INIT_SIZE * SCALE / 2,
            screen.wf(),
            asteroids.len() == k,
            forall|i: int| 0 <= i < asteroids.len() ==> spawned(#[trigger] asteroids[i], screen),
            distinct_positions(asteroids@),
        decreases count - k,
    {
        let mut a = Asteroid::new(screen);
        let mut tries: u32 = 0;
        while tries < SPAWN_TRIES && occupied_by(&asteroids, a.position)
            invariant
                spawned(a, screen),
                screen.wf(),
            decreases SPAWN_TRIES - tries,
        {
            a = Asteroid::new(screen);
            tries = tries + 1;
        }
        if occupied_by(&asteroids, a.position) {
            proof {
                vstd::set_lib::lemma_int_range(0, k + 1);
                lemma_free_slot(asteroids@, vstd::set_lib::set_int_range(0, k + 1), lo);
            }
            let mut t: i64 = 0;
            while t <= k as i64 && occupied_by(&asteroids, Vec2::new(t, lo))
                invariant
                    0 <= t <= k + 1,
                    k < count <= 10,
                    forall|u: int| 0 <= u < t ==> #[trigger] occupied(asteroids@, Vec2 { x: u as i64, y: lo }),
                decreases k + 1 - t,
            {
                t = t + 1;
            }
            proof {
                if t > k {
                    let u = choose|u: int|
                        #[trigger] vstd::set_lib::set_int_range(0, k + 1).contains(u) && !occupied(
                            asteroids@,
                            Vec2 { x: u as i64, y: lo },
                        );
                    assert(occupied(asteroids@, Vec2 { x: u as i64, y: lo }));
                }
            }
            let p = crate::asteroid::spawn_position(1, lo, t, screen);
            assert(spawn_draws_ok(1, lo as int, t as int, screen));
            a = Asteroid { position: p, ..a };
        }
        let ghost before = asteroids@;
        asteroids.push(a);
        proof {
            assert forall|i: int, j: int|
                0 <= i < asteroids.len() && 0 <= j < asteroids.len() && i != j implies (
                #[trigger] asteroids@[i]).position != (#[trigger] asteroids@[j]).position by {
                if i < k && j < k {
                    assert(before[i] == asteroids@[i] && before[j] == asteroids@[j]);
                } else if i == k {
                    assert(asteroids@[j] == before[j]);
                } else {
                    assert(asteroids@[i] == before[i]);
                }
            }
        }
        k = k + 1;
    }
    asteroids
}

/// The radius two fragments of an asteroid of radius `width` get.
pub open spec fn half_tier(width: int) -> int {
    if width == crate::asteroid::ASTEROID_INIT_SIZE {
        crate::asteroid::ASTEROID_MID_SIZE as int
    } else {
        ASTEROID_MIN_SIZE as int
    }
}

/// The radii that split into two smaller asteroids.
pub open spec fn splittable(width: int) -> bool {
    width == crate::asteroid::ASTEROID_INIT_SIZE || width == crate::asteroid::ASTEROID_MID_SIZE
}

/// The two fragments `(first, second)` of an asteroid of radius `width` at
/// `position` satisfy the split rule: half the size tier, one pixel off the
/// parent's centre on each axis in opposite directions, fresh directions.
pub open spec fn fragments_of(position: Vec2, width: int, first: Asteroid, second: Asteroid) -> bool {
    &&& first.wf() && second.wf()
    &&& first.width == half_tier(width) && second.width == half_tier(width)
    &&& first.position == translated(position, Vec2 { x: SCALE, y: SCALE })
    &&& second.position == translated(position, Vec2 { x: -1000i64, y: -1000i64 })
    &&& is_direction(first.speed) && is_direction(second.speed)
    &&& !first.touched && !second.touched && !first.collided && !second.collided
}

/// A parent at least one pixel inside the coordinate limit splits into
/// fragments exactly one pixel off its centre on each axis: `(x + 1, y + 1)`
/// and `(x - 1, y - 1)` in pixels.
pub proof fn lemma_split_offsets(position: Vec2, width: int, first: Asteroid, second: Asteroid)
    requires
        fragments_of(position, width, first, second),
        -COORD_LIMIT + SCALE <= position.x <= COORD_LIMIT - SCALE,
        -COORD_LIMIT + SCALE <= position.y <= COORD_LIMIT - SCALE,
    ensures
        first.position.x == position.x + SCALE,
        first.position.y == position.y + SCALE,
        second.position.x == position.x - SCALE,
        second.position.y == position.y - SCALE,
        first.width == second.width,
        width == crate::asteroid::ASTEROID_INIT_SIZE ==> first.width == crate::asteroid::ASTEROID_MID_SIZE,
        width == crate::asteroid::ASTEROID_MID_SIZE ==> first.width == ASTEROID_MIN_SIZE,
{
}

/// Splits an asteroid of radius `width` at `position` into two fragments;
/// only radii 50 and 25 split, any other is refused with an error.
pub fn divide(position: Vec2, width: i64) -> (r: Result<(Asteroid, Asteroid), String>)
    requires
        position.wf(),
    ensures
        r.is_ok() <==> splittable(width as int),
        r matches Ok((a1, a2)) ==> fragments_of(position, width as int, a1, a2),
{
    if width == crate::asteroid::ASTEROID_INIT_SIZE || width == crate::asteroid::ASTEROID_MID_SIZE {
        let child = if width == crate::asteroid::ASTEROID_INIT_SIZE {
            crate::asteroid::ASTEROID_MID_SIZE
        } else {
            ASTEROID_MIN_SIZE
        };
        let p1 = crate::geometry::translate(position, Vec2 { x: SCALE, y: SCALE });
        let p2 = crate::geometry::translate(position, Vec2 { x: -SCALE, y: -SCALE });
        Ok((Asteroid::new2(p1, child), Asteroid::new2(p2, child)))
    } else {
        Err("unsupported asteroid size".to_string())
    }
}

/// Latest time, in milliseconds, that a round accepts.
pub const TIME_LIMIT: i64 = 1_000_000_000_000_000;

/// Least time between two shots, in milliseconds.
pub const FIRE_COOLDOWN_MS: i64 = 500;

/// How a round stands after a tick.
#[derive(Clone, Copy, Debug, PartialEq, Eq, Structural)]
pub enum Outcome {
    InProgress,
    Won,
    Lost,
}

/// The outcome for a ship with `shield` points and `remaining` asteroids:
/// lost once the shield is gone, whatever is left; won once no asteroid is
/// left; in progress otherwise.
pub open spec fn outcome_of(shield: int, remaining: int) -> Outcome {
    if shield == 0 {
        Outcome::Lost
    } else if remaining == 0 {
        Outcome::Won
    } else {
        Outcome::InProgress
    }
}

/// A round ends lost as soon as the shield is gone, whatever asteroids are
/// left, and won when every asteroid is destroyed while the shield holds.
pub proof fn lemma_round_termination(shield: int, remaining: int)
    requires
        0 <= shield,
        0 <= remaining,
    ensures
        shield == 0 ==> outcome_of(shield, remaining) == Outcome::Lost,
        shield > 0 && remaining == 0 ==> outcome_of(shield, remaining) == Outcome::Won,
        shield > 0 && remaining > 0 ==> outcome_of(shield, remaining) == Outcome::InProgress,
{
}

/// An asteroid after one tick of drift: moved by its velocity, wrapped to
/// the screen, its collision flag cleared.
pub open spec fn drifted(a: Asteroid, screen: Screen) -> Asteroid {
    Asteroid {
        position: wrapped(translated(a.position, a.speed), screen),
        collided: false,
        ..a
    }
}

/// A bullet after one tick of flight.
pub open spec fn flown(b: Bullet) -> Bullet {
    Bullet { position: translated(b.position, b.speed), ..b }
}

/// The ship after one tick of driving under `commands`: idle drag, thrust,
/// a move, the speed limit and a wrap, in that order.
pub open spec fn driven(ship: Spaceship, commands: Commands, facing: Vec2, screen: Screen) -> Spaceship {
    let v = driven_speed(ship.speed, commands, facing);
    Spaceship {
        position: wrapped(translated(ship.position, v), screen),
        speed: Vec2 {
            x: crate::spaceship::clamp_speed(v.x as int) as i64,
            y: crate::spaceship::clamp_speed(v.y as int) as i64,
        },
        ..ship
    }
}

/// The asteroids after the collision test of the pair `(i, j)` (see
/// [`Asteroid::collided`]).
pub open spec fn collide_pair(s: Seq<Asteroid>, i: int, j: int) -> Seq<Asteroid> {
    match contact_spec(s[i].position, s[j].position, (s[i].width + s[j].width) * SCALE) {
        Some(c) => s.update(i, s[i].pushed(opposite(c))).update(j, s[j].pushed(c)),
        None => s,
    }
}

/// The asteroids after testing, in order, the pairs from `(i, j)` on: the
/// rest of row `i`, then every pair `(k, l)` with `i < k < l`.
pub open spec fn sweep_pairs(s: Seq<Asteroid>, i: int, j: int) -> Seq<Asteroid>
    decreases s.len() - i, s.len() - j,
{
    if i < 0 || j < 0 || i >= s.len() {
        s
    } else if j >= s.len() {
        sweep_pairs(s, i + 1, i + 2)
    } else {
        sweep_pairs(collide_pair(s, i, j), i, j + 1)
    }
}

/// The ship and the asteroids after testing the ship, in order, against the
/// asteroids from index `i` on (see [`Spaceship::collided`]).
pub open spec fn sweep_ship(ship: Spaceship, s: Seq<Asteroid>, i: int) -> (Spaceship, Seq<Asteroid>)
    decreases s.len() - i,
{
    if i >= s.len() || i < 0 {
        (ship, s)
    } else {
        match contact_spec(
            ship.position,
            s[i].position,
            (crate::spaceship::SPACESHIP_HEIGHT + s[i].width) * SCALE,
        ) {
            Some(c) => sweep_ship(ship.hit(opposite(c)), s.update(i, s[i].pushed(c)), i + 1),
            None => sweep_ship(ship, s, i + 1),
        }
    }
}

/// The bullet strikes the asteroid: their circles overlap.
pub open spec fn hits(b: Bullet, a: Asteroid) -> bool {
    overlapping(b.position, a.position, (BULLET_INIT_SIZE + a.width) * SCALE)
}

/// One of the first `upto` bullets strikes the asteroid.
pub open spec fn hit_by_any(a: Asteroid, bullets: Seq<Bullet>, upto: int) -> bool {
    exists|j: int| 0 <= j < upto && #[trigger] hits(bullets[j], a)
}

/// The bullet strikes one of the first `upto` asteroids.
pub open spec fn hits_any(b: Bullet, asteroids: Seq<Asteroid>, upto: int) -> bool {
    exists|k: int| 0 <= k < upto && #[trigger] hits(b, asteroids[k])
}

/// What the collision passes need to know of an asteroid fragment.
pub open spec fn shape(a: Asteroid) -> (Vec2, i64) {
    (a.position, a.width)
}

/// The positions and radii of a sequence of asteroids.
pub open spec fn shapes(s: Seq<Asteroid>) -> Seq<(Vec2, i64)> {
    s.map_values(|c: Asteroid| shape(c))
}

/// A freshly split fragment: well formed, unmarked, heading in a random direction.
pub open spec fn fresh_fragment(c: Asteroid) -> bool {
    c.wf() && !c.touched && !c.collided && is_direction(c.speed)
}

/// The fragments (as position and radius) that the strike of bullet `b` on
/// asteroid `a` produces: none, unless it hits and the asteroid splits; then
/// the one offset by (+1, +1) pixel, then the one offset by (-1, -1).
pub open spec fn fragments_at(a: Asteroid, b: Bullet) -> Seq<(Vec2, i64)> {
    if hits(b, a) && splittable(a.width as int) {
        seq![
            (translated(a.position, Vec2 { x: SCALE, y: SCALE }), half_tier(a.width as int) as i64),
            (translated(a.position, Vec2 { x: -1000i64, y: -1000i64 }), half_tier(a.width as int) as i64),
        ]
    } else {
        Seq::empty()
    }
}

/// The fragments produced by the strikes from the pair (asteroid `i`,
/// bullet `j`) on, in the order the pairs are tested: asteroid by asteroid,
/// and for each asteroid bullet by bullet.
pub open spec fn fragment_plan(a: Seq<Asteroid>, b: Seq<Bullet>, i: int, j: int) -> Seq<(Vec2, i64)>
    decreases a.len() - i, b.len() - j,
{
    if i < 0 || j < 0 || i >= a.len() {
        Seq::empty()
    } else if j >= b.len() {
        fragment_plan(a, b, i + 1, 0)
    } else {
        fragments_at(a[i], b[j]) + fragment_plan(a, b, i, j + 1)
    }
}

/// The asteroids after the bullet strikes: each one struck by a bullet is marked.
pub open spec fn mark_struck(asteroids: Seq<Asteroid>, bullets: Seq<Bullet>) -> Seq<Asteroid> {
    asteroids.map_values(
        |a: Asteroid| Asteroid { touched: a.touched || hit_by_any(a, bullets, bullets.len() as int), ..a },
    )
}

/// The bullets after the bullet strikes: each one that struck an asteroid is marked.
pub open spec fn mark_spent(bullets: Seq<Bullet>, asteroids: Seq<Asteroid>) -> Seq<Bullet> {
    bullets.map_values(
        |b: Bullet| Bullet { touched: b.touched || hits_any(b, asteroids, asteroids.len() as int), ..b },
    )
}

/// `new` is `old` after one tick under `commands`, with `facing` the ship's
/// facing vector, `elapsed` the frame time and `now` the clock. The steps, in
/// order: invincibility decay, asteroid drift, ship control, firing, bullet
/// flight (dropping those off screen), the asteroid pair sweep, the ship
/// sweep, bullet strikes with their fragments, removal of everything marked,
/// and, when the round ends (no shield, or no asteroid left), the emptying of
/// the field. Fragments head in random directions: of them the positions and
/// radii are fixed.
pub open spec fn ticked(
    old: Round,
    new: Round,
    commands: Commands,
    facing: Vec2,
    elapsed: int,
    now: int,
) -> bool {
    let screen = old.screen;
    let ship1 = Spaceship {
        invincibility_timer: decayed_timer(old.ship.invincibility_timer as int, elapsed) as i64,
        ..old.ship
    };
    let asteroids1 = old.asteroids@.map_values(|a: Asteroid| drifted(a, screen));
    let ship2 = driven(ship1, commands, facing, screen);
    let fires = commands.fire && now - old.last_shot > FIRE_COOLDOWN_MS;
    let bullets1 = if fires {
        old.bullets@.push(fired(ship2, facing))
    } else {
        old.bullets@
    };
    let bullets2 = bullets1.map_values(|b: Bullet| flown(b)).filter(
        |b: Bullet| !out_of(b.position, screen),
    );
    let asteroids2 = sweep_pairs(asteroids1, 0, 1);
    let swept = sweep_ship(ship2, asteroids2, 0);
    let ship3 = swept.0;
    let asteroids3 = swept.1;
    let marked = mark_struck(asteroids3, bullets2);
    let spent = mark_spent(bullets2, asteroids3);
    &&& new.ship == ship3
    &&& new.screen == screen
    &&& new.last_shot == if fires {
        now
    } else {
        old.last_shot as int
    }
    &&& exists|children: Seq<Asteroid>|
        #[trigger] shapes(children) == fragment_plan(
            asteroids3,
            bullets2,
            0,
            0,
        ) && (forall|c: int| 0 <= c < children.len() ==> fresh_fragment(#[trigger] children[c]))
            && {
            let remaining = (marked + children).filter(|a: Asteroid| !a.touched);
            if ship3.shield == 0 || remaining.len() == 0 {
                new.asteroids@.len() == 0 && new.bullets@.len() == 0
            } else {
                new.asteroids@ == remaining && new.bullets@ == spent.filter(|b: Bullet| !b.touched)
            }
        }
}

/// Everything a round owns: the ship, the asteroids, the bullets in flight,
/// the time of the last shot and the screen it is played on.
pub struct Round {
    pub ship: Spaceship,
    pub asteroids: Vec<Asteroid>,
    pub bullets: Vec<Bullet>,
    /// Milliseconds.
    pub last_shot: i64,
    pub screen: Screen,
}

impl Round {
    pub open spec fn wf(&self) -> bool {
        &&& self.screen.wf()
        &&& self.ship.wf()
        &&& forall|i: int| 0 <= i < self.asteroids.len() ==> (#[trigger] self.asteroids[i]).wf()
        &&& forall|j: int| 0 <= j < self.bullets.len() ==> (#[trigger] self.bullets[j]).wf()
        &&& 0 <= self.last_shot <= TIME_LIMIT
    }

    /// A fresh round: a new ship at the centre, the difficulty's asteroids
    /// near the edges, no bullets, and `now` as the time of the last shot.
    pub fn initialize_round(difficulty: Difficulty, screen: Screen, now: i64) -> (r: Round)
        requires
            screen.wf(),
            0 <= now <= TIME_LIMIT,
        ensures
            r.wf(),
            r.screen == screen,
            r.ship == Spaceship::new_spec(screen),
            r.asteroids.len() == asteroid_count(difficulty),
            forall|i: int| 0 <= i < r.asteroids.len() ==> spawned(#[trigger] r.asteroids[i], screen),
            r.bullets.len() == 0,
            r.last_shot == now,
    {
        let asteroids = create_asteroids(difficulty, screen);
        Round { ship: Spaceship::new(screen), asteroids, bullets: Vec::new(), last_shot: now, screen }
    }

    /// Turns the ship one step: right if asked, else left if asked.
    pub fn steer(&mut self, commands: Commands)
        requires
            old(self).wf(),
        ensures
            final(self).wf(),
            final(self).asteroids == old(self).asteroids,
            final(self).bullets == old(self).bullets,
            final(self).last_shot == old(self).last_shot,
            final(self).screen == old(self).screen,
            final(self).ship == (Spaceship {
                orientation: if commands.right {
                    crate::spaceship::turned(old(self).ship.orientation as int, 'R') as i64
                } else if commands.left {
                    crate::spaceship::turned(old(self).ship.orientation as int, 'L') as i64
                } else {
                    old(self).ship.orientation
                },
                ..old(self).ship
            }),
    {
        if commands.right {
            self.ship.set_orientation('R');
        } else if commands.left {
            self.ship.set_orientation('L');
        }
    }

    /// One tick of ship control: see [`driven`].
    pub fn drive_ship(&mut self, commands: Commands, facing: Vec2)
        requires
            old(self).wf(),
            is_facing(facing),
        ensures
            final(self).wf(),
            final(self).ship == driven(old(self).ship, commands, facing, old(self).screen),
            final(self).asteroids == old(self).asteroids,
            final(self).bullets == old(self).bullets,
            final(self).last_shot == old(self).last_shot,
            final(self).screen == old(self).screen,
    {
        if !commands.forward && !commands.reverse && !commands.left && !commands.right {
            self.ship.min_speed(facing);
        }
        let acc = crate::spaceship::thrust(commands, facing);
        self.ship.set_speed(acc);
        self.ship.move_object();
        self.ship.max_speed();
        self.ship.bound_pos(self.screen);
    }

    /// Fires a bullet along `facing` when asked and when more than the
    /// cooldown has passed since the last shot.
    pub fn fire_if_ready(&mut self, commands: Commands, facing: Vec2, now: i64)
        requires
            old(self).wf(),
            is_facing(facing),
            0 <= now <= TIME_LIMIT,
        ensures
            final(self).wf(),
            final(self).ship == old(self).ship,
            final(self).asteroids == old(self).asteroids,
            final(self).screen == old(self).screen,
            commands.fire && now - old(self).last_shot > FIRE_COOLDOWN_MS ==> final(self).bullets@
                == old(self).bullets@.push(fired(old(self).ship, facing)) && final(self).last_shot
                == now,
            !(commands.fire && now - old(self).last_shot > FIRE_COOLDOWN_MS) ==> final(self).bullets
                == old(self).bullets && final(self).last_shot == old(self).last_shot,
    {
        if commands.fire && now - self.last_shot > FIRE_COOLDOWN_MS {
            let b = self.ship.fire(facing);
            self.bullets.push(b);
            self.last_shot = now;
            assert(forall|j: int|
                0 <= j < self.bullets.len() ==> (#[trigger] self.bullets[j]).wf()) by {
                assert(forall|j: int|
                    0 <= j < old(self).bullets.len() ==> self.bullets[j] == old(self).bullets[j]);
            }
        }
    }

    /// One tick of drift for every asteroid: see [`drifted`].
    pub fn move_asteroids(&mut self)
        requires
            old(self).wf(),
        ensures
            final(self).wf(),
            final(self).asteroids@ == old(self).asteroids@.map_values(
                |a: Asteroid| drifted(a, old(self).screen),
            ),
            final(self).ship == old(self).ship,
            final(self).bullets == old(self).bullets,
            final(self).last_shot == old(self).last_shot,
            final(self).screen == old(self).screen,
    {
        let mut i: usize = 0;
        while i < self.asteroids.len()
            invariant
                self.wf(),
                i <= self.asteroids.len(),
                self.asteroids.len() == old(self).asteroids.len(),
                self.ship == old(self).ship,
                self.bullets == old(self).bullets,
                self.last_shot == old(self).last_shot,
                self.screen == old(self).screen,
                forall|k: int|
                    0 <= k < i ==> #[trigger] self.asteroids[k] == drifted(
                        old(self).asteroids[k],
                        self.screen,
                    ),
                forall|k: int|
                    i <= k < self.asteroids.len() ==> #[trigger] self.asteroids[k]
                        == old(self).asteroids[k],
            decreases self.asteroids.len() - i,
        {
            let mut a = self.asteroids[i];
            a.set_collision(false);
            a.move_object();
            a.bound_pos(self.screen);
            self.asteroids.set(i, a);
            i = i + 1;
        }
        assert(self.asteroids@ =~= old(self).asteroids@.map_values(
            |a: Asteroid| drifted(a, old(self).screen),
        ));
    }

    /// One tick of flight for every bullet; those that leave the screen are dropped.
    pub fn move_bullets(&mut self)
        requires
            old(self).wf(),
        ensures
            final(self).wf(),
            final(self).bullets@ == old(self).bullets@.map_values(|b: Bullet| flown(b)).filter(
                |b: Bullet| !out_of(b.position, old(self).screen),
            ),
            final(self).ship == old(self).ship,
            final(self).asteroids == old(self).asteroids,
            final(self).last_shot == old(self).last_shot,
            final(self).screen == old(self).screen,
    {
        let mut i: usize = 0;
        while i < self.bullets.len()
            invariant
                self.wf(),
                i <= self.bullets.len(),
                self.bullets.len() == old(self).bullets.len(),
                self.ship == old(self).ship,
                self.asteroids == old(self).asteroids,
                self.last_shot == old(self).last_shot,
                self.screen == old(self).screen,
                forall|k: int| 0 <= k < i ==> #[trigger] self.bullets[k] == flown(old(self).bullets[k]),
                forall|k: int|
                    i <= k < self.bullets.len() ==> #[trigger] self.bullets[k]
                        == old(self).bullets[k],
            decreases self.bullets.len() - i,
        {
            let mut b = self.bullets[i];
            b.move_object();
            self.bullets.set(i, b);
            i = i + 1;
        }
        let ghost moved = self.bullets@;
        assert(moved =~= old(self).bullets@.map_values(|b: Bullet| flown(b)));
        let screen = self.screen;
        let ghost pred = |b: Bullet| !out_of(b.position, screen);
        let mut kept: Vec<Bullet> = Vec::new();
        let mut j: usize = 0;
        while j < self.bullets.len()
            invariant
                self.wf(),
                j <= self.bullets.len(),
                self.bullets@ == moved,
                screen == old(self).screen,
                pred == (|x: Bullet| !out_of(x.position, screen)),
                self.screen == old(self).screen,
                self.ship == old(self).ship,
                self.asteroids == old(self).asteroids,
                self.last_shot == old(self).last_shot,
                kept@ == moved.subrange(0, j as int).filter(pred),
                forall|k: int| 0 <= k < kept.len() ==> (#[trigger] kept[k]).wf(),
            decreases self.bullets.len() - j,
        {
            let b = self.bullets[j];
            proof {
                assert(moved.subrange(0, j + 1) =~= moved.subrange(0, j as int).push(b));
                moved.subrange(0, j as int).lemma_filter_push(b, pred);
            }
            let out = b.is_out(screen);
            if !out {
                kept.push(b);
            }
            j = j + 1;
        }
        assert(moved.subrange(0, moved.len() as int) =~= moved);
        self.bullets = kept;
    }

    /// Every pair of asteroids `i < j`, in order, is tested and, on overlap,
    /// pushed apart and bounced (see [`Asteroid::collided`] and [`sweep_pairs`]).
    pub fn collide_asteroids(&mut self)
        requires
            old(self).wf(),
        ensures
            final(self).wf(),
            final(self).asteroids@ == sweep_pairs(old(self).asteroids@, 0, 1),
            final(self).asteroids.len() == old(self).asteroids.len(),
            forall|k: int|
                0 <= k < final(self).asteroids.len() ==> (#[trigger] final(self).asteroids[k]).width
                    == old(self).asteroids[k].width && final(self).asteroids[k].touched == old(
                    self,
                ).asteroids[k].touched,
            final(self).ship == old(self).ship,
            final(self).bullets == old(self).bullets,
            final(self).last_shot == old(self).last_shot,
            final(self).screen == old(self).screen,
    {
        let ghost target = sweep_pairs(old(self).asteroids@, 0, 1);
        let n = self.asteroids.len();
        let mut i: usize = 0;
        while i < n
            invariant
                self.wf(),
                n == self.asteroids.len(),
                self.asteroids.len() == old(self).asteroids.len(),
                sweep_pairs(self.asteroids@, i as int, i + 1) == target,
                forall|k: int|
                    0 <= k < n ==> (#[trigger] self.asteroids[k]).width == old(self).asteroids[k].width
                        && self.asteroids[k].touched == old(self).asteroids[k].touched,
                self.ship == old(self).ship,
                self.bullets == old(self).bullets,
                self.last_shot == old(self).last_shot,
                self.screen == old(self).screen,
            decreases n - i,
        {
            let mut j: usize = i + 1;
            while j < n
                invariant
                    self.wf(),
                    i < n,
                    i < j,
                    sweep_pairs(self.asteroids@, i as int, j as int) == target,
                    n == self.asteroids.len(),
                    self.asteroids.len() == old(self).asteroids.len(),
                    forall|k: int|
                        0 <= k < n ==> (#[trigger] self.asteroids[k]).width == old(
                            self,
                        ).asteroids[k].width && self.asteroids[k].touched == old(
                            self,
                        ).asteroids[k].touched,
                    self.ship == old(self).ship,
                    self.bullets == old(self).bullets,
                    self.last_shot == old(self).last_shot,
                    self.screen == old(self).screen,
                decreases n - j,
            {
                let ghost before = self.asteroids@;
                let mut a1 = self.asteroids[i];
                let mut a2 = self.asteroids[j];
                a1.collided(&mut a2);
                self.asteroids.set(i, a1);
                self.asteroids.set(j, a2);
                assert(self.asteroids@ =~= collide_pair(before, i as int, j as int));
                j = j + 1;
            }
            i = i + 1;
        }
    }

    /// Every asteroid, in order, is tested against the ship (see
    /// [`Spaceship::collided`] and [`sweep_ship`]). The shield drops by at
    /// most one point, since the first hit opens the invincibility window,
    /// and not at all while the window is open.
    pub fn collide_ship(&mut self)
        requires
            old(self).wf(),
        ensures
            final(self).wf(),
            final(self).asteroids.len() == old(self).asteroids.len(),
            forall|k: int|
                0 <= k < final(self).asteroids.len() ==> (#[trigger] final(self).asteroids[k]).width
                    == old(self).asteroids[k].width && final(self).asteroids[k].touched == old(
                    self,
                ).asteroids[k].touched,
            final(self).ship.shield == old(self).ship.shield || final(self).ship.shield == old(
                self,
            ).ship.shield - 1,
            old(self).ship.invincibility_timer > 0 ==> final(self).ship.shield == old(
                self,
            ).ship.shield,
            final(self).ship.orientation == old(self).ship.orientation,
            (final(self).ship, final(self).asteroids@) == sweep_ship(
                old(self).ship,
                old(self).asteroids@,
                0,
            ),
            final(self).bullets == old(self).bullets,
            final(self).last_shot == old(self).last_shot,
            final(self).screen == old(self).screen,
    {
        let ghost target = sweep_ship(old(self).ship, old(self).asteroids@, 0);
        let n = self.asteroids.len();
        let mut i: usize = 0;
        while i < n
            invariant
                self.wf(),
                n == self.asteroids.len(),
                self.asteroids.len() == old(self).asteroids.len(),
                forall|k: int|
                    0 <= k < n ==> (#[trigger] self.asteroids[k]).width == old(self).asteroids[k].width
                        && self.asteroids[k].touched == old(self).asteroids[k].touched,
                self.ship.shield == old(self).ship.shield || (self.ship.shield == old(
                    self,
                ).ship.shield - 1 && self.ship.invincibility_timer > 0),
                old(self).ship.invincibility_timer > 0 ==> self.ship.shield == old(
                    self,
                ).ship.shield && self.ship.invincibility_timer > 0,
                self.ship.orientation == old(self).ship.orientation,
                sweep_ship(self.ship, self.asteroids@, i as int) == target,
                self.bullets == old(self).bullets,
                self.last_shot == old(self).last_shot,
                self.screen == old(self).screen,
            decreases n - i,
        {
            let ghost before = self.asteroids@;
            let ghost ship0 = self.ship;
            let mut a = self.asteroids[i];
            let hit = self.ship.collided(&mut a);
            self.asteroids.set(i, a);
            proof {
                if hit {
                    assert(self.asteroids@ =~= before.update(i as int, a));
                } else {
                    assert(self.asteroids@ =~= before);
                }
                assert(sweep_ship(ship0, before, i as int) == sweep_ship(
                    self.ship,
                    self.asteroids@,
                    i + 1,
                ));
            }
            i = i + 1;
        }
    }

    /// Every asteroid, in order, is tested against every bullet (see
    /// [`Bullet::collided`]): on a hit both are marked for removal and an
    /// asteroid of radius 50 or 25 yields two fragments (see [`divide`]),
    /// which are returned and take no part in this tick's tests.
    pub fn bullet_hits(&mut self) -> (children: Vec<Asteroid>)
        requires
            old(self).wf(),
        ensures
            final(self).wf(),
            final(self).asteroids.len() == old(self).asteroids.len(),
            final(self).bullets.len() == old(self).bullets.len(),
            forall|k: int|
                0 <= k < final(self).asteroids.len() ==> #[trigger] final(self).asteroids[k] == (
                Asteroid {
                    touched: old(self).asteroids[k].touched || hit_by_any(
                        old(self).asteroids[k],
                        old(self).bullets@,
                        old(self).bullets.len() as int,
                    ),
                    ..old(self).asteroids[k]
                }),
            forall|j: int|
                0 <= j < final(self).bullets.len() ==> #[trigger] final(self).bullets[j] == (Bullet {
                    touched: old(self).bullets[j].touched || hits_any(
                        old(self).bullets[j],
                        old(self).asteroids@,
                        old(self).asteroids.len() as int,
                    ),
                    ..old(self).bullets[j]
                }),
            shapes(children@) == fragment_plan(
                old(self).asteroids@,
                old(self).bullets@,
                0,
                0,
            ),
            forall|c: int| 0 <= c < children.len() ==> fresh_fragment(#[trigger] children[c]),
            final(self).ship == old(self).ship,
            final(self).last_shot == old(self).last_shot,
            final(self).screen == old(self).screen,
    {
        let ghost a0 = old(self).asteroids@;
        let ghost b0 = old(self).bullets@;
        let na = self.asteroids.len();
        let nb = self.bullets.len();
        let mut children: Vec<Asteroid> = Vec::new();
        let mut i: usize = 0;
        while i < na
            invariant
                self.wf(),
                i <= na,
                na == self.asteroids.len(),
                nb == self.bullets.len(),
                a0 == old(self).asteroids@,
                b0 == old(self).bullets@,
                na == a0.len(),
                nb == b0.len(),
                forall|k: int|
                    0 <= k < i ==> #[trigger] self.asteroids[k] == (Asteroid {
                        touched: a0[k].touched || hit_by_any(a0[k], b0, nb as int),
                        ..a0[k]
                    }),
                forall|k: int| i <= k < na ==> #[trigger] self.asteroids[k] == a0[k],
                forall|j: int|
                    0 <= j < nb ==> #[trigger] self.bullets[j] == (Bullet {
                        touched: b0[j].touched || hits_any(b0[j], a0, i as int),
                        ..b0[j]
                    }),
                forall|c: int| 0 <= c < children.len() ==> fresh_fragment(#[trigger] children[c]),
                children@.map_values(|c: Asteroid| shape(c)) + fragment_plan(a0, b0, i as int, 0)
                    == fragment_plan(a0, b0, 0, 0),
                self.ship == old(self).ship,
                self.last_shot == old(self).last_shot,
                self.screen == old(self).screen,
            decreases na - i,
        {
            let mut j: usize = 0;
            while j < nb
                invariant
                    self.wf(),
                    i < na,
                    j <= nb,
                    na == self.asteroids.len(),
                    nb == self.bullets.len(),
                    a0 == old(self).asteroids@,
                    b0 == old(self).bullets@,
                    na == a0.len(),
                    nb == b0.len(),
                    forall|k: int|
                        0 <= k < i ==> #[trigger] self.asteroids[k] == (Asteroid {
                            touched: a0[k].touched || hit_by_any(a0[k], b0, nb as int),
                            ..a0[k]
                        }),
                    self.asteroids[i as int] == (Asteroid {
                        touched: a0[i as int].touched || hit_by_any(a0[i as int], b0, j as int),
                        ..a0[i as int]
                    }),
                    forall|k: int| i < k < na ==> #[trigger] self.asteroids[k] == a0[k],
                    forall|l: int|
                        0 <= l < j ==> #[trigger] self.bullets[l] == (Bullet {
                            touched: b0[l].touched || hits_any(b0[l], a0, i + 1),
                            ..b0[l]
                        }),
                    forall|l: int|
                        j <= l < nb ==> #[trigger] self.bullets[l] == (Bullet {
                            touched: b0[l].touched || hits_any(b0[l], a0, i as int),
                            ..b0[l]
                        }),
                    forall|c: int| 0 <= c < children.len() ==> fresh_fragment(#[trigger] children[c]),
                    children@.map_values(|c: Asteroid| shape(c)) + fragment_plan(
                        a0,
                        b0,
                        i as int,
                        j as int,
                    ) == fragment_plan(a0, b0, 0, 0),
                    self.ship == old(self).ship,
                    self.last_shot == old(self).last_shot,
                    self.screen == old(self).screen,
                decreases nb - j,
            {
                let mut a = self.asteroids[i];
                let mut b = self.bullets[j];
                let ghost ai = a0[i as int];
                let ghost bj = b0[j as int];
                let ghost before = children@;
                let hit = b.collided(&mut a);
                assert(hit == hits(bj, ai));
                if hit && a.width > ASTEROID_MIN_SIZE {
                    match divide(a.position, a.width) {
                        Ok((c1, c2)) => {
                            children.push(c1);
                            children.push(c2);
                        },
                        Err(_) => {},
                    }
                }
                self.asteroids.set(i, a);
                self.bullets.set(j, b);
                proof {
                    assert(hit ==> hits(b0[j as int], a0[i as int]));
                    assert(hit_by_any(ai, b0, j + 1) == (hit_by_any(ai, b0, j as int) || hit));
                    assert(hits_any(bj, a0, i + 1) == (hits_any(bj, a0, i as int) || hit));
                    let fr = fragments_at(ai, bj);
                    let sb = before.map_values(|c: Asteroid| shape(c));
                    let sa = children@.map_values(|c: Asteroid| shape(c));
                    assert(sa =~= sb + fr);
                    assert(fragment_plan(a0, b0, i as int, j as int) == fr + fragment_plan(
                        a0,
                        b0,
                        i as int,
                        j + 1,
                    ));
                    assert(sa + fragment_plan(a0, b0, i as int, j + 1) =~= sb + (fr
                        + fragment_plan(a0, b0, i as int, j + 1)));
                    assert forall|c: int| 0 <= c < children.len() implies fresh_fragment(
                        #[trigger] children[c],
                    ) by {
                        if c < before.len() {
                            assert(children[c] == before[c]);
                        }
                    }
                }
                j = j + 1;
            }
            proof {
                assert forall|l: int| 0 <= l < nb implies hits_any(b0[l], a0, i + 1) == (hits_any(b0[l], a0, i as int) || hits(b0[l], a0[i as int])) by {}
            }
            i = i + 1;
        }
        children
    }

    /// Appends the fragments to the asteroids, then removes every asteroid
    /// and every bullet marked for removal, keeping the order of the rest.
    pub fn cull(&mut self, children: Vec<Asteroid>)
        requires
            old(self).wf(),
            forall|c: int| 0 <= c < children.len() ==> (#[trigger] children[c]).wf(),
        ensures
            final(self).wf(),
            final(self).asteroids@ == (old(self).asteroids@ + children@).filter(
                |a: Asteroid| !a.touched,
            ),
            final(self).bullets@ == old(self).bullets@.filter(|b: Bullet| !b.touched),
            forall|k: int|
                0 <= k < final(self).asteroids.len() ==> !(#[trigger] final(self).asteroids[k]).touched,
            forall|j: int|
                0 <= j < final(self).bullets.len() ==> !(#[trigger] final(self).bullets[j]).touched,
            final(self).ship == old(self).ship,
            final(self).last_shot == old(self).last_shot,
            final(self).screen == old(self).screen,
    {
        let ghost all = old(self).asteroids@ + children@;
        let ghost keep_a = |a: Asteroid| !a.touched;
        let ghost keep_b = |b: Bullet| !b.touched;
        let mut kept: Vec<Asteroid> = Vec::new();
        let mut i: usize = 0;
        let na = self.asteroids.len();
        while i < na
            invariant
                i <= na,
                na == self.asteroids.len(),
                self.asteroids == old(self).asteroids,
                all == old(self).asteroids@ + children@,
                keep_a == (|a: Asteroid| !a.touched),
                kept@ == all.subrange(0, i as int).filter(keep_a),
                forall|k: int| 0 <= k < kept.len() ==> (#[trigger] kept[k]).wf(),
                forall|k: int| 0 <= k < na ==> (#[trigger] self.asteroids[k]).wf(),
            decreases na - i,
        {
            let a = self.asteroids[i];
            proof {
                assert(all.subrange(0, i + 1) =~= all.subrange(0, i as int).push(a));
                all.subrange(0, i as int).lemma_filter_push(a, keep_a);
            }
            if !a.touched {
                kept.push(a);
            }
            i = i + 1;
        }
        let mut c: usize = 0;
        while c < children.len()
            invariant
                c <= children.len(),
                na == old(self).asteroids.len(),
                all == old(self).asteroids@ + children@,
                keep_a == (|a: Asteroid| !a.touched),
                kept@ == all.subrange(0, na + c).filter(keep_a),
                forall|k: int| 0 <= k < kept.len() ==> (#[trigger] kept[k]).wf(),
                forall|k: int| 0 <= k < children.len() ==> (#[trigger] children[k]).wf(),
            decreases children.len() - c,
        {
            let a = children[c];
            proof {
                assert(all[na + c] == a);
                assert(all.subrange(0, na + c + 1) =~= all.subrange(0, na + c).push(a));
                all.subrange(0, na + c).lemma_filter_push(a, keep_a);
            }
            if !a.touched {
                kept.push(a);
            }
            c = c + 1;
        }
        assert(all.subrange(0, all.len() as int) =~= all);
        assert forall|k: int| 0 <= k < kept.len() implies !(#[trigger] kept[k]).touched by {
            all.lemma_filter_pred(keep_a, k);
        }
        self.asteroids = kept;

        let mut kept_b: Vec<Bullet> = Vec::new();
        let mut j: usize = 0;
        let ghost b0 = self.bullets@;
        while j < self.bullets.len()
            invariant
                j <= self.bullets.len(),
                self.bullets@ == b0,
                b0 == old(self).bullets@,
                keep_b == (|b: Bullet| !b.touched),
                kept_b@ == b0.subrange(0, j as int).filter(keep_b),
                forall|k: int| 0 <= k < kept_b.len() ==> (#[trigger] kept_b[k]).wf(),
                forall|k: int| 0 <= k < self.bullets.len() ==> (#[trigger] self.bullets[k]).wf(),
            decreases self.bullets.len() - j,
        {
            let b = self.bullets[j];
            proof {
                assert(b0.subrange(0, j + 1) =~= b0.subrange(0, j as int).push(b));
                b0.subrange(0, j as int).lemma_filter_push(b, keep_b);
            }
            if !b.touched {
                kept_b.push(b);
            }
            j = j + 1;
        }
        assert(b0.subrange(0, b0.len() as int) =~= b0);
        assert forall|k: int| 0 <= k < kept_b.len() implies !(#[trigger] kept_b[k]).touched by {
            b0.lemma_filter_pred(keep_b, k);
        }
        self.bullets = kept_b;
    }

    /// One tick of the round. The ship must already have been steered for
    /// this frame (see [`Round::steer`]) and `facing` must be the facing
    /// vector of its orientation now. In order: invincibility decay, asteroid
    /// drift, ship control, firing, bullet flight, asteroid–asteroid
    /// collisions, ship–asteroid collisions, bullet strikes, removal of what
    /// was hit, and the end-of-round check. A finished round is emptied of
    /// asteroids and bullets.
    pub fn tick(&mut self, commands: Commands, facing: Vec2, elapsed: i64, now: i64) -> (r: Outcome)
        requires
            old(self).wf(),
            is_facing(facing),
            0 <= elapsed <= ELAPSED_LIMIT,
            0 <= now <= TIME_LIMIT,
        ensures
            final(self).wf(),
            r == outcome_of(final(self).ship.shield as int, final(self).asteroids.len() as int),
            r == Outcome::Lost <==> final(self).ship.shield == 0,
            r != Outcome::InProgress ==> final(self).asteroids.len() == 0
                && final(self).bullets.len() == 0,
            final(self).ship.shield == old(self).ship.shield || final(self).ship.shield == old(
                self,
            ).ship.shield - 1,
            old(self).ship.invincibility_timer > elapsed ==> final(self).ship.shield == old(
                self,
            ).ship.shield,
            forall|k: int|
                0 <= k < final(self).asteroids.len() ==> !(#[trigger] final(self).asteroids[k]).touched,
            forall|j: int|
                0 <= j < final(self).bullets.len() ==> !(#[trigger] final(self).bullets[j]).touched,
            final(self).screen == old(self).screen,
            ticked(*old(self), *final(self), commands, facing, elapsed as int, now as int),
    {
        self.ship.decay_invincibility(elapsed);
        self.move_asteroids();
        self.drive_ship(commands, facing);
        self.fire_if_ready(commands, facing, now);
        self.move_bullets();
        self.collide_asteroids();
        self.collide_ship();
        let ghost asteroids3 = self.asteroids@;
        let ghost bullets2 = self.bullets@;
        let children = self.bullet_hits();
        proof {
            assert(self.asteroids@ =~= mark_struck(asteroids3, bullets2));
            assert(self.bullets@ =~= mark_spent(bullets2, asteroids3));
        }
        let ghost kids = children@;
        self.cull(children);
        if self.ship.shield == 0 {
            self.asteroids = Vec::new();
            self.bullets = Vec::new();
            Outcome::Lost
        } else if self.asteroids.len() == 0 {
            self.bullets = Vec::new();
            Outcome::Won
        } else {
            Outcome::InProgress
        }
    }
}

} // verus!
