use asteroids::asteroid::{spawn_position, Asteroid, ASTEROID_INIT_SIZE};
use asteroids::random::direction_candidate;
use asteroids::bullet::Bullet;
use asteroids::game::{create_asteroids, divide, Difficulty, Outcome, Round};
use asteroids::geometry::{bound_to, ceil_sqrt, contact, mul_div, wrap, Screen, Vec2, SCALE};
use asteroids::spaceship::{thrust, Commands, Spaceship};

fn screen() -> Screen {
    Screen::from_pixels(800, 600)
}

fn asteroid_at(x: i64, y: i64, width: i64) -> Asteroid {
    Asteroid {
        position: Vec2::new(x, y),
        speed: Vec2::new(SCALE, 0),
        width,
        collided: false,
        touched: false,
    }
}

fn bullet_at(x: i64, y: i64) -> Bullet {
    Bullet::new(Vec2::new(x, y), Vec2::new(0, -4 * SCALE))
}

fn round_with(asteroids: Vec<Asteroid>, bullets: Vec<Bullet>) -> Round {
    let screen = screen();
    Round { ship: Spaceship::new(screen), asteroids, bullets, last_shot: 0, screen }
}

fn no_commands() -> Commands {
    Commands { left: false, right: false, forward: false, reverse: false, fire: false }
}

fn in_edge_band(p: Vec2, s: Screen) -> bool {
    let lo = 25 * SCALE;
    let hi = 50 * SCALE;
    let across_x = 0 <= p.x && p.x <= s.width;
    let across_y = 0 <= p.y && p.y <= s.height;
    (lo <= p.y && p.y <= hi && across_x)
        || (s.width - hi <= p.x && p.x <= s.width - lo && across_y)
        || (s.height - hi <= p.y && p.y <= s.height - lo && across_x)
        || (lo <= p.x && p.x <= hi && across_y)
}

#[test]
fn division_asteroide() {
    let (a1, a2) = divide(Vec2::new(0, 0), 50).unwrap();
    assert_eq!(a1.get_width(), 25);
    assert_eq!(a2.get_width(), 25);
}

#[test]
fn split_full_size_offsets_fragments() {
    let (a1, a2) = divide(Vec2::new(100 * SCALE, 200 * SCALE), 50).unwrap();
    assert_eq!(a1.get_position(), Vec2::new(101 * SCALE, 201 * SCALE));
    assert_eq!(a2.get_position(), Vec2::new(99 * SCALE, 199 * SCALE));
    assert!(!a1.get_touched() && !a2.get_touched());
}

#[test]
fn split_mid_size_gives_smallest() {
    let (a1, a2) = divide(Vec2::new(0, 0), 25).unwrap();
    assert_eq!(a1.get_width(), 15);
    assert_eq!(a2.get_width(), 15);
}

#[test]
fn split_smallest_is_refused() {
    assert!(divide(Vec2::new(0, 0), 15).is_err());
    assert!(divide(Vec2::new(0, 0), 40).is_err());
}

#[test]
fn wrap_rule_on_each_side() {
    assert_eq!(bound_to(-5, 100), 105);
    assert_eq!(bound_to(105, 100), 5);
    assert_eq!(bound_to(50, 100), 50);
    assert_eq!(bound_to(0, 100), 0);
    assert_eq!(bound_to(100, 100), 100);
    let s = screen();
    let p = wrap(Vec2::new(-1000, 601 * SCALE), s);
    assert_eq!(p, Vec2::new(801 * SCALE, SCALE));
}

#[test]
fn contact_pushes_half_the_overlap() {
    // radii 50 + 50, centres 60 px apart: 40 px of overlap, 20 px each way
    let c = contact(Vec2::new(0, 0), Vec2::new(60 * SCALE, 0), 100 * SCALE).unwrap();
    assert_eq!(c, Vec2::new(20 * SCALE, 0));
    // a 3-4-5 triangle: distance 50 px, overlap 50 px, push 25 px along (3, 4)/5
    let c = contact(Vec2::new(0, 0), Vec2::new(30 * SCALE, 40 * SCALE), 100 * SCALE).unwrap();
    assert_eq!(c, Vec2::new(15 * SCALE, 20 * SCALE));
    assert!(contact(Vec2::new(0, 0), Vec2::new(100 * SCALE, 0), 100 * SCALE).is_none());
}

#[test]
fn contact_with_coincident_centres_uses_x_axis() {
    let c = contact(Vec2::new(5, 5), Vec2::new(5, 5), 40 * SCALE).unwrap();
    assert_eq!(c, Vec2::new(20 * SCALE, 0));
}

#[test]
fn asteroid_collision_is_symmetric() {
    let mut a = asteroid_at(100 * SCALE, 100 * SCALE, 50);
    let mut b = asteroid_at(160 * SCALE, 100 * SCALE, 50);
    assert!(a.collided(&mut b));
    assert_eq!(a.get_position(), Vec2::new(80 * SCALE, 100 * SCALE));
    assert_eq!(b.get_position(), Vec2::new(180 * SCALE, 100 * SCALE));
    assert_eq!(a.get_speed(), Vec2::new(-SCALE, 0));
    assert_eq!(b.get_speed(), Vec2::new(-SCALE, 0));
    let moved_a = 100 * SCALE - a.get_position().x;
    let moved_b = b.get_position().x - 160 * SCALE;
    assert_eq!(moved_a + moved_b, 40 * SCALE);
}

#[test]
fn ship_loses_one_point_per_hurtable_hit() {
    let mut ship = Spaceship::new(screen());
    ship.handle_collision(Vec2::new(0, 0));
    assert_eq!(ship.get_shield(), 9);
    assert_eq!(ship.get_invicibility(), 1000);
    ship.handle_collision(Vec2::new(0, 0));
    assert_eq!(ship.get_shield(), 9);
    ship.decay_invincibility(1000);
    ship.handle_collision(Vec2::new(0, 0));
    assert_eq!(ship.get_shield(), 8);
}

#[test]
fn ship_bounce_is_damped() {
    let mut ship = Spaceship::new(screen());
    ship.speed = Vec2::new(1000, -500);
    ship.bounce();
    assert_eq!(ship.get_speed(), Vec2::new(-800, 400));
    ship.speed = Vec2::new(-7, 0);
    ship.bounce();
    assert_eq!(ship.get_speed(), Vec2::new(5, 0));
}

#[test]
fn invincibility_decays_then_stops() {
    let mut ship = Spaceship::new(screen());
    ship.init_invicibility();
    ship.decay_invincibility(16);
    assert_eq!(ship.get_invicibility(), 984);
    ship.decay_invincibility(990);
    assert_eq!(ship.get_invicibility(), -6);
    ship.decay_invincibility(16);
    assert_eq!(ship.get_invicibility(), -6);
}

#[test]
fn idle_ship_slows_down_gradually() {
    let mut ship = Spaceship::new(screen());
    ship.min_speed(Vec2::new(0, -SCALE));
    assert_eq!(ship.get_speed(), Vec2::new(0, -698));
}

#[test]
fn idle_ship_never_stops() {
    let mut ship = Spaceship::new(screen());
    ship.speed = Vec2::new(0, 0);
    ship.min_speed(Vec2::new(0, -SCALE));
    assert_eq!(ship.get_speed(), Vec2::new(0, -500));
    ship.speed = Vec2::new(0, -460);
    ship.min_speed(Vec2::new(0, -SCALE));
    assert_eq!(ship.get_speed(), Vec2::new(0, -460));
}

#[test]
fn speed_is_clamped_per_axis() {
    let mut ship = Spaceship::new(screen());
    ship.speed = Vec2::new(5000, -4000);
    ship.max_speed();
    assert_eq!(ship.get_speed(), Vec2::new(3000, -3000));
}

#[test]
fn thrust_is_stronger_forward() {
    let facing = Vec2::new(0, -SCALE);
    let mut c = no_commands();
    c.forward = true;
    assert_eq!(thrust(c, facing), Vec2::new(0, -33));
    c.forward = false;
    c.reverse = true;
    assert_eq!(thrust(c, facing), Vec2::new(0, 25));
    assert_eq!(thrust(no_commands(), facing), Vec2::new(0, 0));
}

#[test]
fn steering_turns_by_a_fixed_step() {
    let mut ship = Spaceship::new(screen());
    ship.set_orientation('R');
    assert_eq!(ship.get_orientation(), 30);
    ship.set_orientation('L');
    ship.set_orientation('L');
    assert_eq!(ship.get_orientation(), -30);
}

#[test]
fn firing_spawns_bullet_ahead_of_ship() {
    let mut ship = Spaceship::new(screen());
    ship.position = Vec2::new(100 * SCALE, 100 * SCALE);
    let b = ship.fire(Vec2::new(0, -SCALE));
    assert_eq!(b.get_position(), Vec2::new(100 * SCALE, 87_500));
    assert_eq!(b.get_speed(), Vec2::new(0, -4 * SCALE));
    assert_eq!(b.get_size(), 5);
}

#[test]
fn firing_respects_cooldown() {
    let mut round = round_with(vec![], vec![]);
    let mut c = no_commands();
    c.fire = true;
    round.fire_if_ready(c, Vec2::new(0, -SCALE), 500);
    assert_eq!(round.bullets.len(), 0);
    round.fire_if_ready(c, Vec2::new(0, -SCALE), 501);
    assert_eq!(round.bullets.len(), 1);
    assert_eq!(round.last_shot, 501);
    round.fire_if_ready(c, Vec2::new(0, -SCALE), 900);
    assert_eq!(round.bullets.len(), 1);
}

#[test]
fn bullets_leaving_screen_are_dropped() {
    let mut round = round_with(vec![], vec![bullet_at(10 * SCALE, 2 * SCALE), bullet_at(10 * SCALE, 300 * SCALE)]);
    round.move_bullets();
    assert_eq!(round.bullets.len(), 1);
    assert_eq!(round.bullets[0].get_position(), Vec2::new(10 * SCALE, 296 * SCALE));
    assert!(Bullet::new(Vec2::new(-1, 0), Vec2::new(0, 0)).is_out(screen()));
    assert!(!Bullet::new(Vec2::new(0, 0), Vec2::new(0, 0)).is_out(screen()));
}

#[test]
fn easy_round_has_three_full_size_asteroids_near_edges() {
    let s = screen();
    let round = Round::initialize_round(Difficulty::Easy, s, 0);
    assert_eq!(round.asteroids.len(), 3);
    for a in round.asteroids.iter() {
        assert_eq!(a.get_width(), ASTEROID_INIT_SIZE);
        assert!(in_edge_band(a.get_position(), s));
    }
    assert_eq!(round.ship.get_shield(), 10);
    assert_eq!(create_asteroids(Difficulty::Medium, s).len(), 6);
    assert_eq!(create_asteroids(Difficulty::Hard, s).len(), 10);
}

#[test]
fn spawns_are_random_and_unit_speed() {
    let s = screen();
    let asteroids = create_asteroids(Difficulty::Hard, s);
    let first = asteroids[0].get_position();
    assert!(asteroids.iter().any(|a| a.get_position() != first));
    for a in asteroids.iter() {
        let v = a.get_speed();
        let n = v.x * v.x + v.y * v.y;
        assert!(990 * 990 <= n && n <= SCALE * SCALE);
    }
}

#[test]
fn bullet_destroys_smallest_asteroid_without_split() {
    let mut round = round_with(vec![asteroid_at(100 * SCALE, 100 * SCALE, 15)], vec![bullet_at(110 * SCALE, 100 * SCALE)]);
    let children = round.bullet_hits();
    assert!(round.asteroids[0].get_touched());
    assert!(round.bullets[0].get_touched());
    assert_eq!(children.len(), 0);
}

#[test]
fn bullet_splits_mid_asteroid_into_two_smallest() {
    let mut round = round_with(vec![asteroid_at(100 * SCALE, 100 * SCALE, 25)], vec![bullet_at(100 * SCALE, 120 * SCALE)]);
    let children = round.bullet_hits();
    assert!(round.asteroids[0].get_touched());
    assert!(round.bullets[0].get_touched());
    assert_eq!(children.len(), 2);
    assert!(children.iter().all(|c| c.get_width() == 15 && !c.get_touched()));
    round.cull(children);
    assert_eq!(round.asteroids.len(), 2);
    assert_eq!(round.bullets.len(), 0);
}

#[test]
fn bullet_far_away_hits_nothing() {
    let mut round = round_with(vec![asteroid_at(100 * SCALE, 100 * SCALE, 25)], vec![bullet_at(100 * SCALE, 130 * SCALE)]);
    let children = round.bullet_hits();
    assert!(!round.asteroids[0].get_touched());
    assert!(!round.bullets[0].get_touched());
    assert_eq!(children.len(), 0);
}

#[test]
fn clearing_the_field_wins() {
    let mut round = round_with(vec![], vec![]);
    let outcome = round.tick(no_commands(), Vec2::new(0, -SCALE), 16, 1000);
    assert_eq!(outcome, Outcome::Won);
}

#[test]
fn losing_the_last_shield_point_loses() {
    let s = screen();
    let mut ship = Spaceship::new(s);
    ship.shield = 1;
    let centre = ship.position;
    // an asteroid parked on the ship, still there after its one-pixel drift
    let a = asteroid_at(centre.x, centre.y, 50);
    let mut round = Round { ship, asteroids: vec![a], bullets: vec![], last_shot: 0, screen: s };
    let outcome = round.tick(no_commands(), Vec2::new(0, -SCALE), 16, 1000);
    assert_eq!(outcome, Outcome::Lost);
    assert_eq!(round.ship.get_shield(), 0);
    assert_eq!(round.asteroids.len(), 0);
}

#[test]
fn round_in_progress_keeps_going() {
    let s = screen();
    let mut round = round_with(vec![asteroid_at(50 * SCALE, 50 * SCALE, 50)], vec![]);
    let outcome = round.tick(no_commands(), Vec2::new(0, -SCALE), 16, 1000);
    assert_eq!(outcome, Outcome::InProgress);
    assert_eq!(round.asteroids.len(), 1);
    assert_eq!(round.asteroids[0].get_position(), Vec2::new(51 * SCALE, 50 * SCALE));
    assert_eq!(round.ship.get_position(), Vec2::new(s.width / 2, s.height / 2 - 698));
}

#[test]
fn integer_helpers() {
    assert_eq!(ceil_sqrt(0), 0);
    assert_eq!(ceil_sqrt(1), 1);
    assert_eq!(ceil_sqrt(2), 2);
    assert_eq!(ceil_sqrt(4), 2);
    assert_eq!(ceil_sqrt(5), 3);
    assert_eq!(ceil_sqrt(1_000_000_000_000), 1_000_000);
    assert_eq!(mul_div(-7, 4, 5), -5);
    assert_eq!(mul_div(7, 4, 5), 5);
}

#[test]
fn spawn_position_from_draws() {
    let s = screen();
    assert_eq!(spawn_position(1, 30 * SCALE, 400 * SCALE, s), Vec2::new(400 * SCALE, 30 * SCALE));
    assert_eq!(spawn_position(2, 30 * SCALE, 100 * SCALE, s), Vec2::new(770 * SCALE, 100 * SCALE));
    assert_eq!(spawn_position(3, 50 * SCALE, 0, s), Vec2::new(0, 550 * SCALE));
    assert_eq!(spawn_position(4, 25 * SCALE, 600 * SCALE, s), Vec2::new(25 * SCALE, 600 * SCALE));
}

#[test]
fn direction_candidates_in_the_ring_only() {
    assert_eq!(direction_candidate(1000, 0), Some(Vec2::new(1000, 0)));
    assert_eq!(direction_candidate(-600, 800), Some(Vec2::new(-600, 800)));
    assert_eq!(direction_candidate(0, 980), None);
    assert_eq!(direction_candidate(0, 990), Some(Vec2::new(0, 990)));
    assert_eq!(direction_candidate(800, 800), None);
    assert_eq!(direction_candidate(2000, 0), None);
    assert_eq!(direction_candidate(i64::MIN, 0), None);
}

#[test]
fn split_fragments_sit_beside_the_parent() {
    let mut round = round_with(vec![asteroid_at(100 * SCALE, 100 * SCALE, 50)], vec![bullet_at(100 * SCALE, 120 * SCALE)]);
    let children = round.bullet_hits();
    assert_eq!(children.len(), 2);
    assert_eq!(children[0].get_position(), Vec2::new(101 * SCALE, 101 * SCALE));
    assert_eq!(children[1].get_position(), Vec2::new(99 * SCALE, 99 * SCALE));
    assert_eq!(children[0].get_width(), 25);
}

#[test]
fn spawned_asteroids_never_share_a_position() {
    let s = screen();
    for _ in 0..20 {
        let asteroids = create_asteroids(Difficulty::Hard, s);
        for i in 0..asteroids.len() {
            for j in 0..asteroids.len() {
                if i != j {
                    assert_ne!(asteroids[i].get_position(), asteroids[j].get_position());
                }
            }
        }
    }
}
