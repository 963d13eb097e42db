use crate::misc::{in_range, spec_box, Dimensions, Point, Rect, MAX_COORD};
use crate::projectile::{player_shot_velocity, spawned, Projectile, ProjectileSystem, ShotType};
use crate::timed_tracker::TimedTracker;
use vstd::prelude::*;

verus! {

/// A horizontal direction of motion.
#[derive(Clone, Copy, Debug, PartialEq, Eq, Structural)]
pub enum Direction {
    Left,
    Right,
}

impl Direction {
    /// -1 for left, +1 for right.
    pub open spec fn sign(self) -> int {
        match self {
            Direction::Left => -1,
            Direction::Right => 1,
        }
    }

    /// The opposite direction.
    pub open spec fn flipped(self) -> Direction {
        match self {
            Direction::Left => Direction::Right,
            Direction::Right => Direction::Left,
        }
    }

    /// The opposite direction.
    pub fn flip(&self) -> (r: Direction)
        ensures
            r == self.flipped(),
    {
        match self {
            Direction::Left => Direction::Right,
            Direction::Right => Direction::Left,
        }
    }
}

/// The player's base speed, per movement call.
pub const PLAYERS_SPEED_BASE: i64 = 25;
/// The boost bonus right after a boost.
pub const PLAYERS_SPEED_BOOST: i64 = 70;
/// How much of the boost bonus each movement call uses up.
pub const PLAYERS_SPEED_BOOST_DRAIN: i64 = 5;
/// The farthest the player moves in one movement call.
pub const PLAYER_MAX_STEP: i64 = PLAYERS_SPEED_BASE + PLAYERS_SPEED_BOOST;
/// Milliseconds between two shots.
pub const PLAYER_SHOT_INTERVAL: u64 = 500;
/// Milliseconds between two boosts.
pub const PLAYER_BOOST_INTERVAL: u64 = 1500;

/// The player's ship.
#[derive(Clone, Copy, Debug, PartialEq, Eq, Structural)]
pub struct Player {
    pub transform: Point,
    pub size: Dimensions,
    pub shot_tracker: TimedTracker,
    pub boost_tracker: TimedTracker,
    pub speed: i64,
    pub boosted_speed: i64,
}

/// The boost bonus after one movement call: it drains, never below zero.
pub open spec fn drained(b: int) -> int {
    if b > 0 {
        if b >= PLAYERS_SPEED_BOOST_DRAIN {
            b - PLAYERS_SPEED_BOOST_DRAIN
        } else {
            0
        }
    } else {
        b
    }
}

/// The player after one movement call in direction `d`.
pub open spec fn moved_player(p: Player, d: Direction) -> Player {
    Player {
        transform: Point {
            x: (p.transform.x + (p.speed + p.boosted_speed) * d.sign()) as i64,
            ..p.transform
        },
        boosted_speed: drained(p.boosted_speed as int) as i64,
        ..p
    }
}

/// The player after a boost request at `now`.
pub open spec fn boosted_player(p: Player, now: u64) -> Player {
    if p.boost_tracker.ready(now) {
        Player {
            boosted_speed: PLAYERS_SPEED_BOOST,
            boost_tracker: TimedTracker::tracked_at(p.boost_tracker, now),
            ..p
        }
    } else {
        p
    }
}

/// Where the player's shot starts: horizontally centred, at the player's top.
pub open spec fn shot_origin(p: Player) -> Point {
    Point { x: (p.transform.x + p.size.w / 2) as i64, y: p.transform.y }
}

impl Player {
    /// Valid size, base speed, and a boost bonus between zero and its maximum.
    pub open spec fn wf(&self) -> bool {
        &&& self.size.wf()
        &&& self.speed == PLAYERS_SPEED_BASE
        &&& 0 <= self.boosted_speed <= PLAYERS_SPEED_BOOST
    }

    /// The player's box lies within the accepted coordinate range.
    pub open spec fn fits(&self) -> bool {
        &&& in_range(self.transform.x as int)
        &&& in_range(self.transform.y as int)
        &&& in_range(self.transform.x + self.size.w)
    }

    /// The player's box, widened by one movement call on each side, lies
    /// within the accepted coordinate range.
    pub open spec fn fits_with_margin(&self) -> bool {
        &&& in_range(self.transform.x - PLAYER_MAX_STEP)
        &&& in_range(self.transform.y as int)
        &&& in_range(self.transform.x + self.size.w + PLAYER_MAX_STEP)
    }

    /// Whether the player, widened by one movement call on each side, lies
    /// within the accepted coordinate range.
    pub fn in_bounds(&self) -> (r: bool)
        ensures
            r == self.fits_with_margin(),
    {
        let x = self.transform.x as i128;
        let y = self.transform.y as i128;
        let m = MAX_COORD as i128;
        -m <= x - PLAYER_MAX_STEP as i128 && x - PLAYER_MAX_STEP as i128 <= m && -m <= y && y <= m
            && -m <= x + self.size.w as i128 + PLAYER_MAX_STEP as i128 && x + self.size.w as i128
            + PLAYER_MAX_STEP as i128 <= m
    }

    /// A player of size `size` at the origin, with no boost, whose cooldowns start at `now`.
    pub open spec fn new_spec(size: Dimensions, now: u64) -> Player {
        Player {
            transform: Point { x: 0, y: 0 },
            size,
            shot_tracker: TimedTracker::new_spec(PLAYER_SHOT_INTERVAL, now),
            boost_tracker: TimedTracker::new_spec(PLAYER_BOOST_INTERVAL, now),
            speed: PLAYERS_SPEED_BASE,
            boosted_speed: 0,
        }
    }

    /// A player of size `size` at the origin, with no boost, whose cooldowns start at `now`.
    pub fn new(size: Dimensions, now: u64) -> (p: Player)
        ensures
            p == Player::new_spec(size, now),
            p.shot_tracker.interval_ms() == PLAYER_SHOT_INTERVAL,
            p.shot_tracker.last_ms() == now,
            p.boost_tracker.interval_ms() == PLAYER_BOOST_INTERVAL,
            p.boost_tracker.last_ms() == now,
    {
        Player {
            transform: Point { x: 0, y: 0 },
            size,
            shot_tracker: TimedTracker::new(PLAYER_SHOT_INTERVAL, now),
            boost_tracker: TimedTracker::new(PLAYER_BOOST_INTERVAL, now),
            speed: PLAYERS_SPEED_BASE,
            boosted_speed: 0,
        }
    }

    /// Places the player at `(x, y)`.
    pub fn move_to(&mut self, x: i64, y: i64)
        ensures
            *final(self) == (Player { transform: Point { x, y }, ..*old(self) }),
    {
        self.transform = Point { x, y };
    }

    /// The horizontal centre of the player.
    pub fn center_x(&self) -> (r: i64)
        requires
            self.size.wf(),
            self.fits(),
        ensures
            r == shot_origin(*self).x,
    {
        self.transform.x + self.size.w / 2
    }

    /// The player's bounding box.
    pub fn bb(&self) -> (r: Rect)
        ensures
            r == spec_box(self.transform, self.size),
    {
        Rect { x: self.transform.x, y: self.transform.y, w: self.size.w, h: self.size.h }
    }

    /// Moves by base speed plus boost bonus in `direction`; the bonus then drains.
    pub fn move_player(&mut self, direction: Direction)
        requires
            old(self).wf(),
            in_range(old(self).transform.x as int),
        ensures
            *final(self) == moved_player(*old(self), direction),
            final(self).wf(),
    {
        let step = self.speed + self.boosted_speed;
        self.transform.x = match direction {
            Direction::Right => self.transform.x + step,
            Direction::Left => self.transform.x - step,
        };

        if self.boosted_speed > 0 {
            if self.boosted_speed >= PLAYERS_SPEED_BOOST_DRAIN {
                self.boosted_speed = self.boosted_speed - PLAYERS_SPEED_BOOST_DRAIN;
            } else {
                self.boosted_speed = 0;
            }
        }
    }

    /// Fires a shot of size `shot_size` into `projectile_system` if the shot
    /// cooldown allows it at `now`, and then restarts that cooldown.
    pub fn shoot(&mut self, now: u64, projectile_system: &mut ProjectileSystem, shot_size: Dimensions)
        requires
            old(self).wf(),
            old(self).fits(),
        ensures
            old(self).shot_tracker.ready(now) ==> final(projectile_system).slots() == spawned(
                old(projectile_system).slots(),
                Projectile {
                    shot_type: ShotType::PlayerShot,
                    transform: shot_origin(*old(self)),
                    velocity: player_shot_velocity(),
                    size: shot_size,
                },
            ) && *final(self) == (Player {
                shot_tracker: TimedTracker::tracked_at(old(self).shot_tracker, now),
                ..*old(self)
            }),
            !old(self).shot_tracker.ready(now) ==> *final(projectile_system) == *old(projectile_system)
                && *final(self) == *old(self),
            old(projectile_system).wf() && shot_size.wf() ==> final(projectile_system).wf(),
            old(projectile_system).fits() ==> final(projectile_system).fits(),
    {
        if !self.shot_tracker.can(now) {
            return;
        }

        let shot_from = Point { x: self.center_x(), y: self.transform.y };

        projectile_system.add_projectile(ShotType::PlayerShot, shot_from, shot_size);
        self.shot_tracker.track(now);
    }

    /// Sets the boost bonus to its maximum if the boost cooldown allows it at
    /// `now`, and then restarts that cooldown.
    pub fn boost(&mut self, now: u64)
        requires
            old(self).wf(),
        ensures
            *final(self) == boosted_player(*old(self), now),
            final(self).wf(),
    {
        if !self.boost_tracker.can(now) {
            return;
        }

        self.boosted_speed = PLAYERS_SPEED_BOOST;
        self.boost_tracker.track(now);
    }
}

/// The player after a sequence of movement calls, in order.
pub open spec fn moved_player_by(p: Player, ds: Seq<Direction>) -> Player
    decreases ds.len(),
{
    if ds.len() == 0 {
        p
    } else {
        moved_player(moved_player_by(p, ds.drop_last()), ds.last())
    }
}

/// With no boost in between, `n` movement calls leave a boost bonus `b` at
/// `max(0, b - n * drain)`.
pub proof fn lemma_boost_drain(p: Player, ds: Seq<Direction>)
    requires
        p.wf(),
    ensures
        moved_player_by(p, ds).wf(),
        moved_player_by(p, ds).boosted_speed == (if p.boosted_speed - ds.len()
            * PLAYERS_SPEED_BOOST_DRAIN > 0 {
            p.boosted_speed - ds.len() * PLAYERS_SPEED_BOOST_DRAIN
        } else {
            0
        }),
    decreases ds.len(),
{
    if ds.len() > 0 {
        lemma_boost_drain(p, ds.drop_last());
    }
}

} // verus!
