use crate::enemies::{
    advanced_grid, ends_game, fresh_slot, partly_advanced, EnemySystem, Grid, ENEMIES_PER_ROW,
    ENEMY_DIR_INTERVAL, ENEMY_ROWS,
};
use crate::misc::{spec_box, Dimensions, ScreenBounds, MAX_COORD, MAX_DT};
use crate::player::{
    boosted_player, moved_player, shot_origin, Direction, Player,
};
use crate::projectile::{
    player_shot_velocity, spawned, sweep, Projectile, ProjectileSystem, ShotType,
};
use crate::timed_tracker::TimedTracker;
use vstd::prelude::*;

verus! {

/// Distance from the screen's bottom to the player's starting position.
pub const PLAYER_BOTTOM_OFFSET: i64 = 1000;

/// The top-level phase of a game.
#[derive(Clone, Copy, Debug, PartialEq, Eq, Structural)]
pub enum GameState {
    Playing,
    Over,
}

/// What the player asks for in one frame.
#[derive(Clone, Copy, Debug, PartialEq, Eq, Structural)]
pub struct Intents {
    pub left: bool,
    pub right: bool,
    pub boost: bool,
    pub shoot: bool,
    pub force_end: bool,
}

/// The player after the steering intents: left if asked and not at the left
/// edge; else right if asked and not at the right edge.
pub open spec fn steered(p: Player, intents: Intents, screen_width: i64) -> Player {
    if intents.left && p.transform.x > 0 {
        moved_player(p, Direction::Left)
    } else if intents.right && p.transform.x < screen_width - p.size.w {
        moved_player(p, Direction::Right)
    } else {
        p
    }
}

/// The player after steering and, if asked, a boost at `now`.
pub open spec fn after_movement(p: Player, intents: Intents, screen_width: i64, now: u64) -> Player {
    if intents.boost {
        boosted_player(steered(p, intents, screen_width), now)
    } else {
        steered(p, intents, screen_width)
    }
}

/// Applies the movement and boost intents to `player` at time `now`.
pub fn process_player_movement(player: &mut Player, intents: &Intents, screen_width: i64, now: u64)
    requires
        old(player).wf(),
        old(player).fits_with_margin(),
    ensures
        *final(player) == after_movement(*old(player), *intents, screen_width, now),
        final(player).wf(),
        final(player).fits(),
{
    let left_bound: i64 = 0;
    let right_bound = screen_width as i128 - player.size.w as i128;

    if intents.left && player.transform.x > left_bound {
        player.move_player(Direction::Left);
    } else if intents.right && (player.transform.x as i128) < right_bound {
        player.move_player(Direction::Right);
    }

    if intents.boost {
        player.boost(now);
    }
}

/// The simulation state of one game.
pub struct Game {
    pub enemies: EnemySystem,
    pub player: Player,
    pub projectiles: ProjectileSystem,
    pub state: GameState,
    pub screen_bounds: ScreenBounds,
    pub shot_size: Dimensions,
}

impl Game {
    /// All parts are well formed.
    pub open spec fn wf(&self) -> bool {
        &&& self.enemies.wf()
        &&& self.player.wf()
        &&& self.projectiles.wf()
        &&& self.shot_size.wf()
    }

    /// All positions leave room for one more frame within the accepted range.
    pub open spec fn fits(&self) -> bool {
        &&& self.enemies.fits()
        &&& self.player.fits_with_margin()
        &&& self.projectiles.fits()
    }

    /// The player after this frame's movement and boost.
    pub open spec fn moved_player_at(&self, intents: Intents, now: u64) -> Player {
        after_movement(self.player, intents, self.screen_bounds.width, now)
    }

    /// Whether a shot leaves this frame.
    pub open spec fn fires(&self, intents: Intents, now: u64) -> bool {
        intents.shoot && self.moved_player_at(intents, now).shot_tracker.ready(now)
    }

    /// The player at the end of this frame.
    pub open spec fn next_player(&self, intents: Intents, now: u64) -> Player {
        let p = self.moved_player_at(intents, now);
        if self.fires(intents, now) {
            Player { shot_tracker: TimedTracker::tracked_at(p.shot_tracker, now), ..p }
        } else {
            p
        }
    }

    /// The projectile slots once this frame's shot, if any, is spawned.
    pub open spec fn slots_after_shot(&self, intents: Intents, now: u64) -> Seq<Option<Projectile>> {
        if self.fires(intents, now) {
            spawned(
                self.projectiles.slots(),
                Projectile {
                    shot_type: ShotType::PlayerShot,
                    transform: shot_origin(self.moved_player_at(intents, now)),
                    velocity: player_shot_velocity(),
                    size: self.shot_size,
                },
            )
        } else {
            self.projectiles.slots()
        }
    }

    /// Whether this frame's formation motion ends the game.
    pub open spec fn formation_collides(&self, intents: Intents, now: u64) -> bool {
        let p = self.next_player(intents, now);
        exists|r: int, c: int|
            ends_game(
                self.enemies.grid(),
                self.enemies.next_direction(now),
                spec_box(p.transform, p.size),
                self.screen_bounds,
                r,
                c,
            )
    }

    /// `next` is this game after one playing frame: movement and boost, the
    /// shot, the formation's motion, then the projectiles' flight.
    pub open spec fn playing_step(&self, next: Game, intents: Intents, now: u64, dt: u64) -> bool {
        let d = self.enemies.next_direction(now);
        let s1 = self.slots_after_shot(intents, now);
        &&& next.player == self.next_player(intents, now)
        &&& next.screen_bounds == self.screen_bounds
        &&& next.shot_size == self.shot_size
        &&& next.enemies.direction() == d
        &&& next.enemies.tracker().interval_ms() == self.enemies.tracker().interval_ms()
        &&& next.enemies.tracker().last_ms() == self.enemies.next_reversal_ms(now)
        &&& next.state == (if self.formation_collides(intents, now) {
            GameState::Over
        } else {
            self.state
        })
        &&& exists|g1: Grid|
            {
                &&& partly_advanced(g1, self.enemies.grid(), d)
                &&& !self.formation_collides(intents, now) ==> g1 == advanced_grid(
                    self.enemies.grid(),
                    d,
                )
                &&& (next.projectiles.slots(), next.enemies.grid()) == sweep(s1, g1, dt, s1.len())
            }
    }

    /// A game on a screen of `screen_bounds`: a fresh formation, the player
    /// centred near the bottom, no projectile; all timers start at `now`.
    pub fn new(
        screen_bounds: ScreenBounds,
        player_size: Dimensions,
        shot_size: Dimensions,
        enemy_sizes: &Vec<Dimensions>,
        now: u64,
    ) -> (g: Game)
        requires
            0 <= screen_bounds.width <= MAX_COORD,
            0 <= screen_bounds.height <= MAX_COORD,
            player_size.wf(),
            shot_size.wf(),
            enemy_sizes.len() > 0,
            forall|i: int| 0 <= i < enemy_sizes.len() ==> #[trigger] enemy_sizes@[i].wf(),
        ensures
            g.wf(),
            g.state == GameState::Playing,
            g.screen_bounds == screen_bounds,
            g.shot_size == shot_size,
            g.player == (Player {
                transform: crate::misc::Point {
                    x: (screen_bounds.width / 2) as i64,
                    y: (screen_bounds.height - PLAYER_BOTTOM_OFFSET) as i64,
                },
                ..Player::new_spec(player_size, now)
            }),
            g.projectiles.slots().len() == 0,
            g.enemies.grid().len() == ENEMY_ROWS,
            forall|r: int| 0 <= r < ENEMY_ROWS ==> #[trigger] g.enemies.grid()[r].len() == ENEMIES_PER_ROW,
            forall|r: int, c: int|
                0 <= r < ENEMY_ROWS && 0 <= c < ENEMIES_PER_ROW ==> fresh_slot(
                    #[trigger] g.enemies.grid()[r][c],
                    enemy_sizes@,
                    r,
                    c,
                ),
            g.enemies.direction() == Direction::Left,
            g.enemies.tracker().interval_ms() == ENEMY_DIR_INTERVAL,
            g.enemies.tracker().last_ms() == now,
    {
        let mut player = Player::new(player_size, now);
        player.move_to(screen_bounds.width / 2, screen_bounds.height - PLAYER_BOTTOM_OFFSET);
        Game {
            enemies: EnemySystem::new(enemy_sizes, now),
            player,
            projectiles: ProjectileSystem::new(),
            state: GameState::Playing,
            screen_bounds,
            shot_size,
        }
    }

    /// Whether all positions leave room for one more frame.
    pub fn in_bounds(&self) -> (r: bool)
        ensures
            r == self.fits(),
    {
        self.enemies.in_bounds() && self.player.in_bounds() && self.projectiles.in_bounds()
    }

    /// One playing frame of `dt` milliseconds at time `now`.
    pub fn update_playing(&mut self, intents: &Intents, now: u64, dt: u64)
        requires
            old(self).wf(),
            old(self).fits(),
            dt <= MAX_DT,
        ensures
            final(self).wf(),
            old(self).playing_step(*final(self), *intents, now, dt),
    {
        let ghost g0 = *old(self);
        process_player_movement(&mut self.player, intents, self.screen_bounds.width, now);
        assert(self.player == g0.moved_player_at(*intents, now));
        if intents.shoot {
            self.player.shoot(now, &mut self.projectiles, self.shot_size);
        }
        assert(self.player == g0.next_player(*intents, now));
        assert(self.projectiles.slots() == g0.slots_after_shot(*intents, now));
        let collided = self.enemies.update(&self.player.bb(), self.screen_bounds, now);
        assert(collided == g0.formation_collides(*intents, now));
        let ghost g1 = self.enemies.grid();
        let ghost s1 = self.projectiles.slots();
        if collided {
            self.state = GameState::Over;
        }
        self.projectiles.update(&mut self.enemies, dt);
        assert(partly_advanced(g1, g0.enemies.grid(), g0.enemies.next_direction(now)));
        assert((self.projectiles.slots(), self.enemies.grid()) == sweep(s1, g1, dt, s1.len()));
    }

    /// One frame at time `now`: a request to end moves the game to its end;
    /// a game in play advances by one playing frame; a game that is over
    /// stays as it is. Returns the phase afterwards.
    pub fn update(&mut self, intents: &Intents, now: u64, dt: u64) -> (r: GameState)
        requires
            old(self).wf(),
            old(self).fits(),
            dt <= MAX_DT,
        ensures
            r == final(self).state,
            final(self).wf(),
            intents.force_end || old(self).state == GameState::Over ==> *final(self) == (Game {
                state: GameState::Over,
                ..*old(self)
            }),
            !intents.force_end && old(self).state == GameState::Playing ==> old(self).playing_step(
                *final(self),
                *intents,
                now,
                dt,
            ),
    {
        if intents.force_end {
            self.state = GameState::Over;
        }
        match self.state {
            GameState::Playing => {
                self.update_playing(intents, now, dt);
            },
            GameState::Over => {},
        }
        self.state
    }
}

} // verus!
