use space_invaders::enemies::{
    Enemy, EnemyId, EnemySystem, ENEMIES_PER_ROW, ENEMY_DIST, ENEMY_ROWS, ENEMY_ROW_DIST,
    ENEMY_SPEED_X, ENEMY_SPEED_Y, ENEMY_TOP_OFFSET,
};
use space_invaders::game::{process_player_movement, Game, GameState, Intents};
use space_invaders::misc::{overlaps, Dimensions, Point, Rect, ScreenBounds};
use space_invaders::player::{
    Direction, Player, PLAYERS_SPEED_BASE, PLAYERS_SPEED_BOOST, PLAYERS_SPEED_BOOST_DRAIN,
};
use space_invaders::projectile::{Projectile, ProjectileSystem, ShotType, PLAYER_SHOT_VELOCITY_Y};
use space_invaders::timed_tracker::TimedTracker;

fn rect(x: i64, y: i64, w: i64, h: i64) -> Rect {
    Rect { x, y, w, h }
}

fn no_intents() -> Intents {
    Intents { left: false, right: false, boost: false, shoot: false, force_end: false }
}

fn enemy_at(x: i64, y: i64, w: i64, h: i64) -> Enemy {
    let mut e = Enemy::new(0, Dimensions { w, h }, 0);
    e.transform(x, y);
    e
}

#[test]
fn overlaps_is_symmetric() {
    let cases = [
        (rect(0, 0, 10, 10), rect(5, 5, 10, 10)),
        (rect(0, 0, 10, 10), rect(20, 0, 10, 10)),
        (rect(0, 0, 100, 100), rect(10, 10, 5, 5)),
        (rect(-5, -5, 3, 3), rect(-4, -4, 1, 1)),
    ];
    for (a, b) in cases.iter() {
        assert_eq!(overlaps(a, b), overlaps(b, a));
    }
    assert!(overlaps(&cases[0].0, &cases[0].1));
    assert!(!overlaps(&cases[1].0, &cases[1].1));
    assert!(overlaps(&cases[2].0, &cases[2].1));
    assert!(overlaps(&cases[2].1, &cases[2].0));
}

#[test]
fn edge_contact_is_no_overlap() {
    let a = rect(0, 0, 10, 10);
    assert!(!overlaps(&a, &rect(10, 0, 10, 10)));
    assert!(!overlaps(&a, &rect(-10, 0, 10, 10)));
    assert!(!overlaps(&a, &rect(0, 10, 10, 10)));
    assert!(!overlaps(&a, &rect(0, -10, 10, 10)));
    assert!(!overlaps(&a, &rect(10, 10, 10, 10)));
    assert!(overlaps(&a, &rect(9, 9, 10, 10)));
}

#[test]
fn cooldown_gates_by_interval() {
    let mut t = TimedTracker::new(500, 1000);
    assert!(!t.can(1000));
    assert!(!t.can(1500));
    assert!(t.can(1501));
    assert!(t.can(100_000));
    t.track(2000);
    assert!(!t.can(2000));
    assert!(!t.can(2500));
    assert!(t.can(2501));
    assert!(!t.can(10));
}

#[test]
fn formation_direction_flips_once_per_interval() {
    let rows = vec![vec![Some(enemy_at(5000, 1000, 100, 100))]];
    let mut f = EnemySystem::from_rows(rows, 0);
    let player_box = rect(0, 5000, 10, 10);
    let bounds = ScreenBounds { width: 8000, height: 6000 };
    assert_eq!(f.dir(), Direction::Left);

    assert!(!f.update(&player_box, bounds, 500));
    assert_eq!(f.dir(), Direction::Left);
    assert_eq!(f.enemy_at(0, 0).unwrap().transform, Point { x: 5000 - ENEMY_SPEED_X, y: 1001 });

    assert!(!f.update(&player_box, bounds, 1001));
    assert_eq!(f.dir(), Direction::Right);
    assert_eq!(f.enemy_at(0, 0).unwrap().transform, Point { x: 5000, y: 1002 });

    assert!(!f.update(&player_box, bounds, 1500));
    assert!(!f.update(&player_box, bounds, 2001));
    assert_eq!(f.dir(), Direction::Right);
    assert_eq!(f.enemy_at(0, 0).unwrap().transform, Point { x: 5020, y: 1004 });

    assert!(!f.update(&player_box, bounds, 2002));
    assert_eq!(f.dir(), Direction::Left);
}

#[test]
fn formation_rows_alternate_direction() {
    let rows = vec![
        vec![Some(enemy_at(1000, 1000, 100, 100))],
        vec![Some(enemy_at(1000, 2000, 100, 100))],
        vec![None, Some(enemy_at(1000, 3000, 100, 100))],
    ];
    let mut f = EnemySystem::from_rows(rows, 0);
    assert!(!f.update(&rect(0, 5000, 10, 10), ScreenBounds { width: 8000, height: 6000 }, 1));
    assert_eq!(f.enemy_at(0, 0).unwrap().transform.x, 990);
    assert_eq!(f.enemy_at(1, 0).unwrap().transform.x, 1010);
    assert_eq!(f.enemy_at(2, 0), None);
    assert_eq!(f.enemy_at(2, 1).unwrap().transform.x, 990);
}

#[test]
fn formation_update_reports_player_collision() {
    let rows = vec![vec![Some(enemy_at(1000, 1000, 100, 100)), Some(enemy_at(3000, 1000, 100, 100))]];
    let mut f = EnemySystem::from_rows(rows, 0);
    let player_box = rect(990, 1090, 50, 50);
    assert!(f.update(&player_box, ScreenBounds { width: 8000, height: 6000 }, 1));
    assert_eq!(f.enemy_at(0, 0).unwrap().transform, Point { x: 990, y: 1001 });
    // the sweep stops at the first enemy that ends the game
    assert_eq!(f.enemy_at(0, 1).unwrap().transform, Point { x: 3000, y: 1000 });
}

#[test]
fn collides_with_returns_first_in_row_major_order() {
    let rows = vec![
        vec![None, Some(enemy_at(100, 0, 100, 100))],
        vec![Some(enemy_at(0, 50, 100, 100)), Some(enemy_at(120, 50, 100, 100))],
    ];
    let mut f = EnemySystem::from_rows(rows, 0);
    assert_eq!(f.collides_with(&rect(130, 60, 10, 10)), Some(EnemyId(0, 1)));
    assert_eq!(f.collides_with(&rect(10, 120, 10, 10)), Some(EnemyId(1, 0)));
    assert_eq!(f.collides_with(&rect(5000, 5000, 10, 10)), None);
    f.clear_enemy(EnemyId(0, 1));
    assert_eq!(f.enemy_at(0, 1), None);
    assert_eq!(f.collides_with(&rect(130, 60, 10, 10)), Some(EnemyId(1, 1)));
    f.clear_enemy(EnemyId(0, 1));
    assert_eq!(f.enemy_at(0, 1), None);
    assert_eq!(f.num_rows(), 2);
    assert_eq!(f.row_len(1), 2);
}

#[test]
fn fresh_formation_layout() {
    let sizes = vec![Dimensions { w: 600, h: 400 }, Dimensions { w: 500, h: 300 }];
    let f = EnemySystem::new(&sizes, 0);
    assert_eq!(f.num_rows(), ENEMY_ROWS);
    for r in 0..ENEMY_ROWS {
        assert_eq!(f.row_len(r), ENEMIES_PER_ROW);
        for c in 0..ENEMIES_PER_ROW {
            let e = f.enemy_at(r, c).unwrap();
            assert!(e.variant < sizes.len());
            assert_eq!(e.size, sizes[e.variant]);
            assert_eq!(e.transform.x, ENEMY_DIST * (c as i64 + 1));
            assert_eq!(e.transform.y, ENEMY_ROW_DIST * r as i64 + ENEMY_TOP_OFFSET);
        }
    }
}

#[test]
fn enemy_touching_bottom_is_inclusive() {
    let bounds = ScreenBounds { width: 8000, height: 6000 };
    assert!(enemy_at(100, 5800, 20, 200).touched_bottom(bounds));
    assert!(enemy_at(100, 5801, 20, 200).touched_bottom(bounds));
    assert!(!enemy_at(100, 5799, 20, 200).touched_bottom(bounds));
}

#[test]
fn bottom_reached_during_update_ends_sweep() {
    let rows = vec![vec![Some(enemy_at(1000, 5799, 100, 200))]];
    let mut f = EnemySystem::from_rows(rows, 0);
    assert!(f.update(&rect(0, 0, 1, 1), ScreenBounds { width: 8000, height: 6000 }, 1));
    assert_eq!(f.enemy_at(0, 0).unwrap().transform.y, 5800);
}

#[test]
fn projectile_slot_is_reused() {
    let mut enemies = EnemySystem::from_rows(vec![], 0);
    let mut pool = ProjectileSystem::new();
    let size = Dimensions { w: 30, h: 100 };
    pool.add_projectile(ShotType::PlayerShot, Point { x: 0, y: 0 }, size);
    pool.add_projectile(ShotType::PlayerShot, Point { x: 0, y: 100_000 }, size);
    assert_eq!(pool.len(), 2);
    pool.update(&mut enemies, 100);
    assert_eq!(pool.get(0), None);
    assert_eq!(pool.get(1).unwrap().transform, Point { x: 0, y: 100_000 - 700 });
    pool.add_projectile(ShotType::PlayerShot, Point { x: 5, y: 5 }, size);
    assert_eq!(pool.len(), 2);
    assert_eq!(pool.get(0).unwrap().transform, Point { x: 5, y: 5 });
    pool.add_projectile(ShotType::PlayerShot, Point { x: 6, y: 6 }, size);
    assert_eq!(pool.len(), 3);
}

#[test]
fn off_screen_projectile_does_not_stop_the_sweep() {
    let mut enemies = EnemySystem::from_rows(vec![vec![Some(enemy_at(0, 5000, 100, 100))]], 0);
    let mut pool = ProjectileSystem::new();
    let size = Dimensions { w: 30, h: 100 };
    pool.add_projectile(ShotType::PlayerShot, Point { x: 0, y: -95 }, size);
    pool.add_projectile(ShotType::PlayerShot, Point { x: 10, y: 5100 }, size);
    pool.update(&mut enemies, 10);
    assert_eq!(pool.get(0), None);
    assert_eq!(pool.get(1), None);
    assert_eq!(enemies.enemy_at(0, 0), None);
}

#[test]
fn projectile_motion_and_exit() {
    let mut p = Projectile::new(
        ShotType::PlayerShot,
        Point { x: 10, y: 0 },
        Point { x: 0, y: PLAYER_SHOT_VELOCITY_Y },
        Dimensions { w: 30, h: 100 },
    );
    p.update(14);
    assert_eq!(p.transform, Point { x: 10, y: -98 });
    assert!(!p.off_screen());
    assert_eq!(p.bb(), rect(10, -98, 30, 100));
    p.update(1);
    assert_eq!(p.transform.y, -105);
    assert!(p.off_screen());
}

#[test]
fn projectile_hit_clears_enemy_and_projectile() {
    let mut enemies = EnemySystem::from_rows(vec![vec![Some(enemy_at(1000, 1000, 200, 200))]], 0);
    let mut pool = ProjectileSystem::new();
    pool.add_projectile(ShotType::PlayerShot, Point { x: 1050, y: 1050 }, Dimensions { w: 30, h: 100 });
    pool.update(&mut enemies, 1);
    assert_eq!(enemies.enemy_at(0, 0), None);
    assert_eq!(pool.get(0), None);
    assert_eq!(pool.len(), 1);
}

#[test]
fn one_projectile_destroys_one_enemy() {
    let rows = vec![vec![Some(enemy_at(0, 0, 100, 100)), Some(enemy_at(50, 0, 100, 100))]];
    let mut enemies = EnemySystem::from_rows(rows, 0);
    let mut pool = ProjectileSystem::new();
    pool.add_projectile(ShotType::PlayerShot, Point { x: 60, y: 50 }, Dimensions { w: 10, h: 10 });
    pool.update(&mut enemies, 1);
    assert_eq!(enemies.enemy_at(0, 0), None);
    assert!(enemies.enemy_at(0, 1).is_some());
    assert_eq!(pool.get(0), None);
}

fn test_game() -> Game {
    Game::new(
        ScreenBounds { width: 8000, height: 6000 },
        Dimensions { w: 500, h: 300 },
        Dimensions { w: 30, h: 100 },
        &vec![Dimensions { w: 600, h: 400 }; 4],
        0,
    )
}

#[test]
fn step_without_intents_descends_formation() {
    let mut g = test_game();
    assert_eq!(g.player.transform, Point { x: 4000, y: 5000 });
    let before: Vec<Vec<Enemy>> = (0..ENEMY_ROWS)
        .map(|r| (0..ENEMIES_PER_ROW).map(|c| g.enemies.enemy_at(r, c).unwrap()).collect())
        .collect();
    assert_eq!(g.update(&no_intents(), 10, 16), GameState::Playing);
    assert_eq!(g.state, GameState::Playing);
    for r in 0..ENEMY_ROWS {
        for c in 0..ENEMIES_PER_ROW {
            let e = g.enemies.enemy_at(r, c).unwrap();
            assert_eq!(e.transform.y, before[r][c].transform.y + ENEMY_SPEED_Y);
            let dx = if r % 2 == 0 { -ENEMY_SPEED_X } else { ENEMY_SPEED_X };
            assert_eq!(e.transform.x, before[r][c].transform.x + dx);
        }
    }
}

#[test]
fn shot_fired_in_a_step_flies_in_that_step() {
    let mut g = test_game();
    let mut intents = no_intents();
    intents.shoot = true;
    assert_eq!(g.update(&intents, 100, 16), GameState::Playing);
    assert_eq!(g.projectiles.len(), 0);
    assert_eq!(g.update(&intents, 600, 16), GameState::Playing);
    assert_eq!(g.projectiles.len(), 1);
    let p = g.projectiles.get(0).unwrap();
    assert_eq!(p.transform, Point { x: 4250, y: 5000 - 7 * 16 });
    assert_eq!(p.velocity, Point { x: 0, y: -7 });
    assert_eq!(g.update(&intents, 700, 16), GameState::Playing);
    assert_eq!(g.projectiles.len(), 1);
}

#[test]
fn force_end_stops_the_game() {
    let mut g = test_game();
    let mut intents = no_intents();
    intents.force_end = true;
    assert_eq!(g.update(&intents, 10, 16), GameState::Over);
    let y = g.enemies.enemy_at(0, 0).unwrap().transform.y;
    assert_eq!(g.update(&no_intents(), 20, 16), GameState::Over);
    assert_eq!(g.enemies.enemy_at(0, 0).unwrap().transform.y, y);
}

#[test]
fn enemy_reaching_player_ends_game() {
    let mut g = test_game();
    g.enemies = EnemySystem::from_rows(vec![vec![Some(enemy_at(4000, 4950, 100, 100))]], 0);
    assert_eq!(g.update(&no_intents(), 10, 16), GameState::Over);
    assert!(g.in_bounds());
}

#[test]
fn boost_drains_with_movement() {
    let mut p = Player::new(Dimensions { w: 500, h: 300 }, 0);
    p.move_to(4000, 5000);
    p.boost(1000);
    assert_eq!(p.boosted_speed, 0);
    p.boost(1501);
    assert_eq!(p.boosted_speed, PLAYERS_SPEED_BOOST);
    for n in 1..=20i64 {
        p.move_player(Direction::Right);
        assert_eq!(p.boosted_speed, std::cmp::max(0, PLAYERS_SPEED_BOOST - n * PLAYERS_SPEED_BOOST_DRAIN));
    }
    assert_eq!(p.boosted_speed, 0);
}

#[test]
fn movement_uses_speed_and_boost() {
    let mut p = Player::new(Dimensions { w: 500, h: 300 }, 0);
    p.move_to(4000, 5000);
    p.move_player(Direction::Left);
    assert_eq!(p.transform.x, 4000 - PLAYERS_SPEED_BASE);
    p.boost(2000);
    p.move_player(Direction::Right);
    assert_eq!(p.transform.x, 4000 - PLAYERS_SPEED_BASE + PLAYERS_SPEED_BASE + PLAYERS_SPEED_BOOST);
    assert_eq!(p.boosted_speed, PLAYERS_SPEED_BOOST - PLAYERS_SPEED_BOOST_DRAIN);
    assert_eq!(p.center_x(), p.transform.x + 250);
    assert_eq!(p.bb(), rect(p.transform.x, 5000, 500, 300));
}

#[test]
fn movement_respects_screen_edges() {
    let mut p = Player::new(Dimensions { w: 500, h: 300 }, 0);
    let mut left = no_intents();
    left.left = true;
    process_player_movement(&mut p, &left, 8000, 10);
    assert_eq!(p.transform.x, 0);
    p.move_to(7500, 5000);
    let mut right = no_intents();
    right.right = true;
    process_player_movement(&mut p, &right, 8000, 10);
    assert_eq!(p.transform.x, 7500);
    process_player_movement(&mut p, &left, 8000, 10);
    assert_eq!(p.transform.x, 7500 - PLAYERS_SPEED_BASE);
    let mut both = no_intents();
    both.left = true;
    both.right = true;
    both.boost = true;
    process_player_movement(&mut p, &both, 8000, 2000);
    assert_eq!(p.transform.x, 7500 - 2 * PLAYERS_SPEED_BASE);
    assert_eq!(p.boosted_speed, PLAYERS_SPEED_BOOST);
}

#[test]
fn shot_cooldown_gates_shooting() {
    let mut p = Player::new(Dimensions { w: 500, h: 300 }, 0);
    p.move_to(1000, 5000);
    let mut pool = ProjectileSystem::new();
    let size = Dimensions { w: 30, h: 100 };
    p.shoot(500, &mut pool, size);
    assert_eq!(pool.len(), 0);
    p.shoot(501, &mut pool, size);
    assert_eq!(pool.len(), 1);
    assert_eq!(pool.get(0).unwrap().transform, Point { x: 1250, y: 5000 });
    p.shoot(1001, &mut pool, size);
    assert_eq!(pool.len(), 1);
    p.shoot(1002, &mut pool, size);
    assert_eq!(pool.len(), 2);
}
