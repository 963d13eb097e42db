use crate::misc::{
    in_range, overlaps, MAX_COORD, rects_overlap, spec_box, Dimensions, Point, Rect, ScreenBounds,
};
use crate::player::Direction;
use crate::timed_tracker::TimedTracker;
use rand::Rng;
use vstd::prelude::*;

verus! {

/// Distance between neighbouring columns, and left margin of the first column.
pub const ENEMY_DIST: i64 = 1000;
/// Vertical position of the top row.
pub const ENEMY_TOP_OFFSET: i64 = 1000;
/// Distance between neighbouring rows.
pub const ENEMY_ROW_DIST: i64 = 500;
/// Number of rows in a fresh formation.
pub const ENEMY_ROWS: usize = 5;
/// Number of enemies in each row of a fresh formation.
pub const ENEMIES_PER_ROW: usize = 7;
/// Horizontal distance an enemy moves each frame.
pub const ENEMY_SPEED_X: i64 = 10;
/// Vertical distance an enemy descends each frame.
pub const ENEMY_SPEED_Y: i64 = 1;
/// Milliseconds between two reversals of the formation's direction.
pub const ENEMY_DIR_INTERVAL: u64 = 1000;

/// Identity of a formation slot: (row index, column index).
#[derive(Clone, Copy, Debug, PartialEq, Eq, Structural)]
pub struct EnemyId(pub usize, pub usize);

/// One enemy: a visual variant and a box.
#[derive(Clone, Copy, Debug, PartialEq, Eq, Structural)]
pub struct Enemy {
    pub id: u16,
    pub variant: usize,
    pub transform: Point,
    pub size: Dimensions,
}

/// A grid of slots, row by row; `None` marks a destroyed enemy.
pub type Grid = Seq<Seq<Option<Enemy>>>;

/// The box of an enemy.
pub open spec fn enemy_box(e: Enemy) -> Rect {
    spec_box(e.transform, e.size)
}

/// The enemy's bottom edge has reached or passed the screen's bottom.
pub open spec fn reaches_bottom(e: Enemy, bounds: ScreenBounds) -> bool {
    e.transform.y + e.size.h >= bounds.height
}

/// The enemy after one frame of motion in direction `d`.
pub open spec fn advanced(e: Enemy, d: Direction) -> Enemy {
    Enemy {
        transform: Point {
            x: (e.transform.x + ENEMY_SPEED_X * d.sign()) as i64,
            y: (e.transform.y + ENEMY_SPEED_Y) as i64,
        },
        ..e
    }
}

/// The direction of row `r` when the formation moves in direction `d`:
/// even rows follow it, odd rows go the other way.
pub open spec fn row_dir(d: Direction, r: int) -> Direction {
    if r % 2 == 0 {
        d
    } else {
        d.flipped()
    }
}

/// A slot after one frame of motion in direction `d`.
pub open spec fn advanced_slot(s: Option<Enemy>, d: Direction) -> Option<Enemy> {
    match s {
        Some(e) => Some(advanced(e, d)),
        None => None,
    }
}

/// Every live enemy of the grid after one frame of motion in direction `d`.
pub open spec fn advanced_grid(g: Grid, d: Direction) -> Grid {
    Seq::new(
        g.len(),
        |r: int| Seq::new(g[r].len(), |c: int| advanced_slot(g[r][c], row_dir(d, r))),
    )
}

/// The enemy in slot `(r, c)`, moved in its row's direction, ends the game:
/// it reaches the bottom or overlaps the player.
pub open spec fn ends_game(g: Grid, d: Direction, player_box: Rect, bounds: ScreenBounds, r: int, c: int) -> bool {
    0 <= r < g.len() && 0 <= c < g[r].len() && g[r][c] is Some && ({
        let e = advanced(g[r][c]->Some_0, row_dir(d, r));
        reaches_bottom(e, bounds) || rects_overlap(enemy_box(e), player_box)
    })
}

/// Slot `(r1, c1)` comes before `(r2, c2)` in row-major order.
pub open spec fn lex_lt(r1: int, c1: int, r2: int, c2: int) -> bool {
    r1 < r2 || (r1 == r2 && c1 < c2)
}

/// Slot `(r, c)` holds a live enemy whose box overlaps `b`.
pub open spec fn hit(g: Grid, b: Rect, r: int, c: int) -> bool {
    0 <= r < g.len() && 0 <= c < g[r].len() && g[r][c] is Some && rects_overlap(
        enemy_box(g[r][c]->Some_0),
        b,
    )
}

/// Slot `(r, c)` is the first hit of `b` in row-major order.
pub open spec fn is_first_hit(g: Grid, b: Rect, r: int, c: int) -> bool {
    hit(g, b, r, c) && forall|r2: int, c2: int| lex_lt(r2, c2, r, c) ==> !hit(g, b, r2, c2)
}

/// The first slot, in row-major order, whose live enemy overlaps `b`.
pub open spec fn first_hit(g: Grid, b: Rect) -> Option<(int, int)> {
    if exists|r: int, c: int| is_first_hit(g, b, r, c) {
        Some(choose|r: int, c: int| is_first_hit(g, b, r, c))
    } else {
        None
    }
}

/// The grid with slot `(r, c)` emptied.
pub open spec fn cleared(g: Grid, r: int, c: int) -> Grid {
    g.update(r, g[r].update(c, None))
}

/// There is at most one first hit.
pub proof fn lemma_first_hit_unique(g: Grid, b: Rect, r: int, c: int)
    requires
        is_first_hit(g, b, r, c),
    ensures
        first_hit(g, b) == Some((r, c)),
{
    let (r2, c2) = choose|r2: int, c2: int| is_first_hit(g, b, r2, c2);
    assert(is_first_hit(g, b, r2, c2));
    if lex_lt(r2, c2, r, c) {
        assert(!hit(g, b, r2, c2));
    } else if lex_lt(r, c, r2, c2) {
        assert(!hit(g, b, r, c));
    }
}

/// Relies on rand's `thread_rng().gen_range(low, high)`, which returns a value
/// in `[low, high)` and panics when `low >= high`.
#[verifier::external_body]
fn random_index(n: usize) -> (r: usize)
    requires
        n > 0,
    ensures
        r < n,
{
    rand::thread_rng().gen_range(0, n)
}

impl Enemy {
    /// An enemy of the given variant and size at the origin.
    pub fn new(variant: usize, size: Dimensions, id: u16) -> (e: Enemy)
        ensures
            e == (Enemy { id, variant, transform: Point { x: 0, y: 0 }, size }),
    {
        Enemy { id, variant, transform: Point { x: 0, y: 0 }, size }
    }

    /// Places the enemy at `(x, y)`.
    pub fn transform(&mut self, x: i64, y: i64)
        ensures
            *final(self) == (Enemy { transform: Point { x, y }, ..*old(self) }),
    {
        self.transform = Point { x, y };
    }

    /// The enemy's bounding box.
    pub fn bb(&self) -> (r: Rect)
        ensures
            r == enemy_box(*self),
    {
        Rect { x: self.transform.x, y: self.transform.y, w: self.size.w, h: self.size.h }
    }

    /// Whether the enemy's box overlaps `other`.
    fn collides_with(&self, other: &Rect) -> (r: bool)
        ensures
            r == rects_overlap(enemy_box(*self), *other),
    {
        overlaps(&self.bb(), other)
    }

    /// Whether the enemy's bottom edge is at or below the screen's bottom.
    pub fn touched_bottom(&self, screen_bounds: ScreenBounds) -> (r: bool)
        ensures
            r == reaches_bottom(*self, screen_bounds),
    {
        let own_bottom = self.transform.y as i128 + self.size.h as i128;
        own_bottom >= screen_bounds.height as i128
    }
}

/// Every live enemy of the grid has a valid size.
pub open spec fn grid_wf(g: Grid) -> bool {
    forall|r: int, c: int|
        0 <= r < g.len() && 0 <= c < g[r].len() && #[trigger] g[r][c] is Some
            ==> g[r][c]->Some_0.size.wf()
}

/// Every live enemy of the grid lies within the accepted coordinate range.
pub open spec fn grid_fits(g: Grid) -> bool {
    forall|r: int, c: int|
        0 <= r < g.len() && 0 <= c < g[r].len() && #[trigger] g[r][c] is Some ==> in_range(
            g[r][c]->Some_0.transform.x as int,
        ) && in_range(g[r][c]->Some_0.transform.y as int)
}

/// `after` has the shape of `before`, and each of its slots is the slot of
/// `before` either as it was or after one frame of motion in its row's direction.
pub open spec fn partly_advanced(after: Grid, before: Grid, d: Direction) -> bool {
    &&& after.len() == before.len()
    &&& forall|r: int| 0 <= r < before.len() ==> #[trigger] after[r].len() == before[r].len()
    &&& forall|r: int, c: int|
        0 <= r < before.len() && 0 <= c < before[r].len() ==> #[trigger] after[r][c] == before[r][c]
            || after[r][c] == advanced_slot(before[r][c], row_dir(d, r))
}

/// Motion keeps every live enemy's size.
pub proof fn lemma_partly_advanced_wf(after: Grid, before: Grid, d: Direction)
    requires
        grid_wf(before),
        partly_advanced(after, before, d),
    ensures
        grid_wf(after),
{
    assert forall|r: int, c: int|
        0 <= r < after.len() && 0 <= c < after[r].len() && #[trigger] after[r][c] is Some
            implies after[r][c]->Some_0.size.wf() by {
        assert(before[r][c] is Some);
    }
}

/// Emptying a slot keeps every other slot, so it keeps validity and range.
pub proof fn lemma_cleared_keeps(g: Grid, r: int, c: int)
    requires
        0 <= r < g.len(),
        0 <= c < g[r].len(),
    ensures
        grid_wf(g) ==> grid_wf(cleared(g, r, c)),
        grid_fits(g) ==> grid_fits(cleared(g, r, c)),
{
    let h = cleared(g, r, c);
    assert forall|r2: int, c2: int|
        0 <= r2 < h.len() && 0 <= c2 < h[r2].len() && #[trigger] h[r2][c2] is Some implies h[r2][c2]
        == g[r2][c2] by {}
}

/// One row of formation slots.
struct EnemyRow {
    enemies: Vec<Option<Enemy>>,
}

/// A fresh slot of a fresh formation: a live enemy at its grid position.
pub open spec fn fresh_slot(s: Option<Enemy>, sizes: Seq<Dimensions>, r: int, c: int) -> bool {
    &&& s is Some
    &&& s->Some_0.id == 0
    &&& s->Some_0.variant < sizes.len()
    &&& s->Some_0.size == sizes[s->Some_0.variant as int]
    &&& s->Some_0.transform.x == ENEMY_DIST * (c + 1)
    &&& s->Some_0.transform.y == ENEMY_ROW_DIST * r + ENEMY_TOP_OFFSET
}

impl EnemyRow {
    /// Row `row_idx` of a fresh formation, each enemy of a random variant.
    fn new(variant_sizes: &Vec<Dimensions>, row_idx: usize) -> (row: EnemyRow)
        requires
            variant_sizes.len() > 0,
            row_idx < ENEMY_ROWS,
        ensures
            row.enemies@.len() == ENEMIES_PER_ROW,
            forall|c: int|
                0 <= c < ENEMIES_PER_ROW ==> fresh_slot(
                    #[trigger] row.enemies@[c],
                    variant_sizes@,
                    row_idx as int,
                    c,
                ),
    {
        let mut enemies: Vec<Option<Enemy>> = Vec::new();
        let mut x_index: usize = 0;
        while x_index < ENEMIES_PER_ROW
            invariant
                0 < variant_sizes.len(),
                row_idx < ENEMY_ROWS,
                x_index <= ENEMIES_PER_ROW,
                enemies@.len() == x_index,
                forall|c: int|
                    0 <= c < x_index ==> fresh_slot(
                        #[trigger] enemies@[c],
                        variant_sizes@,
                        row_idx as int,
                        c,
                    ),
            decreases ENEMIES_PER_ROW - x_index,
        {
            let img_index = random_index(variant_sizes.len());
            let x_pos = ENEMY_DIST * (x_index as i64 + 1);
            let y_pos = ENEMY_ROW_DIST * row_idx as i64 + ENEMY_TOP_OFFSET;

            let mut enemy = Enemy::new(img_index, variant_sizes[img_index], 0);
            enemy.transform(x_pos, y_pos);

            enemies.push(Some(enemy));
            x_index = x_index + 1;
        }
        EnemyRow { enemies }
    }
}

/// The enemy formation: a grid of slots that moves in lock-step, with a
/// shared direction that reverses on a timer.
pub struct EnemySystem {
    dir: Direction,
    dir_tracker: TimedTracker,
    rows: Vec<EnemyRow>,
}

impl EnemySystem {
    /// The slots, row by row.
    pub closed spec fn grid(&self) -> Grid {
        self.rows@.map_values(|row: EnemyRow| row.enemies@)
    }

    /// The shared direction.
    pub closed spec fn direction(&self) -> Direction {
        self.dir
    }

    /// The tracker that gates reversals of the direction.
    pub closed spec fn tracker(&self) -> TimedTracker {
        self.dir_tracker
    }

    /// Every live enemy has a valid size.
    pub open spec fn wf(&self) -> bool {
        grid_wf(self.grid())
    }

    /// Every live enemy's position lies within the accepted coordinate range.
    pub open spec fn fits(&self) -> bool {
        grid_fits(self.grid())
    }

    /// The direction after a reversal check at time `now`.
    pub open spec fn next_direction(&self, now: u64) -> Direction {
        if self.tracker().ready(now) {
            self.direction().flipped()
        } else {
            self.direction()
        }
    }

    /// The time of the last reversal after a reversal check at time `now`.
    pub open spec fn next_reversal_ms(&self, now: u64) -> u64 {
        if self.tracker().ready(now) {
            now
        } else {
            self.tracker().last_ms()
        }
    }
}

impl EnemySystem {
    /// A fresh formation of `ENEMY_ROWS` rows of `ENEMIES_PER_ROW` enemies at
    /// their grid positions, each of a randomly chosen variant; the
    /// direction starts leftward and the reversal timer starts at `now`.
    pub fn new(variant_sizes: &Vec<Dimensions>, now: u64) -> (s: EnemySystem)
        requires
            variant_sizes.len() > 0,
            forall|i: int| 0 <= i < variant_sizes.len() ==> #[trigger] variant_sizes@[i].wf(),
        ensures
            s.wf(),
            s.grid().len() == ENEMY_ROWS,
            forall|r: int| 0 <= r < ENEMY_ROWS ==> #[trigger] s.grid()[r].len() == ENEMIES_PER_ROW,
            forall|r: int, c: int|
                0 <= r < ENEMY_ROWS && 0 <= c < ENEMIES_PER_ROW ==> fresh_slot(
                    #[trigger] s.grid()[r][c],
                    variant_sizes@,
                    r,
                    c,
                ),
            s.direction() == Direction::Left,
            s.tracker().interval_ms() == ENEMY_DIR_INTERVAL,
            s.tracker().last_ms() == now,
    {
        let mut rows: Vec<EnemyRow> = Vec::new();
        let mut y_index: usize = 0;
        while y_index < ENEMY_ROWS
            invariant
                0 < variant_sizes.len(),
                forall|i: int| 0 <= i < variant_sizes.len() ==> #[trigger] variant_sizes@[i].wf(),
                y_index <= ENEMY_ROWS,
                rows@.len() == y_index,
                forall|r: int| 0 <= r < y_index ==> #[trigger] rows@[r].enemies@.len() == ENEMIES_PER_ROW,
                forall|r: int, c: int|
                    0 <= r < y_index && 0 <= c < ENEMIES_PER_ROW ==> fresh_slot(
                        #[trigger] rows@[r].enemies@[c],
                        variant_sizes@,
                        r,
                        c,
                    ),
            decreases ENEMY_ROWS - y_index,
        {
            rows.push(EnemyRow::new(variant_sizes, y_index));
            y_index = y_index + 1;
        }
        let s = EnemySystem {
            rows,
            dir: Direction::Left,
            dir_tracker: TimedTracker::new(ENEMY_DIR_INTERVAL, now),
        };
        assert forall|r: int, c: int|
            0 <= r < s.grid().len() && 0 <= c < s.grid()[r].len()
                && #[trigger] s.grid()[r][c] is Some implies s.grid()[r][c]->Some_0.size.wf() by {
            assert(fresh_slot(s.rows@[r].enemies@[c], variant_sizes@, r, c));
        }
        s
    }

    /// A formation holding exactly the given slots, moving leftward, with its
    /// reversal timer started at `now`.
    pub fn from_rows(rows: Vec<Vec<Option<Enemy>>>, now: u64) -> (s: EnemySystem)
        ensures
            s.grid() == rows@.map_values(|row: Vec<Option<Enemy>>| row@),
            s.direction() == Direction::Left,
            s.tracker().interval_ms() == ENEMY_DIR_INTERVAL,
            s.tracker().last_ms() == now,
    {
        let mut out: Vec<EnemyRow> = Vec::new();
        let mut rest = rows;
        let ghost src = rest@;
        let mut i: usize = 0;
        while i < rest.len()
            invariant
                rest@ == src,
                i <= rest@.len(),
                out@.len() == i,
                forall|r: int| 0 <= r < i ==> #[trigger] out@[r].enemies@ == src[r]@,
            decreases rest@.len() - i,
        {
            let mut row: Vec<Option<Enemy>> = Vec::new();
            let mut c: usize = 0;
            let n = rest[i].len();
            while c < n
                invariant
                    rest@ == src,
                    i < rest@.len(),
                    n == src[i as int]@.len(),
                    c <= n,
                    row@ == src[i as int]@.subrange(0, c as int),
                decreases n - c,
            {
                row.push(rest[i][c]);
                c = c + 1;
                assert(row@ =~= src[i as int]@.subrange(0, c as int));
            }
            assert(row@ =~= src[i as int]@);
            out.push(EnemyRow { enemies: row });
            i = i + 1;
        }
        let s = EnemySystem {
            rows: out,
            dir: Direction::Left,
            dir_tracker: TimedTracker::new(ENEMY_DIR_INTERVAL, now),
        };
        assert(s.grid() =~= src.map_values(|row: Vec<Option<Enemy>>| row@));
        s
    }

    /// The identity of the first live enemy, in row-major order, whose box
    /// overlaps `other`.
    pub fn collides_with(&self, other: &Rect) -> (r: Option<EnemyId>)
        ensures
            match r {
                Some(id) => is_first_hit(self.grid(), *other, id.0 as int, id.1 as int)
                    && first_hit(self.grid(), *other) == Some((id.0 as int, id.1 as int)),
                None => (forall|rr: int, cc: int| !hit(self.grid(), *other, rr, cc))
                    && first_hit(self.grid(), *other) is None,
            },
    {
        let ghost g = self.grid();
        let mut row_idx: usize = 0;
        while row_idx < self.rows.len()
            invariant
                g == self.grid(),
                row_idx <= g.len(),
                forall|rr: int, cc: int| rr < row_idx ==> !hit(g, *other, rr, cc),
            decreases self.rows.len() - row_idx,
        {
            let mut enemy_idx: usize = 0;
            while enemy_idx < self.rows[row_idx].enemies.len()
                invariant
                    g == self.grid(),
                    row_idx < g.len(),
                    enemy_idx <= g[row_idx as int].len(),
                    forall|rr: int, cc: int| rr < row_idx ==> !hit(g, *other, rr, cc),
                    forall|cc: int| cc < enemy_idx ==> !hit(g, *other, row_idx as int, cc),
                decreases self.rows[row_idx as int].enemies.len() - enemy_idx,
            {
                match self.rows[row_idx].enemies[enemy_idx] {
                    Some(enemy) => {
                        if enemy.collides_with(other) {
                            proof {
                                assert(is_first_hit(g, *other, row_idx as int, enemy_idx as int));
                                lemma_first_hit_unique(g, *other, row_idx as int, enemy_idx as int);
                            }
                            return Some(EnemyId(row_idx, enemy_idx));
                        }
                    },
                    None => {},
                }
                enemy_idx = enemy_idx + 1;
            }
            row_idx = row_idx + 1;
        }
        proof {
            assert forall|rr: int, cc: int| !hit(g, *other, rr, cc) by {}
            assert(!exists|rr: int, cc: int| is_first_hit(g, *other, rr, cc));
        }
        None
    }

    /// Empties slot `enemy_id`; emptying an empty slot changes nothing.
    pub fn clear_enemy(&mut self, enemy_id: EnemyId)
        requires
            enemy_id.0 < old(self).grid().len(),
            enemy_id.1 < old(self).grid()[enemy_id.0 as int].len(),
        ensures
            final(self).grid() == cleared(old(self).grid(), enemy_id.0 as int, enemy_id.1 as int),
            old(self).wf() ==> final(self).wf(),
            old(self).fits() ==> final(self).fits(),
            final(self).direction() == old(self).direction(),
            final(self).tracker() == old(self).tracker(),
    {
        let mut enemies: Vec<Option<Enemy>> = Vec::new();
        std::mem::swap(&mut enemies, &mut self.rows[enemy_id.0].enemies);
        enemies.set(enemy_id.1, None);
        std::mem::swap(&mut enemies, &mut self.rows[enemy_id.0].enemies);
        assert(self.grid() =~= cleared(old(self).grid(), enemy_id.0 as int, enemy_id.1 as int));
        proof {
            lemma_cleared_keeps(old(self).grid(), enemy_id.0 as int, enemy_id.1 as int);
        }
    }
}

impl EnemySystem {
    /// One frame of formation motion at time `now`. First the direction
    /// reverses if the reversal timer allows it. Then, row by row and column by
    /// column, each live enemy moves horizontally in its row's direction and
    /// descends; the sweep stops with `true` at the first moved enemy that
    /// reaches the screen's bottom or overlaps `player_box`.
    pub fn update(&mut self, player_box: &Rect, screen_bounds: ScreenBounds, now: u64) -> (collided: bool)
        requires
            old(self).wf(),
            old(self).fits(),
        ensures
            final(self).wf(),
            final(self).direction() == old(self).next_direction(now),
            final(self).tracker().interval_ms() == old(self).tracker().interval_ms(),
            final(self).tracker().last_ms() == old(self).next_reversal_ms(now),
            collided == exists|r: int, c: int|
                ends_game(
                    old(self).grid(),
                    old(self).next_direction(now),
                    *player_box,
                    screen_bounds,
                    r,
                    c,
                ),
            !collided ==> final(self).grid() == advanced_grid(
                old(self).grid(),
                old(self).next_direction(now),
            ),
            partly_advanced(final(self).grid(), old(self).grid(), old(self).next_direction(now)),
    {
        if self.dir_tracker.can(now) {
            self.dir_tracker.track(now);
            self.dir = self.dir.flip();
        }
        let ghost g0 = old(self).grid();
        let ghost t1 = self.dir_tracker;
        let d = self.dir;
        assert(self.grid() == g0);
        assert forall|r: int| 0 <= r < g0.len() implies #[trigger] self.rows@[r].enemies@ == g0[r] by {
            assert(self.grid()[r] == self.rows@[r].enemies@);
        }

        let mut cur_dir = d;
        let mut row_idx: usize = 0;
        while row_idx < self.rows.len()
            invariant
                grid_wf(g0),
                grid_fits(g0),
                t1.interval_ms() == old(self).tracker().interval_ms(),
                t1.last_ms() == old(self).next_reversal_ms(now),
                d == old(self).next_direction(now),
                g0 == old(self).grid(),
                self.dir == d,
                self.dir_tracker == t1,
                self.rows@.len() == g0.len(),
                row_idx <= g0.len(),
                cur_dir == row_dir(d, row_idx as int),
                forall|r: int|
                    0 <= r < row_idx ==> #[trigger] self.rows@[r].enemies@ == advanced_grid(g0, d)[r],
                forall|r: int| row_idx <= r < g0.len() ==> #[trigger] self.rows@[r].enemies@ == g0[r],
                forall|r: int, c: int|
                    r < row_idx ==> !#[trigger] ends_game(g0, d, *player_box, screen_bounds, r, c),
            decreases g0.len() - row_idx,
        {
            let mut enemies: Vec<Option<Enemy>> = Vec::new();
            std::mem::swap(&mut enemies, &mut self.rows[row_idx].enemies);
            let ghost rows_mid = self.rows@;
            let ghost row0 = g0[row_idx as int];
            assert(enemies@ =~= row0);
            let dx: i64 = match cur_dir {
                Direction::Left => -ENEMY_SPEED_X,
                Direction::Right => ENEMY_SPEED_X,
            };
            let mut enemy_idx: usize = 0;
            while enemy_idx < enemies.len()
                invariant
                    grid_fits(g0),
                    grid_wf(g0),
                    t1.interval_ms() == old(self).tracker().interval_ms(),
                    t1.last_ms() == old(self).next_reversal_ms(now),
                    d == old(self).next_direction(now),
                    g0 == old(self).grid(),
                    row_idx < g0.len(),
                    row0 == g0[row_idx as int],
                    self.rows@ == rows_mid,
                    rows_mid.len() == g0.len(),
                    forall|r: int|
                        0 <= r < row_idx ==> #[trigger] rows_mid[r].enemies@ == advanced_grid(g0, d)[r],
                    forall|r: int| row_idx < r < g0.len() ==> #[trigger] rows_mid[r].enemies@ == g0[r],
                    self.dir == d,
                    self.dir_tracker == t1,
                    cur_dir == row_dir(d, row_idx as int),
                    dx == ENEMY_SPEED_X * cur_dir.sign(),
                    enemies@.len() == row0.len(),
                    enemy_idx <= row0.len(),
                    forall|c: int|
                        0 <= c < enemy_idx ==> #[trigger] enemies@[c] == advanced_slot(row0[c], cur_dir),
                    forall|c: int| enemy_idx <= c < row0.len() ==> #[trigger] enemies@[c] == row0[c],
                    forall|c: int|
                        c < enemy_idx ==> !#[trigger] ends_game(
                            g0,
                            d,
                            *player_box,
                            screen_bounds,
                            row_idx as int,
                            c,
                        ),
                decreases row0.len() - enemy_idx,
            {
                match enemies[enemy_idx] {
                    Some(enemy) => {
                        assert(g0[row_idx as int][enemy_idx as int] is Some);
                        let moved = Enemy {
                            transform: Point {
                                x: enemy.transform.x + dx,
                                y: enemy.transform.y + ENEMY_SPEED_Y,
                            },
                            ..enemy
                        };
                        assert(moved == advanced(enemy, cur_dir));
                        enemies.set(enemy_idx, Some(moved));
                        if moved.touched_bottom(screen_bounds) || moved.collides_with(player_box) {
                            std::mem::swap(&mut enemies, &mut self.rows[row_idx].enemies);
                            proof {
                                let ghost gf = self.grid();
                                assert forall|r: int| 0 <= r < g0.len() implies #[trigger] gf[r]
                                    == self.rows@[r].enemies@ by {}
                                assert forall|r: int, c: int|
                                    0 <= r < g0.len() && 0 <= c < g0[r].len() implies #[trigger] gf[r][c]
                                        == g0[r][c] || gf[r][c] == advanced_slot(
                                        g0[r][c],
                                        row_dir(d, r),
                                    ) by {
                                    if r == row_idx {
                                        if c < enemy_idx + 1 {
                                            assert(gf[r][c] == advanced_slot(g0[r][c], row_dir(d, r)));
                                        } else {
                                            assert(gf[r][c] == g0[r][c]);
                                        }
                                    } else if r < row_idx {
                                        assert(gf[r] == advanced_grid(g0, d)[r]);
                                    }
                                }
                                assert(ends_game(
                                    g0,
                                    d,
                                    *player_box,
                                    screen_bounds,
                                    row_idx as int,
                                    enemy_idx as int,
                                ));
                                assert(partly_advanced(self.grid(), g0, d));
                                lemma_partly_advanced_wf(self.grid(), g0, d);
                            }
                            return true;
                        }
                    },
                    None => {},
                }
                enemy_idx = enemy_idx + 1;
            }
            std::mem::swap(&mut enemies, &mut self.rows[row_idx].enemies);
            cur_dir = cur_dir.flip();
            row_idx = row_idx + 1;
        }
        proof {
            assert forall|r: int| 0 <= r < g0.len() implies #[trigger] self.grid()[r]
                == advanced_grid(g0, d)[r] by {
                assert(self.grid()[r] == self.rows@[r].enemies@);
            }
            assert(self.grid() =~= advanced_grid(g0, d));
            assert(partly_advanced(self.grid(), g0, d));
            lemma_partly_advanced_wf(self.grid(), g0, d);
            assert forall|r: int, c: int|
                !ends_game(g0, d, *player_box, screen_bounds, r, c) by {
                if 0 <= r < g0.len() {
                    assert(!ends_game(g0, d, *player_box, screen_bounds, r, c));
                }
            }
        }
        false
    }
}

/// The shared direction reverses exactly once per elapsed interval: a check
/// at `now1`, once the interval has elapsed, flips it; a second check at
/// `now2`, no later than one interval after `now1`, leaves it as it is.
pub proof fn lemma_direction_flips_once(f: EnemySystem, g: EnemySystem, now1: u64, now2: u64)
    requires
        f.tracker().ready(now1),
        g.direction() == f.next_direction(now1),
        g.tracker().interval_ms() == f.tracker().interval_ms(),
        g.tracker().last_ms() == f.next_reversal_ms(now1),
        now1 <= now2 <= now1 + f.tracker().interval_ms(),
    ensures
        g.direction() == f.direction().flipped(),
        g.next_direction(now2) == g.direction(),
        g.next_direction(now2) != f.direction(),
{
}

impl EnemySystem {
    /// Whether every live enemy lies within the accepted coordinate range.
    pub fn in_bounds(&self) -> (r: bool)
        ensures
            r == self.fits(),
    {
        let ghost g = self.grid();
        let mut row_idx: usize = 0;
        while row_idx < self.rows.len()
            invariant
                g == self.grid(),
                row_idx <= g.len(),
                forall|r: int, c: int|
                    0 <= r < row_idx && 0 <= c < g[r].len() && #[trigger] g[r][c] is Some
                        ==> in_range(g[r][c]->Some_0.transform.x as int) && in_range(
                        g[r][c]->Some_0.transform.y as int,
                    ),
            decreases self.rows.len() - row_idx,
        {
            let mut enemy_idx: usize = 0;
            while enemy_idx < self.rows[row_idx].enemies.len()
                invariant
                    g == self.grid(),
                    row_idx < g.len(),
                    enemy_idx <= g[row_idx as int].len(),
                    forall|r: int, c: int|
                        0 <= r < row_idx && 0 <= c < g[r].len() && #[trigger] g[r][c] is Some
                            ==> in_range(g[r][c]->Some_0.transform.x as int) && in_range(
                            g[r][c]->Some_0.transform.y as int,
                        ),
                    forall|c: int|
                        0 <= c < enemy_idx && #[trigger] g[row_idx as int][c] is Some ==> in_range(
                            g[row_idx as int][c]->Some_0.transform.x as int,
                        ) && in_range(g[row_idx as int][c]->Some_0.transform.y as int),
                decreases self.rows[row_idx as int].enemies.len() - enemy_idx,
            {
                match self.rows[row_idx].enemies[enemy_idx] {
                    Some(enemy) => {
                        assert(g[row_idx as int][enemy_idx as int] is Some);
                        if !(-MAX_COORD <= enemy.transform.x && enemy.transform.x <= MAX_COORD
                            && -MAX_COORD <= enemy.transform.y && enemy.transform.y <= MAX_COORD) {
                            return false;
                        }
                    },
                    None => {},
                }
                enemy_idx = enemy_idx + 1;
            }
            row_idx = row_idx + 1;
        }
        true
    }
}

impl EnemySystem {
    /// The number of rows.
    pub fn num_rows(&self) -> (r: usize)
        ensures
            r == self.grid().len(),
    {
        self.rows.len()
    }

    /// The number of slots in row `row`.
    pub fn row_len(&self, row: usize) -> (r: usize)
        requires
            row < self.grid().len(),
        ensures
            r == self.grid()[row as int].len(),
    {
        self.rows[row].enemies.len()
    }

    /// The content of slot `(row, col)`.
    pub fn enemy_at(&self, row: usize, col: usize) -> (r: Option<Enemy>)
        requires
            row < self.grid().len(),
            col < self.grid()[row as int].len(),
        ensures
            r == self.grid()[row as int][col as int],
    {
        self.rows[row].enemies[col]
    }

    /// The shared direction.
    pub fn dir(&self) -> (r: Direction)
        ensures
            r == self.direction(),
    {
        self.dir
    }
}

} // verus!
