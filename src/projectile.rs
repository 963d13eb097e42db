use crate::enemies::{cleared, first_hit, EnemySystem, Grid};
use crate::misc::{in_range, spec_box, Dimensions, Point, Rect, MAX_COORD, MAX_DT, MAX_SPEED};
use vstd::prelude::*;

verus! {

/// Speed of a player's shot, in tenths of a pixel per millisecond.
pub const PROJECTILE_BASE_SPEED: i64 = 7;

/// The vertical velocity of a player's shot: straight up.
pub const PLAYER_SHOT_VELOCITY_Y: i64 = -PROJECTILE_BASE_SPEED;

/// The velocity of a player's shot.
pub open spec fn player_shot_velocity() -> Point {
    Point { x: 0, y: PLAYER_SHOT_VELOCITY_Y }
}

/// The side that fired a projectile.
#[derive(Clone, Copy, Debug, PartialEq, Eq, Structural)]
pub enum ShotType {
    PlayerShot,
    EnemyShot,
}

/// A projectile in flight.
#[derive(Clone, Copy, Debug, PartialEq, Eq, Structural)]
pub struct Projectile {
    pub shot_type: ShotType,
    pub transform: Point,
    pub velocity: Point,
    pub size: Dimensions,
}

/// Valid size and bounded velocity.
pub open spec fn projectile_wf(p: Projectile) -> bool {
    &&& p.size.wf()
    &&& -MAX_SPEED <= p.velocity.x <= MAX_SPEED
    &&& -MAX_SPEED <= p.velocity.y <= MAX_SPEED
}

/// The projectile after `dt` milliseconds of flight.
pub open spec fn moved(p: Projectile, dt: u64) -> Projectile {
    Projectile {
        transform: Point {
            x: (p.transform.x + p.velocity.x * dt) as i64,
            y: (p.transform.y + p.velocity.y * dt) as i64,
        },
        ..p
    }
}

/// The projectile has left the screen through its top, by its whole height.
pub open spec fn is_off_screen(p: Projectile) -> bool {
    p.transform.y < -p.size.h
}

/// The box of a projectile.
pub open spec fn projectile_box(p: Projectile) -> Rect {
    spec_box(p.transform, p.size)
}

impl Projectile {
    /// A projectile fired by `shot_type` at `transform` with `velocity`, whose sprite has size `size`.
    pub fn new(shot_type: ShotType, transform: Point, velocity: Point, size: Dimensions) -> (p: Projectile)
        ensures
            p == (Projectile { shot_type, transform, velocity, size }),
    {
        Projectile { shot_type, transform, velocity, size }
    }

    /// Moves the projectile by its velocity times `delta_t`.
    pub fn update(&mut self, delta_t: u64)
        requires
            projectile_wf(*old(self)),
            in_range(old(self).transform.x as int),
            in_range(old(self).transform.y as int),
            delta_t <= MAX_DT,
        ensures
            *final(self) == moved(*old(self), delta_t),
    {
        proof {
            assert(-MAX_SPEED * MAX_DT <= self.velocity.x * delta_t <= MAX_SPEED * MAX_DT)
                by (nonlinear_arith)
                requires
                    -MAX_SPEED <= self.velocity.x <= MAX_SPEED,
                    0 <= delta_t <= MAX_DT,
            ;
            assert(-MAX_SPEED * MAX_DT <= self.velocity.y * delta_t <= MAX_SPEED * MAX_DT)
                by (nonlinear_arith)
                requires
                    -MAX_SPEED <= self.velocity.y <= MAX_SPEED,
                    0 <= delta_t <= MAX_DT,
            ;
        }
        let dt = delta_t as i64;
        self.transform = Point {
            x: self.transform.x + self.velocity.x * dt,
            y: self.transform.y + self.velocity.y * dt,
        };
    }

    /// The projectile's bounding box.
    pub fn bb(&self) -> (r: Rect)
        ensures
            r == projectile_box(*self),
    {
        Rect { x: self.transform.x, y: self.transform.y, w: self.size.w, h: self.size.h }
    }

    /// Whether the projectile is above the screen's top by more than its own height.
    pub fn off_screen(&self) -> (r: bool)
        ensures
            r == is_off_screen(*self),
    {
        (self.transform.y as i128) < 0 - self.size.h as i128
    }
}

/// Index `i` is the first empty slot, or the length when every slot is occupied.
pub open spec fn is_first_free(s: Seq<Option<Projectile>>, i: int) -> bool {
    &&& 0 <= i <= s.len()
    &&& i < s.len() ==> s[i] is None
    &&& forall|j: int| 0 <= j < i ==> #[trigger] s[j] is Some
}

/// The slot that a spawn fills: the first empty one, else a new one at the end.
pub open spec fn first_free(s: Seq<Option<Projectile>>) -> int {
    choose|i: int| is_first_free(s, i)
}

/// The slots after spawning `p`.
pub open spec fn spawned(s: Seq<Option<Projectile>>, p: Projectile) -> Seq<Option<Projectile>> {
    if first_free(s) < s.len() {
        s.update(first_free(s), Some(p))
    } else {
        s.push(Some(p))
    }
}

/// There is exactly one first free slot.
pub proof fn lemma_first_free(s: Seq<Option<Projectile>>, i: int)
    requires
        is_first_free(s, i),
    ensures
        first_free(s) == i,
{
    let k = first_free(s);
    assert(is_first_free(s, k));
    if k < i {
        assert(s[k] is Some);
    } else if i < k {
        assert(s[i] is Some);
    }
}

/// Every slot sequence has a first free slot.
pub proof fn lemma_first_free_exists(s: Seq<Option<Projectile>>)
    ensures
        is_first_free(s, first_free(s)),
    decreases s.len(),
{
    if s.len() == 0 {
        assert(is_first_free(s, 0));
    } else {
        let t = s.subrange(0, s.len() - 1);
        lemma_first_free_exists(t);
        let i = first_free(t);
        if i < t.len() {
            assert(t[i] == s[i]);
            assert forall|j: int| 0 <= j < i implies #[trigger] s[j] is Some by {
                assert(t[j] == s[j]);
            }
            assert(is_first_free(s, i));
        } else if s[s.len() - 1] is None {
            assert forall|j: int| 0 <= j < s.len() - 1 implies #[trigger] s[j] is Some by {
                assert(t[j] == s[j]);
            }
            assert(is_first_free(s, s.len() - 1));
        } else {
            assert forall|j: int| 0 <= j < s.len() implies #[trigger] s[j] is Some by {
                if j < s.len() - 1 {
                    assert(t[j] == s[j]);
                }
            }
            assert(is_first_free(s, s.len() as int));
        }
    }
}

/// A slot emptied after a spawn is the one the next spawn fills.
pub proof fn lemma_slot_reuse(s: Seq<Option<Projectile>>, p: Projectile, q: Projectile)
    ensures
        first_free(spawned(s, p).update(first_free(s), None)) == first_free(s),
        spawned(spawned(s, p).update(first_free(s), None), q)[first_free(s)] == Some(q),
{
    lemma_first_free_exists(s);
    let i = first_free(s);
    let t = spawned(s, p).update(i, None);
    assert forall|j: int| 0 <= j < i implies #[trigger] t[j] is Some by {
        assert(s[j] is Some);
    }
    assert(is_first_free(t, i));
    lemma_first_free(t, i);
}

/// One slot's share of a pool sweep over grid `g`: a projectile moves; it
/// goes if it has left the screen; otherwise, if it overlaps an enemy, the
/// first such enemy and the projectile both go.
pub open spec fn slot_step(s: Option<Projectile>, g: Grid, dt: u64) -> (Option<Projectile>, Grid) {
    match s {
        None => (None, g),
        Some(p) => {
            let q = moved(p, dt);
            if is_off_screen(q) {
                (None, g)
            } else {
                match first_hit(g, projectile_box(q)) {
                    Some((r, c)) => (None, cleared(g, r, c)),
                    None => (Some(q), g),
                }
            }
        },
    }
}

/// The slots and the grid after the sweep has handled the first `n` slots, in index order.
pub open spec fn sweep(s: Seq<Option<Projectile>>, g: Grid, dt: u64, n: nat) -> (Seq<Option<Projectile>>, Grid)
    decreases n,
{
    if n == 0 || n > s.len() {
        (s, g)
    } else {
        let (s1, g1) = sweep(s, g, dt, (n - 1) as nat);
        let (slot, g2) = slot_step(s1[n - 1], g1, dt);
        (s1.update(n - 1, slot), g2)
    }
}

/// The pool of projectiles: slots whose indices stay stable; an emptied slot
/// is reused by a later spawn, and the pool never shrinks.
pub struct ProjectileSystem {
    projectiles: Vec<Option<Projectile>>,
}

impl ProjectileSystem {
    /// The slots, in index order.
    pub closed spec fn slots(&self) -> Seq<Option<Projectile>> {
        self.projectiles@
    }

    /// Every live projectile has a valid size and a bounded velocity.
    pub open spec fn wf(&self) -> bool {
        forall|i: int|
            0 <= i < self.slots().len() && #[trigger] self.slots()[i] is Some ==> projectile_wf(
                self.slots()[i]->Some_0,
            )
    }

    /// Every live projectile lies within the accepted coordinate range.
    pub open spec fn fits(&self) -> bool {
        forall|i: int|
            0 <= i < self.slots().len() && #[trigger] self.slots()[i] is Some ==> in_range(
                self.slots()[i]->Some_0.transform.x as int,
            ) && in_range(self.slots()[i]->Some_0.transform.y as int)
    }

    /// An empty pool.
    pub fn new() -> (s: ProjectileSystem)
        ensures
            s.slots() == Seq::<Option<Projectile>>::empty(),
            s.wf(),
    {
        ProjectileSystem { projectiles: Vec::new() }
    }

    /// The number of slots, live or empty.
    pub fn len(&self) -> (r: usize)
        ensures
            r == self.slots().len(),
    {
        self.projectiles.len()
    }

    /// The content of slot `i`.
    pub fn get(&self, i: usize) -> (r: Option<Projectile>)
        requires
            i < self.slots().len(),
        ensures
            r == self.slots()[i as int],
    {
        self.projectiles[i]
    }

    /// Spawns a shot of `shot_type` at `shot_from`, moving with the player's
    /// shot velocity, with a sprite of size `shot_size`; it fills the first
    /// empty slot, or a new slot at the end.
    pub fn add_projectile(&mut self, shot_type: ShotType, shot_from: Point, shot_size: Dimensions)
        ensures
            final(self).slots() == spawned(
                old(self).slots(),
                Projectile { shot_type, transform: shot_from, velocity: player_shot_velocity(), size: shot_size },
            ),
            first_free(old(self).slots()) <= old(self).slots().len(),
            old(self).wf() && shot_size.wf() ==> final(self).wf(),
            old(self).fits() && in_range(shot_from.x as int) && in_range(shot_from.y as int)
                ==> final(self).fits(),
    {
        let mut empty_slot: usize = self.projectiles.len();
        let mut idx: usize = 0;
        while idx < self.projectiles.len()
            invariant_except_break
                empty_slot == self.projectiles@.len(),
            invariant
                self.projectiles@ == old(self).projectiles@,
                idx <= self.projectiles@.len(),
                forall|j: int| 0 <= j < idx ==> #[trigger] self.projectiles@[j] is Some,
            ensures
                is_first_free(self.projectiles@, empty_slot as int),
            decreases self.projectiles@.len() - idx,
        {
            if self.projectiles[idx].is_none() {
                empty_slot = idx;
                break;
            }
            idx = idx + 1;
        }
        proof {
            lemma_first_free(old(self).projectiles@, empty_slot as int);
        }

        let projectile = Some(Projectile::new(
            shot_type,
            shot_from,
            Point { x: 0, y: PLAYER_SHOT_VELOCITY_Y },
            shot_size,
        ));

        if empty_slot < self.projectiles.len() {
            self.projectiles.set(empty_slot, projectile);
        } else {
            self.projectiles.push(projectile);
        }
        proof {
            let s = self.projectiles@;
            assert forall|i: int| 0 <= i < s.len() && #[trigger] s[i] is Some implies (i
                == empty_slot || s[i] == old(self).projectiles@[i]) by {}
        }
    }

    /// One frame of flight of `dt` milliseconds: in index order, each live
    /// projectile moves, then goes if it has left the screen, else takes
    /// with it the first enemy, in row-major order, that its box overlaps.
    pub fn update(&mut self, enemies: &mut EnemySystem, dt: u64)
        requires
            old(self).wf(),
            old(self).fits(),
            dt <= MAX_DT,
        ensures
            (final(self).slots(), final(enemies).grid()) == sweep(
                old(self).slots(),
                old(enemies).grid(),
                dt,
                old(self).slots().len(),
            ),
            final(self).wf(),
            final(enemies).direction() == old(enemies).direction(),
            final(enemies).tracker() == old(enemies).tracker(),
            old(enemies).wf() ==> final(enemies).wf(),
            old(enemies).fits() ==> final(enemies).fits(),
    {
        let ghost s0 = self.projectiles@;
        let ghost g0 = enemies.grid();
        let mut i: usize = 0;
        while i < self.projectiles.len()
            invariant
                old(self).wf(),
                old(self).fits(),
                s0 == old(self).slots(),
                g0 == old(enemies).grid(),
                dt <= MAX_DT,
                i <= s0.len(),
                self.projectiles@.len() == s0.len(),
                (self.projectiles@, enemies.grid()) == sweep(s0, g0, dt, i as nat),
                forall|j: int| i <= j < s0.len() ==> #[trigger] self.projectiles@[j] == s0[j],
                self.wf(),
                enemies.direction() == old(enemies).direction(),
                enemies.tracker() == old(enemies).tracker(),
                old(enemies).wf() ==> enemies.wf(),
                old(enemies).fits() ==> enemies.fits(),
            decreases s0.len() - i,
        {
            let ghost before = self.projectiles@;
            match self.projectiles[i] {
                Some(p) => {
                    assert(s0[i as int] is Some);
                    assert(old(self).slots()[i as int] is Some);
                    let mut q = p;
                    q.update(dt);
                    if q.off_screen() {
                        self.projectiles.set(i, None);
                    } else {
                        match enemies.collides_with(&q.bb()) {
                            Some(enemy_id) => {
                                enemies.clear_enemy(enemy_id);
                                self.projectiles.set(i, None);
                            },
                            None => {
                                self.projectiles.set(i, Some(q));
                            },
                        }
                    }
                },
                None => {},
            }
            proof {
                assert forall|j: int|
                    0 <= j < self.slots().len() && #[trigger] self.slots()[j] is Some implies projectile_wf(
                        self.slots()[j]->Some_0,
                    ) by {
                    assert(before[j] is Some);
                }
            }
            i = i + 1;
        }
    }
}

impl ProjectileSystem {
    /// Whether every live projectile lies within the accepted coordinate range.
    pub fn in_bounds(&self) -> (r: bool)
        ensures
            r == self.fits(),
    {
        let mut i: usize = 0;
        while i < self.projectiles.len()
            invariant
                i <= self.slots().len(),
                forall|j: int|
                    0 <= j < i && #[trigger] self.slots()[j] is Some ==> in_range(
                        self.slots()[j]->Some_0.transform.x as int,
                    ) && in_range(self.slots()[j]->Some_0.transform.y as int),
            decreases self.projectiles.len() - i,
        {
            match self.projectiles[i] {
                Some(p) => {
                    assert(self.slots()[i as int] is Some);
                    if !(-MAX_COORD <= p.transform.x && p.transform.x <= MAX_COORD
                        && -MAX_COORD <= p.transform.y && p.transform.y <= MAX_COORD) {
                        return false;
                    }
                },
                None => {},
            }
            i = i + 1;
        }
        true
    }
}

} // verus!
