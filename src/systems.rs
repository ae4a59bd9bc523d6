//! The per-frame update passes. Each pass is a struct holding the frame's
//! inputs, with a `run` method over the [`World`]; its contract states the new
//! world in terms of a per-entity function where the pass treats every entity
//! alike.

use vstd::prelude::*;

use crate::components::{
    Acceleration, BulletState, CurrentBulletState, OnGround, Position, Velocity,
};
use crate::geometry::{
    clamp, in_range, norm2, saturate, scale_toward, scaled_toward, distance2, LIMIT, PIXEL,
};
use crate::world::{
    mapped, maps_components, objective, player, Components, Slot, World,
};

verus! {

/// Downward acceleration added each frame to an airborne entity.
pub const GRAVITY: i64 = 500;

/// Horizontal acceleration from a held direction key.
pub const WALK_ACCELERATION: i64 = 800;

/// Upward impulse of a jump.
pub const JUMP_IMPULSE: i64 = 50_500;

/// Magnitude of the horizontal deceleration against motion.
pub const DRAG_DECELERATION: i64 = 800;

/// Magnitude of a flyer's pull toward the objective.
pub const HOMING_ACCELERATION: i64 = 50;

/// Speed of a fired bullet.
pub const BULLET_SPEED: i64 = 150_000;

/// A flyer farther than this from the objective keeps homing on it.
pub const ARRIVAL_RADIUS: i64 = 25 * PIXEL;

/// A flyer nearer than this to the objective stops moving.
pub const LANDED_RADIUS: i64 = 2 * PIXEL;

/// A firing bullet nearer than this to a flyer destroys it.
pub const HIT_RADIUS: i64 = 25 * PIXEL;

/// How far outside the arena a bullet may travel before it is recalled.
pub const BOUNDS_MARGIN: i64 = 10 * PIXEL;

/// Where idle bullets wait, off the arena, on both axes.
pub const PARKED: i64 = -50 * PIXEL;

/// Milliseconds between two shots.
pub const FIRE_COOLDOWN_MS: u128 = 100;

/// Score for each flyer destroyed.
pub const KILL_REWARD: usize = 10;

/// Score for each survival tick.
pub const SURVIVAL_REWARD: usize = 1;

// ---------------------------------------------------------------- firing

/// The slot holds a bullet that can be fired.
pub open spec fn is_ready_bullet(c: Components) -> bool {
    &&& c.bullet.is_some()
    &&& c.position.is_some()
    &&& c.velocity.is_some()
    &&& c.bullet_state == Some(BulletState(CurrentBulletState::Ready))
}

/// Index of the first ready bullet at or after `i`.
pub open spec fn ready_from(s: Seq<Slot>, i: int) -> Option<int>
    decreases s.len() - i,
{
    if i < 0 || i >= s.len() {
        None
    } else if is_ready_bullet(s[i].c) {
        Some(i)
    } else {
        ready_from(s, i + 1)
    }
}

pub proof fn lemma_ready_found(s: Seq<Slot>, i: int)
    requires
        0 <= i,
    ensures
        ready_from(s, i) matches Some(k) ==> i <= k < s.len() && is_ready_bullet(s[k].c),
    decreases s.len() - i,
{
    if i < s.len() && !is_ready_bullet(s[i].c) {
        lemma_ready_found(s, i + 1);
    }
}

/// Index of the first ready bullet of the pool.
pub open spec fn first_ready(s: Seq<Slot>) -> Option<int> {
    ready_from(s, 0)
}

/// Where a bullet is fired from: the player's position, or the parking spot
/// when there is no player.
pub open spec fn fire_origin(s: Seq<Slot>) -> Position {
    match player(s) {
        Some(k) => s[k].c.position.unwrap(),
        None => Position { x: PARKED, y: PARKED },
    }
}

/// Velocity of a bullet fired at `target`: from the player toward the target
/// at bullet speed; zero when there is no player or the target is the
/// player's own position.
pub open spec fn fire_velocity(s: Seq<Slot>, target: Position) -> (int, int) {
    match player(s) {
        Some(k) => {
            let p = s[k].c.position.unwrap();
            scaled_toward(target.x - p.x, target.y - p.y, BULLET_SPEED as int)
        },
        None => (0, 0),
    }
}

/// A bullet launched from `origin` with velocity `v`.
pub open spec fn fired(c: Components, origin: Position, v: (int, int)) -> Components {
    Components {
        position: Some(origin),
        velocity: Some(Velocity { x: v.0 as i64, y: v.1 as i64 }),
        bullet_state: Some(BulletState(CurrentBulletState::Firing)),
        ..c
    }
}

/// A fire command may launch a bullet at time `now`.
pub open spec fn may_fire(until: u128, now: u128) -> bool {
    until <= now
}

/// Slots and cooldown after a fire command at `now` toward `target`, with
/// the cooldown running until `until`.
pub open spec fn fire_result(s: Seq<Slot>, until: u128, target: Position, now: u128) -> (
    Seq<Slot>,
    u128,
) {
    match first_ready(s) {
        Some(k) => if may_fire(until, now) {
            (
                s.update(k, s[k].with(fired(s[k].c, fire_origin(s), fire_velocity(s, target)))),
                now.saturating_add(FIRE_COOLDOWN_MS),
            )
        } else {
            (s, until)
        },
        None => (s, until),
    }
}

/// Fires one bullet toward `mouse_location`, if the cooldown has elapsed.
pub struct FireBulletSystem {
    pub mouse_location: Position,
    pub duration_since_start: u128,
}

impl FireBulletSystem {
    /// Launches the first ready bullet from the player toward the target and
    /// restarts the cooldown; without an elapsed cooldown or a ready bullet
    /// nothing changes. One command launches at most one bullet.
    pub fn run(&self, world: &mut World)
        requires
            old(world).wf(),
            in_range(self.mouse_location.x as int),
            in_range(self.mouse_location.y as int),
        ensures
            final(world).wf(),
            final(world).still_alive == old(world).still_alive,
            final(world).score == old(world).score,
            final(world).bullet_size == old(world).bullet_size,
            (final(world).slots@, final(world).delay_firing.0) == fire_result(
                old(world).slots@,
                old(world).delay_firing.0,
                self.mouse_location,
                self.duration_since_start,
            ),
    {
        if world.delay_firing.get() > self.duration_since_start {
            return;
        }
        let mut origin = Position { x: PARKED, y: PARKED };
        let mut v: (i128, i128) = (0, 0);
        match world.find_player() {
            Some(k) => {
                let p = world.slots[k].c.position.unwrap();
                origin = p;
                v = scale_toward(
                    self.mouse_location.x as i128 - p.x as i128,
                    self.mouse_location.y as i128 - p.y as i128,
                    BULLET_SPEED as i128,
                );
            },
            None => {},
        }
        let n = world.slots.len();
        let mut i: usize = 0;
        while i < n
            invariant
                n == world.slots@.len(),
                i <= n,
                *world == *old(world),
                world.wf(),
                may_fire(old(world).delay_firing.0, self.duration_since_start),
                first_ready(world.slots@) == ready_from(world.slots@, i as int),
                v.0 == fire_velocity(world.slots@, self.mouse_location).0,
                v.1 == fire_velocity(world.slots@, self.mouse_location).1,
                -BULLET_SPEED <= v.0 <= BULLET_SPEED,
                -BULLET_SPEED <= v.1 <= BULLET_SPEED,
                origin == fire_origin(world.slots@),
            decreases n - i,
        {
            let c = world.slots[i].c;
            let ready = match c.bullet_state {
                Some(BulletState(CurrentBulletState::Ready)) => true,
                _ => false,
            };
            if c.bullet.is_some() && c.position.is_some() && c.velocity.is_some() && ready {
                let mut s = world.slots[i];
                s.c.position = Some(origin);
                s.c.velocity = Some(Velocity { x: v.0 as i64, y: v.1 as i64 });
                s.c.bullet_state = Some(BulletState(CurrentBulletState::Firing));
                proof {
                    lemma_ready_found(old(world).slots@, 0);
                    assert(is_ready_bullet(c));
                    assert(first_ready(old(world).slots@) == Some(i as int));
                    match player(old(world).slots@) {
                        Some(k) => {
                            crate::world::lemma_player_found(old(world).slots@, 0);
                            assert(old(world).slots@[k].c.wf());
                        },
                        None => {},
                    }
                    assert(s.c.wf());
                }
                world.slots.set(i, s);
                world.delay_firing.set(
                    self.duration_since_start.saturating_add(FIRE_COOLDOWN_MS),
                );
                return;
            }
            i += 1;
        }
    }
}

// ---------------------------------------------------------------- impact

/// The slot holds a bullet in flight.
pub open spec fn is_firing_bullet(c: Components) -> bool {
    &&& c.bullet.is_some()
    &&& c.position.is_some()
    &&& c.bullet_state == Some(BulletState(CurrentBulletState::Firing))
}

/// The slot holds a flyer within hit range of `b`. A flyer already marked
/// for destruction this frame still counts: it is removed only once all
/// passes have run, and marking it again changes nothing.
pub open spec fn is_target(sl: Slot, b: Position) -> bool {
    &&& sl.c.flyer.is_some()
    &&& sl.c.position matches Some(p)
    &&& norm2(p.x - b.x, p.y - b.y) < HIT_RADIUS * HIT_RADIUS
}

/// Index of the first target of a bullet at `b`, at or after slot `j`.
pub open spec fn target_from(s: Seq<Slot>, b: Position, j: int) -> Option<int>
    decreases s.len() - j,
{
    if j < 0 || j >= s.len() {
        None
    } else if is_target(s[j], b) {
        Some(j)
    } else {
        target_from(s, b, j + 1)
    }
}

pub proof fn lemma_target_found(s: Seq<Slot>, b: Position, j: int)
    requires
        0 <= j,
    ensures
        target_from(s, b, j) matches Some(k) ==> j <= k < s.len() && is_target(s[k], b),
    decreases s.len() - j,
{
    if j < s.len() && !is_target(s[j], b) {
        lemma_target_found(s, b, j + 1);
    }
}

/// The bullet in slot `i` tests for a hit: on the first target found, that
/// flyer is marked for destruction, the bullet becomes `Hit` and the kill
/// reward is added to the score.
pub open spec fn impact_step(s: Seq<Slot>, score: usize, i: int) -> (Seq<Slot>, usize) {
    if is_firing_bullet(s[i].c) {
        match target_from(s, s[i].c.position.unwrap(), 0) {
            Some(j) => {
                let s1 = s.update(j, Slot { doomed: true, ..s[j] });
                let hit = Components {
                    bullet_state: Some(BulletState(CurrentBulletState::Hit)),
                    ..s1[i].c
                };
                (s1.update(i, s1[i].with(hit)), crate::resources::raised(score, KILL_REWARD))
            },
            None => (s, score),
        }
    } else {
        (s, score)
    }
}

/// Slots and score after the bullets of the first `n` slots, in slot order,
/// have tested for hits.
pub open spec fn impact_upto(s: Seq<Slot>, score: usize, n: int) -> (Seq<Slot>, usize)
    decreases n,
{
    if n <= 0 {
        (s, score)
    } else {
        let prev = impact_upto(s, score, n - 1);
        impact_step(prev.0, prev.1, n - 1)
    }
}

/// Testing bullets for hits never lowers the score.
pub proof fn lemma_impact_score_grows(s: Seq<Slot>, score: usize, n: int)
    ensures
        impact_upto(s, score, n).1 >= score,
    decreases n,
{
    if n > 0 {
        lemma_impact_score_grows(s, score, n - 1);
    }
}

/// Finds the first target of a bullet at `b`.
fn find_target(world: &World, b: Position) -> (r: Option<usize>)
    requires
        world.wf(),
        in_range(b.x as int),
        in_range(b.y as int),
    ensures
        match r {
            Some(k) => {
                &&& target_from(world.slots@, b, 0) == Some(k as int)
                &&& k < world.slots@.len()
                &&& is_target(world.slots@[k as int], b)
            },
            None => target_from(world.slots@, b, 0) is None,
        },
{
    let n = world.slots.len();
    let mut j: usize = 0;
    while j < n
        invariant
            n == world.slots@.len(),
            j <= n,
            world.wf(),
            in_range(b.x as int),
            in_range(b.y as int),
            target_from(world.slots@, b, 0) == target_from(world.slots@, b, j as int),
        decreases n - j,
    {
        let sl = world.slots[j];
        if sl.c.flyer.is_some() {
            match sl.c.position {
                Some(p) => {
                    assert(sl.c.wf());
                    let d = distance2(b.x, b.y, p.x, p.y);
                    if d < (HIT_RADIUS as i128) * (HIT_RADIUS as i128) {
                        proof {
                            lemma_target_found(world.slots@, b, 0);
                        }
                        return Some(j);
                    }
                },
                None => {},
            }
        }
        j += 1;
    }
    None
}

/// Destroys flyers struck by bullets in flight and scores the kills.
pub struct ShootBirdsSystem;

impl ShootBirdsSystem {
    /// Each bullet in flight, in slot order, destroys at most one flyer: the
    /// first (in slot order) within the hit radius, whether or not another
    /// bullet already struck it this frame. The flyer is removed at the next
    /// maintenance, the bullet becomes `Hit`, and the score grows by the kill
    /// reward, once per bullet that hits.
    pub fn run(&self, world: &mut World)
        requires
            old(world).wf(),
        ensures
            final(world).wf(),
            final(world).still_alive == old(world).still_alive,
            final(world).bullet_size == old(world).bullet_size,
            final(world).delay_firing == old(world).delay_firing,
            (final(world).slots@, final(world).score.0) == impact_upto(
                old(world).slots@,
                old(world).score.0,
                old(world).slots@.len() as int,
            ),
    {
        let n = world.slots.len();
        let mut i: usize = 0;
        while i < n
            invariant
                n == world.slots@.len() == old(world).slots@.len(),
                i <= n,
                world.wf(),
                world.still_alive == old(world).still_alive,
                world.bullet_size == old(world).bullet_size,
                world.delay_firing == old(world).delay_firing,
                (world.slots@, world.score.0) == impact_upto(
                    old(world).slots@,
                    old(world).score.0,
                    i as int,
                ),
            decreases n - i,
        {
            let c = world.slots[i].c;
            let firing = match c.bullet_state {
                Some(BulletState(CurrentBulletState::Firing)) => true,
                _ => false,
            };
            if c.bullet.is_some() && firing {
                match c.position {
                    Some(b) => {
                        assert(c.wf());
                        match find_target(world, b) {
                            Some(j) => {
                                let mut target = world.slots[j];
                                target.doomed = true;
                                world.slots.set(j, target);
                                let mut bullet = world.slots[i];
                                bullet.c.bullet_state = Some(
                                    BulletState(CurrentBulletState::Hit),
                                );
                                world.slots.set(i, bullet);
                                world.score.increase(KILL_REWARD);
                            },
                            None => {},
                        }
                    },
                    None => {},
                }
            }
            i += 1;
        }
    }
}

// ---------------------------------------------------------------- gravity

/// Gravity on one entity: an airborne entity that falls gains the gravity
/// increment in downward acceleration.
pub open spec fn gravity_one(c: Components) -> Components {
    match (c.acceleration, c.has_gravity, c.on_ground) {
        (Some(a), Some(_), Some(g)) => if !g.0 {
            Components {
                acceleration: Some(Acceleration { x: a.x, y: clamp(a.y + GRAVITY) as i64 }),
                ..c
            }
        } else {
            c
        },
        _ => c,
    }
}

fn gravity_exec(c: Components) -> (r: Components)
    requires
        c.wf(),
    ensures
        r == gravity_one(c),
        r.wf(),
{
    match (c.acceleration, c.has_gravity, c.on_ground) {
        (Some(a), Some(_), Some(g)) => if !g.0 {
            Components {
                acceleration: Some(
                    Acceleration { x: a.x, y: saturate(a.y as i128 + GRAVITY as i128) },
                ),
                ..c
            }
        } else {
            c
        },
        _ => c,
    }
}

/// Pulls airborne entities down.
pub struct GravitySystem {
    /// Height of the arena; gravity itself is uniform and does not read it.
    pub arena_height: i64,
}

impl GravitySystem {
    /// Applies [`gravity_one`] to every entity.
    pub fn run(&self, world: &mut World)
        requires
            old(world).wf(),
        ensures
            final(world).wf(),
            final(world).same_resources(old(world)),
            maps_components(old(world).slots@, final(world).slots@, |c| gravity_one(c)),
    {
        let n = world.slots.len();
        let mut i: usize = 0;
        while i < n
            invariant
                n == world.slots@.len() == old(world).slots@.len(),
                i <= n,
                world.wf(),
                world.same_resources(old(world)),
                forall|j: int|
                    0 <= j < n ==> #[trigger] world.slots@[j] == if j < i {
                        old(world).slots@[j].with(gravity_one(old(world).slots@[j].c))
                    } else {
                        old(world).slots@[j]
                    },
            decreases n - i,
        {
            let mut s = world.slots[i];
            assert(s.c.wf());
            s.c = gravity_exec(s.c);
            world.slots.set(i, s);
            i += 1;
        }
    }
}

// ---------------------------------------------------------------- ground

/// Ground collision of one entity against a floor at `arena_height`: an
/// entity sunk below the floor is lifted onto it and is on the ground;
/// otherwise it is airborne.
pub open spec fn ground_one(c: Components, arena_height: int) -> Components {
    match (c.position, c.height, c.has_gravity, c.on_ground) {
        (Some(p), Some(h), Some(_), Some(_)) => if p.y + h.0 > arena_height {
            Components {
                position: Some(Position { x: p.x, y: clamp(arena_height - h.0) as i64 }),
                on_ground: Some(OnGround(true)),
                ..c
            }
        } else {
            Components { on_ground: Some(OnGround(false)), ..c }
        },
        _ => c,
    }
}

fn ground_exec(c: Components, arena_height: i64) -> (r: Components)
    requires
        c.wf(),
    ensures
        r == ground_one(c, arena_height as int),
        r.wf(),
{
    match (c.position, c.height, c.has_gravity, c.on_ground) {
        (Some(p), Some(h), Some(_), Some(_)) => if p.y as i128 + h.0 as i128 > arena_height as i128 {
            Components {
                position: Some(
                    Position { x: p.x, y: saturate(arena_height as i128 - h.0 as i128) },
                ),
                on_ground: Some(OnGround(true)),
                ..c
            }
        } else {
            Components { on_ground: Some(OnGround(false)), ..c }
        },
        _ => c,
    }
}

/// Stops falling entities at the arena floor and recomputes OnGround.
pub struct HitGround {
    pub arena_height: i64,
}

impl HitGround {
    /// Applies [`ground_one`] to every entity.
    pub fn run(&self, world: &mut World)
        requires
            old(world).wf(),
        ensures
            final(world).wf(),
            final(world).same_resources(old(world)),
            maps_components(
                old(world).slots@,
                final(world).slots@,
                |c| ground_one(c, self.arena_height as int),
            ),
    {
        let n = world.slots.len();
        let mut i: usize = 0;
        while i < n
            invariant
                n == world.slots@.len() == old(world).slots@.len(),
                i <= n,
                world.wf(),
                world.same_resources(old(world)),
                forall|j: int|
                    0 <= j < n ==> #[trigger] world.slots@[j] == if j < i {
                        old(world).slots@[j].with(ground_one(old(world).slots@[j].c, self.arena_height as int))
                    } else {
                        old(world).slots@[j]
                    },
            decreases n - i,
        {
            let mut s = world.slots[i];
            assert(s.c.wf());
            s.c = ground_exec(s.c, self.arena_height);
            world.slots.set(i, s);
            i += 1;
        }
    }
}

// ---------------------------------------------------------------- input

/// The movement symbols held down this frame.
#[derive(Clone, Copy, Debug, PartialEq, Eq)]
pub struct PressedKeys {
    pub left: bool,
    pub right: bool,
    pub jump: bool,
}

/// Player input on one entity: a held direction pushes it sideways (left
/// wins over right), and a jump pushes it up only while it is on the ground.
pub open spec fn input_one(c: Components, keys: PressedKeys) -> Components {
    match (c.player, c.acceleration, c.on_ground) {
        (Some(_), Some(a), Some(g)) => {
            let x = if keys.left {
                clamp(a.x - WALK_ACCELERATION)
            } else if keys.right {
                clamp(a.x + WALK_ACCELERATION)
            } else {
                a.x as int
            };
            let y = if g.0 && keys.jump {
                clamp(a.y - JUMP_IMPULSE)
            } else {
                a.y as int
            };
            Components { acceleration: Some(Acceleration { x: x as i64, y: y as i64 }), ..c }
        },
        _ => c,
    }
}

fn input_exec(c: Components, keys: PressedKeys) -> (r: Components)
    requires
        c.wf(),
    ensures
        r == input_one(c, keys),
        r.wf(),
{
    match (c.player, c.acceleration, c.on_ground) {
        (Some(_), Some(a), Some(g)) => {
            let x = if keys.left {
                saturate(a.x as i128 - WALK_ACCELERATION as i128)
            } else if keys.right {
                saturate(a.x as i128 + WALK_ACCELERATION as i128)
            } else {
                a.x
            };
            let y = if g.0 && keys.jump {
                saturate(a.y as i128 - JUMP_IMPULSE as i128)
            } else {
                a.y
            };
            Components { acceleration: Some(Acceleration { x, y }), ..c }
        },
        _ => c,
    }
}

/// Turns held keys into forces on the player.
pub struct MovePlayerSystem {
    pub pressed_keys: PressedKeys,
}

impl MovePlayerSystem {
    /// Applies [`input_one`] to every entity.
    pub fn run(&self, world: &mut World)
        requires
            old(world).wf(),
        ensures
            final(world).wf(),
            final(world).same_resources(old(world)),
            maps_components(
                old(world).slots@,
                final(world).slots@,
                |c| input_one(c, self.pressed_keys),
            ),
    {
        let n = world.slots.len();
        let mut i: usize = 0;
        while i < n
            invariant
                n == world.slots@.len() == old(world).slots@.len(),
                i <= n,
                world.wf(),
                world.same_resources(old(world)),
                forall|j: int|
                    0 <= j < n ==> #[trigger] world.slots@[j] == if j < i {
                        old(world).slots@[j].with(input_one(old(world).slots@[j].c, self.pressed_keys))
                    } else {
                        old(world).slots@[j]
                    },
            decreases n - i,
        {
            let mut s = world.slots[i];
            assert(s.c.wf());
            s.c = input_exec(s.c, self.pressed_keys);
            world.slots.set(i, s);
            i += 1;
        }
    }
}

// ---------------------------------------------------------------- kinematics

/// Kinematics of one entity over `dt` microseconds: the accumulated
/// acceleration (if any) moves into the velocity and is drained to zero, then
/// the velocity moves the position.
pub open spec fn integrate_one(c: Components, dt: int) -> Components {
    match (c.position, c.velocity) {
        (Some(p), Some(v)) => {
            let nv = match c.acceleration {
                Some(a) => Velocity { x: clamp(v.x + a.x) as i64, y: clamp(v.y + a.y) as i64 },
                None => v,
            };
            let na = match c.acceleration {
                Some(_) => Some(Acceleration { x: 0, y: 0 }),
                None => None,
            };
            Components {
                position: Some(
                    Position { x: clamp(p.x + nv.x * dt) as i64, y: clamp(p.y + nv.y * dt) as i64 },
                ),
                velocity: Some(nv),
                acceleration: na,
                ..c
            }
        },
        _ => c,
    }
}

fn advance(p: i64, v: i64, dt: u64) -> (r: i64)
    requires
        in_range(p as int),
        in_range(v as int),
    ensures
        r == clamp(p + v * dt),
{
    assert(-LIMIT * 0x1_0000_0000_0000_0000 <= v * dt <= LIMIT * 0x1_0000_0000_0000_0000)
        by (nonlinear_arith)
        requires -LIMIT <= v <= LIMIT, 0 <= dt < 0x1_0000_0000_0000_0000;
    saturate(p as i128 + v as i128 * dt as i128)
}

fn integrate_exec(c: Components, dt: u64) -> (r: Components)
    requires
        c.wf(),
    ensures
        r == integrate_one(c, dt as int),
        r.wf(),
{
    match (c.position, c.velocity) {
        (Some(p), Some(v)) => {
            let nv = match c.acceleration {
                Some(a) => Velocity {
                    x: saturate(v.x as i128 + a.x as i128),
                    y: saturate(v.y as i128 + a.y as i128),
                },
                None => v,
            };
            let na = match c.acceleration {
                Some(_) => Some(Acceleration { x: 0, y: 0 }),
                None => None,
            };
            Components {
                position: Some(Position { x: advance(p.x, nv.x, dt), y: advance(p.y, nv.y, dt) }),
                velocity: Some(nv),
                acceleration: na,
                ..c
            }
        },
        _ => c,
    }
}

/// Integrates forces and velocities over one frame while the round lasts.
pub struct ApplyForceSystem {
    /// Frame duration in microseconds.
    pub delta_time: u64,
}

impl ApplyForceSystem {
    /// Applies [`integrate_one`] to every entity while the round is still
    /// alive; once it is over, nothing moves.
    pub fn run(&self, world: &mut World)
        requires
            old(world).wf(),
        ensures
            final(world).wf(),
            final(world).same_resources(old(world)),
            old(world).still_alive.0 ==> maps_components(
                old(world).slots@,
                final(world).slots@,
                |c| integrate_one(c, self.delta_time as int),
            ),
            !old(world).still_alive.0 ==> final(world).slots@ == old(world).slots@,
    {
        if !world.still_alive.get() {
            return;
        }
        let n = world.slots.len();
        let mut i: usize = 0;
        while i < n
            invariant
                n == world.slots@.len() == old(world).slots@.len(),
                i <= n,
                world.wf(),
                world.same_resources(old(world)),
                forall|j: int|
                    0 <= j < n ==> #[trigger] world.slots@[j] == if j < i {
                        old(world).slots@[j].with(integrate_one(old(world).slots@[j].c, self.delta_time as int))
                    } else {
                        old(world).slots@[j]
                    },
            decreases n - i,
        {
            let mut s = world.slots[i];
            assert(s.c.wf());
            s.c = integrate_exec(s.c, self.delta_time);
            world.slots.set(i, s);
            i += 1;
        }
    }
}

// ---------------------------------------------------------------- drag

/// Drag on one entity: a fixed horizontal deceleration against its motion,
/// the horizontal part of the reversed velocity scaled to the drag magnitude;
/// a resting entity gets none.
pub open spec fn drag_one(c: Components) -> Components {
    match (c.velocity, c.acceleration, c.on_ground) {
        (Some(v), Some(a), Some(_)) => {
            let f = scaled_toward(-v.x, -v.y, DRAG_DECELERATION as int);
            Components { acceleration: Some(Acceleration { x: clamp(a.x + f.0) as i64, y: a.y }), ..c }
        },
        _ => c,
    }
}

fn drag_exec(c: Components) -> (r: Components)
    requires
        c.wf(),
    ensures
        r == drag_one(c),
        r.wf(),
{
    match (c.velocity, c.acceleration, c.on_ground) {
        (Some(v), Some(a), Some(_)) => {
            let f = scale_toward(-(v.x as i128), -(v.y as i128), DRAG_DECELERATION as i128);
            Components {
                acceleration: Some(Acceleration { x: saturate(a.x as i128 + f.0), y: a.y }),
                ..c
            }
        },
        _ => c,
    }
}

/// Slows moving entities.
pub struct DragSystem;

impl DragSystem {
    /// Applies [`drag_one`] to every entity.
    pub fn run(&self, world: &mut World)
        requires
            old(world).wf(),
        ensures
            final(world).wf(),
            final(world).same_resources(old(world)),
            maps_components(old(world).slots@, final(world).slots@, |c| drag_one(c)),
    {
        let n = world.slots.len();
        let mut i: usize = 0;
        while i < n
            invariant
                n == world.slots@.len() == old(world).slots@.len(),
                i <= n,
                world.wf(),
                world.same_resources(old(world)),
                forall|j: int|
                    0 <= j < n ==> #[trigger] world.slots@[j] == if j < i {
                        old(world).slots@[j].with(drag_one(old(world).slots@[j].c))
                    } else {
                        old(world).slots@[j]
                    },
            decreases n - i,
        {
            let mut s = world.slots[i];
            assert(s.c.wf());
            s.c = drag_exec(s.c);
            world.slots.set(i, s);
            i += 1;
        }
    }
}

// ---------------------------------------------------------------- homing

/// Homing of one flyer on the objective at `e`: while farther than the
/// arrival radius it is pulled toward `e` with the homing magnitude.
pub open spec fn fly_one(c: Components, e: Position) -> Components {
    match (c.flyer, c.position, c.acceleration) {
        (Some(_), Some(p), Some(a)) => if norm2(e.x - p.x, e.y - p.y) > ARRIVAL_RADIUS
            * ARRIVAL_RADIUS {
            let f = scaled_toward(e.x - p.x, e.y - p.y, HOMING_ACCELERATION as int);
            Components {
                acceleration: Some(
                    Acceleration { x: clamp(a.x + f.0) as i64, y: clamp(a.y + f.1) as i64 },
                ),
                ..c
            }
        } else {
            c
        },
        _ => c,
    }
}

fn fly_exec(c: Components, e: Position) -> (r: Components)
    requires
        c.wf(),
        in_range(e.x as int),
        in_range(e.y as int),
    ensures
        r == fly_one(c, e),
        r.wf(),
{
    match (c.flyer, c.position, c.acceleration) {
        (Some(_), Some(p), Some(a)) => if distance2(p.x, p.y, e.x, e.y) > (ARRIVAL_RADIUS as i128)
            * (ARRIVAL_RADIUS as i128) {
            let f = scale_toward(
                e.x as i128 - p.x as i128,
                e.y as i128 - p.y as i128,
                HOMING_ACCELERATION as i128,
            );
            Components {
                acceleration: Some(
                    Acceleration { x: saturate(a.x as i128 + f.0), y: saturate(a.y as i128 + f.1) },
                ),
                ..c
            }
        } else {
            c
        },
        _ => c,
    }
}

/// Steers flyers toward the objective.
pub struct FlySystem;

impl FlySystem {
    /// Applies [`fly_one`] toward the objective to every entity; without an
    /// objective nothing changes.
    pub fn run(&self, world: &mut World)
        requires
            old(world).wf(),
        ensures
            final(world).wf(),
            final(world).same_resources(old(world)),
            match objective(old(world).slots@) {
                Some(k) => maps_components(
                    old(world).slots@,
                    final(world).slots@,
                    |c| fly_one(c, old(world).slots@[k].c.position.unwrap()),
                ),
                None => final(world).slots@ == old(world).slots@,
            },
    {
        match world.find_objective() {
            Some(k) => {
                let e = world.slots[k].c.position.unwrap();
                assert(world.slots@[k as int].c.wf());
                let n = world.slots.len();
                let mut i: usize = 0;
                while i < n
                    invariant
                        n == world.slots@.len() == old(world).slots@.len(),
                        i <= n,
                        world.wf(),
                        world.same_resources(old(world)),
                        objective(old(world).slots@) == Some(k as int),
                        e == old(world).slots@[k as int].c.position.unwrap(),
                        in_range(e.x as int),
                        in_range(e.y as int),
                        forall|j: int|
                            0 <= j < n ==> #[trigger] world.slots@[j] == if j < i {
                                old(world).slots@[j].with(fly_one(old(world).slots@[j].c, e))
                            } else {
                                old(world).slots@[j]
                            },
                    decreases n - i,
                {
                    let mut s = world.slots[i];
                    assert(s.c.wf());
                    s.c = fly_exec(s.c, e);
                    world.slots.set(i, s);
                    i += 1;
                }
            },
            None => {},
        }
    }
}

/// The slots `s` after the homing pass.
pub open spec fn homed(s: Seq<Slot>) -> Seq<Slot> {
    match objective(s) {
        Some(k) => mapped(s, |c| fly_one(c, s[k].c.position.unwrap())),
        None => s,
    }
}

// ---------------------------------------------------------------- landing

/// Landing of one flyer on the objective at `e`: within the landed radius
/// it stops dead.
pub open spec fn land_one(c: Components, e: Position) -> Components {
    match (c.flyer, c.position, c.acceleration, c.velocity) {
        (Some(_), Some(p), Some(_), Some(_)) => if norm2(e.x - p.x, e.y - p.y) < LANDED_RADIUS
            * LANDED_RADIUS {
            Components {
                acceleration: Some(Acceleration { x: 0, y: 0 }),
                velocity: Some(Velocity { x: 0, y: 0 }),
                ..c
            }
        } else {
            c
        },
        _ => c,
    }
}

fn land_exec(c: Components, e: Position) -> (r: Components)
    requires
        c.wf(),
        in_range(e.x as int),
        in_range(e.y as int),
    ensures
        r == land_one(c, e),
        r.wf(),
{
    match (c.flyer, c.position, c.acceleration, c.velocity) {
        (Some(_), Some(p), Some(_), Some(_)) => if distance2(p.x, p.y, e.x, e.y) < (LANDED_RADIUS as i128)
            * (LANDED_RADIUS as i128) {
            Components {
                acceleration: Some(Acceleration { x: 0, y: 0 }),
                velocity: Some(Velocity { x: 0, y: 0 }),
                ..c
            }
        } else {
            c
        },
        _ => c,
    }
}

/// Locks flyers that have reached the objective in place.
pub struct LandOnEggSystem;

impl LandOnEggSystem {
    /// Applies [`land_one`] at the objective to every entity; without an
    /// objective nothing changes.
    pub fn run(&self, world: &mut World)
        requires
            old(world).wf(),
        ensures
            final(world).wf(),
            final(world).same_resources(old(world)),
            match objective(old(world).slots@) {
                Some(k) => maps_components(
                    old(world).slots@,
                    final(world).slots@,
                    |c| land_one(c, old(world).slots@[k].c.position.unwrap()),
                ),
                None => final(world).slots@ == old(world).slots@,
            },
    {
        match world.find_objective() {
            Some(k) => {
                let e = world.slots[k].c.position.unwrap();
                assert(world.slots@[k as int].c.wf());
                let n = world.slots.len();
                let mut i: usize = 0;
                while i < n
                    invariant
                        n == world.slots@.len() == old(world).slots@.len(),
                        i <= n,
                        world.wf(),
                        world.same_resources(old(world)),
                        objective(old(world).slots@) == Some(k as int),
                        e == old(world).slots@[k as int].c.position.unwrap(),
                        in_range(e.x as int),
                        in_range(e.y as int),
                        forall|j: int|
                            0 <= j < n ==> #[trigger] world.slots@[j] == if j < i {
                                old(world).slots@[j].with(land_one(old(world).slots@[j].c, e))
                            } else {
                                old(world).slots@[j]
                            },
                    decreases n - i,
                {
                    let mut s = world.slots[i];
                    assert(s.c.wf());
                    s.c = land_exec(s.c, e);
                    world.slots.set(i, s);
                    i += 1;
                }
            },
            None => {},
        }
    }
}

/// The slots `s` after the landing pass.
pub open spec fn landed(s: Seq<Slot>) -> Seq<Slot> {
    match objective(s) {
        Some(k) => mapped(s, |c| land_one(c, s[k].c.position.unwrap())),
        None => s,
    }
}

// ---------------------------------------------------------------- objective

/// The entity `c`, which is not the objective, is nearer to the objective at
/// `e` than the objective's width `w`.
pub open spec fn reaches(c: Components, e: Position, w: int) -> bool {
    &&& c.keep_alive is None
    &&& c.height is Some
    &&& c.width is Some
    &&& c.position matches Some(p)
    &&& norm2(p.x - e.x, p.y - e.y) < w * w
}

/// Some entity has reached the objective, which must have a width.
pub open spec fn objective_reached(s: Seq<Slot>) -> bool {
    match objective(s) {
        Some(k) => match s[k].c.width {
            Some(w) => exists|i: int|
                0 <= i < s.len() && reaches(#[trigger] s[i].c, s[k].c.position.unwrap(), w.0 as int),
            None => false,
        },
        None => false,
    }
}

/// Ends the round when any other entity comes near the objective.
pub struct CheckEggSystem;

impl CheckEggSystem {
    /// The round stays alive only if it was and no entity has reached the
    /// objective; nothing else changes.
    pub fn run(&self, world: &mut World)
        requires
            old(world).wf(),
        ensures
            final(world).wf(),
            final(world).slots@ == old(world).slots@,
            final(world).score == old(world).score,
            final(world).bullet_size == old(world).bullet_size,
            final(world).delay_firing == old(world).delay_firing,
            final(world).still_alive.0 == (old(world).still_alive.0 && !objective_reached(
                old(world).slots@,
            )),
    {
        let k = match world.find_objective() {
            Some(k) => k,
            None => return,
        };
        let egg = world.slots[k].c;
        let e = egg.position.unwrap();
        let w = match egg.width {
            Some(w) => w.0,
            None => return,
        };
        assert(egg.wf());
        let n = world.slots.len();
        let mut i: usize = 0;
        while i < n
            invariant
                n == world.slots@.len(),
                i <= n,
                *world == *old(world),
                world.wf(),
                objective(world.slots@) == Some(k as int),
                k < n,
                egg == world.slots@[k as int].c,
                e == egg.position.unwrap(),
                egg.width == Some(crate::components::Width(w)),
                0 <= w <= LIMIT,
                in_range(e.x as int),
                in_range(e.y as int),
                forall|j: int| 0 <= j < i ==> !reaches(#[trigger] world.slots@[j].c, e, w as int),
            decreases n - i,
        {
            let c = world.slots[i].c;
            assert(c.wf());
            if c.keep_alive.is_none() && c.height.is_some() && c.width.is_some() {
                match c.position {
                    Some(p) => {
                        let d = distance2(e.x, e.y, p.x, p.y);
                        assert(0 <= w * w <= LIMIT * LIMIT) by (nonlinear_arith)
                            requires 0 <= w <= LIMIT;
                        if d < (w as i128) * (w as i128) {
                            world.still_alive.set(false);
                            return;
                        }
                    },
                    None => {},
                }
            }
            i += 1;
        }
    }
}

// ---------------------------------------------------------------- recall

/// `p` lies outside the arena widened by the margin on every side.
pub open spec fn out_of_bounds(p: Position, arena_width: int, arena_height: int) -> bool {
    p.x < -BOUNDS_MARGIN || p.x > arena_width + BOUNDS_MARGIN || p.y < -BOUNDS_MARGIN || p.y
        > arena_height + BOUNDS_MARGIN
}

/// Recall of one bullet in flight that has left the arena: it stops and is
/// ready again, without scoring.
pub open spec fn recall_one(c: Components, arena_width: int, arena_height: int) -> Components {
    match (c.bullet, c.position, c.velocity) {
        (Some(_), Some(p), Some(_)) => if c.bullet_state == Some(
            BulletState(CurrentBulletState::Firing),
        ) && out_of_bounds(p, arena_width, arena_height) {
            Components {
                velocity: Some(Velocity { x: 0, y: 0 }),
                bullet_state: Some(BulletState(CurrentBulletState::Ready)),
                ..c
            }
        } else {
            c
        },
        _ => c,
    }
}

fn recall_exec(c: Components, arena_width: i64, arena_height: i64) -> (r: Components)
    requires
        c.wf(),
    ensures
        r == recall_one(c, arena_width as int, arena_height as int),
        r.wf(),
{
    match (c.bullet, c.position, c.velocity) {
        (Some(_), Some(p), Some(_)) => {
            let firing = match c.bullet_state {
                Some(BulletState(CurrentBulletState::Firing)) => true,
                _ => false,
            };
            let m = BOUNDS_MARGIN as i128;
            let out = (p.x as i128) < -m || p.x as i128 > arena_width as i128 + m || (p.y as i128)
                < -m || p.y as i128 > arena_height as i128 + m;
            if firing && out {
                Components {
                    velocity: Some(Velocity { x: 0, y: 0 }),
                    bullet_state: Some(BulletState(CurrentBulletState::Ready)),
                    ..c
                }
            } else {
                c
            }
        },
        _ => c,
    }
}

/// Returns bullets that left the arena to the pool.
pub struct ResetBulletsSystem {
    pub arena_width: i64,
    pub arena_height: i64,
}

impl ResetBulletsSystem {
    /// Applies [`recall_one`] to every entity.
    pub fn run(&self, world: &mut World)
        requires
            old(world).wf(),
        ensures
            final(world).wf(),
            final(world).same_resources(old(world)),
            maps_components(
                old(world).slots@,
                final(world).slots@,
                |c| recall_one(c, self.arena_width as int, self.arena_height as int),
            ),
    {
        let n = world.slots.len();
        let mut i: usize = 0;
        while i < n
            invariant
                n == world.slots@.len() == old(world).slots@.len(),
                i <= n,
                world.wf(),
                world.same_resources(old(world)),
                forall|j: int|
                    0 <= j < n ==> #[trigger] world.slots@[j] == if j < i {
                        old(world).slots@[j].with(recall_one(old(world).slots@[j].c, self.arena_width as int, self.arena_height as int))
                    } else {
                        old(world).slots@[j]
                    },
            decreases n - i,
        {
            let mut s = world.slots[i];
            assert(s.c.wf());
            s.c = recall_exec(s.c, self.arena_width, self.arena_height);
            world.slots.set(i, s);
            i += 1;
        }
    }
}

// ---------------------------------------------------------------- retire

/// Retirement of one bullet that hit: it is ready again, parked off the
/// arena, and stopped (the components it lacks stay absent).
pub open spec fn retire_one(c: Components) -> Components {
    if c.bullet.is_some() && c.bullet_state == Some(BulletState(CurrentBulletState::Hit)) {
        Components {
            position: match c.position {
                Some(_) => Some(Position { x: PARKED, y: PARKED }),
                None => None,
            },
            velocity: match c.velocity {
                Some(_) => Some(Velocity { x: 0, y: 0 }),
                None => None,
            },
            bullet_state: Some(BulletState(CurrentBulletState::Ready)),
            ..c
        }
    } else {
        c
    }
}

fn retire_exec(c: Components) -> (r: Components)
    requires
        c.wf(),
    ensures
        r == retire_one(c),
        r.wf(),
{
    let hit = match c.bullet_state {
        Some(BulletState(CurrentBulletState::Hit)) => true,
        _ => false,
    };
    if c.bullet.is_some() && hit {
        Components {
            position: match c.position {
                Some(_) => Some(Position { x: PARKED, y: PARKED }),
                None => None,
            },
            velocity: match c.velocity {
                Some(_) => Some(Velocity { x: 0, y: 0 }),
                None => None,
            },
            bullet_state: Some(BulletState(CurrentBulletState::Ready)),
            ..c
        }
    } else {
        c
    }
}

/// Returns bullets that hit to the pool.
pub struct HideHitBullets;

impl HideHitBullets {
    /// Applies [`retire_one`] to every entity.
    pub fn run(&self, world: &mut World)
        requires
            old(world).wf(),
        ensures
            final(world).wf(),
            final(world).same_resources(old(world)),
            maps_components(old(world).slots@, final(world).slots@, |c| retire_one(c)),
    {
        let n = world.slots.len();
        let mut i: usize = 0;
        while i < n
            invariant
                n == world.slots@.len() == old(world).slots@.len(),
                i <= n,
                world.wf(),
                world.same_resources(old(world)),
                forall|j: int|
                    0 <= j < n ==> #[trigger] world.slots@[j] == if j < i {
                        old(world).slots@[j].with(retire_one(old(world).slots@[j].c))
                    } else {
                        old(world).slots@[j]
                    },
            decreases n - i,
        {
            let mut s = world.slots[i];
            assert(s.c.wf());
            s.c = retire_exec(s.c);
            world.slots.set(i, s);
            i += 1;
        }
    }
}

// ---------------------------------------------------------------- scoring

/// Rewards survival.
pub struct IncreaseScoreBySurvivingSystem;

impl IncreaseScoreBySurvivingSystem {
    /// While the round is alive, the score grows by the survival reward.
    pub fn run(&self, world: &mut World)
        requires
            old(world).wf(),
        ensures
            final(world).wf(),
            final(world).slots@ == old(world).slots@,
            final(world).still_alive == old(world).still_alive,
            final(world).bullet_size == old(world).bullet_size,
            final(world).delay_firing == old(world).delay_firing,
            final(world).score.0 == if old(world).still_alive.0 {
                crate::resources::raised(old(world).score.0, SURVIVAL_REWARD)
            } else {
                old(world).score.0
            },
    {
        if world.still_alive.get() {
            world.score.increase(SURVIVAL_REWARD);
        }
    }
}

} // verus!
