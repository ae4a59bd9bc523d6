//! One round of the game: the initial arena, the flyer spawner, the survival
//! clock, and the frame update that runs the passes in their fixed order.

use rand::Rng;
use vstd::prelude::*;

use crate::components::{
    Acceleration, Bullet, BulletState, Drag, Floor, Flyer, HasGravity, Height, KeepAlive,
    ObjectMesh, OnGround, Player, Position, Radius, Velocity, Width,
};
use crate::geometry::{in_range, LIMIT, PIXEL};
use crate::systems::{
    ApplyForceSystem, CheckEggSystem, DragSystem, FireBulletSystem, FlySystem, GravitySystem,
    HideHitBullets, HitGround, IncreaseScoreBySurvivingSystem, LandOnEggSystem, MovePlayerSystem,
    PressedKeys, ResetBulletsSystem, ShootBirdsSystem,
};
use crate::resources::raised;
use crate::systems::{
    drag_one, fire_result, gravity_one, ground_one, homed, impact_upto, input_one,
    integrate_one, fly_one, land_one, landed, lemma_impact_score_grows, objective_reached,
    recall_one, retire_one, SURVIVAL_REWARD,
};
use crate::world::{
    lemma_maps_is_mapped, maintained, mapped, objective, Components, Slot, World,
};

verus! {

/// Shortest frame the integration takes, in microseconds (a sixtieth of a second).
pub const MIN_FRAME_MICROS: u64 = 16_667;

/// Most flyers spawned in one wave.
pub const MAX_WAVE: usize = 50;

pub const EGG_WIDTH: i64 = 5 * PIXEL;
pub const EGG_HEIGHT: i64 = 15 * PIXEL;
pub const PLAYER_WIDTH: i64 = 15 * PIXEL;
pub const PLAYER_HEIGHT: i64 = 50 * PIXEL;
pub const BULLET_SIZE: i64 = 5 * PIXEL;
pub const BIRD_WIDTH: i64 = 25 * PIXEL;
pub const BIRD_HEIGHT: i64 = 10 * PIXEL;
pub const BULLET_POOL: usize = 3;

/// Relies on `rand::Rng::gen_range` of rand's thread-local generator: a value
/// in `[low, high)`, which it requires to be non-empty.
#[verifier::external_body]
fn random_between(low: i64, high: i64) -> (r: i64)
    requires
        low < high,
    ensures
        low <= r < high,
{
    rand::thread_rng().gen_range(low, high)
}

/// What the clock and the input devices report for one frame.
#[derive(Clone, Copy, Debug, PartialEq, Eq)]
pub struct FrameInput {
    /// Measured frame duration in microseconds.
    pub delta_time: u64,
    /// Milliseconds since the round started.
    pub duration_since_start: u128,
    pub pressed_keys: PressedKeys,
    /// The fire button is held.
    pub fire: bool,
    /// Where the pointer aims, in arena coordinates.
    pub mouse_location: Position,
}

/// A frame duration floored at a sixtieth of a second.
pub open spec fn clamped_delta(dt: u64) -> u64 {
    if dt < MIN_FRAME_MICROS {
        MIN_FRAME_MICROS
    } else {
        dt
    }
}

pub fn clamp_delta(dt: u64) -> (r: u64)
    ensures
        r == clamped_delta(dt),
{
    if dt < MIN_FRAME_MICROS {
        MIN_FRAME_MICROS
    } else {
        dt
    }
}

/// The objective, in the middle of the arena just above the floor.
pub open spec fn egg_components(arena_width: int, arena_height: int) -> Components {
    Components {
        position: Some(
            Position { x: (arena_width / 2) as i64, y: (arena_height - 25 * PIXEL) as i64 },
        ),
        mesh: Some(ObjectMesh::Egg),
        width: Some(Width(EGG_WIDTH)),
        height: Some(Height(EGG_HEIGHT)),
        keep_alive: Some(KeepAlive(true)),
        ..Components::empty_spec()
    }
}

/// The player, above the floor at the left.
pub open spec fn player_components(arena_height: int) -> Components {
    Components {
        position: Some(
            Position { x: (100 * PIXEL) as i64, y: (arena_height - PLAYER_WIDTH - 500 * PIXEL) as i64 },
        ),
        mesh: Some(ObjectMesh::Person),
        has_gravity: Some(HasGravity),
        height: Some(Height((PLAYER_HEIGHT / 2) as i64)),
        width: Some(Width(PLAYER_WIDTH)),
        velocity: Some(Velocity { x: 0, y: 0 }),
        acceleration: Some(Acceleration { x: 0, y: 0 }),
        drag: Some(Drag(0)),
        on_ground: Some(OnGround(false)),
        player: Some(Player),
        ..Components::empty_spec()
    }
}

/// The floor strip along the bottom edge.
pub open spec fn floor_components(arena_height: int) -> Components {
    Components {
        position: Some(Position { x: 0, y: (arena_height - 5 * PIXEL) as i64 }),
        mesh: Some(ObjectMesh::Floor),
        floor: Some(Floor),
        ..Components::empty_spec()
    }
}

/// A parked, ready bullet of the pool.
pub open spec fn bullet_components() -> Components {
    Components {
        position: Some(Position { x: crate::systems::PARKED, y: crate::systems::PARKED }),
        mesh: Some(ObjectMesh::Bullet),
        velocity: Some(Velocity { x: 0, y: 0 }),
        bullet: Some(Bullet),
        radius: Some(Radius(BULLET_SIZE)),
        bullet_state: Some(BulletState(crate::components::CurrentBulletState::Ready)),
        ..Components::empty_spec()
    }
}

/// A flyer entering above the arena at horizontal position `x`.
pub open spec fn flyer_components(x: int) -> Components {
    Components {
        position: Some(Position { x: x as i64, y: (-BIRD_HEIGHT - 10 * PIXEL) as i64 }),
        mesh: Some(ObjectMesh::Bird),
        height: Some(Height(BIRD_HEIGHT)),
        width: Some(Width(BIRD_WIDTH)),
        velocity: Some(Velocity { x: 0, y: 0 }),
        acceleration: Some(Acceleration { x: 0, y: 0 }),
        drag: Some(Drag(0)),
        flyer: Some(Flyer),
        ..Components::empty_spec()
    }
}

/// A freshly spawned slot.
pub open spec fn spawned(c: Components) -> Slot {
    Slot { live: true, doomed: false, c }
}

/// The entities a round starts with: objective, player, floor, and the
/// bullet pool.
pub open spec fn initial_slots(arena_width: int, arena_height: int) -> Seq<Slot> {
    seq![
        spawned(egg_components(arena_width, arena_height)),
        spawned(player_components(arena_height)),
        spawned(floor_components(arena_height)),
        spawned(bullet_components()),
        spawned(bullet_components()),
        spawned(bullet_components()),
    ]
}

/// A flyer spawned at some horizontal position within the spawn band of an
/// arena `arena_width` wide.
pub open spec fn is_spawned_flyer(sl: Slot, arena_width: int) -> bool {
    let x = sl.c.position.unwrap().x;
    &&& sl == spawned(flyer_components(x as int))
    &&& -BIRD_WIDTH <= x < arena_width + BIRD_WIDTH
}

fn bullet_new() -> (r: Components)
    ensures
        r == bullet_components(),
{
    Components {
        position: Some(Position { x: crate::systems::PARKED, y: crate::systems::PARKED }),
        mesh: Some(ObjectMesh::Bullet),
        velocity: Some(Velocity { x: 0, y: 0 }),
        bullet: Some(Bullet),
        radius: Some(Radius::new(BULLET_SIZE)),
        bullet_state: Some(BulletState::new()),
        ..Components::empty()
    }
}

fn flyer_new(x: i64) -> (r: Components)
    ensures
        r == flyer_components(x as int),
{
    Components {
        position: Some(Position { x, y: -BIRD_HEIGHT - 10 * PIXEL }),
        mesh: Some(ObjectMesh::Bird),
        height: Some(Height::new(BIRD_HEIGHT)),
        width: Some(Width::new(BIRD_WIDTH)),
        velocity: Some(Velocity { x: 0, y: 0 }),
        acceleration: Some(Acceleration { x: 0, y: 0 }),
        drag: Some(Drag::new(0)),
        flyer: Some(Flyer),
        ..Components::empty()
    }
}

/// The state after one frame's passes, in their fixed order: gravity,
/// ground collision, player input, kinematics (only while the round is
/// alive), drag, objective check, homing, landing, firing (on a fire
/// command), recall, impact, retirement, survival scoring (when due) and the
/// removal of destroyed entities. The state is the slots, whether the round
/// is alive, the score, and the time until which firing is held back.
pub open spec fn frame(
    s0: Seq<Slot>,
    alive0: bool,
    score0: usize,
    until0: u128,
    input: FrameInput,
    arena_width: int,
    arena_height: int,
    scoring_due: bool,
) -> (Seq<Slot>, bool, usize, u128) {
    let dt = clamped_delta(input.delta_time) as int;
    let s1 = mapped(s0, |c| gravity_one(c));
    let s2 = mapped(s1, |c| ground_one(c, arena_height));
    let s3 = mapped(s2, |c| input_one(c, input.pressed_keys));
    let s4 = if alive0 {
        mapped(s3, |c| integrate_one(c, dt))
    } else {
        s3
    };
    let s5 = mapped(s4, |c| drag_one(c));
    let alive = alive0 && !objective_reached(s5);
    let s7 = landed(homed(s5));
    let fired = if input.fire {
        fire_result(s7, until0, input.mouse_location, input.duration_since_start)
    } else {
        (s7, until0)
    };
    let s9 = mapped(fired.0, |c| recall_one(c, arena_width, arena_height));
    let hits = impact_upto(s9, score0, s9.len() as int);
    let s11 = mapped(hits.0, |c| retire_one(c));
    let score = if scoring_due && alive {
        raised(hits.1, SURVIVAL_REWARD)
    } else {
        hits.1
    };
    (maintained(s11), alive, score, fired.1)
}

/// A frame never lowers the score, and a lost round stays lost.
pub proof fn lemma_frame_keeps_score_and_loss(
    s0: Seq<Slot>,
    alive0: bool,
    score0: usize,
    until0: u128,
    input: FrameInput,
    arena_width: int,
    arena_height: int,
    scoring_due: bool,
)
    ensures
        ({
            let r = frame(
                s0,
                alive0,
                score0,
                until0,
                input,
                arena_width,
                arena_height,
                scoring_due,
            );
            r.2 >= score0 && (!alive0 ==> !r.1)
        }),
{
    let dt = clamped_delta(input.delta_time) as int;
    let s1 = mapped(s0, |c| gravity_one(c));
    let s2 = mapped(s1, |c| ground_one(c, arena_height));
    let s3 = mapped(s2, |c| input_one(c, input.pressed_keys));
    let s4 = if alive0 {
        mapped(s3, |c| integrate_one(c, dt))
    } else {
        s3
    };
    let s5 = mapped(s4, |c| drag_one(c));
    let s7 = landed(homed(s5));
    let fired = if input.fire {
        fire_result(s7, until0, input.mouse_location, input.duration_since_start)
    } else {
        (s7, until0)
    };
    let s9 = mapped(fired.0, |c| recall_one(c, arena_width, arena_height));
    lemma_impact_score_grows(s9, score0, s9.len() as int);
}

/// `mid` is what spawning a wave can leave of the slots `s` at time `now`:
/// when the wave is due (its time `due_at` has passed), `count` flyers
/// appended within the spawn band; otherwise `s` itself.
pub open spec fn spawn_outcome(
    s: Seq<Slot>,
    mid: Seq<Slot>,
    due_at: u128,
    now: u128,
    count: int,
    arena_width: int,
) -> bool {
    if due_at < now {
        &&& mid.len() == s.len() + count
        &&& mid.subrange(0, s.len() as int) == s
        &&& forall|j: int| s.len() <= j < mid.len() ==> is_spawned_flyer(#[trigger] mid[j], arena_width)
    } else {
        mid == s
    }
}

pub struct GameState {
    pub world: World,
    pub arena_width: i64,
    pub arena_height: i64,
    pub create_bird_every_miliseconds: u128,
    pub time_to_create_bird: u128,
    pub birds_to_create_at_the_same_time: usize,
    pub increase_score_every_miliseconds: u128,
    pub next_score_increase_time: u128,
}

impl GameState {
    /// The arena dimensions fit the spawn and motion arithmetic.
    pub open spec fn wf(&self) -> bool {
        &&& self.world.wf()
        &&& 0 <= self.arena_width <= LIMIT / 2
        &&& 0 <= self.arena_height <= LIMIT / 2
        &&& self.birds_to_create_at_the_same_time <= MAX_WAVE
    }

    /// A new round in an arena of the given size (in length units).
    pub fn new(arena_width: i64, arena_height: i64) -> (r: GameState)
        requires
            0 <= arena_width <= LIMIT / 2,
            0 <= arena_height <= LIMIT / 2,
        ensures
            r.wf(),
            r.world.slots@ == initial_slots(arena_width as int, arena_height as int),
            r.world.still_alive.0,
            r.world.score.0 == 0,
            r.world.bullet_size.0 == BULLET_SIZE,
            r.world.delay_firing.0 == 0,
            r.arena_width == arena_width,
            r.arena_height == arena_height,
            r.create_bird_every_miliseconds == 3000,
            r.time_to_create_bird == 0,
            r.birds_to_create_at_the_same_time == 1,
            r.increase_score_every_miliseconds == 5000,
            r.next_score_increase_time == 5000,
    {
        let mut world = World::new(BULLET_SIZE);
        world.spawn(
            Components {
                position: Some(Position { x: arena_width / 2, y: arena_height - 25 * PIXEL }),
                mesh: Some(ObjectMesh::Egg),
                width: Some(Width::new(EGG_WIDTH)),
                height: Some(Height::new(EGG_HEIGHT)),
                keep_alive: Some(KeepAlive::new()),
                ..Components::empty()
            },
        );
        world.spawn(
            Components {
                position: Some(
                    Position { x: 100 * PIXEL, y: arena_height - PLAYER_WIDTH - 500 * PIXEL },
                ),
                mesh: Some(ObjectMesh::Person),
                has_gravity: Some(HasGravity),
                height: Some(Height::new(PLAYER_HEIGHT / 2)),
                width: Some(Width::new(PLAYER_WIDTH)),
                velocity: Some(Velocity { x: 0, y: 0 }),
                acceleration: Some(Acceleration { x: 0, y: 0 }),
                drag: Some(Drag::new(0)),
                on_ground: Some(OnGround::new()),
                player: Some(Player),
                ..Components::empty()
            },
        );
        world.spawn(
            Components {
                position: Some(Position { x: 0, y: arena_height - 5 * PIXEL }),
                mesh: Some(ObjectMesh::Floor),
                floor: Some(Floor),
                ..Components::empty()
            },
        );
        let mut b: usize = 0;
        while b < BULLET_POOL
            invariant
                b <= BULLET_POOL,
                world.wf(),
                world.slots@.len() == 3 + b,
                world.slots@[0] == spawned(egg_components(arena_width as int, arena_height as int)),
                world.slots@[1] == spawned(player_components(arena_height as int)),
                world.slots@[2] == spawned(floor_components(arena_height as int)),
                forall|j: int| 3 <= j < 3 + b ==> #[trigger] world.slots@[j] == spawned(bullet_components()),
                world.still_alive.0,
                world.score.0 == 0,
                world.bullet_size.0 == BULLET_SIZE,
                world.delay_firing.0 == 0,
            decreases BULLET_POOL - b,
        {
            world.spawn(bullet_new());
            b += 1;
        }
        assert(world.slots@ =~= initial_slots(arena_width as int, arena_height as int));
        GameState {
            world,
            arena_width,
            arena_height,
            create_bird_every_miliseconds: 3000,
            time_to_create_bird: 0,
            birds_to_create_at_the_same_time: 1,
            increase_score_every_miliseconds: 5000,
            next_score_increase_time: 5000,
        }
    }

    /// Spawns one wave of flyers above the arena, each at a random horizontal
    /// position in the spawn band.
    pub fn create_bird(&mut self)
        requires
            old(self).wf(),
        ensures
            final(self).wf(),
            final(self).world.same_resources(&old(self).world),
            final(self).world.slots@.len() == old(self).world.slots@.len()
                + old(self).birds_to_create_at_the_same_time,
            final(self).world.slots@.subrange(0, old(self).world.slots@.len() as int)
                == old(self).world.slots@,
            forall|j: int|
                old(self).world.slots@.len() <= j < final(self).world.slots@.len()
                    ==> is_spawned_flyer(#[trigger] final(self).world.slots@[j], old(self).arena_width as int),
            final(self).arena_width == old(self).arena_width,
            final(self).arena_height == old(self).arena_height,
            final(self).create_bird_every_miliseconds == old(self).create_bird_every_miliseconds,
            final(self).time_to_create_bird == old(self).time_to_create_bird,
            final(self).birds_to_create_at_the_same_time == old(self).birds_to_create_at_the_same_time,
            final(self).increase_score_every_miliseconds == old(self).increase_score_every_miliseconds,
            final(self).next_score_increase_time == old(self).next_score_increase_time,
    {
        let count = self.birds_to_create_at_the_same_time;
        let n0 = self.world.slots.len();
        let mut b: usize = 0;
        while b < count
            invariant
                b <= count == old(self).birds_to_create_at_the_same_time,
                n0 == old(self).world.slots@.len(),
                self.wf(),
                self.world.same_resources(&old(self).world),
                self.world.slots@.len() == n0 + b,
                self.world.slots@.subrange(0, n0 as int) == old(self).world.slots@,
                forall|j: int|
                    n0 <= j < self.world.slots@.len() ==> is_spawned_flyer(
                        #[trigger] self.world.slots@[j],
                        old(self).arena_width as int,
                    ),
                self.arena_width == old(self).arena_width,
                self.arena_height == old(self).arena_height,
                self.create_bird_every_miliseconds == old(self).create_bird_every_miliseconds,
                self.time_to_create_bird == old(self).time_to_create_bird,
                self.birds_to_create_at_the_same_time == old(self).birds_to_create_at_the_same_time,
                self.increase_score_every_miliseconds == old(self).increase_score_every_miliseconds,
                self.next_score_increase_time == old(self).next_score_increase_time,
            decreases count - b,
        {
            let x = random_between(-BIRD_WIDTH, self.arena_width + BIRD_WIDTH);
            let ghost before = self.world.slots@;
            self.world.spawn(flyer_new(x));
            assert(self.world.slots@.subrange(0, n0 as int) =~= before.subrange(0, n0 as int));
            b += 1;
        }
    }

    /// Runs the passes of one frame (see [`frame`]) and advances the
    /// survival clock.
    pub fn step(&mut self, input: FrameInput)
        requires
            old(self).wf(),
            in_range(input.mouse_location.x as int),
            in_range(input.mouse_location.y as int),
        ensures
            final(self).wf(),
            (
                final(self).world.slots@,
                final(self).world.still_alive.0,
                final(self).world.score.0,
                final(self).world.delay_firing.0,
            ) == frame(
                old(self).world.slots@,
                old(self).world.still_alive.0,
                old(self).world.score.0,
                old(self).world.delay_firing.0,
                input,
                old(self).arena_width as int,
                old(self).arena_height as int,
                old(self).next_score_increase_time <= input.duration_since_start,
            ),
            final(self).world.bullet_size == old(self).world.bullet_size,
            final(self).next_score_increase_time == if old(self).next_score_increase_time
                <= input.duration_since_start {
                input.duration_since_start.saturating_add(old(self).increase_score_every_miliseconds)
            } else {
                old(self).next_score_increase_time
            },
            final(self).arena_width == old(self).arena_width,
            final(self).arena_height == old(self).arena_height,
            final(self).create_bird_every_miliseconds == old(self).create_bird_every_miliseconds,
            final(self).time_to_create_bird == old(self).time_to_create_bird,
            final(self).birds_to_create_at_the_same_time == old(self).birds_to_create_at_the_same_time,
            final(self).increase_score_every_miliseconds == old(self).increase_score_every_miliseconds,
    {
        let now = input.duration_since_start;
        let delta_time = clamp_delta(input.delta_time);
        let ghost s0 = self.world.slots@;
        GravitySystem { arena_height: self.arena_height }.run(&mut self.world);
        let ghost s1 = self.world.slots@;
        HitGround { arena_height: self.arena_height }.run(&mut self.world);
        let ghost s2 = self.world.slots@;
        MovePlayerSystem { pressed_keys: input.pressed_keys }.run(&mut self.world);
        let ghost s3 = self.world.slots@;
        ApplyForceSystem { delta_time }.run(&mut self.world);
        let ghost s4 = self.world.slots@;
        DragSystem.run(&mut self.world);
        let ghost s5 = self.world.slots@;
        CheckEggSystem.run(&mut self.world);
        FlySystem.run(&mut self.world);
        let ghost s6 = self.world.slots@;
        LandOnEggSystem.run(&mut self.world);
        let ghost s7 = self.world.slots@;
        if input.fire {
            FireBulletSystem { mouse_location: input.mouse_location, duration_since_start: now }.run(
                &mut self.world,
            );
        }
        let ghost s8 = self.world.slots@;
        ResetBulletsSystem {
            arena_width: self.arena_width,
            arena_height: self.arena_height,
        }.run(&mut self.world);
        let ghost s9 = self.world.slots@;
        ShootBirdsSystem.run(&mut self.world);
        let ghost s10 = self.world.slots@;
        HideHitBullets.run(&mut self.world);
        let ghost s11 = self.world.slots@;
        if self.next_score_increase_time <= now {
            IncreaseScoreBySurvivingSystem.run(&mut self.world);
            self.next_score_increase_time = now.saturating_add(
                self.increase_score_every_miliseconds,
            );
        }
        self.world.maintain();
        proof {
            lemma_maps_is_mapped(s0, s1, |c| gravity_one(c));
            lemma_maps_is_mapped(s1, s2, |c| ground_one(c, old(self).arena_height as int));
            lemma_maps_is_mapped(s2, s3, |c| input_one(c, input.pressed_keys));
            if old(self).world.still_alive.0 {
                lemma_maps_is_mapped(s3, s4, |c| integrate_one(c, delta_time as int));
            }
            lemma_maps_is_mapped(s4, s5, |c| drag_one(c));
            match objective(s5) {
                Some(k) => {
                    lemma_maps_is_mapped(s5, s6, |c| fly_one(c, s5[k].c.position.unwrap()));
                },
                None => {},
            }
            match objective(s6) {
                Some(k) => {
                    lemma_maps_is_mapped(s6, s7, |c| land_one(c, s6[k].c.position.unwrap()));
                },
                None => {},
            }
            lemma_maps_is_mapped(
                s8,
                s9,
                |c| recall_one(c, old(self).arena_width as int, old(self).arena_height as int),
            );
            lemma_maps_is_mapped(s10, s11, |c| retire_one(c));
        }
    }

    /// Advances the round by one frame: spawns a wave of flyers when one is
    /// due (at random horizontal positions within the spawn band), then runs
    /// the passes of [`frame`] on the result. The score never decreases, and
    /// a round once lost stays lost.
    pub fn update(&mut self, input: FrameInput)
        requires
            old(self).wf(),
            in_range(input.mouse_location.x as int),
            in_range(input.mouse_location.y as int),
        ensures
            final(self).wf(),
            exists|mid: Seq<Slot>|
                #[trigger] spawn_outcome(
                    old(self).world.slots@,
                    mid,
                    old(self).time_to_create_bird,
                    input.duration_since_start,
                    old(self).birds_to_create_at_the_same_time as int,
                    old(self).arena_width as int,
                ) && (
                    final(self).world.slots@,
                    final(self).world.still_alive.0,
                    final(self).world.score.0,
                    final(self).world.delay_firing.0,
                ) == frame(
                    mid,
                    old(self).world.still_alive.0,
                    old(self).world.score.0,
                    old(self).world.delay_firing.0,
                    input,
                    old(self).arena_width as int,
                    old(self).arena_height as int,
                    old(self).next_score_increase_time <= input.duration_since_start,
                ),
            final(self).world.score.0 >= old(self).world.score.0,
            !old(self).world.still_alive.0 ==> !final(self).world.still_alive.0,
            final(self).world.bullet_size == old(self).world.bullet_size,
            final(self).arena_width == old(self).arena_width,
            final(self).arena_height == old(self).arena_height,
            final(self).create_bird_every_miliseconds == old(self).create_bird_every_miliseconds,
            final(self).increase_score_every_miliseconds == old(self).increase_score_every_miliseconds,
            final(self).time_to_create_bird == if old(self).time_to_create_bird < input.duration_since_start {
                input.duration_since_start.saturating_add(old(self).create_bird_every_miliseconds)
            } else {
                old(self).time_to_create_bird
            },
            final(self).birds_to_create_at_the_same_time == if old(self).time_to_create_bird
                < input.duration_since_start && old(self).birds_to_create_at_the_same_time < MAX_WAVE {
                (old(self).birds_to_create_at_the_same_time + 1) as usize
            } else {
                old(self).birds_to_create_at_the_same_time
            },
            final(self).next_score_increase_time == if old(self).next_score_increase_time
                <= input.duration_since_start {
                input.duration_since_start.saturating_add(old(self).increase_score_every_miliseconds)
            } else {
                old(self).next_score_increase_time
            },
    {
        let now = input.duration_since_start;
        if self.time_to_create_bird < now {
            self.create_bird();
            self.time_to_create_bird = now.saturating_add(self.create_bird_every_miliseconds);
            if self.birds_to_create_at_the_same_time < MAX_WAVE {
                self.birds_to_create_at_the_same_time = self.birds_to_create_at_the_same_time + 1;
            }
        }
        let ghost before = self.world;
        assert(spawn_outcome(
            old(self).world.slots@,
            before.slots@,
            old(self).time_to_create_bird,
            now,
            old(self).birds_to_create_at_the_same_time as int,
            old(self).arena_width as int,
        ));
        self.step(input);
        proof {
            lemma_frame_keeps_score_and_loss(
                before.slots@,
                before.still_alive.0,
                before.score.0,
                before.delay_firing.0,
                input,
                self.arena_width as int,
                self.arena_height as int,
                old(self).next_score_increase_time <= now,
            );
        }
    }
}

} // verus!