use keep_it_alive::components::{
    Acceleration, Bullet, BulletState, CurrentBulletState, Flyer, HasGravity, Height, KeepAlive,
    ObjectMesh, OnGround, Player, Position, Velocity, Width,
};
use keep_it_alive::game::{clamp_delta, FrameInput, GameState, BIRD_WIDTH, MIN_FRAME_MICROS};
use keep_it_alive::geometry::{isqrt, saturate, scale_toward, LIMIT, PIXEL};
use keep_it_alive::systems::{
    ApplyForceSystem, CheckEggSystem, DragSystem, FireBulletSystem, FlySystem, GravitySystem,
    HideHitBullets, HitGround, IncreaseScoreBySurvivingSystem, LandOnEggSystem, MovePlayerSystem,
    PressedKeys, ResetBulletsSystem, ShootBirdsSystem, BULLET_SPEED, GRAVITY, KILL_REWARD, PARKED,
};
use keep_it_alive::world::{Components, Entity, World};

const NO_KEYS: PressedKeys = PressedKeys { left: false, right: false, jump: false };
const FRAME: u64 = 16_667;

fn px(v: i64) -> i64 {
    v * PIXEL
}

fn at(x: i64, y: i64) -> Position {
    Position { x: px(x), y: px(y) }
}

fn player_at(x: i64, y: i64) -> Components {
    Components {
        position: Some(at(x, y)),
        velocity: Some(Velocity { x: 0, y: 0 }),
        acceleration: Some(Acceleration { x: 0, y: 0 }),
        height: Some(Height::new(px(25))),
        width: Some(Width::new(px(15))),
        on_ground: Some(OnGround::new()),
        has_gravity: Some(HasGravity),
        player: Some(Player),
        mesh: Some(ObjectMesh::Person),
        ..Components::empty()
    }
}

fn egg_at(x: i64, y: i64, width: i64) -> Components {
    Components {
        position: Some(at(x, y)),
        width: Some(Width::new(px(width))),
        height: Some(Height::new(px(15))),
        keep_alive: Some(KeepAlive::new()),
        mesh: Some(ObjectMesh::Egg),
        ..Components::empty()
    }
}

fn flyer_at(x: i64, y: i64) -> Components {
    Components {
        position: Some(at(x, y)),
        velocity: Some(Velocity { x: 0, y: 0 }),
        acceleration: Some(Acceleration { x: 0, y: 0 }),
        height: Some(Height::new(px(10))),
        width: Some(Width::new(px(25))),
        flyer: Some(Flyer),
        mesh: Some(ObjectMesh::Bird),
        ..Components::empty()
    }
}

fn bullet_with(state: CurrentBulletState, pos: Position) -> Components {
    Components {
        position: Some(pos),
        velocity: Some(Velocity { x: 0, y: 0 }),
        bullet: Some(Bullet),
        bullet_state: Some(BulletState(state)),
        mesh: Some(ObjectMesh::Bullet),
        ..Components::empty()
    }
}

fn parked_bullet() -> Components {
    bullet_with(CurrentBulletState::Ready, Position { x: PARKED, y: PARKED })
}

fn c(world: &World, e: Entity) -> Components {
    world.slots[e.0].c
}

fn state(world: &World, e: Entity) -> CurrentBulletState {
    c(world, e).bullet_state.unwrap().get()
}

fn dist2(a: Position, b: Position) -> i128 {
    let dx = (a.x - b.x) as i128;
    let dy = (a.y - b.y) as i128;
    dx * dx + dy * dy
}

fn fire(target: Position, now: u128) -> FireBulletSystem {
    FireBulletSystem { mouse_location: target, duration_since_start: now }
}

#[test]
fn airborne_player_falls_after_one_frame() {
    let mut world = World::new(px(5));
    let p = world.spawn(player_at(100, 400));
    let arena_height = px(600);
    GravitySystem { arena_height }.run(&mut world);
    HitGround { arena_height }.run(&mut world);
    MovePlayerSystem { pressed_keys: NO_KEYS }.run(&mut world);
    ApplyForceSystem { delta_time: clamp_delta(FRAME) }.run(&mut world);
    let after = c(&world, p);
    assert!(after.velocity.unwrap().y > 0);
    assert_eq!(after.velocity.unwrap().y, GRAVITY);
    assert!(after.position.unwrap().y > px(400));
    assert_eq!(after.position.unwrap().y, px(400) + GRAVITY * FRAME as i64);
    assert_eq!(after.acceleration.unwrap(), Acceleration { x: 0, y: 0 });
}

#[test]
fn entity_next_to_objective_ends_round() {
    let mut world = World::new(px(5));
    world.spawn(egg_at(400, 575, 5));
    world.spawn(Components {
        position: Some(at(402, 575)),
        height: Some(Height::new(px(10))),
        width: Some(Width::new(px(10))),
        ..Components::empty()
    });
    assert!(world.still_alive.get());
    CheckEggSystem.run(&mut world);
    assert!(!world.still_alive.get());
}

#[test]
fn entity_far_from_objective_keeps_round_alive() {
    let mut world = World::new(px(5));
    world.spawn(egg_at(400, 575, 5));
    world.spawn(Components {
        position: Some(at(405, 575)),
        height: Some(Height::new(px(10))),
        width: Some(Width::new(px(10))),
        ..Components::empty()
    });
    CheckEggSystem.run(&mut world);
    assert!(world.still_alive.get());
}

#[test]
fn bullet_closes_on_target_until_it_hits_a_flyer() {
    let mut world = World::new(px(5));
    world.spawn(player_at(100, 400));
    let b = world.spawn(parked_bullet());
    let f = world.spawn(flyer_at(500, 300));
    let target = at(500, 300);
    fire(target, 1).run(&mut world);
    assert_eq!(state(&world, b), CurrentBulletState::Firing);
    assert_eq!(c(&world, b).position.unwrap(), at(100, 400));
    let mut last = dist2(c(&world, b).position.unwrap(), target);
    let mut steps = 0;
    while state(&world, b) == CurrentBulletState::Firing {
        ApplyForceSystem { delta_time: FRAME }.run(&mut world);
        let d = dist2(c(&world, b).position.unwrap(), target);
        assert!(d < last);
        last = d;
        ResetBulletsSystem { arena_width: px(800), arena_height: px(600) }.run(&mut world);
        ShootBirdsSystem.run(&mut world);
        steps += 1;
        assert!(steps < 1000);
    }
    assert_eq!(state(&world, b), CurrentBulletState::Hit);
    assert_eq!(world.score.get(), KILL_REWARD);
    assert!(world.slots[f.0].doomed);
    world.maintain();
    assert!(!world.is_alive(f));
}

#[test]
fn bullet_without_target_is_recalled_without_score() {
    let mut world = World::new(px(5));
    world.spawn(player_at(100, 400));
    let b = world.spawn(parked_bullet());
    let target = at(500, 300);
    fire(target, 1).run(&mut world);
    let mut last = dist2(c(&world, b).position.unwrap(), target);
    let mut approaching = true;
    let mut steps = 0;
    while state(&world, b) == CurrentBulletState::Firing {
        ApplyForceSystem { delta_time: FRAME }.run(&mut world);
        let d = dist2(c(&world, b).position.unwrap(), target);
        if approaching && d >= last {
            approaching = false;
        }
        if !approaching {
            assert!(d >= last);
        }
        last = d;
        ResetBulletsSystem { arena_width: px(800), arena_height: px(600) }.run(&mut world);
        ShootBirdsSystem.run(&mut world);
        steps += 1;
        assert!(steps < 1000);
    }
    assert_eq!(state(&world, b), CurrentBulletState::Ready);
    assert_eq!(c(&world, b).velocity.unwrap(), Velocity { x: 0, y: 0 });
    assert_eq!(world.score.get(), 0);
}

#[test]
fn two_fire_commands_in_one_cooldown_launch_one_bullet() {
    let mut world = World::new(px(5));
    world.spawn(player_at(100, 400));
    let b1 = world.spawn(parked_bullet());
    let b2 = world.spawn(parked_bullet());
    let b3 = world.spawn(parked_bullet());
    fire(at(500, 300), 1000).run(&mut world);
    fire(at(500, 300), 1050).run(&mut world);
    let firing = [b1, b2, b3]
        .iter()
        .filter(|e| state(&world, **e) == CurrentBulletState::Firing)
        .count();
    assert_eq!(firing, 1);
    assert_eq!(state(&world, b1), CurrentBulletState::Firing);
    assert_eq!(world.delay_firing.get(), 1100);
}

#[test]
fn fire_command_after_cooldown_launches_next_bullet() {
    let mut world = World::new(px(5));
    world.spawn(player_at(100, 400));
    let b1 = world.spawn(parked_bullet());
    let b2 = world.spawn(parked_bullet());
    fire(at(500, 300), 1000).run(&mut world);
    fire(at(500, 300), 1100).run(&mut world);
    assert_eq!(state(&world, b1), CurrentBulletState::Firing);
    assert_eq!(state(&world, b2), CurrentBulletState::Firing);
    assert_eq!(world.delay_firing.get(), 1200);
}

#[test]
fn fire_command_without_ready_bullet_changes_nothing() {
    let mut world = World::new(px(5));
    world.spawn(player_at(100, 400));
    let b = world.spawn(bullet_with(CurrentBulletState::Hit, at(1, 1)));
    fire(at(500, 300), 1000).run(&mut world);
    assert_eq!(state(&world, b), CurrentBulletState::Hit);
    assert_eq!(world.delay_firing.get(), 0);
}

#[test]
fn fired_bullet_velocity_points_at_target() {
    let mut world = World::new(px(5));
    world.spawn(player_at(100, 400));
    let b = world.spawn(parked_bullet());
    fire(at(100, 100), 0).run(&mut world);
    assert_eq!(c(&world, b).velocity.unwrap(), Velocity { x: 0, y: -BULLET_SPEED });
}

#[test]
fn gravity_adds_increment_only_when_airborne() {
    let mut world = World::new(px(5));
    let air = world.spawn(player_at(100, 100));
    let mut grounded = player_at(200, 100);
    grounded.on_ground = Some(OnGround(true));
    let ground = world.spawn(grounded);
    GravitySystem { arena_height: px(600) }.run(&mut world);
    assert_eq!(c(&world, air).acceleration.unwrap().y, GRAVITY);
    assert_eq!(c(&world, ground).acceleration.unwrap().y, 0);
    GravitySystem { arena_height: px(600) }.run(&mut world);
    assert_eq!(c(&world, air).acceleration.unwrap().y, 2 * GRAVITY);
}

#[test]
fn ground_collision_lifts_sunk_entity_onto_floor() {
    let mut world = World::new(px(5));
    let p = world.spawn(player_at(100, 590));
    HitGround { arena_height: px(600) }.run(&mut world);
    assert_eq!(c(&world, p).position.unwrap().y, px(575));
    assert_eq!(c(&world, p).on_ground, Some(OnGround(true)));
}

#[test]
fn ground_collision_twice_equals_once_above_floor() {
    let mut world = World::new(px(5));
    world.spawn(player_at(100, 300));
    world.spawn(player_at(200, 575));
    HitGround { arena_height: px(600) }.run(&mut world);
    let once = world.slots.clone();
    HitGround { arena_height: px(600) }.run(&mut world);
    assert_eq!(world.slots, once);
}

#[test]
fn player_input_pushes_and_jumps_only_on_ground() {
    let mut world = World::new(px(5));
    let mut standing = player_at(100, 575);
    standing.on_ground = Some(OnGround(true));
    let p = world.spawn(standing);
    MovePlayerSystem { pressed_keys: PressedKeys { left: true, right: true, jump: true } }
        .run(&mut world);
    assert_eq!(c(&world, p).acceleration.unwrap(), Acceleration { x: -800, y: -50_500 });

    let mut world = World::new(px(5));
    let q = world.spawn(player_at(100, 300));
    MovePlayerSystem { pressed_keys: PressedKeys { left: false, right: true, jump: true } }
        .run(&mut world);
    assert_eq!(c(&world, q).acceleration.unwrap(), Acceleration { x: 800, y: 0 });
}

#[test]
fn drag_opposes_horizontal_motion_and_ignores_rest() {
    let mut world = World::new(px(5));
    let mut moving = player_at(100, 300);
    moving.velocity = Some(Velocity { x: 3_000, y: 4_000 });
    let m = world.spawn(moving);
    let r = world.spawn(player_at(200, 300));
    DragSystem.run(&mut world);
    assert_eq!(c(&world, m).acceleration.unwrap(), Acceleration { x: -480, y: 0 });
    assert_eq!(c(&world, r).acceleration.unwrap(), Acceleration { x: 0, y: 0 });
}

#[test]
fn flyer_homes_on_objective_until_arrival() {
    let mut world = World::new(px(5));
    world.spawn(egg_at(400, 575, 5));
    let far = world.spawn(flyer_at(400, 475));
    let near = world.spawn(flyer_at(400, 560));
    FlySystem.run(&mut world);
    assert_eq!(c(&world, far).acceleration.unwrap(), Acceleration { x: 0, y: 50 });
    assert_eq!(c(&world, near).acceleration.unwrap(), Acceleration { x: 0, y: 0 });
}

#[test]
fn flyer_on_objective_stops() {
    let mut world = World::new(px(5));
    world.spawn(egg_at(400, 575, 5));
    let mut landing = flyer_at(401, 575);
    landing.velocity = Some(Velocity { x: 7, y: 9 });
    landing.acceleration = Some(Acceleration { x: 3, y: 4 });
    let l = world.spawn(landing);
    let mut passing = flyer_at(410, 575);
    passing.velocity = Some(Velocity { x: 7, y: 9 });
    let p = world.spawn(passing);
    LandOnEggSystem.run(&mut world);
    assert_eq!(c(&world, l).velocity.unwrap(), Velocity { x: 0, y: 0 });
    assert_eq!(c(&world, l).acceleration.unwrap(), Acceleration { x: 0, y: 0 });
    assert_eq!(c(&world, p).velocity.unwrap(), Velocity { x: 7, y: 9 });
}

#[test]
fn homing_and_landing_without_objective_change_nothing() {
    let mut world = World::new(px(5));
    world.spawn(flyer_at(400, 475));
    let before = world.slots.clone();
    FlySystem.run(&mut world);
    LandOnEggSystem.run(&mut world);
    assert_eq!(world.slots, before);
}

#[test]
fn bullet_cycles_through_hit_back_to_ready_and_parks() {
    let mut world = World::new(px(5));
    world.spawn(player_at(100, 400));
    let b = world.spawn(parked_bullet());
    world.spawn(flyer_at(100, 400));
    assert_eq!(state(&world, b), CurrentBulletState::Ready);
    fire(at(500, 400), 0).run(&mut world);
    assert_eq!(state(&world, b), CurrentBulletState::Firing);
    ShootBirdsSystem.run(&mut world);
    assert_eq!(state(&world, b), CurrentBulletState::Hit);
    // a bullet that hit registers no further hits
    world.spawn(flyer_at(100, 400));
    ShootBirdsSystem.run(&mut world);
    assert_eq!(world.score.get(), KILL_REWARD);
    HideHitBullets.run(&mut world);
    assert_eq!(state(&world, b), CurrentBulletState::Ready);
    assert_eq!(c(&world, b).position.unwrap(), Position { x: PARKED, y: PARKED });
    assert_eq!(c(&world, b).velocity.unwrap(), Velocity { x: 0, y: 0 });
}

#[test]
fn bullet_destroys_at_most_one_flyer_per_frame() {
    let mut world = World::new(px(5));
    let b = world.spawn(bullet_with(CurrentBulletState::Firing, at(300, 300)));
    let f1 = world.spawn(flyer_at(305, 300));
    let f2 = world.spawn(flyer_at(300, 305));
    ShootBirdsSystem.run(&mut world);
    assert_eq!(state(&world, b), CurrentBulletState::Hit);
    assert!(world.slots[f1.0].doomed);
    assert!(!world.slots[f2.0].doomed);
    assert_eq!(world.score.get(), KILL_REWARD);
}

#[test]
fn two_bullets_on_one_flyer_both_hit() {
    let mut world = World::new(px(5));
    let b1 = world.spawn(bullet_with(CurrentBulletState::Firing, at(300, 300)));
    let b2 = world.spawn(bullet_with(CurrentBulletState::Firing, at(301, 300)));
    let f = world.spawn(flyer_at(305, 300));
    ShootBirdsSystem.run(&mut world);
    assert_eq!(state(&world, b1), CurrentBulletState::Hit);
    assert_eq!(state(&world, b2), CurrentBulletState::Hit);
    assert_eq!(world.score.get(), 2 * KILL_REWARD);
    assert!(world.slots[f.0].doomed);
    world.maintain();
    assert!(!world.is_alive(f));
}

#[test]
fn recall_only_touches_firing_bullets_out_of_bounds() {
    let mut world = World::new(px(5));
    let out = world.spawn(bullet_with(CurrentBulletState::Firing, at(811, 300)));
    let edge = world.spawn(bullet_with(CurrentBulletState::Firing, at(810, 300)));
    let hit = world.spawn(bullet_with(CurrentBulletState::Hit, at(-20, 300)));
    ResetBulletsSystem { arena_width: px(800), arena_height: px(600) }.run(&mut world);
    assert_eq!(state(&world, out), CurrentBulletState::Ready);
    assert_eq!(state(&world, edge), CurrentBulletState::Firing);
    assert_eq!(state(&world, hit), CurrentBulletState::Hit);
}

#[test]
fn survival_scoring_only_while_alive() {
    let mut world = World::new(px(5));
    IncreaseScoreBySurvivingSystem.run(&mut world);
    IncreaseScoreBySurvivingSystem.run(&mut world);
    assert_eq!(world.score.get(), 2);
    world.still_alive.set(false);
    IncreaseScoreBySurvivingSystem.run(&mut world);
    assert_eq!(world.score.get(), 2);
}

#[test]
fn lost_round_freezes_motion_and_stays_lost() {
    let mut world = World::new(px(5));
    world.spawn(egg_at(400, 575, 5));
    let mut moving = flyer_at(401, 575);
    moving.velocity = Some(Velocity { x: 1_000, y: 1_000 });
    let m = world.spawn(moving);
    CheckEggSystem.run(&mut world);
    assert!(!world.still_alive.get());
    let before = world.slots.clone();
    ApplyForceSystem { delta_time: FRAME }.run(&mut world);
    assert_eq!(world.slots, before);
    assert_eq!(c(&world, m).position.unwrap(), at(401, 575));
    world.slots[m.0].c.position = Some(at(100, 100));
    CheckEggSystem.run(&mut world);
    assert!(!world.still_alive.get());
}

#[test]
fn score_never_decreases_over_frames() {
    let mut game = GameState::new(px(800), px(600));
    let mut last = game.world.score.get();
    for frame in 0..400u128 {
        let input = FrameInput {
            delta_time: FRAME,
            duration_since_start: frame * 50,
            pressed_keys: NO_KEYS,
            fire: frame % 3 == 0,
            mouse_location: at(400, 100),
        };
        game.update(input);
        let s = game.world.score.get();
        assert!(s >= last);
        last = s;
    }
    assert!(last >= 3);
}

#[test]
fn new_round_has_objective_player_floor_and_pool() {
    let game = GameState::new(px(800), px(600));
    let w = &game.world;
    assert_eq!(w.slots.len(), 6);
    assert_eq!(w.slots[0].c.position, Some(at(400, 575)));
    assert_eq!(w.slots[0].c.keep_alive, Some(KeepAlive(true)));
    assert_eq!(w.slots[1].c.position, Some(at(100, 85)));
    assert_eq!(w.slots[2].c.position, Some(at(0, 595)));
    assert_eq!(w.ready_bullets(), 3);
    assert!(w.still_alive.get());
    assert_eq!(w.score.get(), 0);
    assert_eq!(w.drawables().len(), 6);
    assert_eq!(w.drawables()[0], (ObjectMesh::Egg, at(400, 575)));
}

#[test]
fn spawned_flyers_enter_within_the_band() {
    let mut game = GameState::new(px(800), px(600));
    game.birds_to_create_at_the_same_time = 40;
    game.create_bird();
    assert_eq!(game.world.slots.len(), 46);
    let xs: Vec<i64> = game.world.slots[6..].iter().map(|s| s.c.position.unwrap().x).collect();
    for x in &xs {
        assert!(*x >= -BIRD_WIDTH && *x < px(800) + BIRD_WIDTH);
    }
    assert!(xs.iter().any(|x| *x != xs[0]));
}

#[test]
fn update_spawns_waves_and_schedules_scoring() {
    let mut game = GameState::new(px(800), px(600));
    let input = FrameInput {
        delta_time: 1,
        duration_since_start: 10,
        pressed_keys: NO_KEYS,
        fire: false,
        mouse_location: at(0, 0),
    };
    game.update(input);
    assert_eq!(game.world.slots.len(), 7);
    assert_eq!(game.time_to_create_bird, 3010);
    assert_eq!(game.birds_to_create_at_the_same_time, 2);
    assert_eq!(game.next_score_increase_time, 5000);
    assert_eq!(game.world.score.get(), 0);
    let later = FrameInput { duration_since_start: 5000, ..input };
    game.update(later);
    assert_eq!(game.world.score.get(), 1);
    assert_eq!(game.next_score_increase_time, 10000);
}

#[test]
fn destroying_twice_is_harmless() {
    let mut world = World::new(px(5));
    let f = world.spawn(flyer_at(1, 1));
    world.destroy(f);
    world.destroy(f);
    world.maintain();
    assert!(!world.is_alive(f));
    world.destroy(f);
    world.maintain();
    assert_eq!(world.slots[f.0].c, Components::empty());
    world.destroy(Entity(99));
}

#[test]
fn frame_duration_is_floored() {
    assert_eq!(clamp_delta(1), MIN_FRAME_MICROS);
    assert_eq!(clamp_delta(20_000), 20_000);
}

#[test]
fn integer_geometry_values() {
    assert_eq!(isqrt(0), 0);
    assert_eq!(isqrt(24), 4);
    assert_eq!(isqrt(25), 5);
    assert_eq!(scale_toward(3, 4, 10), (6, 8));
    assert_eq!(scale_toward(-3, 4, 10), (-6, 8));
    assert_eq!(scale_toward(0, 0, 10), (0, 0));
    assert_eq!(saturate(i128::from(LIMIT) + 5), LIMIT);
    assert_eq!(saturate(-i128::from(LIMIT) - 5), -LIMIT);
}

#[test]
fn cleared_keep_alive_is_no_objective() {
    let mut world = World::new(px(5));
    let mut egg = egg_at(400, 575, 5);
    let mut flag = KeepAlive::new();
    flag.die();
    assert!(!flag.get());
    egg.keep_alive = Some(flag);
    world.spawn(egg);
    let f = world.spawn(flyer_at(400, 475));
    FlySystem.run(&mut world);
    assert_eq!(c(&world, f).acceleration.unwrap(), Acceleration { x: 0, y: 0 });
}

#[test]
fn hit_bullet_without_position_is_retired() {
    let mut world = World::new(px(5));
    let mut bare = bullet_with(CurrentBulletState::Hit, at(0, 0));
    bare.position = None;
    let b = world.spawn(bare);
    HideHitBullets.run(&mut world);
    assert_eq!(state(&world, b), CurrentBulletState::Ready);
    assert_eq!(c(&world, b).position, None);
}

#[test]
fn step_integrates_walking_input_in_the_same_frame() {
    let mut game = GameState::new(px(800), px(600));
    let input = FrameInput {
        delta_time: FRAME,
        duration_since_start: 0,
        pressed_keys: PressedKeys { left: false, right: true, jump: false },
        fire: false,
        mouse_location: at(0, 0),
    };
    game.step(input);
    let player = game.world.slots[1].c;
    assert_eq!(player.velocity.unwrap().x, 800);
    assert_eq!(player.velocity.unwrap().y, GRAVITY);
    assert!(player.position.unwrap().y > px(85));
}

#[test]
fn frame_ends_with_no_bullet_in_hit() {
    let mut game = GameState::new(px(800), px(600));
    game.world.spawn(flyer_at(100, 85));
    let input = FrameInput {
        delta_time: FRAME,
        duration_since_start: 0,
        pressed_keys: NO_KEYS,
        fire: true,
        mouse_location: at(500, 85),
    };
    game.update(input);
    assert_eq!(game.world.score.get(), KILL_REWARD);
    assert_eq!(game.world.ready_bullets(), 3);
    assert!(game.world.slots.iter().all(|s| s.c.flyer.is_none()));
    assert_eq!(game.world.slots[3].c.position, Some(Position { x: PARKED, y: PARKED }));
}
