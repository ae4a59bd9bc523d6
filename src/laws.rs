//! Properties of the passes that relate several calls or hold of every state.

use vstd::prelude::*;

use crate::components::{BulletState, CurrentBulletState, OnGround, Position, Velocity};
use crate::geometry::{in_range, norm2, LIMIT};
use crate::systems::{
    fire_result, first_ready, fired, fire_origin, fire_velocity, gravity_one, ground_one,
    impact_upto, integrate_one, is_firing_bullet, is_target, lemma_target_found, target_from, KILL_REWARD, is_ready_bullet, may_fire, ready_from, recall_one, retire_one, GRAVITY,
    FIRE_COOLDOWN_MS,
};
use crate::world::{maps_components, Components, Slot};

verus! {

/// One gravity pass raises the downward acceleration of every airborne,
/// gravity-bound entity by exactly the gravity increment (where that stays
/// within the stored range).
pub proof fn gravity_raises_fall_acceleration(old: Seq<Slot>, new: Seq<Slot>)
    requires
        maps_components(old, new, |c| gravity_one(c)),
        forall|i: int| 0 <= i < old.len() ==> (#[trigger] old[i]).c.wf(),
    ensures
        forall|i: int|
            0 <= i < old.len() && (#[trigger] old[i]).c.has_gravity is Some
                && old[i].c.on_ground == Some(OnGround(false)) && old[i].c.acceleration is Some
                && old[i].c.acceleration.unwrap().y + GRAVITY <= LIMIT ==> {
                &&& new[i].c.acceleration.unwrap().y == old[i].c.acceleration.unwrap().y + GRAVITY
                &&& new[i].c.acceleration.unwrap().y > old[i].c.acceleration.unwrap().y
            },
{
    assert forall|i: int|
        0 <= i < old.len() && (#[trigger] old[i]).c.has_gravity is Some
            && old[i].c.on_ground == Some(OnGround(false)) && old[i].c.acceleration is Some
            && old[i].c.acceleration.unwrap().y + GRAVITY <= LIMIT implies {
            &&& new[i].c.acceleration.unwrap().y == old[i].c.acceleration.unwrap().y + GRAVITY
            &&& new[i].c.acceleration.unwrap().y > old[i].c.acceleration.unwrap().y
        } by {
        assert(new[i] == old[i].with(gravity_one(old[i].c)));
        assert(old[i].c.wf());
    }
}

/// The entity carries everything ground collision reads and lies below the
/// floor, so that the pass lifts it.
pub open spec fn sunk(c: Components, arena_height: int) -> bool {
    match (c.position, c.height, c.has_gravity, c.on_ground) {
        (Some(p), Some(h), Some(_), Some(_)) => p.y + h.0 > arena_height,
        _ => false,
    }
}

/// A second ground-collision pass with no motion in between changes nothing,
/// for every entity that the first pass did not have to lift onto the floor.
/// (A lifted entity rests exactly on the floor afterwards, and the second
/// pass then reports it airborne.)
pub proof fn ground_collision_idempotent(
    old: Seq<Slot>,
    once: Seq<Slot>,
    twice: Seq<Slot>,
    arena_height: int,
)
    requires
        maps_components(old, once, |c| ground_one(c, arena_height)),
        maps_components(once, twice, |c| ground_one(c, arena_height)),
        forall|i: int| 0 <= i < old.len() ==> !sunk(#[trigger] old[i].c, arena_height),
    ensures
        twice == once,
{
    assert forall|i: int| 0 <= i < old.len() implies #[trigger] twice[i] == once[i] by {
        assert(once[i] == old[i].with(ground_one(old[i].c, arena_height)));
        assert(twice[i] == once[i].with(ground_one(once[i].c, arena_height)));
        assert(!sunk(old[i].c, arena_height));
    }
    assert(twice =~= once);
}

/// The bullet lifecycle: `Ready -> Firing`, then back to `Ready` either
/// directly (recalled) or through `Hit`. Only a ready bullet can start firing.
pub open spec fn legal_transition(a: Option<BulletState>, b: Option<BulletState>) -> bool {
    let ready = Some(BulletState(CurrentBulletState::Ready));
    let firing = Some(BulletState(CurrentBulletState::Firing));
    let hit = Some(BulletState(CurrentBulletState::Hit));
    ||| a == b
    ||| (a == ready && b == firing)
    ||| (a == firing && b == ready)
    ||| (a == firing && b == hit)
    ||| (a == hit && b == ready)
}

/// Firing moves the launched bullet from `Ready` to `Firing`.
pub proof fn firing_follows_lifecycle(s: Seq<Slot>, target: Position)
    ensures
        first_ready(s) matches Some(k) ==> legal_transition(
            s[k].c.bullet_state,
            fired(s[k].c, fire_origin(s), fire_velocity(s, target)).bullet_state,
        ),
{
    crate::systems::lemma_ready_found(s, 0);
}

/// Recalling a bullet that left the arena follows the lifecycle.
pub proof fn recall_follows_lifecycle(c: Components, arena_width: int, arena_height: int)
    ensures
        legal_transition(c.bullet_state, recall_one(c, arena_width, arena_height).bullet_state),
{
}

/// Retiring a bullet that hit follows the lifecycle.
pub proof fn retire_follows_lifecycle(c: Components)
    ensures
        legal_transition(c.bullet_state, retire_one(c).bullet_state),
{
}

proof fn lemma_impact_upto_state(s: Seq<Slot>, score: usize, n: int, i: int)
    requires
        0 <= n <= s.len(),
        0 <= i < s.len(),
    ensures
        impact_upto(s, score, n).0.len() == s.len(),
        ({
            let b = impact_upto(s, score, n).0[i].c.bullet_state;
            ||| b == s[i].c.bullet_state
            ||| (s[i].c.bullet_state == Some(BulletState(CurrentBulletState::Firing)) && b == Some(
                BulletState(CurrentBulletState::Hit),
            ))
        }),
    decreases n,
{
    if n > 0 {
        lemma_impact_upto_state(s, score, n - 1, i);
        let prev = impact_upto(s, score, n - 1);
        lemma_impact_upto_state(s, score, n - 1, n - 1);
        if crate::systems::is_firing_bullet(prev.0[n - 1].c) {
            let b = prev.0[n - 1].c.position.unwrap();
            crate::systems::lemma_target_found(prev.0, b, 0);
        }
    }
}

/// Testing for hits moves a bullet from `Firing` to `Hit` or leaves it as it is.
pub proof fn impact_follows_lifecycle(s: Seq<Slot>, score: usize, i: int)
    requires
        0 <= i < s.len(),
    ensures
        legal_transition(
            s[i].c.bullet_state,
            impact_upto(s, score, s.len() as int).0[i].c.bullet_state,
        ),
{
    lemma_impact_upto_state(s, score, s.len() as int, i);
}

/// After a shot at time `t1`, a fire command at any time `t2` before the
/// cooldown has run out is refused (for shots not at the very end of the
/// clock's range, where the cooldown saturates).
pub proof fn cooldown_refuses_second_shot(t1: u128, t2: u128)
    requires
        t1 <= t2 < t1 + FIRE_COOLDOWN_MS,
        t1 + FIRE_COOLDOWN_MS <= u128::MAX,
    ensures
        !may_fire(t1.saturating_add(FIRE_COOLDOWN_MS), t2),
{
}

/// Once the cooldown has run out, a fire command launches a bullet whenever
/// the pool holds a ready one: the first ready bullet starts firing from the
/// player's position at bullet speed toward the target, and the cooldown
/// restarts from `now`.
pub proof fn shot_after_cooldown_fires(
    s: Seq<Slot>,
    until: u128,
    now: u128,
    target: Position,
    i: int,
)
    requires
        until <= now,
        0 <= i < s.len(),
        is_ready_bullet(s[i].c),
    ensures
        may_fire(until, now),
        first_ready(s) matches Some(k) && ({
            let r = fire_result(s, until, target, now);
            let v = fire_velocity(s, target);
            &&& r.0.len() == s.len()
            &&& r.0[k].c.bullet_state == Some(BulletState(CurrentBulletState::Firing))
            &&& r.0[k].c.position == Some(fire_origin(s))
            &&& r.0[k].c.velocity == Some(Velocity { x: v.0 as i64, y: v.1 as i64 })
            &&& (now + FIRE_COOLDOWN_MS <= u128::MAX ==> r.1 == now + FIRE_COOLDOWN_MS)
        }),
{
    lemma_ready_exists(s, 0, i);
    crate::systems::lemma_ready_found(s, 0);
}

proof fn lemma_ready_exists(s: Seq<Slot>, j: int, i: int)
    requires
        0 <= j <= i < s.len(),
        is_ready_bullet(s[i].c),
    ensures
        ready_from(s, j) is Some,
    decreases i - j,
{
    if j < i && !is_ready_bullet(s[j].c) {
        lemma_ready_exists(s, j + 1, i);
    }
}

/// Some flyer of `s` lies within hit range of `b`.
pub open spec fn has_target(s: Seq<Slot>, b: Position) -> bool {
    exists|j: int| 0 <= j < s.len() && is_target(#[trigger] s[j], b)
}

/// The slot `c` is a bullet in flight with a flyer of `s` in hit range.
pub open spec fn hits(s: Seq<Slot>, c: Components) -> bool {
    is_firing_bullet(c) && has_target(s, c.position.unwrap())
}

/// How many of the first `n` slots of `s` hold a bullet that hits.
pub open spec fn hits_upto(s: Seq<Slot>, n: int) -> nat
    decreases n,
{
    if n <= 0 {
        0
    } else {
        hits_upto(s, n - 1) + if hits(s, s[n - 1].c) {
            1nat
        } else {
            0nat
        }
    }
}

/// `x` saturated at the largest `usize`.
pub open spec fn capped(x: int) -> int {
    if x > usize::MAX {
        usize::MAX as int
    } else {
        x
    }
}

proof fn lemma_target_exists(s: Seq<Slot>, b: Position, j: int, i: int)
    requires
        0 <= j <= i < s.len(),
        is_target(s[i], b),
    ensures
        target_from(s, b, j) is Some,
    decreases i - j,
{
    if j < i && !is_target(s[j], b) {
        lemma_target_exists(s, b, j + 1, i);
    }
}

proof fn lemma_impact_prefix(s: Seq<Slot>, score: usize, n: int)
    requires
        0 <= n <= s.len(),
    ensures
        ({
            let r = impact_upto(s, score, n);
            &&& r.0.len() == s.len()
            &&& forall|j: int|
                0 <= j < s.len() ==> {
                    &&& (#[trigger] r.0[j]).c.position == s[j].c.position
                    &&& r.0[j].c.flyer == s[j].c.flyer
                    &&& r.0[j].c.bullet == s[j].c.bullet
                    &&& (j >= n ==> r.0[j].c.bullet_state == s[j].c.bullet_state)
                    &&& (j < n ==> r.0[j].c.bullet_state == if hits(s, s[j].c) {
                        Some(BulletState(CurrentBulletState::Hit))
                    } else {
                        s[j].c.bullet_state
                    })
                    &&& (r.0[j].doomed ==> s[j].doomed || exists|k: int|
                        0 <= k < n && is_firing_bullet(#[trigger] s[k].c) && is_target(
                            s[j],
                            s[k].c.position.unwrap(),
                        ))
                }
            &&& r.1 == capped(score + KILL_REWARD * hits_upto(s, n))
        }),
    decreases n,
{
    if n > 0 {
        lemma_impact_prefix(s, score, n - 1);
        let prev = impact_upto(s, score, n - 1);
        let i = n - 1;
        assert(prev.0[i].c.position == s[i].c.position);
        assert forall|j: int| 0 <= j < s.len() implies #[trigger] is_target(prev.0[j], s[i].c.position.unwrap())
            == is_target(s[j], s[i].c.position.unwrap()) by {
            assert(prev.0[j].c.position == s[j].c.position);
        }
        if is_firing_bullet(s[i].c) {
            let b = s[i].c.position.unwrap();
            assert(is_firing_bullet(prev.0[i].c));
            lemma_target_found(prev.0, b, 0);
            if has_target(s, b) {
                let w = choose|w: int| 0 <= w < s.len() && is_target(#[trigger] s[w], b);
                assert(is_target(prev.0[w], b));
                lemma_target_exists(prev.0, b, 0, w);
                let t = target_from(prev.0, b, 0).unwrap();
                let r = impact_upto(s, score, n);
                assert forall|j: int| 0 <= j < s.len() && (#[trigger] r.0[j]).doomed implies s[j].doomed
                    || exists|k: int|
                    0 <= k < n && is_firing_bullet(#[trigger] s[k].c) && is_target(
                        s[j],
                        s[k].c.position.unwrap(),
                    ) by {
                    if j == t && !prev.0[j].doomed {
                        assert(is_target(s[j], b));
                        assert(is_firing_bullet(s[i].c));
                    }
                }
            } else {
                if target_from(prev.0, b, 0) is Some {
                    let t = target_from(prev.0, b, 0).unwrap();
                    assert(is_target(s[t], b));
                }
            }
        }
    }
}

/// The impact pass, stated without its slot-by-slot order: a bullet ends up
/// `Hit` exactly when it was `Hit` already or was in flight with a flyer in
/// hit range; the score grows by the kill reward once per such bullet
/// (saturating); every flyer marked for destruction was marked before or
/// was in range of a bullet in flight; and the entities keep their
/// positions.
pub proof fn impact_hits_every_bullet_in_range(s: Seq<Slot>, score: usize)
    ensures
        ({
            let r = impact_upto(s, score, s.len() as int);
            &&& r.0.len() == s.len()
            &&& forall|j: int|
                0 <= j < s.len() ==> {
                    &&& (#[trigger] r.0[j]).c.position == s[j].c.position
                    &&& r.0[j].c.bullet_state == if hits(s, s[j].c) {
                        Some(BulletState(CurrentBulletState::Hit))
                    } else {
                        s[j].c.bullet_state
                    }
                    &&& (r.0[j].doomed ==> s[j].doomed || exists|k: int|
                        0 <= k < s.len() && is_firing_bullet(#[trigger] s[k].c) && is_target(
                            s[j],
                            s[k].c.position.unwrap(),
                        ))
                }
            &&& r.1 == capped(score + KILL_REWARD * hits_upto(s, s.len() as int))
        }),
{
    lemma_impact_prefix(s, score, s.len() as int);
}

/// One kinematics step of `dt` microseconds brings a moving entity without
/// an accumulator closer to the point `t`, whenever its displacement
/// `m = v * dt` heads toward `t` without overshooting: `|m|^2 < 2 (m . d)`
/// with `d = t - p` (true in particular when `m` is a positive multiple of
/// `d` shorter than `d`), and the new position stays in the stored range.
pub proof fn kinematics_approaches_target(c: Components, dt: int, t: Position)
    requires
        c.acceleration is None,
        c.position is Some,
        c.velocity is Some,
        ({
            let p = c.position.unwrap();
            let v = c.velocity.unwrap();
            &&& in_range(p.x + v.x * dt)
            &&& in_range(p.y + v.y * dt)
            &&& norm2(v.x * dt, v.y * dt) < 2 * ((v.x * dt) * (t.x - p.x) + (v.y * dt) * (t.y
                - p.y))
        }),
    ensures
        ({
            let p = c.position.unwrap();
            let q = integrate_one(c, dt).position.unwrap();
            norm2(t.x - q.x, t.y - q.y) < norm2(t.x - p.x, t.y - p.y)
        }),
{
    let p = c.position.unwrap();
    let v = c.velocity.unwrap();
    let mx = v.x * dt;
    let my = v.y * dt;
    let dx = t.x - p.x;
    let dy = t.y - p.y;
    let q = integrate_one(c, dt).position.unwrap();
    assert(q.x == p.x + mx && q.y == p.y + my);
    assert(norm2(dx - mx, dy - my) == norm2(dx, dy) - 2 * (mx * dx + my * dy) + norm2(mx, my))
        by (nonlinear_arith);
}

} // verus!
