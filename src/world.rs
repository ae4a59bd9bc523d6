//! The component store: one slot per entity ever spawned, each holding the
//! entity's fixed set of components, plus the round's resources.
//!
//! Slots are never reused, so an entity handle can never alias an entity
//! spawned later. Destruction is deferred: [`World::destroy`] marks a slot and
//! [`World::maintain`] empties marked slots once the frame's systems have run.

use vstd::prelude::*;

use crate::components::{
    Acceleration, Bullet, BulletState, CurrentBulletState, Drag, Floor, Flyer, HasGravity, Height, KeepAlive,
    ObjectMesh, OnGround, Player, Position, Radius, Velocity, Width,
};
use crate::geometry::{in_range, LIMIT};
use crate::resources::{BulletSize, DelayFiringUntilAfter, Score, StillAlive};

verus! {

/// The components one entity carries; `None` means the entity lacks that kind.
#[derive(Clone, Copy, Debug, PartialEq, Eq)]
pub struct Components {
    pub position: Option<Position>,
    pub velocity: Option<Velocity>,
    pub acceleration: Option<Acceleration>,
    pub height: Option<Height>,
    pub width: Option<Width>,
    pub radius: Option<Radius>,
    pub drag: Option<Drag>,
    pub on_ground: Option<OnGround>,
    pub keep_alive: Option<KeepAlive>,
    pub has_gravity: Option<HasGravity>,
    pub floor: Option<Floor>,
    pub flyer: Option<Flyer>,
    pub bullet: Option<Bullet>,
    pub player: Option<Player>,
    pub bullet_state: Option<BulletState>,
    pub mesh: Option<ObjectMesh>,
}

impl Components {
    /// The empty component set.
    pub fn empty() -> (r: Components)
        ensures
            r == Components::empty_spec(),
    {
        Components {
            position: None,
            velocity: None,
            acceleration: None,
            height: None,
            width: None,
            radius: None,
            drag: None,
            on_ground: None,
            keep_alive: None,
            has_gravity: None,
            floor: None,
            flyer: None,
            bullet: None,
            player: None,
            bullet_state: None,
            mesh: None,
        }
    }

    pub open spec fn empty_spec() -> Components {
        Components {
            position: None,
            velocity: None,
            acceleration: None,
            height: None,
            width: None,
            radius: None,
            drag: None,
            on_ground: None,
            keep_alive: None,
            has_gravity: None,
            floor: None,
            flyer: None,
            bullet: None,
            player: None,
            bullet_state: None,
            mesh: None,
        }
    }

    /// Every stored quantity lies in the range the arithmetic is proved for.
    pub open spec fn wf(self) -> bool {
        &&& (self.position matches Some(p) ==> in_range(p.x as int) && in_range(p.y as int))
        &&& (self.velocity matches Some(v) ==> in_range(v.x as int) && in_range(v.y as int))
        &&& (self.acceleration matches Some(a) ==> in_range(a.x as int) && in_range(
            a.y as int,
        ))
        &&& (self.height matches Some(h) ==> 0 <= h.0 <= LIMIT)
        &&& (self.width matches Some(w) ==> 0 <= w.0 <= LIMIT)
        &&& (self.radius matches Some(r) ==> 0 <= r.0 <= LIMIT)
        &&& (self.drag matches Some(d) ==> 0 <= d.0 <= LIMIT)
    }

    /// The entity is the protected objective: it carries KeepAlive, still
    /// set, and a position.
    pub open spec fn is_objective(self) -> bool {
        self.keep_alive == Some(KeepAlive(true)) && self.position.is_some()
    }

    /// The entity is the player.
    pub open spec fn is_player(self) -> bool {
        self.player.is_some() && self.position.is_some()
    }
}

/// A handle to a spawned entity: the index of its slot.
#[derive(Clone, Copy, Debug, PartialEq, Eq)]
pub struct Entity(pub usize);

/// One entity's place in the store.
#[derive(Clone, Copy, Debug, PartialEq, Eq)]
pub struct Slot {
    /// Spawned and not yet removed by [`World::maintain`].
    pub live: bool,
    /// Destruction requested during the current frame.
    pub doomed: bool,
    pub c: Components,
}

impl Slot {
    /// The slot of a removed entity.
    pub open spec fn dead() -> Slot {
        Slot { live: false, doomed: false, c: Components::empty_spec() }
    }

    /// The same slot carrying the components `c`.
    pub open spec fn with(self, c: Components) -> Slot {
        Slot { live: self.live, doomed: self.doomed, c }
    }
}

/// Every slot of `new` is the slot of `old` with its components mapped by `f`.
pub open spec fn maps_components(
    old: Seq<Slot>,
    new: Seq<Slot>,
    f: spec_fn(Components) -> Components,
) -> bool {
    &&& new.len() == old.len()
    &&& forall|i: int| 0 <= i < old.len() ==> #[trigger] new[i] == old[i].with(f(old[i].c))
}

/// The slots `s` with every slot's components mapped by `f`.
pub open spec fn mapped(s: Seq<Slot>, f: spec_fn(Components) -> Components) -> Seq<Slot> {
    Seq::new(s.len(), |i: int| s[i].with(f(s[i].c)))
}

/// The slots `s` after the entities marked for destruction are removed.
pub open spec fn maintained(s: Seq<Slot>) -> Seq<Slot> {
    Seq::new(s.len(), |i: int| if s[i].doomed { Slot::dead() } else { s[i] })
}

pub proof fn lemma_maps_is_mapped(old: Seq<Slot>, new: Seq<Slot>, f: spec_fn(Components) -> Components)
    requires
        maps_components(old, new, f),
    ensures
        new == mapped(old, f),
{
    assert(new =~= mapped(old, f));
}

/// Index of the first slot at or after `i` holding the objective.
pub open spec fn objective_from(s: Seq<Slot>, i: int) -> Option<int>
    decreases s.len() - i,
{
    if i < 0 || i >= s.len() {
        None
    } else if s[i].c.is_objective() {
        Some(i)
    } else {
        objective_from(s, i + 1)
    }
}

/// Index of the objective: the first slot carrying a set KeepAlive and a
/// position.
pub open spec fn objective(s: Seq<Slot>) -> Option<int> {
    objective_from(s, 0)
}

/// Index of the first slot at or after `i` holding the player.
pub open spec fn player_from(s: Seq<Slot>, i: int) -> Option<int>
    decreases s.len() - i,
{
    if i < 0 || i >= s.len() {
        None
    } else if s[i].c.is_player() {
        Some(i)
    } else {
        player_from(s, i + 1)
    }
}

/// Index of the player: the first slot tagged Player that has a position.
pub open spec fn player(s: Seq<Slot>) -> Option<int> {
    player_from(s, 0)
}

pub proof fn lemma_objective_found(s: Seq<Slot>, i: int)
    requires
        0 <= i,
    ensures
        objective_from(s, i) matches Some(k) ==> i <= k < s.len() && s[k].c.is_objective(),
    decreases s.len() - i,
{
    if i < s.len() && !s[i].c.is_objective() {
        lemma_objective_found(s, i + 1);
    }
}

pub proof fn lemma_player_found(s: Seq<Slot>, i: int)
    requires
        0 <= i,
    ensures
        player_from(s, i) matches Some(k) ==> i <= k < s.len() && s[k].c.is_player(),
    decreases s.len() - i,
{
    if i < s.len() && !s[i].c.is_player() {
        lemma_player_found(s, i + 1);
    }
}

/// What the renderer draws from the first `n` slots: the picture and position
/// of each entity that has both, in slot order.
pub open spec fn drawables_upto(s: Seq<Slot>, n: int) -> Seq<(ObjectMesh, Position)>
    decreases n,
{
    if n <= 0 {
        seq![]
    } else {
        let prev = drawables_upto(s, n - 1);
        match (s[n - 1].c.mesh, s[n - 1].c.position) {
            (Some(m), Some(p)) => prev.push((m, p)),
            _ => prev,
        }
    }
}

/// How many of the first `n` slots hold a bullet state that is ready.
pub open spec fn ready_upto(s: Seq<Slot>, n: int) -> nat
    decreases n,
{
    if n <= 0 {
        0
    } else {
        ready_upto(s, n - 1) + if s[n - 1].c.bullet_state == Some(
            BulletState(CurrentBulletState::Ready),
        ) {
            1nat
        } else {
            0nat
        }
    }
}

pub struct World {
    pub slots: Vec<Slot>,
    pub still_alive: StillAlive,
    pub score: Score,
    pub bullet_size: BulletSize,
    pub delay_firing: DelayFiringUntilAfter,
}

impl World {
    /// All slots hold components in range; a dead slot holds none.
    pub open spec fn wf(&self) -> bool {
        forall|i: int|
            0 <= i < self.slots@.len() ==> {
                &&& (#[trigger] self.slots@[i]).c.wf()
                &&& (!self.slots@[i].live ==> self.slots@[i] == Slot::dead())
            }
    }

    /// The resources of `self` and `other` agree.
    pub open spec fn same_resources(&self, other: &World) -> bool {
        &&& self.still_alive == other.still_alive
        &&& self.score == other.score
        &&& self.bullet_size == other.bullet_size
        &&& self.delay_firing == other.delay_firing
    }

    /// An empty world with fresh resources for a new round.
    pub fn new(bullet_size: i64) -> (r: World)
        ensures
            r.wf(),
            r.slots@.len() == 0,
            r.still_alive.0,
            r.score.0 == 0,
            r.bullet_size.0 == bullet_size,
            r.delay_firing.0 == 0,
    {
        World {
            slots: Vec::new(),
            still_alive: StillAlive::new(),
            score: Score::new(),
            bullet_size: BulletSize::new(bullet_size),
            delay_firing: DelayFiringUntilAfter::new(),
        }
    }

    /// Adds an entity with the component set `c`.
    pub fn spawn(&mut self, c: Components) -> (e: Entity)
        requires
            old(self).wf(),
            c.wf(),
        ensures
            final(self).wf(),
            e.0 == old(self).slots@.len(),
            final(self).slots@ == old(self).slots@.push(Slot { live: true, doomed: false, c }),
            final(self).same_resources(old(self)),
    {
        let e = Entity(self.slots.len());
        self.slots.push(Slot { live: true, doomed: false, c });
        e
    }

    /// Whether `e` names an entity that has not been removed.
    pub fn is_alive(&self, e: Entity) -> (r: bool)
        ensures
            r == (e.0 < self.slots@.len() && self.slots@[e.0 as int].live),
    {
        e.0 < self.slots.len() && self.slots[e.0].live
    }

    /// Requests the destruction of `e` at the next [`World::maintain`]; a
    /// handle to a removed or unknown entity is ignored.
    pub fn destroy(&mut self, e: Entity)
        requires
            old(self).wf(),
        ensures
            final(self).wf(),
            final(self).same_resources(old(self)),
            final(self).slots@ == if e.0 < old(self).slots@.len() && old(self).slots@[e.0 as int].live {
                old(self).slots@.update(
                    e.0 as int,
                    Slot { doomed: true, ..old(self).slots@[e.0 as int] },
                )
            } else {
                old(self).slots@
            },
    {
        if e.0 < self.slots.len() && self.slots[e.0].live {
            let mut s = self.slots[e.0];
            s.doomed = true;
            self.slots.set(e.0, s);
        }
    }

    /// Removes every entity whose destruction was requested.
    pub fn maintain(&mut self)
        requires
            old(self).wf(),
        ensures
            final(self).wf(),
            final(self).same_resources(old(self)),
            final(self).slots@.len() == old(self).slots@.len(),
            final(self).slots@ == maintained(old(self).slots@),
    {
        let n = self.slots.len();
        let mut i: usize = 0;
        while i < n
            invariant
                n == self.slots@.len() == old(self).slots@.len(),
                i <= n,
                self.wf(),
                self.same_resources(old(self)),
                forall|j: int|
                    0 <= j < n ==> #[trigger] self.slots@[j] == if j < i && old(self).slots@[j].doomed {
                        Slot::dead()
                    } else {
                        old(self).slots@[j]
                    },
            decreases n - i,
        {
            if self.slots[i].doomed {
                self.slots.set(i, Slot { live: false, doomed: false, c: Components::empty() });
            }
            i += 1;
        }
        assert(self.slots@ =~= maintained(old(self).slots@));
    }

    /// Finds the objective (see [`objective`]).
    pub fn find_objective(&self) -> (r: Option<usize>)
        ensures
            match r {
                Some(k) => {
                    &&& objective(self.slots@) == Some(k as int)
                    &&& k < self.slots@.len()
                    &&& self.slots@[k as int].c.is_objective()
                },
                None => objective(self.slots@) is None,
            },
    {
        let n = self.slots.len();
        let mut i: usize = 0;
        while i < n
            invariant
                n == self.slots@.len(),
                i <= n,
                objective(self.slots@) == objective_from(self.slots@, i as int),
            decreases n - i,
        {
            let c = self.slots[i].c;
            let keeps = match c.keep_alive {
                Some(k) => k.get(),
                None => false,
            };
            if keeps && c.position.is_some() {
                proof {
                    lemma_objective_found(self.slots@, 0);
                }
                return Some(i);
            }
            i += 1;
        }
        None
    }

    /// Finds the player (see [`player`]).
    pub fn find_player(&self) -> (r: Option<usize>)
        ensures
            match r {
                Some(k) => {
                    &&& player(self.slots@) == Some(k as int)
                    &&& k < self.slots@.len()
                    &&& self.slots@[k as int].c.is_player()
                },
                None => player(self.slots@) is None,
            },
    {
        let n = self.slots.len();
        let mut i: usize = 0;
        while i < n
            invariant
                n == self.slots@.len(),
                i <= n,
                player(self.slots@) == player_from(self.slots@, i as int),
            decreases n - i,
        {
            let c = self.slots[i].c;
            if c.player.is_some() && c.position.is_some() {
                proof {
                    lemma_player_found(self.slots@, 0);
                }
                return Some(i);
            }
            i += 1;
        }
        None
    }

    /// The draw calls of this frame (see [`drawables_upto`]).
    pub fn drawables(&self) -> (r: Vec<(ObjectMesh, Position)>)
        ensures
            r@ == drawables_upto(self.slots@, self.slots@.len() as int),
    {
        let mut r: Vec<(ObjectMesh, Position)> = Vec::new();
        let n = self.slots.len();
        let mut i: usize = 0;
        while i < n
            invariant
                n == self.slots@.len(),
                i <= n,
                r@ == drawables_upto(self.slots@, i as int),
            decreases n - i,
        {
            let c = self.slots[i].c;
            match (c.mesh, c.position) {
                (Some(m), Some(p)) => r.push((m, p)),
                _ => {},
            }
            i += 1;
        }
        r
    }

    /// The number of bullets ready to fire (see [`ready_upto`]).
    pub fn ready_bullets(&self) -> (r: usize)
        ensures
            r == ready_upto(self.slots@, self.slots@.len() as int),
    {
        let n = self.slots.len();
        let mut count: usize = 0;
        let mut i: usize = 0;
        while i < n
            invariant
                n == self.slots@.len(),
                i <= n,
                count == ready_upto(self.slots@, i as int),
                count <= i,
            decreases n - i,
        {
            match self.slots[i].c.bullet_state {
                Some(BulletState(CurrentBulletState::Ready)) => count = count + 1,
                _ => {},
            }
            i += 1;
        }
        count
    }
}

} // verus!
