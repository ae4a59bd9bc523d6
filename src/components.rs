//! Leaf data carried by entities. Spatial values are fixed-point integers
//! (see [`crate::geometry::PIXEL`]).

use vstd::prelude::*;

verus! {

/// Tag: the entity falls under gravity.
#[derive(Clone, Copy, Debug, PartialEq, Eq)]
pub struct HasGravity;

/// Tag: the entity is the arena floor.
#[derive(Clone, Copy, Debug, PartialEq, Eq)]
pub struct Floor;

/// Tag: the entity is an airborne enemy homing on the objective.
#[derive(Clone, Copy, Debug, PartialEq, Eq)]
pub struct Flyer;

/// Tag: the entity belongs to the bullet pool.
#[derive(Clone, Copy, Debug, PartialEq, Eq)]
pub struct Bullet;

/// Tag: the entity is controlled by the player.
#[derive(Clone, Copy, Debug, PartialEq, Eq)]
pub struct Player;

#[derive(Clone, Copy, Debug, PartialEq, Eq)]
pub struct Position {
    pub x: i64,
    pub y: i64,
}

#[derive(Clone, Copy, Debug, PartialEq, Eq)]
pub struct Velocity {
    pub x: i64,
    pub y: i64,
}

/// Per-frame force accumulator, drained by kinematics integration.
#[derive(Clone, Copy, Debug, PartialEq, Eq)]
pub struct Acceleration {
    pub x: i64,
    pub y: i64,
}

#[derive(Clone, Copy, Debug, PartialEq, Eq)]
pub struct Height(pub i64);

impl Height {
    pub fn new(height: i64) -> (r: Height)
        ensures
            r.0 == height,
    {
        Height(height)
    }

    pub fn get(&self) -> (r: i64)
        ensures
            r == self.0,
    {
        self.0
    }
}

#[derive(Clone, Copy, Debug, PartialEq, Eq)]
pub struct Width(pub i64);

impl Width {
    pub fn new(width: i64) -> (r: Width)
        ensures
            r.0 == width,
    {
        Width(width)
    }

    pub fn get(&self) -> (r: i64)
        ensures
            r == self.0,
    {
        self.0
    }
}

#[derive(Clone, Copy, Debug, PartialEq, Eq)]
pub struct Radius(pub i64);

impl Radius {
    pub fn new(radius: i64) -> (r: Radius)
        ensures
            r.0 == radius,
    {
        Radius(radius)
    }

    pub fn get(&self) -> (r: i64)
        ensures
            r == self.0,
    {
        self.0
    }
}

#[derive(Clone, Copy, Debug, PartialEq, Eq)]
pub struct Drag(pub i64);

impl Drag {
    pub fn new(drag: i64) -> (r: Drag)
        ensures
            r.0 == drag,
    {
        Drag(drag)
    }

    pub fn get(&self) -> (r: i64)
        ensures
            r == self.0,
    {
        self.0
    }
}

/// Whether the entity rests on the arena floor; recomputed every frame.
#[derive(Clone, Copy, Debug, PartialEq, Eq)]
pub struct OnGround(pub bool);

impl OnGround {
    pub fn new() -> (r: OnGround)
        ensures
            !r.0,
    {
        OnGround(false)
    }

    pub fn get(&self) -> (r: bool)
        ensures
            r == self.0,
    {
        self.0
    }

    pub fn set(&mut self, new_value: bool)
        ensures
            final(self).0 == new_value,
    {
        self.0 = new_value;
    }
}

/// Marks the protected objective; starts true and is only ever cleared.
#[derive(Clone, Copy, Debug, PartialEq, Eq)]
pub struct KeepAlive(pub bool);

impl KeepAlive {
    pub fn new() -> (r: KeepAlive)
        ensures
            r.0,
    {
        KeepAlive(true)
    }

    pub fn get(&self) -> (r: bool)
        ensures
            r == self.0,
    {
        self.0
    }

    pub fn die(&mut self)
        ensures
            !final(self).0,
    {
        self.0 = false;
    }
}

/// The lifecycle of a pooled bullet.
#[derive(Clone, Copy, Debug, PartialEq, Eq)]
pub enum CurrentBulletState {
    Ready,
    Firing,
    Hit,
}

#[derive(Clone, Copy, Debug, PartialEq, Eq)]
pub struct BulletState(pub CurrentBulletState);

impl BulletState {
    pub fn new() -> (r: BulletState)
        ensures
            r.0 == CurrentBulletState::Ready,
    {
        BulletState(CurrentBulletState::Ready)
    }

    pub fn get(&self) -> (r: CurrentBulletState)
        ensures
            r == self.0,
    {
        self.0
    }

    pub fn fire(&mut self)
        ensures
            final(self).0 == CurrentBulletState::Firing,
    {
        self.0 = CurrentBulletState::Firing;
    }

    pub fn hit(&mut self)
        ensures
            final(self).0 == CurrentBulletState::Hit,
    {
        self.0 = CurrentBulletState::Hit;
    }

    pub fn ready(&mut self)
        ensures
            final(self).0 == CurrentBulletState::Ready,
    {
        self.0 = CurrentBulletState::Ready;
    }
}

/// Which picture the rendering collaborator draws for an entity.
#[derive(Clone, Copy, Debug, PartialEq, Eq)]
pub enum ObjectMesh {
    Egg,
    Person,
    Floor,
    Bird,
    Bullet,
}

} // verus!
