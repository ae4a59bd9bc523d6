//! Round-wide simulation state shared by the systems.

use vstd::prelude::*;

verus! {

/// True until a non-objective entity reaches the objective.
#[derive(Clone, Copy, Debug, PartialEq, Eq)]
pub struct StillAlive(pub bool);

impl StillAlive {
    pub fn new() -> (r: StillAlive)
        ensures
            r.0,
    {
        StillAlive(true)
    }

    pub fn get(&self) -> (r: bool)
        ensures
            r == self.0,
    {
        self.0
    }

    pub fn set(&mut self, new_value: bool)
        ensures
            final(self).0 == new_value,
    {
        self.0 = new_value;
    }
}

/// Shared bullet radius, used for drawing and as the hit-test radius.
#[derive(Clone, Copy, Debug, PartialEq, Eq)]
pub struct BulletSize(pub i64);

impl BulletSize {
    pub fn new(size: i64) -> (r: BulletSize)
        ensures
            r.0 == size,
    {
        BulletSize(size)
    }

    pub fn get(&self) -> (r: i64)
        ensures
            r == self.0,
    {
        self.0
    }
}

/// Absolute time in milliseconds from which the next shot is allowed.
#[derive(Clone, Copy, Debug, PartialEq, Eq)]
pub struct DelayFiringUntilAfter(pub u128);

impl DelayFiringUntilAfter {
    pub fn new() -> (r: DelayFiringUntilAfter)
        ensures
            r.0 == 0,
    {
        DelayFiringUntilAfter(0)
    }

    pub fn get(&self) -> (r: u128)
        ensures
            r == self.0,
    {
        self.0
    }

    pub fn set(&mut self, new_time: u128)
        ensures
            final(self).0 == new_time,
    {
        self.0 = new_time;
    }
}

/// The round's score; it only grows, saturating at the largest `usize`.
#[derive(Clone, Copy, Debug, PartialEq, Eq)]
pub struct Score(pub usize);

/// `score` raised by `amount`, saturating at the largest `usize`.
pub open spec fn raised(score: usize, amount: usize) -> usize {
    if score + amount > usize::MAX {
        usize::MAX
    } else {
        (score + amount) as usize
    }
}

impl Score {
    pub fn new() -> (r: Score)
        ensures
            r.0 == 0,
    {
        Score(0)
    }

    pub fn get(&self) -> (r: usize)
        ensures
            r == self.0,
    {
        self.0
    }

    pub fn increase(&mut self, amount: usize)
        ensures
            final(self).0 == raised(old(self).0, amount),
            final(self).0 >= old(self).0,
    {
        self.0 = self.0.saturating_add(amount);
    }
}

} // verus!
