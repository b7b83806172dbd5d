//! Motion of a target along a polyline at constant speed.
//!
//! Positions are tracked as distances along the path: the host turns them
//! into screen coordinates.  Distances are in thousandths of a world unit,
//! so a speed in world units per second times a step in milliseconds is a
//! distance.

use vstd::prelude::*;

verus! {

/// The legs of a path: `legs[i]` is the length from waypoint `i - 1` (from
/// the starting point for `i == 0`) to waypoint `i`.
#[derive(Debug)]
pub struct TimingButtonPath {
    pub legs: Vec<u64>,
}

/// Where a target stands on its path: heading for waypoint
/// `path_target_index`, `to_target` away from it.
#[derive(Clone, Copy, Debug, PartialEq, Eq, Structural)]
pub struct PathDriver {
    pub path_target_index: usize,
    pub speed: u64,
    pub to_target: u64,
}

/// Total length of the legs from `i` on.
pub open spec fn legs_from(legs: Seq<u64>, i: int) -> int
    decreases legs.len() - i,
{
    if i < 0 || i >= legs.len() {
        0
    } else {
        legs[i] + legs_from(legs, i + 1)
    }
}

proof fn lemma_legs_from_nonneg(legs: Seq<u64>, i: int)
    ensures
        legs_from(legs, i) >= 0,
    decreases legs.len() - i,
{
    if 0 <= i < legs.len() {
        lemma_legs_from_nonneg(legs, i + 1);
    }
}

/// The distance still to travel before the end of the path.
pub open spec fn remaining(legs: Seq<u64>, d: PathDriver) -> int {
    if d.path_target_index < legs.len() {
        d.to_target + legs_from(legs, d.path_target_index + 1)
    } else {
        0
    }
}

/// The distance a driver covers in `dt` milliseconds, capped at `u64::MAX`.
pub open spec fn step_distance(speed: u64, dt: u64) -> int {
    if speed * dt > u64::MAX {
        u64::MAX as int
    } else {
        speed * dt
    }
}

/// `b` is driver `a` after a step of `dt` milliseconds along `legs`: the
/// distance left shrinks by the step, down to 0; a driver at the end of its
/// path stays put; a step short of the next waypoint keeps heading for it;
/// the waypoint index only grows, up to the number of legs, and reaches it
/// exactly when the step covers what was left (always when it exceeds it).
pub open spec fn moved(legs: Seq<u64>, a: PathDriver, b: PathDriver, dt: u64) -> bool {
    let d = step_distance(a.speed, dt);
    let r = remaining(legs, a);
    &&& b.speed == a.speed
    &&& remaining(legs, b) == if r > d {
        r - d
    } else {
        0
    }
    &&& a.path_target_index >= legs.len() ==> b == a
    &&& a.path_target_index < legs.len() && d < a.to_target ==> b.path_target_index == a.path_target_index
        && b.to_target == a.to_target - d
    &&& a.path_target_index <= b.path_target_index
    &&& a.path_target_index < legs.len() ==> b.path_target_index <= legs.len()
    &&& a.path_target_index < legs.len() && b.path_target_index == legs.len() ==> d >= r
    &&& a.path_target_index < legs.len() && d > r ==> b.path_target_index == legs.len()
}

impl PathDriver {
    /// A driver at the start of `path`, moving at `speed`.
    pub fn new(path: &TimingButtonPath, speed: u64) -> (r: Self)
        ensures
            r.speed == speed,
            r.path_target_index == 0,
            remaining(path.legs@, r) == legs_from(path.legs@, 0),
    {
        let to_target = if path.legs.len() > 0 { path.legs[0] } else { 0 };
        PathDriver { path_target_index: 0, speed, to_target }
    }

    /// Advances by `speed * dt` along the path, carrying what is left of the
    /// step over waypoints; stops at the end of the path.
    pub fn advance(&mut self, path: &TimingButtonPath, dt: u64)
        ensures
            moved(path.legs@, *old(self), *final(self), dt),
    {
        let ghost r0 = remaining(path.legs@, *self);
        let ghost d0 = step_distance(self.speed, dt);
        proof {
            lemma_legs_from_nonneg(path.legs@, self.path_target_index + 1);
        }
        if path.legs.len() <= self.path_target_index {
            return;
        }
        let mut distance_to_make: u64 = match self.speed.checked_mul(dt) {
            Some(d) => d,
            None => u64::MAX,
        };
        assert(distance_to_make == d0);
        while distance_to_make > 0
            invariant
                remaining(path.legs@, *self) - distance_to_make == r0 - d0,
                self.speed == old(self).speed,
                remaining(path.legs@, *self) >= 0,
                r0 == remaining(path.legs@, *old(self)),
                d0 == step_distance(old(self).speed, dt),
                old(self).path_target_index <= self.path_target_index <= path.legs@.len(),
                self.path_target_index == old(self).path_target_index ==> self.to_target == old(self).to_target
                    && distance_to_make == d0,
                self.path_target_index > old(self).path_target_index ==> d0 >= old(self).to_target,
            ensures
                distance_to_make == 0 || remaining(path.legs@, *self) == 0,
                distance_to_make == 0 || self.path_target_index >= path.legs@.len(),
                old(self).path_target_index <= self.path_target_index <= path.legs@.len(),
                self.path_target_index == old(self).path_target_index ==> self.to_target == old(self).to_target
                    && distance_to_make == d0,
                self.path_target_index > old(self).path_target_index ==> d0 >= old(self).to_target,
            decreases path.legs@.len() - self.path_target_index,
        {
            if path.legs.len() <= self.path_target_index {
                break;
            }
            proof {
                lemma_legs_from_nonneg(path.legs@, self.path_target_index + 1);
            }
            if distance_to_make < self.to_target {
                self.to_target = self.to_target - distance_to_make;
                return;
            }
            distance_to_make = distance_to_make - self.to_target;
            self.path_target_index = self.path_target_index + 1;
            self.to_target = if self.path_target_index < path.legs.len() {
                path.legs[self.path_target_index]
            } else {
                0
            };
            proof {
                lemma_legs_from_nonneg(path.legs@, self.path_target_index + 1);
            }
        }
    }
}

} // verus!
