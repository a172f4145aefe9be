//! Gravity, grounding, arrow lifetimes and movement along the lane.

use vstd::prelude::*;
use crate::arena::{Arena, arrows_wf, lists_exactly, units_wf};
use crate::ballistics::GRAVITY;
use crate::measure::{MAX_ARROW_SPEED, MAX_COORD, MAX_TICK, clamp, clamped, displace, displacement};
use crate::unit::{Arrow, GROUND_DEPTH, Unit};

verus! {

/// An arrow after `dt` ms of gravity, then the ground check: an airborne
/// arrow loses `g·dt` of vertical speed; one at or below the ground depth is
/// pinned there, stopped and grounded.
pub open spec fn flown(s: Option<Arrow>, dt: int) -> Option<Arrow> {
    match s {
        Some(a) => if a.grounded {
            s
        } else {
            let vy = clamped(a.vy - GRAVITY * dt / 1000, MAX_ARROW_SPEED as int);
            if a.y <= GROUND_DEPTH {
                Some(Arrow { y: GROUND_DEPTH, vx: 0, vy: 0, grounded: true, ..a })
            } else {
                Some(Arrow { vy: vy as i64, ..a })
            }
        },
        None => None,
    }
}

/// The arrow in `s` touches the ground on this check.
pub open spec fn lands(s: Option<Arrow>) -> bool {
    s is Some && !s->0.grounded && s->0.y <= GROUND_DEPTH
}

/// An arrow after its lifetime ran `dt` more ms: despawned once it is over.
pub open spec fn aged(s: Option<Arrow>, dt: int) -> Option<Arrow> {
    match s {
        Some(a) => if a.lifetime.spec_ticked(dt).spec_finished() {
            None
        } else {
            Some(Arrow { lifetime: a.lifetime.spec_ticked(dt), ..a })
        },
        None => None,
    }
}

pub open spec fn expires(s: Option<Arrow>, dt: int) -> bool {
    s is Some && s->0.lifetime.spec_ticked(dt).spec_finished()
}

/// A body after walking for `dt` ms at its velocity, kept on the lane.
pub open spec fn walked(s: Option<Unit>, dt: int) -> Option<Unit> {
    match s {
        Some(u) => Some(
            Unit {
                x: clamped(u.x + displacement(u.spec_velocity_x(), dt), MAX_COORD as int) as i64,
                ..u
            },
        ),
        None => None,
    }
}

/// An arrow after `dt` ms of flight at its velocity; a grounded one stays put.
pub open spec fn drifted(s: Option<Arrow>, dt: int) -> Option<Arrow> {
    match s {
        Some(a) => if a.grounded {
            s
        } else {
            Some(
                Arrow {
                    x: clamped(a.x + displacement(a.vx as int, dt), MAX_COORD as int) as i64,
                    y: clamped(a.y + displacement(a.vy as int, dt), MAX_COORD as int) as i64,
                    ..a
                },
            )
        },
        None => None,
    }
}

impl Arena {
    /// Gravity and the ground check for every arrow over `dt` ms; returns, in
    /// slot order, the arrows that touched the ground on this check.
    pub fn fly_arrows(&mut self, dt: u64) -> (landed: Vec<usize>)
        requires
            old(self).wf(),
            dt <= MAX_TICK,
        ensures
            final(self).wf(),
            final(self).arrows@ == old(self).arrows@.map_values(|s: Option<Arrow>| flown(s, dt as int)),
            lists_exactly(landed@, old(self).arrows@, |s: Option<Arrow>| lands(s)),
            final(self).units@ == old(self).units@,
            final(self).frontlines == old(self).frontlines,
    {
        let ghost before = self.arrows@;
        let n = self.arrows.len();
        let fall = GRAVITY * (dt as i64) / 1000;
        let mut landed: Vec<usize> = Vec::new();
        let mut i: usize = 0;
        while i < n
            invariant
                i <= n,
                n == before.len(),
                fall == GRAVITY * dt / 1000,
                dt <= MAX_TICK,
                self.arrows@.len() == n,
                units_wf(self.units@),
                arrows_wf(self.arrows@),
                arrows_wf(before),
                before == old(self).arrows@,
                self.units@ == old(self).units@,
                self.frontlines == old(self).frontlines,
                forall|j: int| 0 <= j < i ==> self.arrows@[j] == flown(before[j], dt as int),
                forall|j: int| i <= j < n ==> self.arrows@[j] == before[j],
                forall|k: int| 0 <= k < landed@.len() ==> landed@[k] < i && lands(before[landed@[k] as int]),
                forall|k1: int, k2: int| 0 <= k1 < k2 < landed@.len() ==> landed@[k1] < landed@[k2],
                forall|j: int| 0 <= j < i && lands(before[j]) ==> landed@.contains(j as usize),
            decreases n - i,
        {
            let ghost prev = landed@;
            assert(self.arrows@[i as int] == before[i as int]);
            match self.arrows[i] {
                Some(a) => {
                    if !a.grounded {
                        if a.y <= GROUND_DEPTH {
                            self.arrows.set(i, Some(Arrow { y: GROUND_DEPTH, vx: 0, vy: 0, grounded: true, ..a }));
                            landed.push(i);
                            assert(landed@[landed@.len() - 1] == i);
                        } else {
                            let vy = clamp(a.vy - fall, MAX_ARROW_SPEED);
                            self.arrows.set(i, Some(Arrow { vy, ..a }));
                        }
                    }
                },
                None => {},
            }
            proof {
                assert forall|j: int| 0 <= j < i + 1 && lands(before[j]) implies landed@.contains(j as usize) by {
                    if j == i {
                        assert(landed@[landed@.len() - 1] == i);
                    } else {
                        let k = choose|k: int| 0 <= k < prev.len() && prev[k] == j as usize;
                        assert(landed@[k] == j as usize);
                    }
                }
            }
            i = i + 1;
        }
        assert(self.arrows@ =~= before.map_values(|s: Option<Arrow>| flown(s, dt as int)));
        landed
    }

    /// Runs every arrow's lifetime for `dt` ms and despawns those whose
    /// lifetime is over; returns their slots in order.
    pub fn age_arrows(&mut self, dt: u64) -> (expired: Vec<usize>)
        requires
            old(self).wf(),
        ensures
            final(self).wf(),
            final(self).arrows@ == old(self).arrows@.map_values(|s: Option<Arrow>| aged(s, dt as int)),
            lists_exactly(expired@, old(self).arrows@, |s: Option<Arrow>| expires(s, dt as int)),
            final(self).units@ == old(self).units@,
            final(self).frontlines == old(self).frontlines,
    {
        let ghost before = self.arrows@;
        let n = self.arrows.len();
        let mut expired: Vec<usize> = Vec::new();
        let mut i: usize = 0;
        while i < n
            invariant
                i <= n,
                n == before.len(),
                self.arrows@.len() == n,
                units_wf(self.units@),
                arrows_wf(self.arrows@),
                arrows_wf(before),
                before == old(self).arrows@,
                self.units@ == old(self).units@,
                self.frontlines == old(self).frontlines,
                forall|j: int| 0 <= j < i ==> self.arrows@[j] == aged(before[j], dt as int),
                forall|j: int| i <= j < n ==> self.arrows@[j] == before[j],
                forall|k: int|
                    0 <= k < expired@.len() ==> expired@[k] < i && expires(before[expired@[k] as int], dt as int),
                forall|k1: int, k2: int| 0 <= k1 < k2 < expired@.len() ==> expired@[k1] < expired@[k2],
                forall|j: int| 0 <= j < i && expires(before[j], dt as int) ==> expired@.contains(j as usize),
            decreases n - i,
        {
            let ghost prev = expired@;
            assert(self.arrows@[i as int] == before[i as int]);
            match self.arrows[i] {
                Some(a) => {
                    let mut life = a.lifetime;
                    life.tick(dt);
                    if life.finished() {
                        self.arrows.set(i, None);
                        expired.push(i);
                        assert(expired@[expired@.len() - 1] == i);
                    } else {
                        self.arrows.set(i, Some(Arrow { lifetime: life, ..a }));
                    }
                },
                None => {},
            }
            proof {
                assert forall|j: int| 0 <= j < i + 1 && expires(before[j], dt as int) implies expired@.contains(j as usize) by {
                    if j == i {
                        assert(expired@[expired@.len() - 1] == i);
                    } else {
                        let k = choose|k: int| 0 <= k < prev.len() && prev[k] == j as usize;
                        assert(expired@[k] == j as usize);
                    }
                }
            }
            i = i + 1;
        }
        assert(self.arrows@ =~= before.map_values(|s: Option<Arrow>| aged(s, dt as int)));
        expired
    }

    /// Moves every body for `dt` ms: soldiers walk while advancing, airborne
    /// arrows fly; positions stay on the lane.
    pub fn move_bodies(&mut self, dt: u64)
        requires
            old(self).wf(),
            dt <= MAX_TICK,
        ensures
            final(self).wf(),
            final(self).units@ == old(self).units@.map_values(|s: Option<Unit>| walked(s, dt as int)),
            final(self).arrows@ == old(self).arrows@.map_values(|s: Option<Arrow>| drifted(s, dt as int)),
            final(self).frontlines == old(self).frontlines,
    {
        let ghost units0 = self.units@;
        let ghost arrows0 = self.arrows@;
        let n = self.units.len();
        let mut i: usize = 0;
        while i < n
            invariant
                i <= n,
                n == units0.len(),
                dt <= MAX_TICK,
                self.units@.len() == n,
                units_wf(self.units@),
                arrows_wf(self.arrows@),
                units_wf(units0),
                units0 == old(self).units@,
                self.arrows@ == arrows0,
                arrows0 == old(self).arrows@,
                self.frontlines == old(self).frontlines,
                forall|j: int| 0 <= j < i ==> self.units@[j] == walked(units0[j], dt as int),
                forall|j: int| i <= j < n ==> self.units@[j] == units0[j],
            decreases n - i,
        {
            assert(self.units@[i as int] == units0[i as int]);
            match self.units[i] {
                Some(u) => {
                    let d = displace(u.velocity_x(), dt);
                    let x = clamp(u.x + d, MAX_COORD);
                    self.units.set(i, Some(Unit { x, ..u }));
                },
                None => {},
            }
            i = i + 1;
        }
        assert(self.units@ =~= units0.map_values(|s: Option<Unit>| walked(s, dt as int)));
        let m = self.arrows.len();
        let mut i: usize = 0;
        while i < m
            invariant
                i <= m,
                m == arrows0.len(),
                dt <= MAX_TICK,
                self.arrows@.len() == m,
                units_wf(self.units@),
                arrows_wf(self.arrows@),
                arrows_wf(arrows0),
                self.units@ == units0.map_values(|s: Option<Unit>| walked(s, dt as int)),
                units0 == old(self).units@,
                arrows0 == old(self).arrows@,
                self.frontlines == old(self).frontlines,
                forall|j: int| 0 <= j < i ==> self.arrows@[j] == drifted(arrows0[j], dt as int),
                forall|j: int| i <= j < m ==> self.arrows@[j] == arrows0[j],
            decreases m - i,
        {
            assert(self.arrows@[i as int] == arrows0[i as int]);
            match self.arrows[i] {
                Some(a) => {
                    if !a.grounded {
                        let x = clamp(a.x + displace(a.vx, dt), MAX_COORD);
                        let y = clamp(a.y + displace(a.vy, dt), MAX_COORD);
                        self.arrows.set(i, Some(Arrow { x, y, ..a }));
                    }
                },
                None => {},
            }
            i = i + 1;
        }
        assert(self.arrows@ =~= arrows0.map_values(|s: Option<Arrow>| drifted(s, dt as int)));
    }
}

} // verus!
