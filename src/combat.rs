//! Damage from swords and arrows, and the end-of-tick death sweep.

use vstd::prelude::*;
use crate::arena::{Arena, arrow_slot, arrows_wf, lists_exactly, slot, units_wf};
use crate::health::{Health, damaged};
use crate::kingdom::Kingdom;
use crate::unit::{Arrow, Role, Sword, Unit, Weapon};

verus! {

/// Units after the body in slot `a` swings at the body in slot `b`: a sword
/// of one kingdom deals its damage to a body of the other.
pub open spec fn struck(units: Seq<Option<Unit>>, a: int, b: int) -> Seq<Option<Unit>> {
    match (slot(units, a), slot(units, b)) {
        (Some(ua), Some(ub)) => match ua.role {
            Role::Soldier(Weapon::Sword(sw)) => if ua.kingdom != ub.kingdom {
                units.update(
                    b,
                    Some(
                        Unit {
                            health: Health {
                                current: damaged(ub.health.current as int, sw.damage as int) as u32,
                            },
                            ..ub
                        },
                    ),
                )
            } else {
                units
            },
            _ => units,
        },
        _ => units,
    }
}

/// Units after the first `n` overlapping pairs are resolved in order, each
/// body of a pair swinging at the other.
pub open spec fn melee_outcome(units: Seq<Option<Unit>>, overlaps: Seq<(usize, usize)>, n: nat) -> Seq<
    Option<Unit>,
>
    decreases n,
{
    if n == 0 {
        units
    } else {
        let us = melee_outcome(units, overlaps, (n - 1) as nat);
        let (a, b) = overlaps[n - 1];
        struck(struck(us, a as int, b as int), b as int, a as int)
    }
}

/// Units and arrows after arrow `a` is checked against the body in slot `u`:
/// an airborne arrow hits a living body of the other kingdom, deals its
/// damage and is despawned.
pub open spec fn hit_outcome(
    units: Seq<Option<Unit>>,
    arrows: Seq<Option<Arrow>>,
    a: int,
    u: int,
) -> (Seq<Option<Unit>>, Seq<Option<Arrow>>) {
    if hit_lands(units, arrows, a, u) {
        let un = units[u]->0;
        (
            units.update(
                u,
                Some(
                    Unit {
                        health: Health {
                            current: damaged(un.health.current as int, arrows[a]->0.damage as int) as u32,
                        },
                        ..un
                    },
                ),
            ),
            arrows.update(a, None),
        )
    } else {
        (units, arrows)
    }
}

/// Arrow `a` is airborne and meets a living body of the other kingdom in slot `u`.
pub open spec fn hit_lands(units: Seq<Option<Unit>>, arrows: Seq<Option<Arrow>>, a: int, u: int) -> bool {
    match (arrow_slot(arrows, a), slot(units, u)) {
        (Some(ar), Some(un)) => !ar.grounded && !un.health.spec_is_dead() && ar.kingdom != un.kingdom,
        _ => false,
    }
}

/// The intersections among the first `n` that land a hit, in order.
pub open spec fn landed_hits(
    units: Seq<Option<Unit>>,
    arrows: Seq<Option<Arrow>>,
    hits: Seq<(usize, usize)>,
    n: nat,
) -> Seq<(usize, usize)>
    decreases n,
{
    if n == 0 {
        Seq::empty()
    } else {
        let earlier = landed_hits(units, arrows, hits, (n - 1) as nat);
        let (us, ars) = hits_outcome(units, arrows, hits, (n - 1) as nat);
        if hit_lands(us, ars, hits[n - 1].0 as int, hits[n - 1].1 as int) {
            earlier.push(hits[n - 1])
        } else {
            earlier
        }
    }
}

/// Units and arrows after the first `n` arrow–body intersections are checked
/// in order. An arrow leaves at its first hit, so it hits at most once.
pub open spec fn hits_outcome(
    units: Seq<Option<Unit>>,
    arrows: Seq<Option<Arrow>>,
    hits: Seq<(usize, usize)>,
    n: nat,
) -> (Seq<Option<Unit>>, Seq<Option<Arrow>>)
    decreases n,
{
    if n == 0 {
        (units, arrows)
    } else {
        let (us, ars) = hits_outcome(units, arrows, hits, (n - 1) as nat);
        hit_outcome(us, ars, hits[n - 1].0 as int, hits[n - 1].1 as int)
    }
}

/// A slot after the death sweep: a body with no health left is despawned.
pub open spec fn swept(s: Option<Unit>) -> Option<Unit> {
    match s {
        Some(u) => if u.health.spec_is_dead() {
            None
        } else {
            s
        },
        None => None,
    }
}

pub open spec fn is_dead_body(s: Option<Unit>) -> bool {
    s is Some && s->0.health.spec_is_dead()
}

/// One body despawned by the death sweep.
#[derive(Clone, Copy, Debug, PartialEq, Eq, Structural)]
pub struct Death {
    pub slot: usize,
    pub kingdom: Kingdom,
    /// The body was a base: its kingdom has lost the match.
    pub nexus: bool,
}

/// `d` describes the dead body in its slot of `units`.
pub open spec fn death_of(d: Death, units: Seq<Option<Unit>>) -> bool {
    &&& (d.slot as int) < units.len()
    &&& is_dead_body(units[d.slot as int])
    &&& d.kingdom == units[d.slot as int]->0.kingdom
    &&& d.nexus == (units[d.slot as int]->0.role is Nexus)
}

/// `deaths` reports, in slot order, each body of `units` that the sweep removes.
pub open spec fn reports_deaths(deaths: Seq<Death>, units: Seq<Option<Unit>>) -> bool {
    &&& lists_exactly(deaths.map_values(|d: Death| d.slot), units, |s: Option<Unit>| is_dead_body(s))
    &&& forall|k: int| 0 <= k < deaths.len() ==> death_of(#[trigger] deaths[k], units)
}

/// The match-end signal carried by a death report: the kingdom of the first
/// fallen base, if any base fell.
pub fn fallen_kingdom(deaths: &Vec<Death>) -> (r: Option<Kingdom>)
    ensures
        r is None <==> forall|k: int| 0 <= k < deaths@.len() ==> !(#[trigger] deaths@[k]).nexus,
        r is Some ==> exists|k: int|
            0 <= k < deaths@.len() && (#[trigger] deaths@[k]).nexus && deaths@[k].kingdom == r->0
                && forall|j: int| 0 <= j < k ==> !deaths@[j].nexus,
{
    let mut k: usize = 0;
    while k < deaths.len()
        invariant
            k <= deaths.len(),
            forall|j: int| 0 <= j < k ==> !deaths@[j].nexus,
        decreases deaths.len() - k,
    {
        if deaths[k].nexus {
            return Some(deaths[k].kingdom);
        }
        k = k + 1;
    }
    None
}

/// Idempotent death sweep: sweeping twice leaves the same slots as sweeping
/// once, and the second sweep reports no death.
pub proof fn lemma_sweep_idempotent(units: Seq<Option<Unit>>, again: Seq<Death>)
    requires
        reports_deaths(again, units.map_values(|s: Option<Unit>| swept(s))),
    ensures
        units.map_values(|s: Option<Unit>| swept(s)).map_values(|s: Option<Unit>| swept(s))
            == units.map_values(|s: Option<Unit>| swept(s)),
        again.len() == 0,
{
    let once = units.map_values(|s: Option<Unit>| swept(s));
    assert(once.map_values(|s: Option<Unit>| swept(s)) =~= once);
    if again.len() > 0 {
        let slots = again.map_values(|d: Death| d.slot);
        assert(is_dead_body(once[slots[0] as int]));
    }
}

/// Each dead body is reported by the sweep exactly once, however many blows
/// brought it down in the tick; a body reported dead is gone afterwards, so
/// no later sweep reports it again.
pub proof fn lemma_death_reported_once(units: Seq<Option<Unit>>, deaths: Seq<Death>, i: usize)
    requires
        reports_deaths(deaths, units),
        (i as int) < units.len(),
        is_dead_body(units[i as int]),
    ensures
        exists|k: int| 0 <= k < deaths.len() && (#[trigger] deaths[k]).slot == i,
        forall|k1: int, k2: int|
            0 <= k1 < deaths.len() && 0 <= k2 < deaths.len() && deaths[k1].slot == i && deaths[k2].slot == i
                ==> k1 == k2,
        units.map_values(|s: Option<Unit>| swept(s))[i as int] is None,
{
    let slots = deaths.map_values(|d: Death| d.slot);
    assert(slots.contains(i));
    let k = choose|k: int| 0 <= k < slots.len() && slots[k] == i;
    assert(deaths[k].slot == i);
    assert forall|k1: int, k2: int|
        0 <= k1 < deaths.len() && 0 <= k2 < deaths.len() && deaths[k1].slot == i && deaths[k2].slot == i
            implies k1 == k2 by {
        if k1 < k2 {
            assert(slots[k1] < slots[k2]);
        } else if k2 < k1 {
            assert(slots[k2] < slots[k1]);
        }
    }
}

impl Arena {
    /// Melee resolution: for each overlapping pair, in order, each body that
    /// holds a sword deals its damage to the other if it belongs to the
    /// other kingdom. Pairs that name an empty slot are ignored.
    pub fn resolve_melee(&mut self, overlaps: &Vec<(usize, usize)>)
        requires
            old(self).wf(),
        ensures
            final(self).wf(),
            final(self).units@ == melee_outcome(old(self).units@, overlaps@, overlaps.len() as nat),
            final(self).arrows@ == old(self).arrows@,
            final(self).frontlines == old(self).frontlines,
    {
        let mut k: usize = 0;
        while k < overlaps.len()
            invariant
                k <= overlaps.len(),
                self.wf(),
                self.units@ == melee_outcome(old(self).units@, overlaps@, k as nat),
                self.arrows@ == old(self).arrows@,
                self.frontlines == old(self).frontlines,
            decreases overlaps.len() - k,
        {
            let (a, b) = overlaps[k];
            self.strike(a, b);
            self.strike(b, a);
            k = k + 1;
        }
    }

    /// The body in slot `a` swings at the body in slot `b`.
    fn strike(&mut self, a: usize, b: usize)
        requires
            old(self).wf(),
        ensures
            final(self).wf(),
            final(self).units@ == struck(old(self).units@, a as int, b as int),
            final(self).arrows@ == old(self).arrows@,
            final(self).frontlines == old(self).frontlines,
    {
        if a >= self.units.len() || b >= self.units.len() {
            return;
        }
        let (ua, ub) = match (self.units[a], self.units[b]) {
            (Some(ua), Some(ub)) => (ua, ub),
            _ => {
                return;
            },
        };
        match ua.role {
            Role::Soldier(Weapon::Sword(sw)) => {
                if ua.kingdom != ub.kingdom {
                    let mut h = ub.health;
                    h.damage(sw.damage);
                    self.units.set(b, Some(Unit { health: h, ..ub }));
                }
            },
            _ => {},
        }
    }

    /// Arrow collisions: each intersection `(arrow, body)` is checked in
    /// order; an airborne arrow hits a living body of the other kingdom,
    /// deals its damage and is despawned, so later intersections of the same
    /// arrow are ignored.
    /// Returns the intersections that landed a hit, in order.
    pub fn resolve_hits(&mut self, hits: &Vec<(usize, usize)>) -> (landed: Vec<(usize, usize)>)
        requires
            old(self).wf(),
        ensures
            final(self).wf(),
            landed@ == landed_hits(old(self).units@, old(self).arrows@, hits@, hits.len() as nat),
            (final(self).units@, final(self).arrows@) == hits_outcome(
                old(self).units@,
                old(self).arrows@,
                hits@,
                hits.len() as nat,
            ),
            final(self).frontlines == old(self).frontlines,
    {
        let mut landed: Vec<(usize, usize)> = Vec::new();
        let mut k: usize = 0;
        while k < hits.len()
            invariant
                k <= hits.len(),
                self.wf(),
                landed@ == landed_hits(old(self).units@, old(self).arrows@, hits@, k as nat),
                (self.units@, self.arrows@) == hits_outcome(
                    old(self).units@,
                    old(self).arrows@,
                    hits@,
                    k as nat,
                ),
                self.frontlines == old(self).frontlines,
            decreases hits.len() - k,
        {
            let (a, u) = hits[k];
            if self.hit(a, u) {
                landed.push((a, u));
            }
            k = k + 1;
        }
        landed
    }

    /// Arrow `a` is checked against the body in slot `u`.
    fn hit(&mut self, a: usize, u: usize) -> (landed: bool)
        requires
            old(self).wf(),
        ensures
            final(self).wf(),
            landed == hit_lands(old(self).units@, old(self).arrows@, a as int, u as int),
            (final(self).units@, final(self).arrows@) == hit_outcome(
                old(self).units@,
                old(self).arrows@,
                a as int,
                u as int,
            ),
            final(self).frontlines == old(self).frontlines,
    {
        if a >= self.arrows.len() || u >= self.units.len() {
            return false;
        }
        let (ar, un) = match (self.arrows[a], self.units[u]) {
            (Some(ar), Some(un)) => (ar, un),
            _ => {
                return false;
            },
        };
        if !ar.grounded && !un.health.is_dead() && ar.kingdom != un.kingdom {
            let mut h = un.health;
            h.damage(ar.damage);
            self.units.set(u, Some(Unit { health: h, ..un }));
            self.arrows.set(a, None);
            true
        } else {
            false
        }
    }

    /// The death sweep: despawns every body with no health left and reports
    /// each one once, in slot order.
    pub fn despawn_dead_subjects(&mut self) -> (deaths: Vec<Death>)
        requires
            old(self).wf(),
        ensures
            final(self).wf(),
            final(self).units@ == old(self).units@.map_values(|s: Option<Unit>| swept(s)),
            reports_deaths(deaths@, old(self).units@),
            final(self).arrows@ == old(self).arrows@,
            final(self).frontlines == old(self).frontlines,
    {
        let ghost before = self.units@;
        let n = self.units.len();
        let mut deaths: Vec<Death> = Vec::new();
        let mut i: usize = 0;
        while i < n
            invariant
                i <= n,
                n == before.len(),
                self.units@.len() == n,
                units_wf(self.units@),
                arrows_wf(self.arrows@),
                units_wf(before),
                before == old(self).units@,
                self.arrows@ == old(self).arrows@,
                self.frontlines == old(self).frontlines,
                forall|j: int| 0 <= j < i ==> self.units@[j] == swept(before[j]),
                forall|j: int| i <= j < n ==> self.units@[j] == before[j],
                forall|k: int| 0 <= k < deaths@.len() ==> (#[trigger] deaths@[k]).slot < i,
                forall|k: int| 0 <= k < deaths@.len() ==> death_of(#[trigger] deaths@[k], before),
                forall|k1: int, k2: int| 0 <= k1 < k2 < deaths@.len() ==> deaths@[k1].slot < deaths@[k2].slot,
                forall|j: int|
                    0 <= j < i && is_dead_body(before[j]) ==> exists|k: int|
                        0 <= k < deaths@.len() && (#[trigger] deaths@[k]).slot == j as usize,
            decreases n - i,
        {
            let ghost prev = deaths@;
            assert(self.units@[i as int] == before[i as int]);
            match self.units[i] {
                Some(u) => {
                    if u.health.is_dead() {
                        let nexus = match u.role {
                            Role::Nexus => true,
                            Role::Soldier(_) => false,
                        };
                        deaths.push(Death { slot: i, kingdom: u.kingdom, nexus });
                        self.units.set(i, None);
                        assert(death_of(deaths@[deaths@.len() - 1], before));
                    }
                },
                None => {},
            }
            proof {
                assert forall|j: int| 0 <= j < i + 1 && is_dead_body(before[j]) implies exists|k: int|
                    0 <= k < deaths@.len() && (#[trigger] deaths@[k]).slot == j as usize by {
                    if j == i {
                        assert(deaths@[deaths@.len() - 1].slot == j as usize);
                    } else {
                        let k = choose|k: int| 0 <= k < prev.len() && (#[trigger] prev[k]).slot == j as usize;
                        assert(deaths@[k] == prev[k]);
                    }
                }
            }
            i = i + 1;
        }
        proof {
            let slots = deaths@.map_values(|d: Death| d.slot);
            assert forall|j: int| 0 <= j < before.len() && is_dead_body(before[j]) implies slots.contains(j as usize) by {
                let k = choose|k: int| 0 <= k < deaths@.len() && (#[trigger] deaths@[k]).slot == j as usize;
                assert(slots[k] == j as usize);
            }
        }
        assert(self.units@ =~= before.map_values(|s: Option<Unit>| swept(s)));
        deaths
    }
}

} // verus!
