//! The arena that owns every body on the lane, and the first steps of a
//! tick: frontline refresh, bow recharge and state transitions.

use vstd::prelude::*;
use crate::behavior::{enemy_in_range, next_state, ready, shoots, transition};
use crate::frontline::{Frontlines, update_frontlines};
use crate::unit::{Arrow, Bow, Role, Unit, Weapon};

verus! {

/// Every body on the lane, each in a slot of its own. A slot is emptied when
/// its body is despawned and is never reused, so an index names one body for
/// the whole match.
pub struct Arena {
    pub units: Vec<Option<Unit>>,
    pub arrows: Vec<Option<Arrow>>,
    pub frontlines: Frontlines,
}

pub open spec fn units_wf(units: Seq<Option<Unit>>) -> bool {
    forall|i: int| 0 <= i < units.len() && (#[trigger] units[i]) is Some ==> units[i]->0.wf()
}

pub open spec fn arrows_wf(arrows: Seq<Option<Arrow>>) -> bool {
    forall|i: int| 0 <= i < arrows.len() && (#[trigger] arrows[i]) is Some ==> arrows[i]->0.wf()
}

/// `r` lists, in increasing order, exactly the slots of `units` for which `p` holds.
pub open spec fn lists_exactly<T>(r: Seq<usize>, units: Seq<T>, p: spec_fn(T) -> bool) -> bool {
    &&& forall|k: int| 0 <= k < r.len() ==> (r[k] as int) < units.len() && p(units[r[k] as int])
    &&& forall|k1: int, k2: int| 0 <= k1 < k2 < r.len() ==> r[k1] < r[k2]
    &&& forall|i: int| 0 <= i < units.len() && p(units[i]) ==> r.contains(i as usize)
}

/// The content of slot `i`; nothing outside the arena.
pub open spec fn slot(units: Seq<Option<Unit>>, i: int) -> Option<Unit> {
    if 0 <= i < units.len() {
        units[i]
    } else {
        None
    }
}

/// The content of arrow slot `i`; nothing outside the arena.
pub open spec fn arrow_slot(arrows: Seq<Option<Arrow>>, i: int) -> Option<Arrow> {
    if 0 <= i < arrows.len() {
        arrows[i]
    } else {
        None
    }
}

/// A unit after its bow's cooldown ran for `dt` more ms.
pub open spec fn recharged(slot: Option<Unit>, dt: int) -> Option<Unit> {
    match slot {
        Some(u) => match u.role {
            Role::Soldier(Weapon::Bow(b)) => Some(
                Unit {
                    role: Role::Soldier(Weapon::Bow(Bow { timer: b.timer.spec_ticked(dt), ..b })),
                    ..u
                },
            ),
            _ => slot,
        },
        None => None,
    }
}

/// A unit after its state transition against `frontlines`.
pub open spec fn transitioned(slot: Option<Unit>, frontlines: Frontlines) -> Option<Unit> {
    match slot {
        Some(u) => Some(
            Unit {
                state: next_state(u.role, u.state, enemy_in_range(u, frontlines), ready(u)),
                ..u
            },
        ),
        None => None,
    }
}

/// The unit in `slot` shoots on its transition against `frontlines`.
pub open spec fn shoots_now(slot: Option<Unit>, frontlines: Frontlines) -> bool {
    match slot {
        Some(u) => shoots(u.role, u.state, enemy_in_range(u, frontlines), ready(u)),
        None => false,
    }
}

proof fn lemma_increasing_from_index(r: Seq<usize>, k: int)
    requires
        0 <= k < r.len(),
        forall|k1: int, k2: int| 0 <= k1 < k2 < r.len() ==> r[k1] < r[k2],
    ensures
        r[k] >= k,
    decreases k,
{
    if k > 0 {
        lemma_increasing_from_index(r, k - 1);
    }
}

/// A strictly increasing list of slots below `n` has at most `n` entries.
pub(crate) proof fn lemma_increasing_len(r: Seq<usize>, n: int)
    requires
        n >= 0,
        forall|k: int| 0 <= k < r.len() ==> (r[k] as int) < n,
        forall|k1: int, k2: int| 0 <= k1 < k2 < r.len() ==> r[k1] < r[k2],
    ensures
        r.len() <= n,
{
    if r.len() > 0 {
        let last = r.len() - 1;
        lemma_increasing_from_index(r, last);
        assert((r[last] as int) < n);
    }
}

impl Arena {
    pub open spec fn wf(&self) -> bool {
        &&& units_wf(self.units@)
        &&& arrows_wf(self.arrows@)
    }

    /// An empty arena; both frontlines at their sentinels.
    pub fn new() -> (r: Arena)
        ensures
            r.wf(),
            r.units@ == Seq::<Option<Unit>>::empty(),
            r.arrows@ == Seq::<Option<Arrow>>::empty(),
            r.frontlines.tracks(r.units@),
    {
        let units: Vec<Option<Unit>> = Vec::new();
        let frontlines = update_frontlines(&units);
        Arena { units, arrows: Vec::new(), frontlines }
    }

    /// Recomputes both frontlines from the current units.
    pub fn refresh_frontlines(&mut self)
        requires
            old(self).wf(),
        ensures
            final(self).wf(),
            final(self).frontlines.tracks(final(self).units@),
            final(self).units@ == old(self).units@,
            final(self).arrows@ == old(self).arrows@,
    {
        self.frontlines = update_frontlines(&self.units);
    }

    /// Runs every bow's cooldown for `dt` ms, whatever its holder's state.
    pub fn recharge_bows(&mut self, dt: u64)
        requires
            old(self).wf(),
        ensures
            final(self).wf(),
            final(self).units@ == old(self).units@.map_values(|s: Option<Unit>| recharged(s, dt as int)),
            final(self).arrows@ == old(self).arrows@,
            final(self).frontlines == old(self).frontlines,
    {
        let ghost before = self.units@;
        let n = self.units.len();
        let mut i: usize = 0;
        while i < n
            invariant
                i <= n,
                n == before.len(),
                self.units@.len() == n,
                units_wf(self.units@),
                arrows_wf(self.arrows@),
                units_wf(before),
                self.arrows@ == old(self).arrows@,
                self.frontlines == old(self).frontlines,
                before == old(self).units@,
                forall|j: int| 0 <= j < i ==> self.units@[j] == recharged(before[j], dt as int),
                forall|j: int| i <= j < n ==> self.units@[j] == before[j],
            decreases n - i,
        {
            let slot = self.units[i];
            match slot {
                Some(u) => match u.role {
                    Role::Soldier(Weapon::Bow(b)) => {
                        let mut b2 = b;
                        b2.timer.tick(dt);
                        self.units.set(i, Some(Unit { role: Role::Soldier(Weapon::Bow(b2)), ..u }));
                    },
                    _ => {},
                },
                None => {},
            }
            i = i + 1;
        }
        assert(self.units@ =~= before.map_values(|s: Option<Unit>| recharged(s, dt as int)));
    }

    /// Moves every unit to its next state against the recorded frontlines and
    /// returns, in slot order, the archers that shoot on this transition.
    pub fn update_states(&mut self) -> (shooters: Vec<usize>)
        requires
            old(self).wf(),
        ensures
            final(self).wf(),
            final(self).units@ == old(self).units@.map_values(
                |s: Option<Unit>| transitioned(s, old(self).frontlines),
            ),
            lists_exactly(
                shooters@,
                old(self).units@,
                |s: Option<Unit>| shoots_now(s, old(self).frontlines),
            ),
            final(self).arrows@ == old(self).arrows@,
            final(self).frontlines == old(self).frontlines,
    {
        let ghost before = self.units@;
        let ghost fl = self.frontlines;
        let n = self.units.len();
        let mut shooters: Vec<usize> = Vec::new();
        let mut i: usize = 0;
        while i < n
            invariant
                i <= n,
                n == before.len(),
                self.units@.len() == n,
                units_wf(self.units@),
                arrows_wf(self.arrows@),
                units_wf(before),
                self.arrows@ == old(self).arrows@,
                self.frontlines == fl,
                fl == old(self).frontlines,
                before == old(self).units@,
                forall|j: int| 0 <= j < i ==> self.units@[j] == transitioned(before[j], fl),
                forall|j: int| i <= j < n ==> self.units@[j] == before[j],
                forall|k: int| 0 <= k < shooters@.len() ==> shooters@[k] < i && shoots_now(before[shooters@[k] as int], fl),
                forall|k1: int, k2: int| 0 <= k1 < k2 < shooters@.len() ==> shooters@[k1] < shooters@[k2],
                forall|j: int| 0 <= j < i && shoots_now(before[j], fl) ==> shooters@.contains(j as usize),
            decreases n - i,
        {
            let ghost prev = shooters@;
            let slot = self.units[i];
            match slot {
                Some(u) => {
                    let mut u2 = u;
                    let fire = transition(&mut u2, &self.frontlines);
                    self.units.set(i, Some(u2));
                    if fire {
                        shooters.push(i);
                        assert(shooters@[shooters@.len() - 1] == i);
                    }
                },
                None => {},
            }
            proof {
                assert forall|j: int| 0 <= j < i + 1 && shoots_now(before[j], fl) implies shooters@.contains(j as usize) by {
                    if j == i {
                        assert(shooters@[shooters@.len() - 1] == i);
                    } else {
                        let k = choose|k: int| 0 <= k < prev.len() && prev[k] == j as usize;
                        assert(shooters@[k] == j as usize);
                    }
                }
            }
            i = i + 1;
        }
        assert(self.units@ =~= before.map_values(|s: Option<Unit>| transitioned(s, fl)));
        shooters
    }
}

} // verus!
