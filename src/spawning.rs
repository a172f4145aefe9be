//! Spawn requests: soldiers from blueprints, bases, and recruitment at a
//! kingdom's bases.

use vstd::prelude::*;
use crate::arena::{Arena, lists_exactly};
use crate::content::{SubjectBlueprint, WeaponBlueprint, WeaponKind};
use crate::health::Health;
use crate::kingdom::Kingdom;
use crate::measure::{MAX_COORD, mag};
use crate::timer::Timer;
use crate::unit::{BehaviorState, Bow, Role, Sword, Unit, Weapon};

verus! {

/// The weapon a blueprint hands out; a bow starts out ready to shoot.
pub open spec fn weapon_of(w: WeaponBlueprint) -> Weapon {
    match w.kind {
        WeaponKind::Sword => Weapon::Sword(Sword { damage: w.damage }),
        WeaponKind::Bow(b) => Weapon::Bow(
            Bow {
                damage: w.damage,
                range: b.range,
                spread: b.spread,
                speed: b.speed,
                timer: Timer { duration: b.recharge, elapsed: b.recharge },
            },
        ),
    }
}

/// A freshly spawned soldier: full health, advancing.
pub open spec fn spawned(bp: SubjectBlueprint, kingdom: Kingdom, x: i64, y: i64) -> Unit {
    Unit {
        kingdom,
        x,
        y,
        speed: bp.speed,
        health: Health { current: bp.health },
        role: Role::Soldier(weapon_of(bp.weapon)),
        state: BehaviorState::Advancing,
    }
}

/// A spawn request: a soldier built from `blueprint` for `kingdom`, at `(x, y)`.
#[derive(Clone, Copy, Debug, PartialEq, Eq, Structural)]
pub struct SpawnEvent {
    pub blueprint: SubjectBlueprint,
    pub x: i64,
    pub y: i64,
    pub kingdom: Kingdom,
}

impl SpawnEvent {
    pub fn new(blueprint: SubjectBlueprint, x: i64, y: i64, kingdom: Kingdom) -> (r: SpawnEvent)
        ensures
            r == (SpawnEvent { blueprint, x, y, kingdom }),
    {
        SpawnEvent { blueprint, x, y, kingdom }
    }

    pub open spec fn wf(&self) -> bool {
        &&& self.blueprint.wf()
        &&& mag(self.x as int) <= MAX_COORD
        &&& mag(self.y as int) <= MAX_COORD
    }
}

/// The soldier a spawn request asks for.
pub open spec fn spawned_by(e: SpawnEvent) -> Option<Unit> {
    Some(spawned(e.blueprint, e.kingdom, e.x, e.y))
}

/// Slot `s` holds a base of kingdom `k`.
pub open spec fn is_nexus_of(s: Option<Unit>, k: Kingdom) -> bool {
    s is Some && s->0.role is Nexus && s->0.kingdom == k
}

/// `bases` lists, in slot order, every base of `kingdom` in `units`.
pub open spec fn lists_bases(bases: Seq<usize>, units: Seq<Option<Unit>>, kingdom: Kingdom) -> bool {
    lists_exactly(bases, units, |s: Option<Unit>| is_nexus_of(s, kingdom))
}

/// The spawn request that a recruitment for `kingdom` makes at the base in
/// slot `s`: a soldier standing on the ground below the base.
pub open spec fn recruit_at(s: Option<Unit>, blueprint: SubjectBlueprint, kingdom: Kingdom) -> SpawnEvent {
    SpawnEvent { blueprint, x: s->0.x, y: 0, kingdom }
}

impl Arena {
    /// Takes in a spawn request: a soldier of `kingdom` built from `blueprint`
    /// at `(x, y)`, with full health and advancing. Returns its slot.
    pub fn spawn(&mut self, blueprint: &SubjectBlueprint, kingdom: Kingdom, x: i64, y: i64) -> (id: usize)
        requires
            old(self).wf(),
            blueprint.wf(),
            mag(x as int) <= MAX_COORD,
            mag(y as int) <= MAX_COORD,
            old(self).units.len() < usize::MAX,
        ensures
            final(self).wf(),
            id == old(self).units.len(),
            final(self).units@ == old(self).units@.push(Some(spawned(*blueprint, kingdom, x, y))),
            final(self).arrows@ == old(self).arrows@,
            final(self).frontlines == old(self).frontlines,
    {
        let weapon = match blueprint.weapon.kind {
            WeaponKind::Sword => Weapon::Sword(Sword { damage: blueprint.weapon.damage }),
            WeaponKind::Bow(b) => Weapon::Bow(
                Bow::new(blueprint.weapon.damage, b.range, b.spread, b.speed, b.recharge),
            ),
        };
        let unit = Unit {
            kingdom,
            x,
            y,
            speed: blueprint.speed,
            health: Health::new(blueprint.health),
            role: Role::Soldier(weapon),
            state: BehaviorState::Advancing,
        };
        let id = self.units.len();
        self.units.push(Some(unit));
        id
    }

    /// Places a base of `kingdom` at `(x, y)` with `health` hit points.
    pub fn spawn_nexus(&mut self, kingdom: Kingdom, x: i64, y: i64, health: u32) -> (id: usize)
        requires
            old(self).wf(),
            mag(x as int) <= MAX_COORD,
            mag(y as int) <= MAX_COORD,
            old(self).units.len() < usize::MAX,
        ensures
            final(self).wf(),
            id == old(self).units.len(),
            final(self).units@ == old(self).units@.push(
                Some(
                    Unit {
                        kingdom,
                        x,
                        y,
                        speed: 0,
                        health: Health { current: health },
                        role: Role::Nexus,
                        state: BehaviorState::Advancing,
                    },
                ),
            ),
            final(self).arrows@ == old(self).arrows@,
            final(self).frontlines == old(self).frontlines,
    {
        let unit = Unit {
            kingdom,
            x,
            y,
            speed: 0,
            health: Health::new(health),
            role: Role::Nexus,
            state: BehaviorState::Advancing,
        };
        let id = self.units.len();
        self.units.push(Some(unit));
        id
    }

    /// Takes in a batch of spawn requests, in order; returns the new slots.
    pub fn spawn_subjects(&mut self, events: &Vec<SpawnEvent>) -> (ids: Vec<usize>)
        requires
            old(self).wf(),
            forall|k: int| 0 <= k < events@.len() ==> (#[trigger] events@[k]).wf(),
            old(self).units.len() + events.len() < usize::MAX,
        ensures
            final(self).wf(),
            final(self).units@ == old(self).units@ + events@.map_values(|e: SpawnEvent| spawned_by(e)),
            ids@ == Seq::new(events@.len(), |k: int| (old(self).units.len() + k) as usize),
            final(self).arrows@ == old(self).arrows@,
            final(self).frontlines == old(self).frontlines,
    {
        let mut ids: Vec<usize> = Vec::new();
        let mut k: usize = 0;
        while k < events.len()
            invariant
                k <= events.len(),
                self.wf(),
                forall|q: int| 0 <= q < events@.len() ==> (#[trigger] events@[q]).wf(),
                old(self).units.len() + events.len() < usize::MAX,
                self.units@ == old(self).units@ + events@.take(k as int).map_values(
                    |e: SpawnEvent| spawned_by(e),
                ),
                ids@ == Seq::new(k as nat, |q: int| (old(self).units.len() + q) as usize),
                self.arrows@ == old(self).arrows@,
                self.frontlines == old(self).frontlines,
            decreases events.len() - k,
        {
            let e = events[k];
            let id = self.spawn(&e.blueprint, e.kingdom, e.x, e.y);
            ids.push(id);
            assert(events@.take(k + 1) == events@.take(k as int).push(e));
            assert(self.units@ =~= old(self).units@ + events@.take(k + 1).map_values(
                |e: SpawnEvent| spawned_by(e),
            ));
            assert(ids@ =~= Seq::new((k + 1) as nat, |q: int| (old(self).units.len() + q) as usize));
            k = k + 1;
        }
        assert(events@.take(events.len() as int) =~= events@);
        ids
    }

    /// A recruitment for `kingdom`: one soldier from `blueprint` at each of
    /// the kingdom's bases, standing on the ground below it. Returns the
    /// requests made, in slot order of the bases.
    pub fn recruit(&mut self, blueprint: &SubjectBlueprint, kingdom: Kingdom) -> (events: Vec<SpawnEvent>)
        requires
            old(self).wf(),
            blueprint.wf(),
            old(self).units.len() * 2 < usize::MAX,
        ensures
            final(self).wf(),
            final(self).units@ == old(self).units@ + events@.map_values(|e: SpawnEvent| spawned_by(e)),
            events@.len() <= old(self).units@.len(),
            exists|bases: Seq<usize>|
                #[trigger] lists_bases(bases, old(self).units@, kingdom) && events@ == bases.map_values(
                    |b: usize| recruit_at(old(self).units@[b as int], *blueprint, kingdom),
                ),
            final(self).arrows@ == old(self).arrows@,
            final(self).frontlines == old(self).frontlines,
    {
        let ghost units0 = self.units@;
        let n = self.units.len();
        let mut bases: Vec<usize> = Vec::new();
        let mut events: Vec<SpawnEvent> = Vec::new();
        let mut i: usize = 0;
        while i < n
            invariant
                i <= n,
                n == units0.len(),
                units0 == old(self).units@,
                self.units@ == old(self).units@,
                self.wf(),
                blueprint.wf(),
                events@.len() == bases@.len(),
                bases@.len() <= i,
                forall|k: int| 0 <= k < bases@.len() ==> bases@[k] < i && is_nexus_of(units0[bases@[k] as int], kingdom),
                forall|k1: int, k2: int| 0 <= k1 < k2 < bases@.len() ==> bases@[k1] < bases@[k2],
                forall|j: int| 0 <= j < i && is_nexus_of(units0[j], kingdom) ==> bases@.contains(j as usize),
                events@ == bases@.map_values(|b: usize| recruit_at(units0[b as int], *blueprint, kingdom)),
                forall|k: int| 0 <= k < events@.len() ==> (#[trigger] events@[k]).wf(),
            decreases n - i,
        {
            let ghost prev = bases@;
            assert(self.units@[i as int] == units0[i as int]);
            match self.units[i] {
                Some(u) => {
                    if u.kingdom == kingdom {
                        match u.role {
                            Role::Nexus => {
                                bases.push(i);
                                events.push(SpawnEvent { blueprint: *blueprint, x: u.x, y: 0, kingdom });
                                assert(events@ =~= bases@.map_values(
                                    |b: usize| recruit_at(units0[b as int], *blueprint, kingdom),
                                ));
                            },
                            Role::Soldier(_) => {},
                        }
                    }
                },
                None => {},
            }
            proof {
                assert forall|j: int| 0 <= j < i + 1 && is_nexus_of(units0[j], kingdom) implies bases@.contains(j as usize) by {
                    if j == i {
                        assert(bases@[bases@.len() - 1] == i);
                    } else {
                        let k = choose|k: int| 0 <= k < prev.len() && prev[k] == j as usize;
                        assert(bases@[k] == j as usize);
                    }
                }
            }
            i = i + 1;
        }
        assert(lists_bases(bases@, units0, kingdom));
        self.spawn_subjects(&events);
        events
    }
}

} // verus!
