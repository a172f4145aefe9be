use vstd::prelude::*;
use crate::frontline::{Frontlines, LanePosition, fights_for, is_frontline, sentinel};
use crate::kingdom::Kingdom;
use crate::unit::{BehaviorState, Role, Unit, Weapon};

verus! {

/// An enemy frontline at `enemy` lies within `range` of a unit of kingdom `k`
/// standing at `x`: the gap from the unit toward the enemy base, signed so
/// that it shrinks as the two close in, is below `range`. A frontline at the
/// far end of the lane is never in range.
pub open spec fn spec_in_range(k: Kingdom, x: int, range: int, enemy: LanePosition) -> bool {
    match k {
        Kingdom::Elven => match enemy {
            LanePosition::At(p) => p - x < range,
            LanePosition::PosInfinity => false,
            LanePosition::NegInfinity => true,
        },
        Kingdom::Monster => match enemy {
            LanePosition::At(p) => x - p < range,
            LanePosition::NegInfinity => false,
            LanePosition::PosInfinity => true,
        },
    }
}

/// Whether the enemy frontline is within `range` of a unit of kingdom `k` at `x`.
pub fn frontline_in_range(k: Kingdom, x: i64, range: i64, frontlines: &Frontlines) -> (r: bool)
    ensures
        r == spec_in_range(k, x as int, range as int, frontlines.of(k.spec_opponent()).position),
{
    match k {
        Kingdom::Elven => match frontlines.monster.position {
            LanePosition::At(p) => (p as i128) - (x as i128) < range as i128,
            LanePosition::PosInfinity => false,
            LanePosition::NegInfinity => true,
        },
        Kingdom::Monster => match frontlines.elven.position {
            LanePosition::At(p) => (x as i128) - (p as i128) < range as i128,
            LanePosition::NegInfinity => false,
            LanePosition::PosInfinity => true,
        },
    }
}

/// The state a unit moves to, given whether the enemy frontline is in range
/// and whether its bow has recharged.
///
/// A sword engages exactly while the enemy is in range. A bow engages (and
/// shoots) when the enemy is in range and it has recharged, recharges right
/// after engaging or while still on cooldown, and advances when the enemy is
/// out of range. A base keeps its state.
pub open spec fn next_state(role: Role, state: BehaviorState, in_range: bool, ready: bool) -> BehaviorState {
    match role {
        Role::Nexus => state,
        Role::Soldier(Weapon::Sword(_)) => if in_range {
            BehaviorState::Engaging
        } else {
            BehaviorState::Advancing
        },
        Role::Soldier(Weapon::Bow(_)) => if !in_range {
            BehaviorState::Advancing
        } else if state == BehaviorState::Engaging {
            BehaviorState::Recharging
        } else if ready {
            BehaviorState::Engaging
        } else {
            BehaviorState::Recharging
        },
    }
}

/// An archer shoots on every entry into `Engaging`.
pub open spec fn shoots(role: Role, state: BehaviorState, in_range: bool, ready: bool) -> bool {
    &&& role is Soldier
    &&& role->Soldier_0 is Bow
    &&& next_state(role, state, in_range, ready) == BehaviorState::Engaging
}

/// Whether the unit's bow has recharged (always true of a sword or a base).
pub open spec fn ready(u: Unit) -> bool {
    match u.role {
        Role::Soldier(Weapon::Bow(b)) => b.timer.spec_finished(),
        _ => true,
    }
}

/// The unit's weapon range (zero for a base, which never looks for enemies).
pub open spec fn reach(u: Unit) -> int {
    match u.role {
        Role::Soldier(w) => w.spec_range(),
        Role::Nexus => 0,
    }
}

pub open spec fn enemy_in_range(u: Unit, frontlines: Frontlines) -> bool {
    spec_in_range(u.kingdom, u.x as int, reach(u), frontlines.of(u.kingdom.spec_opponent()).position)
}

/// Moves `unit` to its next state against `frontlines`, replacing the old
/// state in one step; returns whether the unit shoots.
pub fn transition(unit: &mut Unit, frontlines: &Frontlines) -> (fire: bool)
    requires
        old(unit).wf(),
    ensures
        final(unit).wf(),
        *final(unit) == (Unit {
            state: next_state(
                old(unit).role,
                old(unit).state,
                enemy_in_range(*old(unit), *frontlines),
                ready(*old(unit)),
            ),
            ..*old(unit)
        }),
        fire == shoots(
            old(unit).role,
            old(unit).state,
            enemy_in_range(*old(unit), *frontlines),
            ready(*old(unit)),
        ),
{
    match unit.role {
        Role::Nexus => false,
        Role::Soldier(Weapon::Sword(_)) => {
            let in_range = frontline_in_range(unit.kingdom, unit.x, crate::unit::MELEE_RANGE, frontlines);
            unit.state = if in_range {
                BehaviorState::Engaging
            } else {
                BehaviorState::Advancing
            };
            false
        },
        Role::Soldier(Weapon::Bow(b)) => {
            let in_range = frontline_in_range(unit.kingdom, unit.x, b.range, frontlines);
            if !in_range {
                unit.state = BehaviorState::Advancing;
                false
            } else if unit.state == BehaviorState::Engaging {
                unit.state = BehaviorState::Recharging;
                false
            } else if b.timer.finished() {
                unit.state = BehaviorState::Engaging;
                true
            } else {
                unit.state = BehaviorState::Recharging;
                false
            }
        },
    }
}

/// State exclusivity: a unit holds exactly one of the three states, and a
/// transition keeps it that way, never leaving a sword or a base recharging.
pub proof fn lemma_state_exclusive(u: Unit, frontlines: Frontlines)
    requires
        u.wf(),
    ensures
        ({
            let s = u.state;
            (s == BehaviorState::Advancing) as int + (s == BehaviorState::Recharging) as int + (s
                == BehaviorState::Engaging) as int == 1
        }),
        ({
            let s = next_state(u.role, u.state, enemy_in_range(u, frontlines), ready(u));
            &&& (s == BehaviorState::Advancing) as int + (s == BehaviorState::Recharging) as int + (s
                == BehaviorState::Engaging) as int == 1
            &&& (Unit { state: s, ..u }).wf()
        }),
{
}

/// Frontline sentinel: when kingdom `k` has no living soldier, its recorded
/// frontline is the sentinel with no unit, and no unit of the other kingdom
/// finds it in range or moves into `Engaging`, whatever its state, range or
/// cooldown.
pub proof fn lemma_empty_kingdom_is_never_engaged(
    units: Seq<Option<Unit>>,
    k: Kingdom,
    frontlines: Frontlines,
    u: Unit,
)
    requires
        frontlines.tracks(units),
        forall|i: int| 0 <= i < units.len() ==> !fights_for(units, i, k),
        u.wf(),
        u.kingdom == k.spec_opponent(),
    ensures
        frontlines.of(k).position == sentinel(k),
        frontlines.of(k).entity is None,
        !enemy_in_range(u, frontlines),
        next_state(u.role, u.state, enemy_in_range(u, frontlines), ready(u))
            != BehaviorState::Engaging,
{
    let f = frontlines.of(k);
    assert(is_frontline(units, k, f));
    if f.entity is Some {
        let i = f.entity->0;
        assert(fights_for(units, i as int, k));
    }
}

} // verus!
