use vstd::prelude::*;
use crate::kingdom::Kingdom;
use crate::unit::Unit;

verus! {

/// A point on the lane, or one of its two infinite ends.
#[derive(Clone, Copy, Debug, PartialEq, Eq, Structural)]
pub enum LanePosition {
    NegInfinity,
    At(i64),
    PosInfinity,
}

/// The most advanced living soldier of one kingdom, or a sentinel position
/// and no soldier when the kingdom has none.
#[derive(Clone, Copy, Debug, PartialEq, Eq, Structural)]
pub struct Frontline {
    pub position: LanePosition,
    pub entity: Option<usize>,
}

#[derive(Clone, Copy, Debug, PartialEq, Eq, Structural)]
pub struct Frontlines {
    pub elven: Frontline,
    pub monster: Frontline,
}

/// Where an empty kingdom's frontline stands: elves at minus infinity,
/// monsters at plus infinity, so that no enemy is ever in range of it.
pub open spec fn sentinel(k: Kingdom) -> LanePosition {
    match k {
        Kingdom::Elven => LanePosition::NegInfinity,
        Kingdom::Monster => LanePosition::PosInfinity,
    }
}

/// Position `a` is further toward the enemy base than `b`, for kingdom `k`.
pub open spec fn ahead(k: Kingdom, a: int, b: int) -> bool {
    match k {
        Kingdom::Elven => a > b,
        Kingdom::Monster => a < b,
    }
}

/// Slot `i` holds a living soldier of kingdom `k`.
pub open spec fn fights_for(units: Seq<Option<Unit>>, i: int, k: Kingdom) -> bool {
    &&& 0 <= i < units.len()
    &&& units[i] is Some
    &&& units[i]->0.kingdom == k
    &&& units[i]->0.is_soldier()
    &&& !units[i]->0.health.spec_is_dead()
}

/// `f` is the frontline of kingdom `k` over the first `n` slots: the soldier
/// furthest ahead, the earliest slot among equals.
pub open spec fn is_frontline_upto(units: Seq<Option<Unit>>, k: Kingdom, n: int, f: Frontline) -> bool {
    match f.entity {
        None => {
            &&& f.position == sentinel(k)
            &&& forall|j: int| 0 <= j < n ==> !fights_for(units, j, k)
        },
        Some(i) => {
            &&& i < n
            &&& fights_for(units, i as int, k)
            &&& f.position == LanePosition::At(units[i as int]->0.x)
            &&& forall|j: int|
                0 <= j < n && fights_for(units, j, k) ==> !ahead(
                    k,
                    units[j]->0.x as int,
                    units[i as int]->0.x as int,
                )
            &&& forall|j: int|
                0 <= j < i && fights_for(units, j, k) ==> ahead(
                    k,
                    units[i as int]->0.x as int,
                    units[j]->0.x as int,
                )
        },
    }
}

pub open spec fn is_frontline(units: Seq<Option<Unit>>, k: Kingdom, f: Frontline) -> bool {
    is_frontline_upto(units, k, units.len() as int, f)
}

impl Frontlines {
    pub open spec fn of(&self, k: Kingdom) -> Frontline {
        match k {
            Kingdom::Elven => self.elven,
            Kingdom::Monster => self.monster,
        }
    }

    /// Both frontlines recorded from `units`.
    pub open spec fn tracks(&self, units: Seq<Option<Unit>>) -> bool {
        &&& is_frontline(units, Kingdom::Elven, self.elven)
        &&& is_frontline(units, Kingdom::Monster, self.monster)
    }

    /// The frontline of kingdom `k`.
    pub fn get(&self, k: Kingdom) -> (r: Frontline)
        ensures
            r == self.of(k),
    {
        match k {
            Kingdom::Elven => self.elven,
            Kingdom::Monster => self.monster,
        }
    }
}

impl Default for Frontlines {
    /// Both kingdoms empty: each frontline at its sentinel.
    fn default() -> (r: Frontlines)
        ensures
            r.elven == (Frontline { position: sentinel(Kingdom::Elven), entity: None }),
            r.monster == (Frontline { position: sentinel(Kingdom::Monster), entity: None }),
    {
        Frontlines {
            elven: Frontline { position: LanePosition::NegInfinity, entity: None },
            monster: Frontline { position: LanePosition::PosInfinity, entity: None },
        }
    }
}

/// Records, from scratch, the most advanced living soldier of each kingdom:
/// the largest position among elves, the smallest among monsters, the
/// earliest slot among equals; a kingdom without soldiers gets its sentinel.
pub fn update_frontlines(units: &Vec<Option<Unit>>) -> (r: Frontlines)
    ensures
        r.tracks(units@),
{
    let mut elven = Frontline { position: LanePosition::NegInfinity, entity: None };
    let mut monster = Frontline { position: LanePosition::PosInfinity, entity: None };
    let mut i: usize = 0;
    while i < units.len()
        invariant
            i <= units.len(),
            is_frontline_upto(units@, Kingdom::Elven, i as int, elven),
            is_frontline_upto(units@, Kingdom::Monster, i as int, monster),
        decreases units.len() - i,
    {
        match &units[i] {
            Some(u) => {
                if u.is_soldier_exec() && !u.health.is_dead() {
                    match u.kingdom {
                        Kingdom::Elven => {
                            let further = match elven.position {
                                LanePosition::At(p) => u.x > p,
                                _ => true,
                            };
                            if further {
                                elven = Frontline { position: LanePosition::At(u.x), entity: Some(i) };
                            }
                        },
                        Kingdom::Monster => {
                            let further = match monster.position {
                                LanePosition::At(p) => u.x < p,
                                _ => true,
                            };
                            if further {
                                monster = Frontline { position: LanePosition::At(u.x), entity: Some(i) };
                            }
                        },
                    }
                }
            },
            None => {},
        }
        i = i + 1;
    }
    Frontlines { elven, monster }
}

} // verus!
