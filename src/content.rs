use vstd::prelude::*;
use crate::ballistics::MAX_SPREAD;
use crate::measure::MAX_SPEED;

verus! {

/// Parameters of a bow: `range` in mm, `speed` in mm/s, `spread` in
/// thousandths, `recharge` in ms.
#[derive(Clone, Copy, Debug, PartialEq, Eq, Structural)]
pub struct BowBlueprint {
    pub range: i64,
    pub speed: i64,
    pub spread: i64,
    pub recharge: u64,
}

#[derive(Clone, Copy, Debug, PartialEq, Eq, Structural)]
pub enum WeaponKind {
    Sword,
    Bow(BowBlueprint),
}

#[derive(Clone, Copy, Debug, PartialEq, Eq, Structural)]
pub struct WeaponBlueprint {
    pub damage: u32,
    pub kind: WeaponKind,
}

/// What a spawn request asks for: the recruitment cost `value`, starting
/// health, walking speed (mm/s) and weapon.
#[derive(Clone, Copy, Debug, PartialEq, Eq, Structural)]
pub struct SubjectBlueprint {
    pub value: u32,
    pub health: u32,
    pub speed: i64,
    pub weapon: WeaponBlueprint,
}

impl SubjectBlueprint {
    pub open spec fn wf(&self) -> bool {
        &&& 0 <= self.speed <= MAX_SPEED
        &&& match self.weapon.kind {
            WeaponKind::Sword => true,
            WeaponKind::Bow(b) => 0 <= b.spread <= MAX_SPREAD && 0 <= b.speed <= MAX_SPEED,
        }
    }
}

pub fn elven_bow() -> (r: WeaponBlueprint)
    ensures
        r == (WeaponBlueprint {
            damage: 1,
            kind: WeaponKind::Bow(BowBlueprint { range: 15000, speed: 15000, spread: 1500, recharge: 2300 }),
        }),
{
    WeaponBlueprint {
        damage: 1,
        kind: WeaponKind::Bow(BowBlueprint { range: 15000, speed: 15000, spread: 1500, recharge: 2300 }),
    }
}

pub fn elven_fast_bow() -> (r: WeaponBlueprint)
    ensures
        r == (WeaponBlueprint {
            damage: 1,
            kind: WeaponKind::Bow(BowBlueprint { range: 10000, speed: 25000, spread: 2000, recharge: 300 }),
        }),
{
    WeaponBlueprint {
        damage: 1,
        kind: WeaponKind::Bow(BowBlueprint { range: 10000, speed: 25000, spread: 2000, recharge: 300 }),
    }
}

pub fn elven_sniper_bow() -> (r: WeaponBlueprint)
    ensures
        r == (WeaponBlueprint {
            damage: 2,
            kind: WeaponKind::Bow(BowBlueprint { range: 100000, speed: 15000, spread: 0, recharge: 0 }),
        }),
{
    WeaponBlueprint {
        damage: 2,
        kind: WeaponKind::Bow(BowBlueprint { range: 100000, speed: 15000, spread: 0, recharge: 0 }),
    }
}

pub fn goblin_sword() -> (r: WeaponBlueprint)
    ensures
        r == (WeaponBlueprint { damage: 1, kind: WeaponKind::Sword }),
{
    WeaponBlueprint { damage: 1, kind: WeaponKind::Sword }
}

pub fn elven_archer() -> (r: SubjectBlueprint)
    ensures
        r.wf(),
        r == (SubjectBlueprint { value: 3, health: 1, speed: 1500, weapon: r.weapon }),
        r.weapon == (WeaponBlueprint {
            damage: 1,
            kind: WeaponKind::Bow(BowBlueprint { range: 15000, speed: 15000, spread: 1500, recharge: 2300 }),
        }),
{
    SubjectBlueprint { value: 3, health: 1, speed: 1500, weapon: elven_bow() }
}

pub fn elven_fast_archer() -> (r: SubjectBlueprint)
    ensures
        r.wf(),
        r == (SubjectBlueprint { value: 10, health: 1, speed: 3500, weapon: r.weapon }),
        r.weapon == (WeaponBlueprint {
            damage: 1,
            kind: WeaponKind::Bow(BowBlueprint { range: 10000, speed: 25000, spread: 2000, recharge: 300 }),
        }),
{
    SubjectBlueprint { value: 10, health: 1, speed: 3500, weapon: elven_fast_bow() }
}

pub fn elven_sniper_archer() -> (r: SubjectBlueprint)
    ensures
        r.wf(),
        r == (SubjectBlueprint { value: 3, health: 1, speed: 1000, weapon: r.weapon }),
        r.weapon == (WeaponBlueprint {
            damage: 2,
            kind: WeaponKind::Bow(BowBlueprint { range: 100000, speed: 15000, spread: 0, recharge: 0 }),
        }),
{
    SubjectBlueprint { value: 3, health: 1, speed: 1000, weapon: elven_sniper_bow() }
}

pub fn goblin_warrior() -> (r: SubjectBlueprint)
    ensures
        r.wf(),
        r == (SubjectBlueprint {
            value: 1,
            health: 2,
            speed: 2500,
            weapon: WeaponBlueprint { damage: 1, kind: WeaponKind::Sword },
        }),
{
    SubjectBlueprint { value: 1, health: 2, speed: 2500, weapon: goblin_sword() }
}

} // verus!
