use vstd::prelude::*;
use crate::ballistics::MAX_SPREAD;
use crate::health::Health;
use crate::kingdom::Kingdom;
use crate::measure::{MAX_ARROW_SPEED, MAX_COORD, MAX_SPEED, mag};
use crate::timer::Timer;

verus! {

/// Reach of a sword, measured along the lane (mm).
pub const MELEE_RANGE: i64 = 1000;

/// How long an arrow exists after it is loosed (ms).
pub const ARROW_LIFETIME: u64 = 20000;

/// Height at which an arrow counts as stuck in the ground (mm).
pub const GROUND_DEPTH: i64 = -125;

/// The posture of a unit. A unit holds exactly one of them at any time.
#[derive(Clone, Copy, Debug, PartialEq, Eq, Structural)]
pub enum BehaviorState {
    /// Walking toward the enemy base.
    Advancing,
    /// A bow on cooldown while the enemy is in range.
    Recharging,
    /// Swinging a sword, or loosing an arrow.
    Engaging,
}

/// A melee weapon: hits every overlapping enemy on every tick.
#[derive(Clone, Copy, Debug, PartialEq, Eq, Structural)]
pub struct Sword {
    pub damage: u32,
}

/// A ranged weapon. Lengths in mm, `speed` in mm/s, `spread` in thousandths.
#[derive(Clone, Copy, Debug, PartialEq, Eq, Structural)]
pub struct Bow {
    pub damage: u32,
    pub range: i64,
    pub spread: i64,
    pub speed: i64,
    pub timer: Timer,
}

impl Bow {
    pub open spec fn wf(&self) -> bool {
        &&& self.timer.wf()
        &&& 0 <= self.spread <= MAX_SPREAD
        &&& 0 <= self.speed <= MAX_SPEED
    }

    /// A bow that is ready to shoot; it recharges in `recharge` ms after each shot.
    pub fn new(damage: u32, range: i64, spread: i64, speed: i64, recharge: u64) -> (r: Bow)
        requires
            0 <= spread <= MAX_SPREAD,
            0 <= speed <= MAX_SPEED,
        ensures
            r.wf(),
            r.damage == damage,
            r.range == range,
            r.spread == spread,
            r.speed == speed,
            r.timer.duration == recharge,
            r.timer.spec_finished(),
    {
        Bow { damage, range, spread, speed, timer: Timer::new_finished(recharge) }
    }
}

#[derive(Clone, Copy, Debug, PartialEq, Eq, Structural)]
pub enum Weapon {
    Sword(Sword),
    Bow(Bow),
}

impl Weapon {
    pub open spec fn wf(&self) -> bool {
        match self {
            Weapon::Sword(_) => true,
            Weapon::Bow(b) => b.wf(),
        }
    }

    pub open spec fn spec_range(&self) -> int {
        match self {
            Weapon::Sword(_) => MELEE_RANGE as int,
            Weapon::Bow(b) => b.range as int,
        }
    }

    /// Distance along the lane within which the weapon engages.
    pub fn range(&self) -> (r: i64)
        ensures
            r == self.spec_range(),
    {
        match self {
            Weapon::Sword(_) => MELEE_RANGE,
            Weapon::Bow(b) => b.range,
        }
    }
}

/// What a body on the lane is: a soldier with a weapon, or a base.
#[derive(Clone, Copy, Debug, PartialEq, Eq, Structural)]
pub enum Role {
    Soldier(Weapon),
    /// A base; the match ends when one falls.
    Nexus,
}

/// A combat participant: a soldier or a base.
#[derive(Clone, Copy, Debug, PartialEq, Eq, Structural)]
pub struct Unit {
    pub kingdom: Kingdom,
    /// Position along the lane (mm).
    pub x: i64,
    /// Height of the body's centre (mm).
    pub y: i64,
    /// Walking speed (mm/s).
    pub speed: i64,
    pub health: Health,
    pub role: Role,
    pub state: BehaviorState,
}

impl Unit {
    pub open spec fn wf(&self) -> bool {
        &&& mag(self.x as int) <= MAX_COORD
        &&& mag(self.y as int) <= MAX_COORD
        &&& 0 <= self.speed <= MAX_SPEED
        &&& match self.role {
            Role::Soldier(w) => w.wf() && (self.state == BehaviorState::Recharging ==> w is Bow),
            Role::Nexus => self.state == BehaviorState::Advancing,
        }
    }

    pub open spec fn is_soldier(&self) -> bool {
        self.role is Soldier
    }

    pub fn is_soldier_exec(&self) -> (r: bool)
        ensures
            r == self.is_soldier(),
    {
        match self.role {
            Role::Soldier(_) => true,
            Role::Nexus => false,
        }
    }

    /// Horizontal velocity (mm/s): soldiers walk while advancing, elves toward
    /// larger positions, monsters toward smaller ones.
    pub open spec fn spec_velocity_x(&self) -> int {
        if self.is_soldier() && self.state == BehaviorState::Advancing {
            match self.kingdom {
                Kingdom::Elven => self.speed as int,
                Kingdom::Monster => -self.speed,
            }
        } else {
            0
        }
    }

    pub fn velocity_x(&self) -> (r: i64)
        requires
            self.wf(),
        ensures
            r == self.spec_velocity_x(),
    {
        match self.role {
            Role::Soldier(_) => {
                if self.state == BehaviorState::Advancing {
                    match self.kingdom {
                        Kingdom::Elven => self.speed,
                        Kingdom::Monster => -self.speed,
                    }
                } else {
                    0
                }
            },
            Role::Nexus => 0,
        }
    }
}

/// A projectile in flight or stuck in the ground.
#[derive(Clone, Copy, Debug, PartialEq, Eq, Structural)]
pub struct Arrow {
    pub kingdom: Kingdom,
    pub x: i64,
    pub y: i64,
    pub vx: i64,
    pub vy: i64,
    pub damage: u32,
    pub grounded: bool,
    pub lifetime: Timer,
}

impl Arrow {
    pub open spec fn wf(&self) -> bool {
        &&& mag(self.x as int) <= MAX_COORD
        &&& mag(self.y as int) <= MAX_COORD
        &&& mag(self.vx as int) <= MAX_ARROW_SPEED
        &&& mag(self.vy as int) <= MAX_ARROW_SPEED
        &&& self.lifetime.wf()
        &&& self.grounded ==> self.vx == 0 && self.vy == 0
    }
}

} // verus!
