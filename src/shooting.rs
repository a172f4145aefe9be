//! Fire requests turned into arrows aimed at the enemy frontline.

use vstd::prelude::*;
use crate::arena::{Arena, slot};
use crate::ballistics::{MAX_SPREAD, Jitter, aim, draw_jitter, jitter_in_band, spec_aim};
use crate::frontline::Frontlines;
use crate::kingdom::Kingdom;
use crate::measure::{MAX_COORD, MAX_JITTER, clamp, clamped, mag};
use crate::timer::Timer;
use crate::unit::{ARROW_LIFETIME, Arrow, Bow, Role, Unit, Weapon};

verus! {

/// How far ahead of an archer its arrows start (mm).
pub const MUZZLE_OFFSET: i64 = 400;

/// Where an archer's arrows start along the lane: just ahead of it, toward
/// the enemy base.
pub open spec fn muzzle_x(u: Unit) -> int {
    match u.kingdom {
        Kingdom::Elven => clamped(u.x + MUZZLE_OFFSET, MAX_COORD as int),
        Kingdom::Monster => clamped(u.x - MUZZLE_OFFSET, MAX_COORD as int),
    }
}

/// The bow of the soldier in `slot`, if it holds one.
pub open spec fn bow_of(slot: Option<Unit>) -> Option<Bow> {
    match slot {
        Some(u) => match u.role {
            Role::Soldier(Weapon::Bow(b)) => Some(b),
            _ => None,
        },
        None => None,
    }
}

/// The target of a shot from slot `shooter`: the enemy frontline unit, when
/// the shooter is an archer and that unit is still in its slot.
pub open spec fn target_of(units: Seq<Option<Unit>>, frontlines: Frontlines, shooter: int) -> Option<usize> {
    if 0 <= shooter < units.len() && bow_of(units[shooter]) is Some {
        match frontlines.of(units[shooter]->0.kingdom.spec_opponent()).entity {
            Some(t) => if (t as int) < units.len() && units[t as int] is Some {
                Some(t)
            } else {
                None
            },
            None => None,
        }
    } else {
        None
    }
}

/// The arrow that `shooter` looses at `target` with `jitter`: it starts at
/// the muzzle, at the shooter's height, leading the target's current motion.
pub open spec fn loosed(shooter: Unit, bow: Bow, target: Unit, jitter: Jitter) -> Arrow {
    let mx = muzzle_x(shooter);
    let launch = spec_aim(
        target.x - mx,
        target.y - shooter.y,
        target.spec_velocity_x(),
        bow.speed as int,
        jitter,
    );
    Arrow {
        kingdom: shooter.kingdom,
        x: mx as i64,
        y: shooter.y,
        vx: launch.vx,
        vy: launch.vy,
        damage: bow.damage,
        grounded: false,
        lifetime: Timer { duration: ARROW_LIFETIME, elapsed: 0 },
    }
}

/// Units and arrows after a fire request from slot `shooter` with `jitter`:
/// with a target, the shooter's bow restarts its cooldown and a new arrow is
/// appended; without one, nothing changes.
pub open spec fn fire_outcome(
    units: Seq<Option<Unit>>,
    arrows: Seq<Option<Arrow>>,
    frontlines: Frontlines,
    shooter: int,
    jitter: Jitter,
) -> (Seq<Option<Unit>>, Seq<Option<Arrow>>) {
    match target_of(units, frontlines, shooter) {
        Some(t) => {
            let u = units[shooter]->0;
            let b = bow_of(units[shooter])->0;
            let reloaded = Bow { timer: Timer { elapsed: 0, ..b.timer }, ..b };
            (
                units.update(shooter, Some(Unit { role: Role::Soldier(Weapon::Bow(reloaded)), ..u })),
                arrows.push(Some(loosed(u, b, units[t as int]->0, jitter))),
            )
        },
        None => (units, arrows),
    }
}

/// Fire requests `shooters[..n]` served in order, request `k` with `jitters[k]`.
pub open spec fn volley_outcome(
    units: Seq<Option<Unit>>,
    arrows: Seq<Option<Arrow>>,
    frontlines: Frontlines,
    shooters: Seq<usize>,
    jitters: Seq<Jitter>,
    n: nat,
) -> (Seq<Option<Unit>>, Seq<Option<Arrow>>)
    decreases n,
{
    if n == 0 {
        (units, arrows)
    } else {
        let (us, ars) = volley_outcome(units, arrows, frontlines, shooters, jitters, (n - 1) as nat);
        fire_outcome(us, ars, frontlines, shooters[n - 1] as int, jitters[n - 1])
    }
}

pub open spec fn jitter_ok(j: Jitter) -> bool {
    0 <= j.speed <= MAX_JITTER && mag(j.time as int) <= MAX_JITTER
}

pub(crate) proof fn lemma_volley_prefix(
    units: Seq<Option<Unit>>,
    arrows: Seq<Option<Arrow>>,
    frontlines: Frontlines,
    shooters: Seq<usize>,
    j1: Seq<Jitter>,
    j2: Seq<Jitter>,
    n: nat,
)
    requires
        n <= j1.len(),
        n <= j2.len(),
        forall|q: int| 0 <= q < n ==> j1[q] == j2[q],
    ensures
        volley_outcome(units, arrows, frontlines, shooters, j1, n) == volley_outcome(
            units,
            arrows,
            frontlines,
            shooters,
            j2,
            n,
        ),
    decreases n,
{
    if n > 0 {
        lemma_volley_prefix(units, arrows, frontlines, shooters, j1, j2, (n - 1) as nat);
    }
}

impl Arena {
    /// Serves one fire request from slot `shooter`, shooting with `jitter` at
    /// the enemy frontline unit; returns the new arrow's slot. Without a
    /// target the shot is dropped and nothing changes.
    pub fn fire(&mut self, shooter: usize, jitter: Jitter) -> (r: Option<usize>)
        requires
            old(self).wf(),
            jitter_ok(jitter),
            old(self).arrows.len() < usize::MAX,
        ensures
            final(self).wf(),
            (final(self).units@, final(self).arrows@) == fire_outcome(
                old(self).units@,
                old(self).arrows@,
                old(self).frontlines,
                shooter as int,
                jitter,
            ),
            r == (if target_of(old(self).units@, old(self).frontlines, shooter as int) is Some {
                Some(old(self).arrows.len())
            } else {
                None
            }),
            final(self).frontlines == old(self).frontlines,
    {
        if shooter >= self.units.len() {
            return None;
        }
        let slot = self.units[shooter];
        let (u, b) = match slot {
            Some(u) => match u.role {
                Role::Soldier(Weapon::Bow(b)) => (u, b),
                _ => {
                    return None;
                },
            },
            None => {
                return None;
            },
        };
        let t = match self.frontlines.get(u.kingdom.opponent()).entity {
            Some(t) => t,
            None => {
                return None;
            },
        };
        if t >= self.units.len() {
            return None;
        }
        let target = match self.units[t] {
            Some(v) => v,
            None => {
                return None;
            },
        };
        assert(target.wf());
        let mx = match u.kingdom {
            Kingdom::Elven => clamp(u.x + MUZZLE_OFFSET, MAX_COORD),
            Kingdom::Monster => clamp(u.x - MUZZLE_OFFSET, MAX_COORD),
        };
        let launch = aim(target.x - mx, target.y - u.y, target.velocity_x(), b.speed, jitter);
        let arrow = Arrow {
            kingdom: u.kingdom,
            x: mx,
            y: u.y,
            vx: launch.vx,
            vy: launch.vy,
            damage: b.damage,
            grounded: false,
            lifetime: Timer::new(ARROW_LIFETIME),
        };
        let mut reloaded = b;
        reloaded.timer.reset();
        self.units.set(shooter, Some(Unit { role: Role::Soldier(Weapon::Bow(reloaded)), ..u }));
        let id = self.arrows.len();
        self.arrows.push(Some(arrow));
        assert(self.units@ == old(self).units@.update(
            shooter as int,
            Some(Unit { role: Role::Soldier(Weapon::Bow(reloaded)), ..u }),
        ));
        Some(id)
    }

    /// Serves the fire requests in order, each with `fixed` when given, else
    /// with a jitter drawn for the shooter's bow. Returns the jitters used.
    pub(crate) fn loose_volley(&mut self, shooters: &Vec<usize>, fixed: Option<Jitter>) -> (used: Ghost<Seq<Jitter>>)
        requires
            old(self).wf(),
            fixed is Some ==> jitter_ok(fixed->0),
            old(self).arrows.len() + shooters.len() < usize::MAX,
        ensures
            final(self).wf(),
            used@.len() == shooters.len(),
            forall|k: int| 0 <= k < used@.len() ==> jitter_ok(#[trigger] used@[k]),
            fixed is Some ==> forall|k: int| 0 <= k < used@.len() ==> #[trigger] used@[k] == fixed->0,
            fixed is None ==> forall|k: int|
                0 <= k < used@.len() && bow_of(slot(old(self).units@, shooters@[k] as int)) is Some
                    ==> jitter_in_band(
                    #[trigger] used@[k],
                    bow_of(slot(old(self).units@, shooters@[k] as int))->0.spread as int,
                ),
            (final(self).units@, final(self).arrows@) == volley_outcome(
                old(self).units@,
                old(self).arrows@,
                old(self).frontlines,
                shooters@,
                used@,
                shooters.len() as nat,
            ),
            final(self).frontlines == old(self).frontlines,
    {
        let ghost mut used: Seq<Jitter> = Seq::empty();
        let mut k: usize = 0;
        while k < shooters.len()
            invariant
                k <= shooters.len(),
                self.wf(),
                self.frontlines == old(self).frontlines,
                fixed is Some ==> jitter_ok(fixed->0),
                self.arrows.len() <= old(self).arrows.len() + k,
                old(self).arrows.len() + shooters.len() < usize::MAX,
                used.len() == k,
                forall|q: int| 0 <= q < used.len() ==> jitter_ok(#[trigger] used[q]),
                fixed is Some ==> forall|q: int| 0 <= q < used.len() ==> #[trigger] used[q] == fixed->0,
                fixed is None ==> forall|q: int|
                    0 <= q < used.len() && bow_of(slot(old(self).units@, shooters@[q] as int)) is Some
                        ==> jitter_in_band(
                        #[trigger] used[q],
                        bow_of(slot(old(self).units@, shooters@[q] as int))->0.spread as int,
                    ),
                self.units@.len() == old(self).units@.len(),
                forall|i: int|
                    0 <= i < self.units@.len() ==> (bow_of(#[trigger] self.units@[i]) is Some) == (bow_of(
                        old(self).units@[i],
                    ) is Some) && (bow_of(self.units@[i]) is Some ==> bow_of(self.units@[i])->0.spread
                        == bow_of(old(self).units@[i])->0.spread),
                (self.units@, self.arrows@) == volley_outcome(
                    old(self).units@,
                    old(self).arrows@,
                    old(self).frontlines,
                    shooters@,
                    used,
                    k as nat,
                ),
            decreases shooters.len() - k,
        {
            let s = shooters[k];
            let jitter = match fixed {
                Some(j) => j,
                None => {
                    let spread = self.spread_of(s);
                    draw_jitter(spread)
                },
            };
            proof {
                let before = used;
                used = used.push(jitter);
                lemma_volley_prefix(
                    old(self).units@,
                    old(self).arrows@,
                    old(self).frontlines,
                    shooters@,
                    before,
                    used,
                    k as nat,
                );
            }
            let _ = self.fire(s, jitter);
            k = k + 1;
        }
        Ghost(used)
    }

    /// The aim spread of the bow in slot `s`; zero when it holds none.
    pub fn spread_of(&self, s: usize) -> (r: i64)
        requires
            self.wf(),
        ensures
            r == match bow_of(slot(self.units@, s as int)) {
                Some(b) => b.spread,
                None => 0,
            },
            0 <= r <= MAX_SPREAD,
    {
        if s >= self.units.len() {
            return 0;
        }
        match self.units[s] {
            Some(u) => match u.role {
                Role::Soldier(Weapon::Bow(b)) => b.spread,
                _ => 0,
            },
            None => 0,
        }
    }
}

} // verus!
