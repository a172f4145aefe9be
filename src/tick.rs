//! One simulation tick: every step in its fixed order.

use vstd::prelude::*;
use crate::arena::{Arena, lemma_increasing_len, lists_exactly, recharged, shoots_now, slot, transitioned};
use crate::ballistics::{Jitter, jitter_in_band};
use crate::combat::{Death, hits_outcome, landed_hits, melee_outcome, reports_deaths, swept};
use crate::frontline::Frontlines;
use crate::measure::MAX_TICK;
use crate::motion::{aged, drifted, expires, flown, lands, walked};
use crate::shooting::{bow_of, jitter_ok, volley_outcome};
use crate::unit::{Arrow, Unit};

verus! {

/// What the spatial query service reports for one tick: pairs of bodies
/// whose colliders overlap, and arrows paired with the bodies they overlap,
/// each list in the order the service gives.
pub struct Contacts {
    pub overlaps: Vec<(usize, usize)>,
    pub hits: Vec<(usize, usize)>,
}

/// What one tick published: the archers that shot (fire requests), the
/// arrows that landed, the arrow hits, the bodies that died and the arrows
/// that expired.
pub struct TickReport {
    pub shooters: Vec<usize>,
    pub landed: Vec<usize>,
    /// Arrow hits, as `(arrow, body)` pairs in the order they landed.
    pub hits: Vec<(usize, usize)>,
    pub deaths: Vec<Death>,
    pub expired: Vec<usize>,
}

/// The bodies and arrows after each step of a tick, in order.
pub struct TickTrace {
    pub recharged: Seq<Option<Unit>>,
    pub decided: Seq<Option<Unit>>,
    pub shot_units: Seq<Option<Unit>>,
    pub shot_arrows: Seq<Option<Arrow>>,
    pub meleed: Seq<Option<Unit>>,
    pub flown: Seq<Option<Arrow>>,
    pub hit_units: Seq<Option<Unit>>,
    pub hit_arrows: Seq<Option<Arrow>>,
    pub swept: Seq<Option<Unit>>,
    pub aged: Seq<Option<Arrow>>,
    pub units: Seq<Option<Unit>>,
    pub arrows: Seq<Option<Arrow>>,
}

/// One tick from `units` and `arrows`, with frontlines `fl` recorded at its
/// start, the fire requests `shooters` served with `jitters`, and the
/// contacts `overlaps` and `hits`: recharge bows, transition states, shoot,
/// resolve melee, apply gravity and the ground check, resolve arrow hits,
/// sweep the dead, age arrows, and move every body.
pub open spec fn tick_trace(
    units: Seq<Option<Unit>>,
    arrows: Seq<Option<Arrow>>,
    fl: Frontlines,
    dt: int,
    shooters: Seq<usize>,
    jitters: Seq<Jitter>,
    overlaps: Seq<(usize, usize)>,
    hits: Seq<(usize, usize)>,
) -> TickTrace {
    let u1 = units.map_values(|s: Option<Unit>| recharged(s, dt));
    let u2 = u1.map_values(|s: Option<Unit>| transitioned(s, fl));
    let (u3, a3) = volley_outcome(u2, arrows, fl, shooters, jitters, shooters.len());
    let u4 = melee_outcome(u3, overlaps, overlaps.len());
    let a5 = a3.map_values(|s: Option<Arrow>| flown(s, dt));
    let (u6, a6) = hits_outcome(u4, a5, hits, hits.len());
    let u7 = u6.map_values(|s: Option<Unit>| swept(s));
    let a8 = a6.map_values(|s: Option<Arrow>| aged(s, dt));
    TickTrace {
        recharged: u1,
        decided: u2,
        shot_units: u3,
        shot_arrows: a3,
        meleed: u4,
        flown: a5,
        hit_units: u6,
        hit_arrows: a6,
        swept: u7,
        aged: a8,
        units: u7.map_values(|s: Option<Unit>| walked(s, dt)),
        arrows: a8.map_values(|s: Option<Arrow>| drifted(s, dt)),
    }
}

/// The report of a tick agrees with its trace.
pub open spec fn reports_tick(
    r: TickReport,
    t: TickTrace,
    fl: Frontlines,
    dt: int,
    hits: Seq<(usize, usize)>,
) -> bool {
    &&& lists_exactly(r.shooters@, t.recharged, |s: Option<Unit>| shoots_now(s, fl))
    &&& lists_exactly(r.landed@, t.shot_arrows, |s: Option<Arrow>| lands(s))
    &&& r.hits@ == landed_hits(t.meleed, t.flown, hits, hits.len())
    &&& reports_deaths(r.deaths@, t.hit_units)
    &&& lists_exactly(r.expired@, t.hit_arrows, |s: Option<Arrow>| expires(s, dt))
}

/// A tick with fire requests served with `jitters` takes `units0`,
/// `arrows0` to `units1`, `arrows1`, and `r` reports it.
pub open spec fn ticks_to(
    units0: Seq<Option<Unit>>,
    arrows0: Seq<Option<Arrow>>,
    units1: Seq<Option<Unit>>,
    arrows1: Seq<Option<Arrow>>,
    fl: Frontlines,
    dt: int,
    r: TickReport,
    jitters: Seq<Jitter>,
    overlaps: Seq<(usize, usize)>,
    hits: Seq<(usize, usize)>,
) -> bool {
    let t = tick_trace(units0, arrows0, fl, dt, r.shooters@, jitters, overlaps, hits);
    &&& jitters.len() == r.shooters@.len()
    &&& units1 == t.units
    &&& arrows1 == t.arrows
    &&& reports_tick(r, t, fl, dt, hits)
}

impl Arena {
    /// One simulation tick of `dt` ms against the reported `contacts`, each
    /// shot perturbed by a jitter drawn for its bow.
    pub fn tick(&mut self, dt: u64, contacts: &Contacts) -> (r: TickReport)
        requires
            old(self).wf(),
            dt <= MAX_TICK,
            old(self).arrows.len() + old(self).units.len() < usize::MAX,
        ensures
            final(self).wf(),
            final(self).frontlines.tracks(old(self).units@),
            exists|jitters: Seq<Jitter>|
                #[trigger] ticks_to(
                    old(self).units@,
                    old(self).arrows@,
                    final(self).units@,
                    final(self).arrows@,
                    final(self).frontlines,
                    dt as int,
                    r,
                    jitters,
                    contacts.overlaps@,
                    contacts.hits@,
                ) && forall|k: int|
                    0 <= k < jitters.len() ==> jitter_in_band(
                        #[trigger] jitters[k],
                        bow_of(slot(old(self).units@, r.shooters@[k] as int))->0.spread as int,
                    ),
    {
        let (r, used) = self.run_tick(dt, contacts, None);
        assert(ticks_to(
            old(self).units@,
            old(self).arrows@,
            self.units@,
            self.arrows@,
            self.frontlines,
            dt as int,
            r,
            used@,
            contacts.overlaps@,
            contacts.hits@,
        ));
        r
    }

    /// One simulation tick of `dt` ms against the reported `contacts`, every
    /// shot perturbed by the same `jitter`.
    pub fn tick_with_jitter(&mut self, dt: u64, contacts: &Contacts, jitter: Jitter) -> (r: TickReport)
        requires
            old(self).wf(),
            dt <= MAX_TICK,
            old(self).arrows.len() + old(self).units.len() < usize::MAX,
            jitter_ok(jitter),
        ensures
            final(self).wf(),
            final(self).frontlines.tracks(old(self).units@),
            ticks_to(
                old(self).units@,
                old(self).arrows@,
                final(self).units@,
                final(self).arrows@,
                final(self).frontlines,
                dt as int,
                r,
                Seq::new(r.shooters@.len(), |k: int| jitter),
                contacts.overlaps@,
                contacts.hits@,
            ),
    {
        let (r, used) = self.run_tick(dt, contacts, Some(jitter));
        assert(used@ =~= Seq::new(r.shooters@.len(), |k: int| jitter));
        r
    }

    fn run_tick(&mut self, dt: u64, contacts: &Contacts, fixed: Option<Jitter>) -> (r: (TickReport, Ghost<Seq<Jitter>>))
        requires
            old(self).wf(),
            dt <= MAX_TICK,
            old(self).arrows.len() + old(self).units.len() < usize::MAX,
            fixed is Some ==> jitter_ok(fixed->0),
        ensures
            final(self).wf(),
            final(self).frontlines.tracks(old(self).units@),
            r.1@.len() == r.0.shooters@.len(),
            fixed is Some ==> forall|k: int| 0 <= k < r.1@.len() ==> #[trigger] r.1@[k] == fixed->0,
            fixed is None ==> forall|k: int|
                0 <= k < r.1@.len() ==> jitter_in_band(
                    #[trigger] r.1@[k],
                    bow_of(slot(old(self).units@, r.0.shooters@[k] as int))->0.spread as int,
                ),
            ticks_to(
                old(self).units@,
                old(self).arrows@,
                final(self).units@,
                final(self).arrows@,
                final(self).frontlines,
                dt as int,
                r.0,
                r.1@,
                contacts.overlaps@,
                contacts.hits@,
            ),
    {
        self.refresh_frontlines();
        self.recharge_bows(dt);
        let ghost u1 = self.units@;
        let shooters = self.update_states();
        proof {
            lemma_increasing_len(shooters@, u1.len() as int);
        }
        let used = self.loose_volley(&shooters, fixed);
        proof {
            assert forall|k: int| 0 <= k < used@.len() implies bow_of(slot(old(self).units@, shooters@[k] as int)) is Some by {
                assert(shoots_now(u1[shooters@[k] as int], self.frontlines));
            }
        }
        self.resolve_melee(&contacts.overlaps);
        let ghost a3 = self.arrows@;
        let landed = self.fly_arrows(dt);
        let hits = self.resolve_hits(&contacts.hits);
        let ghost u6 = self.units@;
        let ghost a6 = self.arrows@;
        let deaths = self.despawn_dead_subjects();
        let expired = self.age_arrows(dt);
        self.move_bodies(dt);
        (TickReport { shooters, landed, hits, deaths, expired }, used)
    }
}

} // verus!
