use kingdoms_arena::arena::Arena;
use kingdoms_arena::combat::{fallen_kingdom, Death};
use kingdoms_arena::ballistics::{aim, draw_jitter, steady, Jitter, MAX_FLIGHT_TIME};
use kingdoms_arena::behavior::frontline_in_range;
use kingdoms_arena::content::{
    elven_archer, elven_fast_archer, elven_sniper_archer, goblin_warrior, WeaponKind,
};
use kingdoms_arena::frontline::{update_frontlines, Frontline, Frontlines, LanePosition};
use kingdoms_arena::health::Health;
use kingdoms_arena::kingdom::Kingdom;
use kingdoms_arena::measure::{clamp, displace, div_toward_zero};
use kingdoms_arena::timer::Timer;
use kingdoms_arena::unit::Bow;

#[test]
fn damage_saturates_at_zero() {
    let mut h = Health::new(3);
    h.damage(1);
    assert_eq!(h.current(), 2);
    assert!(!h.is_dead());
    h.damage(5);
    assert_eq!(h.current(), 0);
    assert!(h.is_dead());
    h.damage(1);
    assert_eq!(h.current(), 0);
    let mut k = Health::new(7);
    k.kill();
    assert!(k.is_dead());
    let mut exact = Health::new(2);
    exact.damage(2);
    assert_eq!(exact.current(), 0);
}

#[test]
fn timer_fills_and_resets() {
    let mut t = Timer::new(300);
    assert!(!t.finished());
    t.tick(200);
    assert_eq!(t.elapsed, 200);
    t.tick(200);
    assert_eq!(t.elapsed, 300);
    assert!(t.finished());
    t.reset();
    assert_eq!(t.elapsed, 0);
    assert!(Timer::new(0).finished());
    assert!(Timer::new_finished(2300).finished());
}

#[test]
fn new_bow_is_ready() {
    let b = Bow::new(2, 100000, 0, 15000, 0);
    assert!(b.timer.finished());
    assert_eq!(b.range, 100000);
}

#[test]
fn division_rounds_toward_zero() {
    assert_eq!(div_toward_zero(7, 2), 3);
    assert_eq!(div_toward_zero(-7, 2), -3);
    assert_eq!(div_toward_zero(7, -2), -3);
    assert_eq!(div_toward_zero(-7, -2), 3);
    assert_eq!(displace(-1500, 100), -150);
    assert_eq!(clamp(5, 3), 3);
    assert_eq!(clamp(-5, 3), -3);
}

#[test]
fn empty_arena_frontlines_are_sentinels() {
    let units = Vec::new();
    let f = update_frontlines(&units);
    assert_eq!(f.elven, Frontline { position: LanePosition::NegInfinity, entity: None });
    assert_eq!(f.monster, Frontline { position: LanePosition::PosInfinity, entity: None });
    assert_eq!(Frontlines::default(), f);
    // Nothing is in range of an empty kingdom, however long the reach.
    assert!(!frontline_in_range(Kingdom::Elven, 0, i64::MAX, &f));
    assert!(!frontline_in_range(Kingdom::Monster, 0, i64::MAX, &f));
}

#[test]
fn frontline_is_most_advanced_living_soldier() {
    let mut arena = Arena::new();
    let a = arena.spawn(&elven_archer(), Kingdom::Elven, -3000, 800);
    let b = arena.spawn(&elven_archer(), Kingdom::Elven, 2000, 800);
    let _c = arena.spawn(&elven_archer(), Kingdom::Elven, 2000, 800);
    let g1 = arena.spawn(&goblin_warrior(), Kingdom::Monster, 9000, 700);
    let g2 = arena.spawn(&goblin_warrior(), Kingdom::Monster, 7000, 700);
    let base = arena.spawn_nexus(Kingdom::Monster, 1000, 1500, 50);
    arena.refresh_frontlines();
    // Ties go to the earliest slot; bases are not soldiers.
    assert_eq!(arena.frontlines.elven, Frontline { position: LanePosition::At(2000), entity: Some(b) });
    assert_eq!(arena.frontlines.monster, Frontline { position: LanePosition::At(7000), entity: Some(g2) });
    assert_eq!(arena.frontlines.get(Kingdom::Monster).entity, Some(g2));
    let _ = (a, g1, base);

    // A dead soldier no longer holds the line.
    if let Some(u) = arena.units[g2].as_mut() {
        u.health.kill();
    }
    arena.refresh_frontlines();
    assert_eq!(arena.frontlines.monster.entity, Some(g1));
    assert_eq!(arena.despawn_dead_subjects().len(), 1);
    arena.refresh_frontlines();
    assert_eq!(arena.frontlines.monster.entity, Some(g1));
}

#[test]
fn range_is_measured_toward_the_enemy() {
    let f = Frontlines {
        elven: Frontline { position: LanePosition::At(0), entity: Some(0) },
        monster: Frontline { position: LanePosition::At(10000), entity: Some(1) },
    };
    assert!(frontline_in_range(Kingdom::Elven, 0, 10001, &f));
    assert!(!frontline_in_range(Kingdom::Elven, 0, 10000, &f));
    assert!(frontline_in_range(Kingdom::Monster, 10000, 10001, &f));
    assert!(!frontline_in_range(Kingdom::Monster, 10000, 10000, &f));
    // An enemy frontline that has already passed the unit counts as in range.
    assert!(frontline_in_range(Kingdom::Elven, 20000, 1, &f));
}

#[test]
fn steady_aim_matches_formula() {
    // 10 m ahead, 2 m up, still target, 10 m/s arrow: one second of flight.
    let l = aim(10000, 2000, 0, 10000, steady());
    assert_eq!(l.vx, 10000);
    assert_eq!(l.flight_time, 1000);
    assert_eq!(l.vy, 2000 + 4900);
    // The launch meets the target height: 2·10⁶·dy = 2000·vy·t − g·t².
    let t = l.flight_time as i128;
    assert_eq!(2_000_000 * 2000i128, 2000 * (l.vy as i128) * t - 9800 * t * t);
    // Mirrored for a target behind.
    let m = aim(-10000, 2000, 0, 10000, steady());
    assert_eq!(m.vx, -10000);
    assert_eq!(m.flight_time, 1000);
    assert_eq!(m.vy, 6900);
}

#[test]
fn aim_leads_a_moving_target() {
    // Target walks toward the archer at 2.5 m/s: closing speed 12.5 m/s.
    let l = aim(10000, 0, -2500, 10000, steady());
    assert_eq!(l.flight_time, 800);
    assert_eq!(l.vy, 3920);
    // Jitter scales speed and flight time.
    let j = aim(10000, 0, 0, 10000, Jitter { speed: 1150, time: 500 });
    assert_eq!(j.vx, 11500);
    assert_eq!(j.flight_time, 434);
}

#[test]
fn aim_degenerate_cases_are_clamped() {
    // Target fleeing exactly as fast as the arrow: no finite flight time.
    let l = aim(10000, 0, 10000, 10000, steady());
    assert_eq!(l.flight_time, MAX_FLIGHT_TIME);
    // Target fleeing faster: the estimate comes out negative.
    let n = aim(10000, 0, 20000, 10000, steady());
    assert_eq!(n.flight_time, -1000);
    assert_eq!(n.vy, -4900);
    // Target at the muzzle: flight time kept away from zero.
    let z = aim(0, 0, 0, 10000, steady());
    assert_eq!(z.flight_time, 1);
}

#[test]
fn drawn_jitter_stays_in_band() {
    let mut speeds = Vec::new();
    for _ in 0..200 {
        let j = draw_jitter(1500);
        assert!(j.speed >= 850 && j.speed <= 1150);
        assert!(j.time >= 625 && j.time <= 2125);
        speeds.push(j.speed);
    }
    assert!(speeds.iter().any(|s| *s != speeds[0]));
    // A bow without spread times every shot exactly.
    for _ in 0..20 {
        assert_eq!(draw_jitter(0).time, 1000);
    }
}

#[test]
fn blueprints_hold_their_values() {
    let a = elven_archer();
    assert_eq!((a.value, a.health, a.speed), (3, 1, 1500));
    match a.weapon.kind {
        WeaponKind::Bow(b) => assert_eq!((b.range, b.speed, b.spread, b.recharge), (15000, 15000, 1500, 2300)),
        WeaponKind::Sword => panic!("archer without a bow"),
    }
    assert_eq!(elven_fast_archer().value, 10);
    assert_eq!(elven_sniper_archer().weapon.damage, 2);
    let g = goblin_warrior();
    assert_eq!((g.value, g.health, g.speed), (1, 2, 2500));
    assert_eq!(g.weapon.kind, WeaponKind::Sword);
}

#[test]
fn sweep_twice_is_sweep_once() {
    let mut arena = Arena::new();
    let g = arena.spawn(&goblin_warrior(), Kingdom::Monster, 0, 700);
    let e = arena.spawn(&elven_archer(), Kingdom::Elven, -100, 800);
    if let Some(u) = arena.units[g].as_mut() {
        u.health.damage(2);
    }
    let first = arena.despawn_dead_subjects();
    assert_eq!(first, vec![Death { slot: g, kingdom: Kingdom::Monster, nexus: false }]);
    let after_first = arena.units.clone();
    let second = arena.despawn_dead_subjects();
    assert!(second.is_empty());
    assert_eq!(arena.units, after_first);
    assert!(arena.units[e].is_some());
}

#[test]
fn fallen_kingdom_reads_first_base() {
    let d = vec![
        Death { slot: 0, kingdom: Kingdom::Elven, nexus: false },
        Death { slot: 3, kingdom: Kingdom::Monster, nexus: true },
        Death { slot: 4, kingdom: Kingdom::Elven, nexus: true },
    ];
    assert_eq!(fallen_kingdom(&d), Some(Kingdom::Monster));
    assert_eq!(fallen_kingdom(&vec![]), None);
    assert_eq!(Kingdom::Elven.opponent(), Kingdom::Monster);
}

#[test]
fn shot_without_target_is_dropped() {
    let mut arena = Arena::new();
    let archer = arena.spawn(&elven_archer(), Kingdom::Elven, 0, 800);
    arena.refresh_frontlines();
    assert_eq!(arena.fire(archer, steady()), None);
    assert!(arena.arrows.is_empty());
    assert_eq!(arena.spread_of(archer), 1500);
    assert_eq!(arena.spread_of(99), 0);
}
