use kingdoms_arena::arena::Arena;
use kingdoms_arena::combat::fallen_kingdom;
use kingdoms_arena::spawning::SpawnEvent;
use kingdoms_arena::tick::Contacts;
use kingdoms_arena::ballistics::steady;
use kingdoms_arena::content::{
    elven_archer, goblin_sword, goblin_warrior, BowBlueprint, SubjectBlueprint, WeaponBlueprint,
    WeaponKind,
};
use kingdoms_arena::kingdom::Kingdom;
use kingdoms_arena::unit::{BehaviorState, Role, Weapon};

fn no_contacts() -> Contacts {
    Contacts { overlaps: Vec::new(), hits: Vec::new() }
}

fn elven_swordsman() -> SubjectBlueprint {
    SubjectBlueprint { value: 1, health: 2, speed: 2500, weapon: goblin_sword() }
}

fn still_goblin(health: u32) -> SubjectBlueprint {
    SubjectBlueprint { value: 1, health, speed: 0, weapon: goblin_sword() }
}

#[test]
fn melee_pair_trades_blows_until_both_fall() {
    let mut arena = Arena::new();
    let elf = arena.spawn(&elven_swordsman(), Kingdom::Elven, 0, 700);
    let goblin = arena.spawn(&goblin_warrior(), Kingdom::Monster, 500, 700);
    let contacts = Contacts { overlaps: vec![(elf, goblin)], hits: Vec::new() };

    let first = arena.tick_with_jitter(16, &contacts, steady());
    assert!(first.deaths.is_empty());
    assert_eq!(arena.units[elf].unwrap().health.current(), 1);
    assert_eq!(arena.units[goblin].unwrap().health.current(), 1);

    let second = arena.tick_with_jitter(16, &contacts, steady());
    assert_eq!(second.deaths.len(), 2);
    assert!(second.deaths.iter().all(|d| !d.nexus));
    assert!(arena.units[elf].is_none());
    assert!(arena.units[goblin].is_none());

    let third = arena.tick_with_jitter(16, &contacts, steady());
    assert!(third.deaths.is_empty());
}

#[test]
fn melee_damage_reaches_zero_before_the_sweep() {
    let mut arena = Arena::new();
    let elf = arena.spawn(&elven_swordsman(), Kingdom::Elven, 0, 700);
    let goblin = arena.spawn(&goblin_warrior(), Kingdom::Monster, 500, 700);
    let overlaps = vec![(elf, goblin)];
    arena.resolve_melee(&overlaps);
    arena.resolve_melee(&overlaps);
    assert_eq!(arena.units[elf].unwrap().health.current(), 0);
    assert_eq!(arena.units[goblin].unwrap().health.current(), 0);
    let deaths = arena.despawn_dead_subjects();
    assert_eq!(deaths.len(), 2);
    assert_eq!(deaths[0].slot, elf);
    assert_eq!(deaths[0].kingdom, Kingdom::Elven);
    assert_eq!(deaths[1].slot, goblin);
    assert_eq!(deaths[1].kingdom, Kingdom::Monster);
}

#[test]
fn lone_archer_keeps_advancing_and_never_shoots() {
    let bow = WeaponBlueprint {
        damage: 1,
        kind: WeaponKind::Bow(BowBlueprint { range: 10000, speed: 15000, spread: 0, recharge: 2000 }),
    };
    let archer = SubjectBlueprint { value: 3, health: 1, speed: 1500, weapon: bow };
    let mut arena = Arena::new();
    let id = arena.spawn(&archer, Kingdom::Elven, -15000, 800);
    for _ in 0..200 {
        let report = arena.tick(100, &no_contacts());
        assert!(report.shooters.is_empty());
        assert_eq!(arena.units[id].unwrap().state, BehaviorState::Advancing);
    }
    assert!(arena.arrows.is_empty());
    assert_eq!(arena.frontlines.monster.entity, None);
    // It walked 1.5 m/s for 20 s.
    assert_eq!(arena.units[id].unwrap().x, 15000);
}

#[test]
fn steady_shot_at_still_target_flies_true() {
    let bow = WeaponBlueprint {
        damage: 1,
        kind: WeaponKind::Bow(BowBlueprint { range: 15000, speed: 10000, spread: 0, recharge: 2000 }),
    };
    let archer = SubjectBlueprint { value: 3, health: 1, speed: 1500, weapon: bow };
    let mut arena = Arena::new();
    let shooter = arena.spawn(&archer, Kingdom::Elven, 0, 800);
    let target = arena.spawn(&still_goblin(1), Kingdom::Monster, 10400, 800);
    arena.refresh_frontlines();
    assert_eq!(arena.frontlines.monster.entity, Some(target));

    let arrow = arena.fire(shooter, steady()).unwrap();
    let a = arena.arrows[arrow].unwrap();
    assert_eq!(a.x, 400);
    assert_eq!(a.y, 800);
    assert_eq!(a.vx, 10000);
    // g·t/2 for a one-second flight: the arrow is lobbed, not shot flat.
    assert_eq!(a.vy, 4900);
    assert_eq!(a.damage, 1);
    assert!(!a.grounded);

    // One second of flight in 10 ms steps.
    for _ in 0..100 {
        arena.fly_arrows(10);
        arena.move_bodies(10);
    }
    let a = arena.arrows[arrow].unwrap();
    assert_eq!(a.x, 10400);
    assert!((a.y - 800).abs() <= 100, "height {}", a.y);
}

#[test]
fn arrow_and_sword_on_one_tick_kill_once() {
    let mut arena = Arena::new();
    let swordsman = arena.spawn(&elven_swordsman(), Kingdom::Elven, 0, 700);
    let goblin = arena.spawn(&goblin_warrior(), Kingdom::Monster, 500, 700);
    let archer = arena.spawn(&elven_archer(), Kingdom::Elven, -5000, 800);
    arena.refresh_frontlines();
    let arrow = arena.fire(archer, steady()).unwrap();

    let contacts = Contacts { overlaps: vec![(swordsman, goblin)], hits: vec![(arrow, goblin)] };
    let report = arena.tick_with_jitter(10, &contacts, steady());
    assert_eq!(report.hits, vec![(arrow, goblin)]);
    assert_eq!(report.deaths.len(), 1);
    assert_eq!(report.deaths[0].slot, goblin);
    assert!(arena.units[goblin].is_none());
    assert!(arena.arrows[arrow].is_none());
    assert_eq!(arena.units[swordsman].unwrap().health.current(), 1);

    let again = arena.tick_with_jitter(10, &contacts, steady());
    assert!(again.deaths.is_empty());
    assert_eq!(fallen_kingdom(&again.deaths), None);
}

#[test]
fn archer_engages_then_recharges() {
    let mut arena = Arena::new();
    let archer = arena.spawn(&elven_archer(), Kingdom::Elven, 0, 800);
    let goblin = arena.spawn(&still_goblin(5), Kingdom::Monster, 12000, 700);
    let first = arena.tick_with_jitter(10, &no_contacts(), steady());
    assert_eq!(first.shooters, vec![archer]);
    assert_eq!(arena.units[archer].unwrap().state, BehaviorState::Engaging);
    assert_eq!(arena.arrows.len(), 1);
    let second = arena.tick_with_jitter(10, &no_contacts(), steady());
    assert!(second.shooters.is_empty());
    assert_eq!(arena.units[archer].unwrap().state, BehaviorState::Recharging);
    match arena.units[archer].unwrap().role {
        Role::Soldier(Weapon::Bow(b)) => assert_eq!(b.timer.elapsed, 10),
        _ => panic!("archer lost its bow"),
    }
    assert_eq!(arena.units[goblin].unwrap().state, BehaviorState::Advancing);
}

#[test]
fn goblin_engages_when_elves_close_in() {
    let mut arena = Arena::new();
    let elf = arena.spawn(&elven_swordsman(), Kingdom::Elven, 0, 700);
    let goblin = arena.spawn(&goblin_warrior(), Kingdom::Monster, 900, 700);
    arena.tick_with_jitter(10, &no_contacts(), steady());
    assert_eq!(arena.units[elf].unwrap().state, BehaviorState::Engaging);
    assert_eq!(arena.units[goblin].unwrap().state, BehaviorState::Engaging);
    // Engaged soldiers stand still.
    assert_eq!(arena.units[elf].unwrap().x, 0);
    assert_eq!(arena.units[goblin].unwrap().x, 900);
}

#[test]
fn fallen_base_ends_the_match() {
    let mut arena = Arena::new();
    let base = arena.spawn_nexus(Kingdom::Monster, 15000, 1500, 1);
    let elf = arena.spawn(&elven_swordsman(), Kingdom::Elven, 14500, 700);
    let contacts = Contacts { overlaps: vec![(elf, base)], hits: Vec::new() };
    let report = arena.tick_with_jitter(10, &contacts, steady());
    assert_eq!(report.deaths.len(), 1);
    assert!(report.deaths[0].nexus);
    assert_eq!(fallen_kingdom(&report.deaths), Some(Kingdom::Monster));
}

#[test]
fn grounded_arrow_deals_no_damage_and_expires() {
    let mut arena = Arena::new();
    let goblin = arena.spawn(&still_goblin(1), Kingdom::Monster, 2000, 700);
    let archer = arena.spawn(&elven_archer(), Kingdom::Elven, 0, -200);
    arena.refresh_frontlines();
    let arrow = arena.fire(archer, steady()).unwrap();
    let landed = arena.fly_arrows(10);
    assert_eq!(landed, vec![arrow]);
    let a = arena.arrows[arrow].unwrap();
    assert!(a.grounded);
    assert_eq!((a.y, a.vx, a.vy), (-125, 0, 0));
    arena.resolve_hits(&vec![(arrow, goblin)]);
    assert_eq!(arena.units[goblin].unwrap().health.current(), 1);
    assert!(arena.age_arrows(19999).is_empty());
    assert_eq!(arena.age_arrows(1), vec![arrow]);
    assert!(arena.arrows[arrow].is_none());
}

#[test]
fn spawn_requests_take_fresh_slots() {
    let mut arena = Arena::new();
    let events = vec![
        SpawnEvent::new(elven_archer(), -15000, 800, Kingdom::Elven),
        SpawnEvent::new(goblin_warrior(), 15000, 700, Kingdom::Monster),
    ];
    let ids = arena.spawn_subjects(&events);
    assert_eq!(ids, vec![0, 1]);
    let goblin = arena.units[1].unwrap();
    assert_eq!(goblin.kingdom, Kingdom::Monster);
    assert_eq!(goblin.health.current(), 2);
    assert_eq!(goblin.state, BehaviorState::Advancing);
    assert_eq!((goblin.x, goblin.y, goblin.speed), (15000, 700, 2500));
    match arena.units[0].unwrap().role {
        Role::Soldier(Weapon::Bow(b)) => {
            assert!(b.timer.finished());
            assert_eq!(b.range, 15000);
        }
        _ => panic!("archer without a bow"),
    }
}

#[test]
fn recruitment_spawns_below_each_base() {
    let mut arena = Arena::new();
    arena.spawn_nexus(Kingdom::Elven, -15000, 1500, 50);
    arena.spawn_nexus(Kingdom::Monster, 15000, 1500, 50);
    let events = arena.recruit(&goblin_warrior(), Kingdom::Monster);
    assert_eq!(events, vec![SpawnEvent::new(goblin_warrior(), 15000, 0, Kingdom::Monster)]);
    assert_eq!(arena.units.len(), 3);
    assert_eq!(arena.units[2].unwrap().x, 15000);
    assert_eq!(arena.units[2].unwrap().kingdom, Kingdom::Monster);
}
