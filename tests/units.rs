use aiurgaze::units::{Point, SyncEffect, UnitBuildProgress, UnitHealth, UnitRecord, UnitRegistry, UnitShield, WorldFrame};

const FRAME: WorldFrame = WorldFrame { tile_size: 16, map_width: 200, map_height: 176 };

fn record(tag: u64, type_id: u32) -> UnitRecord {
    UnitRecord {
        tag: Some(tag),
        unit_type: Some(type_id),
        pos: Some(Point { x: 100_000, y: 88_000 }),
        health: Some(50_000),
        health_max: Some(100_000),
        shield: None,
        shield_max: None,
        build_progress: Some(1000),
        alliance: Some(4),
        first_order_ability: None,
    }
}

#[test]
fn unit_gone_in_next_tick_is_removed() {
    let mut reg = UnitRegistry::new();
    let effects = reg.handle_observation(&[record(7, 41)], &FRAME);
    assert_eq!(effects, vec![SyncEffect::Spawned(7)]);
    assert_eq!(reg.len(), 1);
    let e = reg.get(7).unwrap();
    assert_eq!(e.unit_type, 41);
    assert_eq!(e.health, UnitHealth { current: 50_000, max: 100_000 });
    let effects = reg.handle_observation(&[], &FRAME);
    assert_eq!(effects, vec![SyncEffect::Despawned(7)]);
    assert_eq!(reg.len(), 0);
    assert!(reg.get(7).is_none());
}

#[test]
fn same_snapshot_twice_changes_nothing() {
    let mut reg = UnitRegistry::new();
    let mut b = record(2, 5);
    b.pos = Some(Point { x: 0, y: 1000 });
    b.build_progress = Some(300);
    let snap = vec![record(1, 5), b];
    reg.handle_observation(&snap, &FRAME);
    let first: Vec<_> = reg.tags().iter().map(|t| reg.get(*t).unwrap()).collect();
    let effects = reg.handle_observation(&snap, &FRAME);
    let second: Vec<_> = reg.tags().iter().map(|t| reg.get(*t).unwrap()).collect();
    assert_eq!(first, second);
    assert_eq!(reg.tags(), vec![1, 2]);
    assert_eq!(
        effects,
        vec![
            SyncEffect::Updated { tag: 1, construction_finished: false },
            SyncEffect::Updated { tag: 2, construction_finished: false },
        ]
    );
}

#[test]
fn duplicate_listing_spawns_once() {
    let mut reg = UnitRegistry::new();
    let effects = reg.handle_observation(&[record(9, 1), record(9, 1)], &FRAME);
    assert_eq!(effects, vec![SyncEffect::Spawned(9), SyncEffect::Updated { tag: 9, construction_finished: false }]);
    assert_eq!(reg.len(), 1);
}

#[test]
fn positions_are_centred_and_scaled() {
    let mut reg = UnitRegistry::new();
    let mut r = record(3, 1);
    r.pos = Some(Point { x: 100_500, y: 87_000 });
    reg.handle_observation(&[r], &FRAME);
    let e = reg.get(3).unwrap();
    assert_eq!(e.world_x, 8_000);
    assert_eq!(e.world_y, -16_000);
}

#[test]
fn incomplete_records_are_skipped() {
    let mut reg = UnitRegistry::new();
    reg.handle_observation(&[record(1, 5), record(2, 6)], &FRAME);
    let mut no_pos = record(1, 7);
    no_pos.pos = None;
    let mut no_tag = record(5, 5);
    no_tag.tag = None;
    let effects = reg.handle_observation(&[no_pos, no_tag, record(2, 6)], &FRAME);
    assert_eq!(effects, vec![SyncEffect::Updated { tag: 2, construction_finished: false }]);
    assert_eq!(reg.get(1).unwrap().unit_type, 5);
    assert_eq!(reg.len(), 2);
}

#[test]
fn construction_finishing_is_flagged_once() {
    let mut reg = UnitRegistry::new();
    let mut r = record(4, 1);
    r.build_progress = Some(500);
    reg.handle_observation(&[r], &FRAME);
    assert!(reg.get(4).unwrap().build_progress.under_construction());
    let effects = reg.handle_observation(&[record(4, 1)], &FRAME);
    assert_eq!(effects, vec![SyncEffect::Updated { tag: 4, construction_finished: true }]);
    let effects = reg.handle_observation(&[record(4, 1)], &FRAME);
    assert_eq!(effects, vec![SyncEffect::Updated { tag: 4, construction_finished: false }]);
}

#[test]
fn type_index_follows_the_entries() {
    let mut reg = UnitRegistry::new();
    reg.handle_observation(&[record(1, 5), record(2, 6), record(3, 5)], &FRAME);
    let mut fives = reg.tags_of(5);
    fives.sort();
    assert_eq!(fives, vec![1, 3]);
    reg.handle_observation(&[record(1, 6), record(2, 6)], &FRAME);
    assert_eq!(reg.tags_of(5), Vec::<u64>::new());
    let mut sixes = reg.tags_of(6);
    sixes.sort();
    assert_eq!(sixes, vec![1, 2]);
}

#[test]
fn bar_fractions() {
    assert_eq!(UnitHealth { current: 50, max: 200 }.value(), 250);
    assert_eq!(UnitShield { current: 5, max: 0 }.value(), 0);
    assert_eq!(UnitBuildProgress(420).value(), 420);
}
