use bevy::math::Vec2;
use rusteroids::combat::{bullet_on_ship, pickup_pair, BulletOnShip, ShipStateKind};
use rusteroids::puppets::{plan_puppets, PuppetObject, RealObject};
use rusteroids::spawning::{choose_spawn_chunk, spawn_candidates, ObjectsDistribution};
use rusteroids::sync::{death_label_step, plan_object_sync, IncomingObject, LabelAction, SyncAction};
use rusteroids::visibility::{should_send, visible_real_chunks};

fn object(id: u64, chunk: (i64, i64)) -> RealObject {
    RealObject { id, chunk, real_chunk: chunk, spawnable: true }
}

#[test]
fn shadow_chunk_gets_a_puppet() {
    let around = vec![(-1, 0), (0, 0)];
    let objects = vec![object(7, (1, 0))];
    let plan = plan_puppets(&around, &objects, &vec![], (2, 2));
    assert!(plan.keep.is_empty());
    assert_eq!(plan.spawn, vec![(0, (-1, 0))]);
}

#[test]
fn live_puppet_is_kept_and_not_doubled() {
    let around = vec![(-1, 0), (0, 0)];
    let objects = vec![object(7, (1, 0))];
    let puppet = PuppetObject { id: 7, chunk: (-1, 0), real_chunk: (1, 0), bound_chunk: (-1, 0) };
    let plan = plan_puppets(&around, &objects, &vec![puppet, puppet], (2, 2));
    assert_eq!(plan.keep, vec![Some(0), None]);
    assert!(plan.spawn.is_empty());
}

#[test]
fn orphan_and_strayed_puppets_go() {
    let around = vec![(-1, 0), (0, 0), (2, 0)];
    let objects = vec![object(7, (1, 0))];
    let orphan = PuppetObject { id: 9, chunk: (-1, 0), real_chunk: (1, 0), bound_chunk: (-1, 0) };
    let strayed = PuppetObject { id: 7, chunk: (2, 0), real_chunk: (0, 0), bound_chunk: (-1, 0) };
    let unloaded = PuppetObject { id: 7, chunk: (3, 0), real_chunk: (1, 0), bound_chunk: (3, 0) };
    let plan = plan_puppets(&around, &objects, &vec![orphan, strayed, unloaded], (2, 2));
    assert_eq!(plan.keep, vec![None, None, None]);
    assert_eq!(plan.spawn, vec![(0, (-1, 0))]);
}

#[test]
fn ships_without_client_data_get_no_puppet() {
    let around = vec![(-1, 0), (2, 0)];
    let mut ship = object(3, (1, 0));
    ship.spawnable = false;
    let rock = object(4, (0, 0));
    let plan = plan_puppets(&around, &vec![ship, rock], &vec![], (2, 2));
    assert_eq!(plan.spawn, vec![(1, (2, 0))]);
}

fn filled(size: (u32, u32)) -> ObjectsDistribution {
    let mut d = ObjectsDistribution::new();
    for x in 0..size.0 {
        for y in 0..size.1 {
            d.record((x, y), false, Vec2::ZERO);
        }
    }
    d
}

#[test]
fn empty_chunks_come_first() {
    let mut d = ObjectsDistribution::new();
    d.record((0, 0), true, Vec2::new(1.0, 2.0));
    let (cells, empty) = spawn_candidates(&d, (2, 2));
    assert!(empty);
    assert_eq!(cells, vec![(0, 1), (1, 0), (1, 1)]);
    let t = d.tally((0, 0)).unwrap();
    assert_eq!(t.0, 1);
    assert!(t.1);
    assert_eq!(t.2, vec![Vec2::new(1.0, 2.0)]);
    assert!(d.tally((1, 1)).is_none());
}

#[test]
fn spawns_keep_away_from_players() {
    let mut d = filled((4, 4));
    d.record((0, 0), true, Vec2::ZERO);
    d.record((2, 2), false, Vec2::ZERO);
    let (cells, empty) = spawn_candidates(&d, (4, 4));
    assert!(!empty);
    assert_eq!(cells, vec![(0, 2), (1, 2), (2, 0), (2, 1), (2, 3), (3, 2)]);
    for _ in 0..20 {
        let (c, e) = choose_spawn_chunk(&d, (4, 4));
        assert!(!e);
        assert!(cells.contains(&c));
    }
}

#[test]
fn next_to_a_player_before_with_a_player() {
    let mut d = filled((3, 3));
    d.record((0, 0), true, Vec2::ZERO);
    d.record((2, 2), false, Vec2::ZERO);
    let (cells, empty) = spawn_candidates(&d, (3, 3));
    assert!(!empty);
    assert_eq!(cells, vec![(0, 1), (0, 2), (1, 0), (1, 1), (1, 2), (2, 0), (2, 1)]);
}

#[test]
fn neighbourhood_wraps_around() {
    assert_eq!(
        visible_real_chunks((0, 0), (5, 5)),
        vec![(4, 4), (4, 0), (4, 1), (0, 4), (0, 0), (0, 1), (1, 4), (1, 0), (1, 1)]
    );
    assert_eq!(visible_real_chunks((3, 8), (1, 1)), vec![(0, 0)]);
    assert_eq!(visible_real_chunks((0, 0), (2, 2)), vec![(1, 1), (1, 0), (0, 1), (0, 0)]);
}

#[test]
fn dead_ships_are_not_sent_to_others() {
    assert!(should_send(false, true, false));
    assert!(should_send(true, false, false));
    assert!(!should_send(true, true, false));
    assert!(should_send(true, true, true));
}

#[test]
fn world_update_moves_spawns_and_drops() {
    let updates = vec![
        IncomingObject { id: 5, spawnable: true },
        IncomingObject { id: 8, spawnable: true },
        IncomingObject { id: 9, spawnable: false },
    ];
    let plan = plan_object_sync(&vec![5, 6, 7], &updates);
    assert_eq!(plan.actions, vec![SyncAction::Update(0), SyncAction::Spawn, SyncAction::Skip]);
    assert_eq!(plan.despawn, vec![1, 2]);
    let quiet = plan_object_sync(&vec![5, 6], &vec![]);
    assert!(quiet.actions.is_empty());
    assert!(quiet.despawn.is_empty());
}

#[test]
fn death_label_follows_the_ship() {
    assert_eq!(death_label_step(true, false), LabelAction::Show);
    assert_eq!(death_label_step(false, true), LabelAction::Hide);
    assert_eq!(death_label_step(true, true), LabelAction::Refresh);
    assert_eq!(death_label_step(false, false), LabelAction::Keep);
}

#[test]
fn bullet_rules() {
    assert_eq!(bullet_on_ship(ShipStateKind::Dash, false, false), BulletOnShip::Absorb);
    assert_eq!(bullet_on_ship(ShipStateKind::Dead, false, false), BulletOnShip::PassThrough);
    assert_eq!(bullet_on_ship(ShipStateKind::Regular, true, true), BulletOnShip::Absorb);
    assert_eq!(bullet_on_ship(ShipStateKind::Regular, false, true), BulletOnShip::PassThrough);
    assert_eq!(bullet_on_ship(ShipStateKind::Regular, false, false), BulletOnShip::Damage);
}

#[test]
fn pickups_pair_a_ship_with_a_pickup() {
    assert_eq!(pickup_pair(true, false, false, true), Some(true));
    assert_eq!(pickup_pair(false, true, true, false), Some(false));
    assert_eq!(pickup_pair(true, false, true, false), None);
    assert_eq!(pickup_pair(true, true, true, true), Some(true));
}
