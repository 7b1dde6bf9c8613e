use rusteroids::asteroids::seed_for_size;
use rusteroids::bots::BotList;
use rusteroids::components::{PowerUPType, ShipStatuses};
use rusteroids::labels::{plan_labels, status_icon_changes, ShipEntry};
use rusteroids::menu::{connect_form_warnings, on_connect_clicked, server_port_warning};

fn ship(entity: u64, object_id: u64, is_puppet: bool, dead: bool, has_client: bool) -> ShipEntry {
    ShipEntry { entity, object_id, is_puppet, dead, has_client }
}

#[test]
fn tags_for_living_ships_and_their_puppets() {
    let ships = vec![
        ship(100, 1, false, false, true),
        ship(101, 2, false, true, true),
        ship(102, 3, false, false, false),
        ship(103, 1, true, false, true),
        ship(104, 2, true, false, true),
    ];
    let plan = plan_labels(&ships, &vec![103, 200]);
    assert_eq!(plan.shown, vec![Some(0), None, None, Some(0), None]);
    assert_eq!(plan.create, vec![0]);
    assert_eq!(plan.remove, vec![1]);
}

#[test]
fn puppet_before_its_ship_gets_no_tag() {
    let ships = vec![ship(7, 5, true, false, true), ship(8, 5, false, false, true)];
    let plan = plan_labels(&ships, &vec![]);
    assert_eq!(plan.shown, vec![None, Some(1)]);
    assert_eq!(plan.create, vec![1]);
    assert!(plan.remove.is_empty());
}

#[test]
fn all_tags_go_when_no_ship_is_left() {
    let plan = plan_labels(&vec![], &vec![3, 4, 3]);
    assert!(plan.shown.is_empty());
    assert!(plan.create.is_empty());
    assert_eq!(plan.remove, vec![1, 2]);
}

#[test]
fn icons_follow_the_effects() {
    let (add, drop) = status_icon_changes(
        &vec![PowerUPType::Haste, PowerUPType::Repair],
        &vec![PowerUPType::Repair, PowerUPType::Invisibility, PowerUPType::Invisibility],
    );
    assert_eq!(add, vec![PowerUPType::Haste]);
    assert_eq!(drop, vec![PowerUPType::Invisibility]);
    let (add, drop) = status_icon_changes(&vec![], &vec![]);
    assert!(add.is_empty() && drop.is_empty());
}

#[test]
fn play_window_warnings() {
    assert_eq!(connect_form_warnings("", ""), (true, true));
    assert_eq!(connect_form_warnings("host", "8567"), (false, false));
    assert_eq!(connect_form_warnings("host", "85a"), (false, true));
    assert!(!server_port_warning(""));
    assert!(!server_port_warning("8567"));
    assert!(server_port_warning("port"));
}

#[test]
fn port_numbers_follow_i32() {
    assert!(on_connect_clicked("h", "-2147483648").target.is_some());
    assert!(on_connect_clicked("h", "2147483647").target.is_some());
    assert!(on_connect_clicked("h", "+2147483647").target.is_some());
    assert!(on_connect_clicked("h", "2147483648").target.is_none());
    assert!(on_connect_clicked("h", "-2147483649").target.is_none());
    assert!(on_connect_clicked("h", "-").target.is_none());
    assert!(on_connect_clicked("h", "+").target.is_none());
    assert!(on_connect_clicked("h", " 1").target.is_none());
    assert!(on_connect_clicked("h", "007").target.is_some());
    assert!(on_connect_clicked("h", "00000000000000000000001").target.is_some());
    assert!(on_connect_clicked("h", "１").target.is_none());
}

#[test]
fn ship_statuses_track_kinds() {
    let mut s = ShipStatuses::new();
    assert!(!s.has_haste() && !s.has_extra_damage() && !s.has_super_shield() && !s.has_invisibility());
    s.insert(PowerUPType::Haste);
    s.insert(PowerUPType::Haste);
    s.insert(PowerUPType::Invisibility);
    assert!(s.has_haste() && s.has_invisibility());
    assert!(!s.has_extra_damage() && !s.has_super_shield());
    assert_eq!(s.kinds(), vec![PowerUPType::Haste, PowerUPType::Invisibility]);
}

#[test]
fn bot_count_and_odd_sizes() {
    let mut bots = BotList::default();
    assert_eq!(bots.registered_count(), 0);
    bots.register_bot(1);
    bots.register_bot(2);
    assert_eq!(bots.registered_count(), 2);
    bots.unregister_bot(&1);
    assert_eq!(bots.registered_count(), 1);
    assert!(seed_for_size(1).is_some());
    assert!(seed_for_size(3).is_some());
}
