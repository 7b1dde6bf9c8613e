use bevy::ecs::entity::Entity;
use rand::Rng;
use rand::SeedableRng;
use rand_chacha::ChaCha8Rng;
use rusteroids::asteroids::{
    _prepate_for_trimesh, asteroid_after_hit, generate_asteroid_vertices, get_asteroid_size,
    prepate_for_polyline, seed_for_size, shadow_indices, split_size,
};
use rusteroids::bots::BotList;
use rusteroids::clients::{ClientData, ClientsData};
use rusteroids::components::{
    connection_config, ClientChannel, ClientState, GameRenderLayers, InputKeys, InputType,
    PowerUPType, SendKind, ServerChannel,
};
use rusteroids::console::{bot_list_lines, interpret_command, split_whitespace, ChatHistory, CommandAction};
use rusteroids::menu::{on_connect_clicked, EscMenu};
use rusteroids::world::MapConfig;

fn client(client_id: u64, object_id: u64, name: &str) -> ClientData {
    ClientData {
        client_id,
        object_id,
        entity: Entity::PLACEHOLDER,
        style: 3,
        color: [0, 0, 0, 0],
        name: name.to_string(),
    }
}

#[test]
fn clients_are_found_by_id_and_by_ship() {
    let mut clients = ClientsData::default();
    clients.add(client(10, 100, "a"));
    clients.add(client(11, 101, "b"));
    assert_eq!(clients.get_by_client_id(10).name, "a");
    assert_eq!(clients.get_option_by_object_id(101).unwrap().client_id, 11);
    assert!(clients.get_option_by_object_id(102).is_none());
    assert!(clients.get_option_by_client_id(&12).is_none());
    clients.get_mut_by_client_id(11).name = "c".to_string();
    assert_eq!(clients.get_option_by_client_id(&11).unwrap().name, "c");
    clients.remove_by_object_id(100);
    assert!(clients.get_option_by_client_id(&10).is_none());
    assert!(clients.get_option_by_object_id(100).is_none());
    assert_eq!(clients.get_option_by_object_id(101).unwrap().name, "c");
}

#[test]
fn clean_keeps_only_this_client() {
    let mut clients = ClientsData::default();
    clients.add(client(0, 1, "me"));
    clients.add(client(5, 2, "other"));
    clients.clean_exclude_me();
    assert_eq!(clients.get_by_client_id(0).name, "me");
    assert_eq!(clients.get_option_by_object_id(1).unwrap().client_id, 0);
    assert!(clients.get_option_by_client_id(&5).is_none());
    assert!(clients.get_option_by_object_id(2).is_none());
}

#[test]
fn remove_by_client_id_drops_the_data() {
    let mut clients = ClientsData::default();
    clients.add(client(4, 4, "x"));
    clients.remove_by_client_id(4);
    assert!(clients.get_option_by_client_id(&4).is_none());
    assert!(clients.get_option_by_object_id(4).is_none());
}

#[test]
fn spawn_data_is_a_placeholder() {
    let d = ClientData::for_spawn(7, [1, 2, 3, 4], 42);
    assert_eq!(d.client_id, 0);
    assert_eq!(d.object_id, 42);
    assert_eq!(d.style, 7);
    assert_eq!(d.color, [1, 2, 3, 4]);
    assert_eq!(d.name, "PLACEHOLDER");
    assert_eq!(d.entity, Entity::PLACEHOLDER);
}

#[test]
fn bots_are_numbered_from_one() {
    let mut bots = BotList::default();
    assert!(bots.get_bots_client_ids().is_empty());
    bots.register_bot(500);
    bots.register_bot(600);
    assert_eq!(bots.get_bot_id(1), Some(&500));
    assert_eq!(bots.get_bot_id(2), Some(&600));
    assert_eq!(bots.get_bot_id(3), None);
    let mut ids = bots.get_bots_client_ids();
    ids.sort();
    assert_eq!(ids, vec![500, 600]);
    bots.unregister_bot(&500);
    assert_eq!(bots.get_bot_id(1), None);
    assert_eq!(bots.get_bots_client_ids(), vec![600]);
    bots.get_bot_binds();
}

#[test]
fn bot_inputs_and_world_views() {
    let mut bots = BotList::default();
    bots.register_bot(1);
    assert!(bots.get_bot_response(&1).is_none());
    let mut keys = InputKeys::default();
    keys.shoot = true;
    bots.set_bot_response(&1, keys);
    let back = bots.get_bot_response(&1).unwrap();
    assert!(back.shoot);
    assert!(!back.up);
    assert!(bots.is_state_updated(&1));
    bots.mark_world_state_fresh(1);
    assert!(bots.is_state_updated(&1));
}

#[test]
fn asteroid_size_follows_the_seeded_generator() {
    for seed in 0..200u64 {
        let roll: i32 = ChaCha8Rng::seed_from_u64(seed).gen_range(0..16);
        let expected = if roll <= 6 { 1 } else if roll <= 14 { 2 } else { 3 };
        assert_eq!(get_asteroid_size(seed), expected);
    }
}

#[test]
fn asteroid_outline_from_seed() {
    let seed = 1234u64;
    let outline = generate_asteroid_vertices(seed);
    assert_eq!(outline.size, get_asteroid_size(seed));
    assert_eq!(outline.base.len(), 16);
    assert_eq!(outline.base[0], (-1, -3));
    assert_eq!(outline.base[3], (2, -2));
    assert_eq!(outline.base[5], (3, 0));
    assert_eq!(outline.base[9], (0, 3));
    assert_eq!(outline.base[13], (-3, 0));
    assert_eq!(outline.base[15], (-2, -2));
    let mut rng = ChaCha8Rng::seed_from_u64(seed);
    for side in 0..16 {
        let x: i32 = rng.gen_range(-100..101);
        let y: i32 = rng.gen_range(-100..101);
        let _z: i32 = rng.gen_range(-100..101);
        assert_eq!(outline.jitter[side], (x, y));
    }
    let mut ring = vec![];
    for i in 0..16u32 {
        ring.push(i);
        ring.push((i + 1) % 16);
    }
    assert_eq!(outline.indices, ring);
}

#[test]
fn polyline_pairs_and_shadow() {
    assert_eq!(prepate_for_polyline(&vec![0, 1, 1, 2, 2]), vec![(0, 1), (1, 2)]);
    assert!(prepate_for_polyline(&vec![]).is_empty());
    assert_eq!(shadow_indices(&vec![0, 1, 1, 2], 9), vec![0, 1, 9, 1, 2, 9]);
    assert_eq!(_prepate_for_trimesh(&vec![0, 1, 1, 2, 7]), vec![(0, 1, 2), (0, 2, 3)]);
    let ring = generate_asteroid_vertices(5).indices;
    let triangles = _prepate_for_trimesh(&ring);
    assert_eq!(triangles.len(), 16);
    assert_eq!(triangles[15], (0, 16, 1));
}

#[test]
fn hits_and_splits() {
    assert_eq!(asteroid_after_hit(0), (0, true));
    assert_eq!(asteroid_after_hit(1), (0, true));
    assert_eq!(asteroid_after_hit(3), (2, false));
    assert_eq!(split_size(3), Some(2));
    assert_eq!(split_size(2), Some(1));
    assert_eq!(split_size(1), None);
    let seed = seed_for_size(2).unwrap();
    assert_eq!(get_asteroid_size(seed), 2);
}

#[test]
fn asteroid_hp_by_size() {
    let mut cfg = MapConfig::default();
    cfg.asteroid_hp = [3, 5, 7];
    for seed in 0..50u64 {
        let hp = cfg.get_asteroid_hp(seed);
        assert_eq!(hp, [3u8, 5, 7][get_asteroid_size(seed) as usize - 1]);
    }
}

#[test]
fn words_split_on_any_whitespace() {
    assert_eq!(split_whitespace("  a  bc\td \n"), vec!["a", "bc", "d"]);
    assert!(split_whitespace("   ").is_empty());
    assert_eq!(split_whitespace("x"), vec!["x"]);
    assert_eq!(split_whitespace("a\u{a0}b\u{3000}c\u{85}"), vec!["a", "b", "c"]);
    assert_eq!(split_whitespace("a\u{200b}b"), vec!["a\u{200b}b"]);
}

fn outcome(cmd: &str) -> (Vec<String>, CommandAction) {
    let r = interpret_command(cmd);
    (r.lines, r.action)
}

#[test]
fn console_commands() {
    assert_eq!(outcome(""), (vec![], CommandAction::Nothing));
    assert_eq!(outcome("   "), (vec![], CommandAction::Nothing));
    assert_eq!(outcome("hello all"), (vec!["hello all".to_string()], CommandAction::Nothing));
    assert_eq!(
        outcome("/help"),
        (vec!["> /help".to_string(), "< help command executed!".to_string()], CommandAction::Nothing)
    );
    assert_eq!(
        outcome("/"),
        (vec!["> /".to_string(), "< There is no command body!".to_string()], CommandAction::Nothing)
    );
    assert_eq!(
        outcome("/bot"),
        (vec!["> /bot".to_string(), "< spawn/list/despawn".to_string()], CommandAction::Nothing)
    );
    assert_eq!(outcome("/bot spawn"), (vec!["> /bot spawn".to_string()], CommandAction::SpawnBot));
    assert_eq!(outcome("/bot  list"), (vec!["> /bot  list".to_string()], CommandAction::ListBots));
    assert_eq!(outcome("/bot despawn"), (vec!["> /bot despawn".to_string()], CommandAction::Nothing));
    assert_eq!(
        outcome("/spawn"),
        (
            vec![
                "> /spawn".to_string(),
                "< Using: /spawn [thing: asteroid/...] [chunk x: int] [chunk y: int]".to_string()
            ],
            CommandAction::Nothing
        )
    );
    assert_eq!(outcome("/spawn asteroid 1 2"), (vec!["> /spawn asteroid 1 2".to_string()], CommandAction::Nothing));
    assert_eq!(
        outcome("/spawn tree"),
        (
            vec![
                "> /spawn tree".to_string(),
                "< Unknown thing: tree \n  Using: /spawn [thing: asteroid/...] [chunk x: int] [chunk y: int]"
                    .to_string()
            ],
            CommandAction::Nothing
        )
    );
    assert_eq!(
        outcome("/set x"),
        (vec!["> /set x".to_string(), "< There is nothing to set!".to_string()], CommandAction::Nothing)
    );
    assert_eq!(outcome("/kill").0[1], "< kill command executed!");
    assert_eq!(outcome("/kick").0[1], "< kick command executed!");
    assert_eq!(outcome("/say hi").0[1], "< say command executed!");
    assert_eq!(
        outcome("/fly away"),
        (vec!["> /fly away".to_string(), "< Unknown command: fly".to_string()], CommandAction::Nothing)
    );
}

#[test]
fn bot_list_output() {
    assert_eq!(bot_list_lines(&vec![]), vec!["There is no bots"]);
    assert_eq!(bot_list_lines(&vec![12, 3, 0]), vec!["List of bot ids:", "   12", "   3", "   0"]);
    assert_eq!(
        bot_list_lines(&vec![u64::MAX]),
        vec!["List of bot ids:".to_string(), format!("   {}", u64::MAX)]
    );
}

#[test]
fn chat_history_is_newest_first_and_bounded() {
    let mut h = ChatHistory::default();
    for i in 0..5 {
        h.log(format!("line {}", i));
    }
    assert_eq!(h.data[0], "line 4");
    h.trim(3);
    assert_eq!(h.data, vec!["line 4", "line 3", "line 2"]);
    h.trim(10);
    assert_eq!(h.data.len(), 3);
}

#[test]
fn escape_menu_steps() {
    let closed = EscMenu { esc_open: false, settings_open: false };
    let menu = closed.on_escape();
    assert_eq!(menu, EscMenu { esc_open: true, settings_open: false });
    assert_eq!(menu.on_escape(), closed);
    let settings = menu.on_settings_button();
    assert_eq!(settings, EscMenu { esc_open: false, settings_open: true });
    assert_eq!(settings.on_escape(), menu);
    assert_eq!(settings.on_settings_closed(), menu);
    assert_eq!(settings.on_continue(), closed);
}

#[test]
fn connect_button_defaults() {
    let c = on_connect_clicked("", "");
    assert_eq!(c.adress, "127.0.0.1");
    assert_eq!(c.port, "8567");
    assert_eq!(c.target, Some("127.0.0.1:8567".to_string()));
    let c = on_connect_clicked("example.org", "abc");
    assert_eq!(c.adress, "example.org");
    assert_eq!(c.port, "abc");
    assert_eq!(c.target, None);
    assert_eq!(on_connect_clicked("h", "-5").target, Some("h:-5".to_string()));
    assert_eq!(on_connect_clicked("h", "+7").target, Some("h:+7".to_string()));
    assert_eq!(on_connect_clicked("h", "99999999999").target, None);
}

#[test]
fn small_vocabulary() {
    assert_eq!(ClientState::default(), ClientState::Menu);
    assert_eq!(GameRenderLayers::_Main.layer(), 0);
    assert_eq!(GameRenderLayers::PixelCamera.layer(), 1);
    assert_eq!(GameRenderLayers::PreviewCamera.layer(), 2);
    assert_eq!(PowerUPType::Haste.texture_path(), "powerups/haste.png");
    assert_eq!(PowerUPType::Repair.texture_path(), "powerups/repair.png");
    assert_eq!(PowerUPType::from_roll(0), PowerUPType::Repair);
    assert_eq!(PowerUPType::from_roll(3), PowerUPType::SuperShield);
    assert_eq!(PowerUPType::from_roll(4), PowerUPType::Invisibility);
    let keys = InputKeys::default();
    assert_eq!(keys.input_type, InputType::Mouse);
    assert!(!keys.shoot && !keys.dash && !keys.up);
}

#[test]
fn network_channels() {
    let fast: u8 = ClientChannel::Fast.into();
    let sure: u8 = ServerChannel::Garanteed.into();
    assert_eq!((fast, sure), (0, 1));
    let client = ClientChannel::channels_config();
    assert_eq!(client[0].send_type, SendKind::ReliableOrdered { resend_time_ms: 0 });
    assert_eq!(client[1].send_type, SendKind::ReliableOrdered { resend_time_ms: 200 });
    assert_eq!(client[1].max_memory_usage_bytes, 5 * 1024 * 1024);
    let server = ServerChannel::channels_config();
    assert_eq!(server[0].send_type, SendKind::Unreliable);
    assert_eq!(server[0].max_memory_usage_bytes, 10 * 1024 * 1024);
    let c = connection_config();
    assert_eq!(c.available_bytes_per_tick, 1024 * 1024);
    assert_eq!(c.client_channels_config, client);
    assert_eq!(c.server_channels_config, server);
}
