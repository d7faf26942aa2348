use std::collections::HashMap;

use hydrogen::inner::inner::{checked_code_to_int, code_to_int, int_to_code};
use hydrogen::inner::objects::inner_net_objects::{GameData as GameDataObject, LobbyBehavior};
use hydrogen::inner::rooms::{eq_ignore_ascii_case, fresh_code, room_exists, GameRoom};
use hydrogen::inner::structs::player::PlayerOutfit;
use hydrogen::manager::states::UserState;
use hydrogen::manager::user::{PeerAddr, Player, User};
use hydrogen::matchmaker::handler::{convert_ip, handle_host};
use hydrogen::protocol::game_data::game_data::{DataData, GameData, SpawnData};
use hydrogen::protocol::packet::{
    hello_check, packet_kind, AcknowledgementPacket, DisconnectPacket, HelloPacket, Packet, PacketKind,
    ReliableKind, ReliablePacket,
};
use hydrogen::protocol::reliable_packets::{
    game_data_action, GameDataAction, GameDataPacket, HostGamePacket, JoinGamePacket, JoinedGamePacket, ReactorHandshakePacket,
    StartGamePacket,
};
use hydrogen::util::buffer::Buffer;
use hydrogen::util::hazel::HazelMessage;
use hydrogen::util::inner::GameCode;
use hydrogen::util::structs::structs::{options_check, PlatformSpecificData};
use hydrogen::util::util::spawn_message_buffer;

const REDSUS: i32 = -1975562029;

fn empty() -> Buffer {
    Buffer { position: 0, array: Vec::new() }
}

fn redsus() -> GameCode {
    GameCode { code_int: REDSUS, code_string: "REDSUS".to_string() }
}

fn user_at(port: u16) -> User {
    User::new(UserState::Loading, PeerAddr { ip: 1, port })
}

#[test]
fn six_letter_code_to_number_and_back() {
    assert_eq!(code_to_int("REDSUS".to_string()), REDSUS);
    assert_eq!(int_to_code(REDSUS), "REDSUS");
    assert_eq!(code_to_int("abcdef".to_string()), -1943683525);
    assert_eq!(int_to_code(-1943683525), "ABCDEF");
}

#[test]
fn four_letter_code_is_read_big_endian() {
    assert_eq!(code_to_int("ABCD".to_string()), 1094861636);
}

#[test]
fn codes_of_other_lengths_or_with_non_letters_give_zero() {
    assert_eq!(code_to_int("ABC".to_string()), 0);
    assert_eq!(code_to_int("AB1DEF".to_string()), 0);
    assert_eq!(int_to_code(5), "");
}

#[test]
fn code_that_cannot_be_converted() {
    assert_eq!(checked_code_to_int("ééé".to_string()), None);
    assert_eq!(checked_code_to_int("REDSUS".to_string()), Some(REDSUS));
}

#[test]
fn game_code_from_number() {
    let code = GameCode::new_code_int(REDSUS);
    assert_eq!(code.code_int, REDSUS);
    assert_eq!(code.code_string, "REDSUS");
}

#[test]
fn first_player_hosts_and_last_one_closes_the_room() {
    let mut room = GameRoom::new(redsus());
    assert_eq!(room.host, -1);
    let (first, was_empty) = room.admit_player(&user_at(1));
    assert!(was_empty);
    assert_eq!(first.player.as_ref().unwrap().id, 1);
    assert_eq!(room.host, 1);
    let (second, was_empty) = room.admit_player(&user_at(2));
    assert!(!was_empty);
    assert_eq!(second.player.as_ref().unwrap().id, 2);
    assert_eq!(room.host, 1);
    assert_eq!(room.players.len(), 2);
    assert!(!room.remove_player(1));
    assert_eq!(room.host, 2);
    assert!(room.remove_player(2));
    assert!(room.players.is_empty());
}

#[test]
fn leaving_undoes_joining() {
    let mut room = GameRoom::new(redsus());
    room.admit_player(&user_at(1));
    let before: Vec<i32> = room.players.keys().copied().collect();
    room.admit_player(&user_at(2));
    room.remove_player(2);
    let after: Vec<i32> = room.players.keys().copied().collect();
    assert_eq!(before, after);
    assert_eq!(room.host, 1);
}

#[test]
fn recipients() {
    let mut room = GameRoom::new(redsus());
    room.admit_player(&user_at(1));
    room.admit_player(&user_at(2));
    let mut all = room.recipients_all();
    all.sort();
    assert_eq!(all, vec![1, 2]);
    assert_eq!(room.recipients_all_but(&[1]), vec![2]);
}

#[test]
fn room_lookup_ignores_case() {
    assert!(eq_ignore_ascii_case("AbC", "aBc"));
    assert!(!eq_ignore_ascii_case("ab", "abc"));
    let codes = vec![redsus()];
    let lower = GameCode { code_int: REDSUS, code_string: "redsus".to_string() };
    assert!(room_exists(&codes, &lower));
    let other = GameCode { code_int: 0, code_string: "ABCDEF".to_string() };
    assert!(!room_exists(&codes, &other));
}

#[test]
fn acknowledgement_bytes() {
    let mut b = empty();
    AcknowledgementPacket { nonce: 0x0102 }.serialize(&mut b);
    assert_eq!(b.array, vec![1, 2, 0xff]);
    assert_eq!(User::ack_buffer(0x0102).array, vec![0x0a, 1, 2, 0xff]);
}

#[test]
fn reliable_packet_carries_the_next_nonce() {
    let mut user = user_at(1);
    user.serverNonce = 5;
    let b = user.reliable_buffer(AcknowledgementPacket { nonce: 9 });
    assert_eq!(b.array, vec![1, 0, 6, 0, 9, 0xff]);
}

#[test]
fn disconnect_bytes() {
    let mut b = empty();
    DisconnectPacket { disconnect_type: Some(8), reason: Some("Hi".to_string()) }.serialize(&mut b);
    assert_eq!(b.array, vec![4, 0, 0, 8, 2, 72, 105]);
    let mut c = empty();
    DisconnectPacket { disconnect_type: Some(8), reason: None }.serialize(&mut c);
    assert_eq!(c.array, vec![0, 0, 0]);
    let d = User::disconnect_buffer(DisconnectPacket { disconnect_type: None, reason: None });
    assert_eq!(d.array, vec![9, 1, 0, 0, 0]);
}

#[test]
fn reactor_handshake_bytes() {
    let mut b = empty();
    ReactorHandshakePacket.serialize(&mut b);
    let mut expected = vec![17, 0, 255, 0, 8];
    expected.extend_from_slice(b"Hydrogen");
    expected.push(5);
    expected.extend_from_slice(b"0.0.1");
    expected.push(0);
    assert_eq!(b.array, expected);
}

#[test]
fn host_game_answer_holds_the_code() {
    let mut b = empty();
    HostGamePacket { code: Some(redsus()) }.serialize(&mut b);
    assert_eq!(b.array, vec![4, 0, 0, 211, 80, 63, 138]);
}

#[test]
fn join_request_reads_the_code() {
    let mut packet = JoinGamePacket { code: None, joining: None, host: None, room: None };
    let mut b = Buffer { position: 0, array: vec![211, 80, 63, 138] };
    packet.deserialize(&mut b);
    assert_eq!(packet.code.unwrap().code_string, "REDSUS");
    assert_eq!(b.position, 4);
}

#[test]
fn start_game_reads_the_code_and_passes_bytes_on() {
    let mut packet = StartGamePacket { code: None, buffer: Buffer { position: 0, array: vec![1, 2, 3, 4, 5] } };
    let mut b = Buffer { position: 0, array: vec![211, 80, 63, 138] };
    packet.deserialize(&mut b);
    assert_eq!(packet.code.as_ref().unwrap().code_int, REDSUS);
    let mut out = empty();
    packet.serialize(&mut out);
    assert_eq!(out.array, vec![4, 5]);
}

#[test]
fn game_data_forwarded_unreliably() {
    let packet = GameDataPacket { code: None, buffer: Buffer { position: 0, array: vec![5, 1, 2, 3] }, reliable: false };
    assert_eq!(packet.forward_buffer().array, vec![0, 1, 2, 3]);
    let mut out = empty();
    packet.serialize(&mut out);
    assert_eq!(out.array, vec![3]);
}

#[test]
fn join_message_for_the_others() {
    let mut room = GameRoom::new(redsus());
    room.host = 1;
    let mut user = user_at(3);
    user.username = Some("Al".to_string());
    user.platformData = Some(PlatformSpecificData { platform: 2, platformName: "PC".to_string() });
    user.player = Some(Player { id: 2, game_code: redsus() });
    let mut b = empty();
    JoinGamePacket { code: None, joining: Some(user), host: Some(1), room: Some(room) }.serialize(&mut b);
    let body: Vec<u8> = vec![
        211, 80, 63, 138, 2, 0, 0, 0, 1, 0, 0, 0, 2, 65, 108, 3, 0, 2, 2, 80, 67, 0, 0, 0,
    ];
    let mut expected = vec![body.len() as u8, 0, 1];
    expected.extend_from_slice(&body);
    assert_eq!(b.array, expected);
}

#[test]
fn joined_message_lists_the_others() {
    let mut room = GameRoom::new(redsus());
    let (me, _) = room.admit_player(&user_at(1));
    let mut other = user_at(2);
    other.username = Some("Al".to_string());
    other.platformData = Some(PlatformSpecificData { platform: 2, platformName: "PC".to_string() });
    room.admit_player(&other);
    let mut b = empty();
    JoinedGamePacket { room, user: me }.serialize(&mut b);
    let body: Vec<u8> = vec![
        211, 80, 63, 138, 1, 0, 0, 0, 1, 0, 0, 0, 1, 2, 2, 65, 108, 3, 0, 2, 2, 80, 67, 0, 0, 0,
    ];
    let mut expected = vec![body.len() as u8, 0, 7];
    expected.extend_from_slice(&body);
    assert_eq!(b.array, expected);
}

#[test]
fn joined_message_alone() {
    let mut room = GameRoom::new(redsus());
    let (me, _) = room.admit_player(&user_at(1));
    let mut b = empty();
    JoinedGamePacket { room, user: me }.serialize(&mut b);
    assert_eq!(b.array, vec![13, 0, 7, 211, 80, 63, 138, 1, 0, 0, 0, 1, 0, 0, 0, 0]);
}

#[test]
fn datagram_kinds() {
    assert_eq!(packet_kind(8), PacketKind::Hello);
    assert_eq!(packet_kind(1), PacketKind::Reliable);
    assert_eq!(packet_kind(12), PacketKind::Ping);
    assert_eq!(packet_kind(9), PacketKind::Disconnect);
    assert_eq!(packet_kind(0), PacketKind::Other);
}

#[test]
fn reliable_message_is_read_with_its_tag() {
    let mut packet = ReliablePacket { nonce: 3, reliable_packet_id: None, hazel_message: None, buffer: empty() };
    let mut b = Buffer { position: 0, array: vec![2, 0, 5, 7, 8, 9] };
    packet.deserialize(&mut b);
    assert_eq!(packet.reliable_packet_id, Some(5));
    assert_eq!(packet.kind(), ReliableKind::GameData);
    assert_eq!(packet.hazel_message.as_ref().unwrap().buffer.position, 3);
    assert_eq!(b.position, 5);
}

fn hello_bytes(modded: bool) -> Vec<u8> {
    let mut v = vec![0, 1, 0, 0, 0, 3, 66, 111, 98, 7, 0, 0, 0, 9, 0, 0, 0, 1, 3, 0, 2, 2, 80, 67, 0, 0, 0, 0, 0];
    if modded {
        v.extend_from_slice(&[1, 2, 3]);
    }
    v
}

fn blank_hello() -> HelloPacket {
    HelloPacket {
        nonce: 1,
        version: None,
        username: None,
        lastNonce: None,
        lastLanguage: None,
        chatMode: None,
        platformData: None,
        modded: false,
    }
}

#[test]
fn hello_is_read() {
    let mut packet = blank_hello();
    let mut b = Buffer { position: 0, array: hello_bytes(false) };
    packet.deserialize(&mut b);
    assert_eq!(packet.version, Some(1));
    assert_eq!(packet.username.as_deref(), Some("Bob"));
    assert_eq!(packet.lastNonce, Some(7));
    assert_eq!(packet.lastLanguage, Some(9));
    assert_eq!(packet.chatMode, Some(1));
    let platform = packet.platformData.unwrap();
    assert_eq!(platform.platform, 2);
    assert_eq!(platform.platformName, "PC");
    assert!(!packet.modded);
    assert_eq!(b.position, 29);
}

#[test]
fn hello_with_mods() {
    let mut packet = blank_hello();
    let mut b = Buffer { position: 0, array: hello_bytes(true) };
    packet.deserialize(&mut b);
    assert!(packet.modded);
    assert_eq!(b.position, 32);
}

fn blank_spawn() -> SpawnData {
    SpawnData { game_data: None, vote_ban_system: None, player_control: None, lobby_behavior: None }
}

#[test]
fn lobby_spawn_is_read_back() {
    let mut spawn = blank_spawn();
    let array = vec![2, 7, 0, 1, 9, 0, 0, 1, 99];
    let mut msg = HazelMessage { length: 8, tag: 4, buffer: Buffer { position: 0, array } };
    spawn.deserialize(&mut msg);
    assert_eq!(spawn.lobby_behavior, Some(LobbyBehavior { net_id: 9, owner_id: 7, initial_spawn: true }));
    assert!(spawn.game_data.is_none());
    assert!(spawn.player_control.is_none());
    assert_eq!(msg.buffer.position, 8);
}

#[test]
fn spawn_of_unknown_kind_brings_nothing() {
    let mut spawn = blank_spawn();
    let array = vec![9, 7, 0, 1, 9, 0, 0, 1, 99];
    let mut msg = HazelMessage { length: 8, tag: 4, buffer: Buffer { position: 0, array } };
    spawn.deserialize(&mut msg);
    assert!(spawn.lobby_behavior.is_none());
}

#[test]
fn spawned_lobby_goes_into_the_room() {
    let mut spawn = blank_spawn();
    spawn.lobby_behavior = Some(LobbyBehavior { net_id: 9, owner_id: 7, initial_spawn: true });
    let mut room = GameRoom::new(redsus());
    spawn.process(&mut room);
    assert_eq!(room.lobby_behavior, Some(LobbyBehavior { net_id: 9, owner_id: 7, initial_spawn: false }));
}

fn room_with_game_data() -> GameRoom {
    let mut room = GameRoom::new(redsus());
    room.game_data = Some(GameDataObject { net_id: 1, owner_id: 2, initial_spawn: true, all_players: HashMap::new() });
    room
}

#[test]
fn data_message_reads_its_net_id() {
    let mut data = DataData { net_id: 0, hazel_msg: HazelMessage { length: 0, tag: 0, buffer: empty() } };
    let mut msg = HazelMessage { length: 3, tag: 1, buffer: Buffer { position: 0, array: vec![9, 4, 5] } };
    data.deserialize(&mut msg);
    assert_eq!(data.net_id, 9);
    assert_eq!(data.hazel_msg.buffer.position, 1);
    assert_eq!(msg.buffer.position, 1);
}

#[test]
fn data_for_an_unknown_net_id_changes_nothing() {
    let mut room = room_with_game_data();
    let mut data = DataData { net_id: 9, hazel_msg: HazelMessage { length: 0, tag: 1, buffer: Buffer { position: 1, array: vec![9] } } };
    data.process(&mut room);
    let g = room.game_data.as_ref().unwrap();
    assert_eq!(g.net_id, 1);
    assert!(g.initial_spawn);
    assert!(room.lobby_behavior.is_none());
}

#[test]
fn data_for_the_game_data_ends_its_first_spawn() {
    let mut room = room_with_game_data();
    let mut data = DataData { net_id: 1, hazel_msg: HazelMessage { length: 0, tag: 1, buffer: Buffer { position: 1, array: vec![1] } } };
    data.process(&mut room);
    let g = room.game_data.as_ref().unwrap();
    assert_eq!(g.net_id, 1);
    assert_eq!(g.owner_id, 2);
    assert!(!g.initial_spawn);
}

#[test]
fn game_data_packet_applies_its_messages() {
    let mut room = GameRoom::new(redsus());
    let mut array = vec![211, 80, 63, 138];
    array.extend_from_slice(&[8, 0, 4, 2, 7, 0, 1, 9, 0, 0, 1, 99, 98]);
    let mut b = Buffer { position: 0, array };
    let mut packet = GameDataPacket { code: None, buffer: empty(), reliable: true };
    packet.deserialize(&mut b, &mut room);
    assert_eq!(packet.code.unwrap().code_string, "REDSUS");
    assert_eq!(room.lobby_behavior, Some(LobbyBehavior { net_id: 9, owner_id: 7, initial_spawn: false }));
}

#[test]
fn spawn_message_for_the_host() {
    let mut room = GameRoom::new(redsus());
    room.admit_player(&user_at(1));
    room.lobby_behavior = Some(LobbyBehavior { net_id: 9, owner_id: 7, initial_spawn: false });
    let b = spawn_message_buffer(&room);
    let lobby = vec![8, 0, 4, 2, 7, 0, 1, 9, 0, 0, 1];
    let mut body = vec![211, 80, 63, 138, 1];
    body.extend_from_slice(&lobby);
    let mut expected = vec![1, 0, 1, body.len() as u8, 0, 6];
    expected.extend_from_slice(&body);
    assert_eq!(b.array, expected);
}

#[test]
fn outfit_roundtrip() {
    let outfit = PlayerOutfit {
        preCensorName: "Red".to_string(),
        color_id: 3,
        hat_id: "hat".to_string(),
        pet_id: "".to_string(),
        skin_id: "skin".to_string(),
        visor_id: "v".to_string(),
        name_plate_id: "np".to_string(),
    };
    let mut b = empty();
    outfit.serialize(&mut b);
    let written = b.array.len();
    b.position = 0;
    let read = PlayerOutfit::deserialize(&mut b);
    assert_eq!(read, outfit);
    assert_eq!(b.position, written);
}

#[test]
fn matchmaker_address() {
    assert_eq!(convert_ip([127, 0, 0, 1]), 0x0100007F);
    let host = handle_host();
    assert_eq!(host.ip, 0x0100007F);
    assert_eq!(host.port, 22023);
}

#[test]
fn game_data_decision() {
    let mut room = GameRoom::new(redsus());
    let (seated, _) = room.admit_player(&user_at(1));
    let reliable = GameDataPacket { code: None, buffer: Buffer { position: 0, array: vec![5, 1, 2] }, reliable: true };
    assert!(matches!(game_data_action(&reliable, &room, &user_at(9)), GameDataAction::Ignore));
    match game_data_action(&reliable, &room, &seated) {
        GameDataAction::ReliableToAll(ids) => assert_eq!(ids, vec![1]),
        _ => panic!("expected a reliable send"),
    }
    let unreliable = GameDataPacket { code: None, buffer: Buffer { position: 0, array: vec![5, 1, 2] }, reliable: false };
    match game_data_action(&unreliable, &room, &seated) {
        GameDataAction::ForwardToAll(b, ids) => {
            assert_eq!(b.array, vec![0, 1, 2]);
            assert_eq!(ids, vec![1]);
        }
        _ => panic!("expected a forward"),
    }
}

#[test]
fn disconnect_leaves_the_room() {
    let mut room = GameRoom::new(redsus());
    let (host, _) = room.admit_player(&user_at(1));
    let (guest, _) = room.admit_player(&user_at(2));
    let packet = DisconnectPacket { disconnect_type: None, reason: None };
    assert!(!packet.process(&host, &mut room));
    assert_eq!(room.host, 2);
    assert!(!room.players.contains_key(&1));
    assert!(packet.process(&guest, &mut room));
    assert!(room.players.is_empty());
}

#[test]
fn hello_is_checked_before_reading() {
    assert!(hello_check(&Buffer { position: 0, array: hello_bytes(false) }));
    assert!(hello_check(&Buffer { position: 0, array: hello_bytes(true) }));
    let mut short = hello_bytes(false);
    short.truncate(20);
    assert!(!hello_check(&Buffer { position: 0, array: short }));
    let mut bad_text = hello_bytes(false);
    bad_text[6] = 0xFF;
    assert!(!hello_check(&Buffer { position: 0, array: bad_text }));
    let mut bad_mods = hello_bytes(false);
    bad_mods.push(1);
    assert!(!hello_check(&Buffer { position: 0, array: bad_mods }));
}

#[test]
fn code_checked_before_spelling() {
    assert_eq!(GameCode::checked_code_int(REDSUS).unwrap().code_string, "REDSUS");
    assert!(GameCode::checked_code_int(-1).is_none());
    assert_eq!(GameCode::checked_code_int(7).unwrap().code_string, "");
}

#[test]
fn drawn_letters_become_a_free_code() {
    let code = fresh_code([17, 4, 3, 18, 20, 18], &[]).unwrap();
    assert_eq!(code.code_int, REDSUS);
    assert_eq!(code.code_string, "REDSUS");
    let taken = vec![GameCode { code_int: REDSUS, code_string: "redsus".to_string() }];
    assert!(fresh_code([17, 4, 3, 18, 20, 18], &taken).is_none());
    assert!(fresh_code([0, 1, 2, 3, 4, 5], &taken).is_some());
}

fn settings(version: u8, role: u8) -> Vec<u8> {
    let mut v = vec![0u8; 42];
    v[1] = version;
    if version > 4 {
        v.extend_from_slice(&[0, 0, 0, 0, 0]);
        v.extend_from_slice(&[1, 0, 0, 0, 0, role, 1, 50]);
        v.extend_from_slice(&[0u8; 10]);
    }
    v.extend_from_slice(&[0, 0, 0, 0]);
    v
}

#[test]
fn game_settings_are_checked_before_reading() {
    assert!(options_check(&Buffer { position: 0, array: settings(1, 0) }));
    assert!(options_check(&Buffer { position: 0, array: settings(5, 2) }));
    assert!(!options_check(&Buffer { position: 0, array: settings(5, 9) }));
    let mut short = settings(1, 0);
    short.pop();
    assert!(!options_check(&Buffer { position: 0, array: short }));
}

#[test]
fn host_request_takes_the_free_code() {
    let code = fresh_code([17, 4, 3, 18, 20, 18], &[]).unwrap();
    let mut packet = HostGamePacket { code: None };
    let mut b = Buffer { position: 0, array: settings(5, 2) };
    packet.deserialize(&mut b, &[], code);
    assert_eq!(packet.code.unwrap().code_string, "REDSUS");
    assert_eq!(b.position, 69);
}

#[test]
fn join_packet_recipients() {
    let mut room = GameRoom::new(redsus());
    room.admit_player(&user_at(1));
    assert!(room.join_recipients(1, true).is_empty());
    room.admit_player(&user_at(2));
    assert_eq!(room.join_recipients(2, false), vec![1]);
}
