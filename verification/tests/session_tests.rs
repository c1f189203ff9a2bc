use tank::battle::{ServerEvent, TankCommand, VK_LEFT, VK_SPACE};
use tank::game::KeyEvent;
use tank::session::{
    address_frame, join_name, pack_batch, server_request, unpack_requests, ClientEffect,
    ClientSession, Roster, ServerRequest, MSG_CONNECT, MSG_KEY_EVENT, MSG_START, MSG_SYNC_DATA,
    SERVER_MSG_ERR, SERVER_MSG_EVENT, SERVER_MSG_IP, SERVER_MSG_PLAYERS, SERVER_MSG_SYNC,
};

fn frame(id: u8, mut body: Vec<u8>) -> Vec<u8> {
    body.insert(0, id);
    body
}

fn text(s: &str) -> Vec<u8> {
    bincode::serialize(s).unwrap()
}

#[test]
fn batches_are_bincode_sequences() {
    assert_eq!(pack_batch(&vec![]), None);
    let frames = vec![vec![5u8], vec![2, 7, 9]];
    let packed = pack_batch(&frames).unwrap();
    assert_eq!(
        packed,
        vec![2, 0, 0, 0, 0, 0, 0, 0, 1, 0, 0, 0, 0, 0, 0, 0, 5, 3, 0, 0, 0, 0, 0, 0, 0, 2, 7, 9]
    );
    assert_eq!(packed, bincode::serialize(&frames).unwrap());
}

#[test]
fn address_frame_holds_the_address() {
    let f = address_frame("1.2.3.4:5");
    let mut expected = vec![SERVER_MSG_IP, 9, 0, 0, 0, 0, 0, 0, 0];
    expected.extend_from_slice(b"1.2.3.4:5");
    assert_eq!(f, expected);
}

#[test]
fn server_reads_requests() {
    assert_eq!(server_request(vec![MSG_CONNECT]), ServerRequest::Connect);
    assert_eq!(server_request(frame(MSG_START, text("bob"))), ServerRequest::Start("bob".to_string()));
    assert_eq!(server_request(vec![MSG_START, 1]), ServerRequest::BadStart);
    assert_eq!(server_request(vec![1]), ServerRequest::Disconnect);
    assert_eq!(server_request(vec![MSG_KEY_EVENT, 1, 2]), ServerRequest::KeyEvent(vec![1, 2]));
    assert_eq!(server_request(vec![MSG_SYNC_DATA, 4]), ServerRequest::SyncData(vec![4]));
    assert_eq!(server_request(vec![42, 4]), ServerRequest::Unknown(42));
}

#[test]
fn server_unpacks_a_batch_passing_over_empty_frames() {
    let batch = bincode::serialize(&vec![frame(MSG_START, text("bob")), vec![], vec![MSG_CONNECT], vec![9]]).unwrap();
    assert_eq!(
        unpack_requests(&batch),
        Some(vec![ServerRequest::Start("bob".to_string()), ServerRequest::Connect, ServerRequest::Unknown(9)])
    );
    assert_eq!(unpack_requests(&vec![1, 2, 3]), None);
}

#[test]
fn join_names() {
    assert_eq!(join_name("Alexander", 1_700_000_000_000), "Alex");
    assert_eq!(join_name("Bo", 1_700_000_000_000), "Bo");
    assert_eq!(join_name("坦克大战手", 1_700_000_000_000), "坦克大战");
    assert_eq!(join_name("", 123_456_789), "4567");
    assert_eq!(join_name("", 100_000), "1000");
}

#[test]
fn joining_asks_for_the_address() {
    let mut s = ClientSession::new();
    s.player_join_game("Alexander", 1_700_000_000_000);
    assert_eq!(s.current_player_name, "Alex");
    assert_eq!(s.outbox, vec![vec![MSG_CONNECT]]);
    let up = s.take_outbox().unwrap();
    assert_eq!(up, bincode::serialize(&vec![vec![MSG_CONNECT]]).unwrap());
    assert!(s.outbox.is_empty());
    assert_eq!(s.take_outbox(), None);
}

#[test]
fn the_address_starts_the_game() {
    let mut s = ClientSession::new();
    s.player_join_game("Bo", 1_700_000_000_000);
    s.take_outbox();
    let batch = pack_batch(&vec![address_frame("9.9.9.9:1")]).unwrap();
    let effects = s.receive(&batch).unwrap();
    assert_eq!(effects, vec![ClientEffect::Address("9.9.9.9:1".to_string())]);
    assert_eq!(s.current_player_ip, "9.9.9.9:1");
    assert_eq!(s.outbox, vec![frame(MSG_START, text("Bo"))]);
    // and the server reads the start under that name
    let up = s.take_outbox().unwrap();
    assert_eq!(unpack_requests(&up), Some(vec![ServerRequest::Start("Bo".to_string())]));
}

#[test]
fn the_player_list_names_the_players() {
    let mut s = ClientSession::new();
    s.current_player_ip = "9.9.9.9:1".to_string();
    let players = vec![
        (7u32, "9.9.9.9:1".to_string(), "Bo".to_string()),
        (8u32, "1.1.1.1:2".to_string(), "Al".to_string()),
    ];
    let e = s.handle_frame(frame(SERVER_MSG_PLAYERS, bincode::serialize(&players).unwrap()));
    assert_eq!(e, ClientEffect::Names(vec![(7, "Bo".to_string()), (8, "Al".to_string())]));
    assert_eq!(s.current_player_id, 7);
    assert_eq!(s.player_names.get(&8), Some(&("1.1.1.1:2".to_string(), "Al".to_string())));
    let later = vec![(8u32, "1.1.1.1:2".to_string(), "Alan".to_string())];
    s.handle_frame(frame(SERVER_MSG_PLAYERS, bincode::serialize(&later).unwrap()));
    assert_eq!(s.current_player_id, 7);
    assert_eq!(s.player_names.len(), 2);
    assert_eq!(s.player_names.get(&8).unwrap().1, "Alan");
}

#[test]
fn other_frames() {
    let mut s = ClientSession::new();
    assert_eq!(s.handle_frame(frame(SERVER_MSG_ERR, text("full"))), ClientEffect::ServerError("full".to_string()));
    assert_eq!(s.handle_frame(vec![SERVER_MSG_ERR, 3]), ClientEffect::Undecodable(SERVER_MSG_ERR));
    assert_eq!(s.handle_frame(vec![SERVER_MSG_PLAYERS, 1]), ClientEffect::Undecodable(SERVER_MSG_PLAYERS));
    assert_eq!(s.handle_frame(vec![SERVER_MSG_SYNC, 1, 2]), ClientEffect::Synchronize(vec![1, 2]));
    assert_eq!(s.handle_frame(vec![SERVER_MSG_EVENT, 3]), ClientEffect::Events(vec![3]));
    assert_eq!(s.handle_frame(vec![77]), ClientEffect::Nothing);
    let effects = s.client_handle_message(vec![vec![], vec![77]]);
    assert_eq!(effects, vec![ClientEffect::Skipped, ClientEffect::Nothing]);
    assert_eq!(s.receive(&vec![0, 1]), None);
    assert!(s.outbox.is_empty());
}

#[test]
fn keys_go_to_the_server_once_the_tank_is_known() {
    let mut s = ClientSession::new();
    assert_eq!(s.forward_key(KeyEvent::KeyDown, VK_LEFT), None);
    assert!(s.outbox.is_empty());
    s.current_player_id = 7;
    assert_eq!(s.forward_key(KeyEvent::KeyDown, VK_LEFT), Some(TankCommand::Drive { dx: -1, dy: 0, frame: 2 }));
    assert_eq!(s.forward_key(KeyEvent::KeyDown, VK_SPACE), Some(TankCommand::Ignore));
    assert_eq!(s.forward_key(KeyEvent::KeyUp, VK_LEFT), Some(TankCommand::Stop));
    assert_eq!(s.outbox[0], frame(MSG_KEY_EVENT, bincode::serialize(&(0u32, VK_LEFT, 7u32)).unwrap()));
    assert_eq!(s.outbox[2], frame(MSG_KEY_EVENT, bincode::serialize(&(1u32, VK_LEFT, 7u32)).unwrap()));
    assert_eq!(s.outbox.len(), 3);
}

#[test]
fn rejoining_and_queued_frames() {
    let mut s = ClientSession::new();
    s.rejoin("Bo");
    s.queue_frame(MSG_SYNC_DATA, vec![1, 2]);
    assert_eq!(s.outbox, vec![frame(MSG_START, text("Bo")), vec![MSG_SYNC_DATA, 1, 2]]);
}

#[test]
fn roster_joins_and_leaves() {
    let mut r = Roster::new();
    r.join(1, "a:1".to_string());
    r.join(2, "b:2".to_string());
    r.join(3, "a:1".to_string());
    assert_eq!(r.len(), 3);
    assert_eq!(r.leave("a:1"), Some(1));
    assert_eq!(r.players, vec![(2, "b:2".to_string()), (3, "a:1".to_string())]);
    assert_eq!(r.leave("c:3"), None);
    assert_eq!(r.len(), 2);
    r.join(2, "d:4".to_string());
    assert_eq!(r.players, vec![(3, "a:1".to_string()), (2, "d:4".to_string())]);
    r.forget(3);
    assert_eq!(r.players, vec![(2, "d:4".to_string())]);
}

#[test]
fn dead_players_leave_the_roster() {
    let mut r = Roster::new();
    r.join(1, "a:1".to_string());
    r.join(2, "b:2".to_string());
    r.join(3, "c:3".to_string());
    let events = vec![
        ServerEvent::PlayerDying(2, "Bo".to_string(), "Al".to_string()),
        ServerEvent::PlayerJoin("d:4".to_string(), 4, "Di".to_string()),
        ServerEvent::PlayerDying(9, "X".to_string(), "Y".to_string()),
    ];
    r.forget_dead(&events);
    assert_eq!(r.players, vec![(1, "a:1".to_string()), (3, "c:3".to_string())]);
}
