use tank::game::{KeyEvent, SpriteEvent, SpriteInfo};
use tank::numbers::{decimal, parse_i32_at, parse_i64_at, parse_u32_at};
use tank::protocol::{
    find_char, handle_key, handle_message, join_message, parse_client_message,
    parse_server_message, split_ranges, sprite_events_message, sprites_data_message,
    ClientMessage, ServerMessage,
};
use tank::text::text_eq;

fn pieces(s: &str, sep: char) -> Vec<String> {
    let chars: Vec<char> = s.chars().collect();
    let n = chars.len();
    split_ranges(s, 0, n, sep)
        .into_iter()
        .map(|(a, b)| chars[a..b].iter().collect())
        .collect()
}

#[test]
fn split_matches_str_split() {
    for (s, sep) in [("a,b,,c", ','), ("", ','), (",", ','), ("abc", ','), ("x␟y␟", '␟')] {
        let expected: Vec<String> = s.split(sep).map(|p| p.to_string()).collect();
        assert_eq!(pieces(s, sep), expected);
    }
}

#[test]
fn find_char_counts_characters() {
    assert_eq!(find_char("ab\ncd", '\n'), Some(2));
    assert_eq!(find_char("␟␟\n", '\n'), Some(2));
    assert_eq!(find_char("abc", '\n'), None);
}

#[test]
fn numbers_parse_like_str_parse() {
    let cases = ["0", "42", "-17", "+5", "", "-", "+", "1x", "2147483647", "2147483648", "-2147483648", "-2147483649", "007"];
    for s in cases {
        let n = s.chars().count();
        assert_eq!(parse_i32_at(s, 0, n), s.parse::<i32>().ok(), "i32 {:?}", s);
        assert_eq!(parse_i64_at(s, 0, n), s.parse::<i64>().ok(), "i64 {:?}", s);
        assert_eq!(parse_u32_at(s, 0, n), s.parse::<u32>().ok(), "u32 {:?}", s);
    }
    assert_eq!(parse_u32_at("4294967295", 0, 10), Some(u32::MAX));
    assert_eq!(parse_u32_at("4294967296", 0, 10), None);
    assert_eq!(parse_i64_at("x-12y", 1, 4), Some(-12));
}

#[test]
fn key_messages_carry_event_and_key() {
    assert_eq!(handle_key(KeyEvent::KeyDown, "ArrowUp"), "4\n0␟ArrowUp");
    assert_eq!(handle_key(KeyEvent::KeyUp, " "), "4\n1␟ ");
    assert_eq!(join_message("ann"), "3\nann");
}

#[test]
fn error_and_uuid_messages() {
    match parse_server_message("0\nbad things") {
        ServerMessage::Error(t) => assert_eq!(t, "bad things"),
        _ => panic!("expected an error"),
    }
    match parse_server_message("2\nabc-123") {
        ServerMessage::Uuid(t) => assert_eq!(t, "abc-123"),
        _ => panic!("expected a uuid"),
    }
    assert!(matches!(parse_server_message("no line break"), ServerMessage::Ignored));
    assert!(matches!(parse_server_message("x\n1"), ServerMessage::Ignored));
    assert!(matches!(parse_server_message("9\n1"), ServerMessage::Ignored));
}

#[test]
fn event_messages_list_their_records() {
    let msg = "3\n0␟7␟1␟10␟20␟27␟37␟2␟0␟3␟ann␟5\n2␟8␟x␟1␟2␟3␟4␟5␟6␟7␟bob␟9";
    match parse_server_message(msg) {
        ServerMessage::Events(events) => {
            assert_eq!(events.len(), 2);
            assert_eq!(events[0].0, SpriteEvent::Add);
            let r = &events[0].1;
            assert_eq!((r.id.as_str(), r.res_id, r.left, r.top, r.right, r.bottom), ("7", 1, 10, 20, 27, 37));
            assert_eq!((r.velocity_x, r.velocity_y, r.current_frame, r.name.as_str(), r.score), (2, 0, 3, "ann", 5));
            assert_eq!(events[1].0, SpriteEvent::Delete);
            // a resource that is not a number counts as -1
            assert_eq!(events[1].1.res_id, -1);
        }
        _ => panic!("expected events"),
    }
}

#[test]
fn a_short_line_ends_an_event_message_and_a_bad_event_is_skipped() {
    let msg = "3\n9␟1␟1␟1␟1␟1␟1␟1␟1␟1␟n␟1\n1␟2␟1␟1␟1␟1␟1␟1␟1␟1␟n␟1\nshort\n0␟3␟1␟1␟1␟1␟1␟1␟1␟1␟n␟1";
    match parse_server_message(msg) {
        ServerMessage::Events(events) => {
            assert_eq!(events.len(), 1);
            assert_eq!(events[0].0, SpriteEvent::Update);
            assert_eq!(events[0].1.id, "2");
        }
        _ => panic!("expected events"),
    }
}

#[test]
fn data_messages_list_sprites() {
    let msg = "1\n4␟0␟1␟2␟3␟4␟5␟6␟7␟tank␟z\n5␟x␟1␟2␟3␟4␟5␟6␟7␟tank␟1";
    match parse_server_message(msg) {
        ServerMessage::Sprites(sprites) => {
            assert_eq!(sprites.len(), 2);
            assert_eq!(sprites[0].score, 0);
            // a resource that is not a number counts as 0 here
            assert_eq!(sprites[1].res_id, 0);
            let info = sprites[0].to_info().unwrap();
            assert_eq!((info.id, info.res, info.l, info.t, info.r, info.b, info.vx, info.vy, info.frame), (4, 0, 1, 2, 3, 4, 5, 6, 7));
        }
        _ => panic!("expected sprites"),
    }
}

#[test]
fn a_client_learns_of_its_own_death() {
    let msg = "3\n2␟u-1␟0␟0␟0␟0␟0␟0␟0␟0␟me␟0";
    assert!(handle_message("u-1", msg).player_died);
    assert!(!handle_message("u-2", msg).player_died);
    let update = "3\n1␟u-1␟0␟0␟0␟0␟0␟0␟0␟0␟me␟0";
    assert!(!handle_message("u-1", update).player_died);
}

#[test]
fn text_comparison() {
    assert!(text_eq("ab", "ab"));
    assert!(!text_eq("ab", "abc"));
    assert!(!text_eq("ab", "ac"));
}

#[test]
fn decimals_are_written_like_format() {
    for n in [0i64, 7, 10, 42, -1, -305, 1234567890, i64::MAX, i64::MIN] {
        assert_eq!(decimal(n), format!("{}", n));
    }
}

#[test]
fn client_messages_are_read() {
    match parse_client_message(&handle_key(KeyEvent::KeyUp, "ArrowLeft")) {
        ClientMessage::Key(e, k) => assert_eq!((e, k.as_str()), (KeyEvent::KeyUp, "ArrowLeft")),
        _ => panic!("expected a key"),
    }
    // a key name may hold the separator itself
    match parse_client_message("4\n0␟a␟b") {
        ClientMessage::Key(e, k) => assert_eq!((e, k.as_str()), (KeyEvent::KeyDown, "a␟b")),
        _ => panic!("expected a key"),
    }
    match parse_client_message(&join_message("ann")) {
        ClientMessage::Join(name) => assert_eq!(name, "ann"),
        _ => panic!("expected a join"),
    }
    assert!(matches!(parse_client_message("4\nno separator"), ClientMessage::Ignored));
    assert!(matches!(parse_client_message("5\nx"), ClientMessage::Ignored));
    assert!(matches!(parse_client_message("nothing"), ClientMessage::Ignored));
}

#[test]
fn what_the_server_writes_the_client_reads() {
    let a = SpriteInfo { id: 12, res: 1, l: -3, t: 4, r: 14, b: 20, vx: 0, vy: -2, frame: 1 };
    let b = SpriteInfo { id: 7, res: 2, l: 0, t: 0, r: 33, b: 34, vx: 0, vy: 0, frame: 0 };
    let msg = sprite_events_message(&vec![(SpriteEvent::Add, a), (SpriteEvent::Delete, b)]);
    assert_eq!(msg, "3\n0␟12␟1␟-3␟4␟14␟20␟0␟-2␟1␟␟0\n2␟7␟2␟0␟0␟33␟34␟0␟0␟0␟␟0");
    match parse_server_message(&msg) {
        ServerMessage::Events(events) => {
            assert_eq!(events.len(), 2);
            assert_eq!(events[0].0, SpriteEvent::Add);
            assert_eq!(events[0].1.to_info(), Some(a));
            assert_eq!(events[1].0, SpriteEvent::Delete);
            assert_eq!(events[1].1.to_info(), Some(b));
        }
        _ => panic!("expected events"),
    }
    assert_eq!(sprite_events_message(&vec![]), "3\n");
    assert!(matches!(parse_server_message("3\n"), ServerMessage::Events(e) if e.is_empty()));
    let mut game = tank::game::TankGame::new();
    game.join_game(3, Some("bob"));
    let data = sprites_data_message(game.sprites());
    match parse_server_message(&data) {
        ServerMessage::Sprites(s) => {
            assert_eq!(s.len(), 1);
            assert_eq!(s[0].to_info().map(|i| i.id), Some(3));
        }
        _ => panic!("expected sprites"),
    }
    assert_eq!(sprites_data_message(&vec![]), "1\n");
}
