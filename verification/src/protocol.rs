use crate::game::{key_event_number, key_event_of, sprite_event_of, KeyEvent, SpriteEvent, SpriteInfo};
use crate::game::{info_of, lemma_event_numbers_round_trip, sprite_event_number, MouseEvent};
use crate::sprite::Sprite;
use crate::numbers::{
    all_digits, decimal, decimal_text, digit_value, digits_value, is_digit,
    lemma_decimal_parses_back, parse_i32, parse_i32_at, parse_i64, parse_i64_at, parse_signed,
    parse_u32,
    parse_u32_at,
};
use vstd::prelude::*;

verus! {

// ------------------------------------------------------------------
// Splitting text, as `str::split(char)` does
// ------------------------------------------------------------------
/// The pieces of `s` between the occurrences of `sep`, in order. There is
/// always at least one piece; `n` separators give `n + 1` pieces, some of
/// which may be empty.
pub open spec fn split_on(s: Seq<char>, sep: char) -> Seq<Seq<char>>
    decreases s.len(),
{
    if s.len() == 0 {
        seq![Seq::<char>::empty()]
    } else {
        let p = split_on(s.drop_last(), sep);
        if s.last() == sep {
            p.push(Seq::<char>::empty())
        } else {
            p.update(p.len() - 1, p.last().push(s.last()))
        }
    }
}

/// Splitting always gives at least one piece.
pub proof fn lemma_split_on_nonempty(s: Seq<char>, sep: char)
    ensures
        split_on(s, sep).len() >= 1,
    decreases s.len(),
{
    if s.len() > 0 {
        lemma_split_on_nonempty(s.drop_last(), sep);
    }
}

/// The text that a list of character ranges of `s` cover, one piece each.
pub open spec fn pieces_of(s: Seq<char>, ranges: Seq<(usize, usize)>) -> Seq<Seq<char>> {
    ranges.map_values(|r: (usize, usize)| s.subrange(r.0 as int, r.1 as int))
}

pub open spec fn ranges_within(ranges: Seq<(usize, usize)>, a: int, b: int) -> bool {
    forall|k: int| 0 <= k < ranges.len() ==> a <= (#[trigger] ranges[k]).0 <= ranges[k].1 <= b
}

/// The character ranges of the pieces of `s@[a..b]` between the occurrences of
/// `sep`.
pub fn split_ranges(s: &str, a: usize, b: usize, sep: char) -> (r: Vec<(usize, usize)>)
    requires
        a <= b <= s@.len(),
    ensures
        ranges_within(r@, a as int, b as int),
        pieces_of(s@, r@) == split_on(s@.subrange(a as int, b as int), sep),
{
    let mut ranges: Vec<(usize, usize)> = Vec::new();
    let mut start: usize = a;
    let mut i: usize = a;
    assert(s@.subrange(a as int, a as int) =~= Seq::<char>::empty());
    assert(pieces_of(s@, ranges@).push(s@.subrange(a as int, a as int)) =~= seq![
        Seq::<char>::empty(),
    ]);
    while i < b
        invariant
            a <= start <= i <= b <= s@.len(),
            ranges_within(ranges@, a as int, start as int),
            split_on(s@.subrange(a as int, i as int), sep) == pieces_of(s@, ranges@).push(
                s@.subrange(start as int, i as int),
            ),
        decreases b - i,
    {
        let c = s.get_char(i);
        let ghost t = s@.subrange(a as int, i as int + 1);
        assert(t.drop_last() == s@.subrange(a as int, i as int));
        assert(t.last() == c);
        if c == sep {
            ranges.push((start, i));
            assert(s@.subrange(i as int + 1, i as int + 1) =~= Seq::<char>::empty());
            assert(pieces_of(s@, ranges@) =~= pieces_of(s@, ranges@.drop_last()).push(
                s@.subrange(start as int, i as int),
            ));
            start = i + 1;
        } else {
            assert(s@.subrange(start as int, i as int).push(c) =~= s@.subrange(
                start as int,
                i as int + 1,
            ));
        }
        i = i + 1;
        assert(pieces_of(s@, ranges@).push(s@.subrange(start as int, i as int)) =~= split_on(
            t,
            sep,
        ));
    }
    ranges.push((start, b));
    assert(pieces_of(s@, ranges@) =~= pieces_of(s@, ranges@.drop_last()).push(
        s@.subrange(start as int, b as int),
    ));
    ranges
}

// ------------------------------------------------------------------
// Finding a character
// ------------------------------------------------------------------
/// The index of the first `c` in `s`, if there is one.
pub open spec fn first_index(s: Seq<char>, c: char) -> Option<int> {
    if exists|i: int| 0 <= i < s.len() && s[i] == c {
        Some(choose|i: int| 0 <= i < s.len() && s[i] == c && forall|j: int| 0 <= j < i ==> s[j] != c)
    } else {
        None
    }
}

/// `s.find(c)`, counted in characters.
pub fn find_char(s: &str, c: char) -> (r: Option<usize>)
    ensures
        r matches Some(i) ==> first_index(s@, c) == Some(i as int) && i < s@.len() && s@[i as int]
            == c,
        r is None ==> first_index(s@, c) is None,
{
    let n = s.unicode_len();
    let mut i: usize = 0;
    while i < n
        invariant
            0 <= i <= n,
            n == s@.len(),
            forall|j: int| 0 <= j < i ==> s@[j] != c,
        decreases n - i,
    {
        if s.get_char(i) == c {
            proof {
                let k = choose|k: int| 0 <= k < s@.len() && s@[k] == c && forall|j: int| 0 <= j < k ==> s@[j] != c;
                assert(0 <= i < s@.len() && s@[i as int] == c && forall|j: int| 0 <= j < i ==> s@[j] != c);
                assert(k == i) by {
                    if k < i {
                        assert(s@[k] != c);
                    } else if k > i {
                        assert(s@[i as int] != c);
                    }
                }
            }
            return Some(i);
        }
        i = i + 1;
    }
    None
}

// ------------------------------------------------------------------
// The server's text messages
// ------------------------------------------------------------------
/// The server reports an error; the text says which.
pub const SERVER_MSG_ERR: i64 = 0;

/// The server sends every sprite of the game, one per line.
pub const SERVER_MSG_DATA: i64 = 1;

/// The server tells the client the id of its player.
pub const SERVER_MSG_UUID: i64 = 2;

/// The server sends sprite events, one per line.
pub const SERVER_MSG_EVENT: i64 = 3;

/// The client joins the game; the text is the player's name.
pub const MSG_JOIN: i64 = 3;

/// The client reports a key press or release.
pub const MSG_KEY_EVENT: i64 = 4;

/// Separates the fields of a line (U+241F, SYMBOL FOR UNIT SEPARATOR).
pub const FIELD_SEPARATOR: char = '\u{241F}';

/// A sprite as a line of a server message describes it.
pub struct SpriteRecord {
    pub id: String,
    pub res_id: i32,
    pub left: i32,
    pub top: i32,
    pub right: i32,
    pub bottom: i32,
    pub velocity_x: i32,
    pub velocity_y: i32,
    pub current_frame: i32,
    pub name: String,
    pub score: i32,
}

pub struct RecordView {
    pub id: Seq<char>,
    pub res_id: i32,
    pub left: i32,
    pub top: i32,
    pub right: i32,
    pub bottom: i32,
    pub velocity_x: i32,
    pub velocity_y: i32,
    pub current_frame: i32,
    pub name: Seq<char>,
    pub score: i32,
}

impl View for SpriteRecord {
    type V = RecordView;

    open spec fn view(&self) -> RecordView {
        RecordView {
            id: self.id@,
            res_id: self.res_id,
            left: self.left,
            top: self.top,
            right: self.right,
            bottom: self.bottom,
            velocity_x: self.velocity_x,
            velocity_y: self.velocity_y,
            current_frame: self.current_frame,
            name: self.name@,
            score: self.score,
        }
    }
}

/// `s.parse::<i32>().unwrap_or(d)`.
pub open spec fn int_or(s: Seq<char>, d: i32) -> i32 {
    match parse_i32(s) {
        Some(v) => v,
        None => d,
    }
}

/// The record whose eleven fields start at `items[k]`: id, resource, left,
/// top, right, bottom, x and y velocity, frame, name and score. A number that
/// does not parse counts as 0, the resource as `res_default`.
pub open spec fn record_at(items: Seq<Seq<char>>, k: int, res_default: i32) -> RecordView {
    RecordView {
        id: items[k],
        res_id: int_or(items[k + 1], res_default),
        left: int_or(items[k + 2], 0),
        top: int_or(items[k + 3], 0),
        right: int_or(items[k + 4], 0),
        bottom: int_or(items[k + 5], 0),
        velocity_x: int_or(items[k + 6], 0),
        velocity_y: int_or(items[k + 7], 0),
        current_frame: int_or(items[k + 8], 0),
        name: items[k + 9],
        score: int_or(items[k + 10], 0),
    }
}

/// The events of the lines of an event message. Each line holds twelve fields,
/// the event number first; a line with another number of fields ends the
/// message there; a line whose event number is not one skips that line.
pub open spec fn event_records(lines: Seq<Seq<char>>) -> Seq<(SpriteEvent, RecordView)>
    decreases lines.len(),
{
    if lines.len() == 0 {
        Seq::empty()
    } else {
        let items = split_on(lines[0], FIELD_SEPARATOR);
        if items.len() != 12 {
            Seq::empty()
        } else {
            let rest = event_records(lines.drop_first());
            match parse_i64(items[0]) {
                Some(n) => match sprite_event_of(n as int) {
                    Some(e) => seq![(e, record_at(items, 1, -1i32))] + rest,
                    None => rest,
                },
                None => rest,
            }
        }
    }
}

/// The sprites of the lines of a data message: eleven fields each; a line with
/// another number of fields ends the message there.
pub open spec fn sprite_records(lines: Seq<Seq<char>>) -> Seq<RecordView>
    decreases lines.len(),
{
    if lines.len() == 0 {
        Seq::empty()
    } else {
        let items = split_on(lines[0], FIELD_SEPARATOR);
        if items.len() != 11 {
            Seq::empty()
        } else {
            seq![record_at(items, 0, 0i32)] + sprite_records(lines.drop_first())
        }
    }
}

pub open spec fn events_view(v: Seq<(SpriteEvent, SpriteRecord)>) -> Seq<(SpriteEvent, RecordView)> {
    v.map_values(|p: (SpriteEvent, SpriteRecord)| (p.0, p.1@))
}

pub open spec fn records_view(v: Seq<SpriteRecord>) -> Seq<RecordView> {
    v.map_values(|p: SpriteRecord| p@)
}

/// `s@[r.0..r.1].parse::<i32>().unwrap_or(d)`.
fn int_field(s: &str, r: (usize, usize), d: i32) -> (v: i32)
    requires
        r.0 <= r.1 <= s@.len(),
    ensures
        v == int_or(s@.subrange(r.0 as int, r.1 as int), d),
{
    match parse_i32_at(s, r.0, r.1) {
        Some(v) => v,
        None => d,
    }
}

/// The text of `s@[r.0..r.1]`.
fn text_field(s: &str, r: (usize, usize)) -> (t: String)
    requires
        r.0 <= r.1 <= s@.len(),
    ensures
        t@ == s@.subrange(r.0 as int, r.1 as int),
{
    String::from_str(s.substring_char(r.0, r.1))
}

/// Reads the record whose eleven fields are the pieces `items[k..k + 11]` of `s`.
fn read_record(s: &str, items: &Vec<(usize, usize)>, k: usize, res_default: i32) -> (r:
    SpriteRecord)
    requires
        k + 11 <= items.len(),
        ranges_within(items@, 0, s@.len() as int),
    ensures
        r@ == record_at(pieces_of(s@, items@), k as int, res_default),
{
    let ghost p = pieces_of(s@, items@);
    proof {
        assert forall|j: int| k <= j < k + 11 implies items@[j].0 <= items@[j].1 <= s@.len()
            && p[j] == s@.subrange(items@[j].0 as int, items@[j].1 as int) by {
            assert(0 <= (items@[j]).0 <= items@[j].1 <= s@.len());
        }
    }
    SpriteRecord {
        id: text_field(s, items[k]),
        res_id: int_field(s, items[k + 1], res_default),
        left: int_field(s, items[k + 2], 0),
        top: int_field(s, items[k + 3], 0),
        right: int_field(s, items[k + 4], 0),
        bottom: int_field(s, items[k + 5], 0),
        velocity_x: int_field(s, items[k + 6], 0),
        velocity_y: int_field(s, items[k + 7], 0),
        current_frame: int_field(s, items[k + 8], 0),
        name: text_field(s, items[k + 9]),
        score: int_field(s, items[k + 10], 0),
    }
}

/// Reads the events of the lines `lines` of `s`.
fn read_events(s: &str, lines: &Vec<(usize, usize)>) -> (r: Vec<(SpriteEvent, SpriteRecord)>)
    requires
        ranges_within(lines@, 0, s@.len() as int),
    ensures
        events_view(r@) == event_records(pieces_of(s@, lines@)),
{
    let ghost all = pieces_of(s@, lines@);
    let mut out: Vec<(SpriteEvent, SpriteRecord)> = Vec::new();
    let mut i: usize = 0;
    assert(all.skip(0) =~= all);
    assert(events_view(out@) + event_records(all) =~= event_records(all));
    while i < lines.len()
        invariant
            0 <= i <= lines.len(),
            all == pieces_of(s@, lines@),
            ranges_within(lines@, 0, s@.len() as int),
            events_view(out@) + event_records(all.skip(i as int)) == event_records(all),
        decreases lines.len() - i,
    {
        let (la, lb) = lines[i];
        assert(0 <= (lines@[i as int]).0 <= lines@[i as int].1 <= s@.len());
        let items = split_ranges(s, la, lb, FIELD_SEPARATOR);
        let ghost rest = all.skip(i as int);
        assert(rest[0] == all[i as int]);
        assert(rest.drop_first() =~= all.skip(i as int + 1));
        assert(pieces_of(s@, items@) == split_on(rest[0], FIELD_SEPARATOR));
        if items.len() != 12 {
            assert(events_view(out@) + Seq::<(SpriteEvent, RecordView)>::empty() =~= events_view(
                out@,
            ));
            return out;
        }
        assert(ranges_within(items@, 0, s@.len() as int)) by {
            assert forall|k: int| 0 <= k < items@.len() implies 0 <= (#[trigger] items@[k]).0
                <= items@[k].1 <= s@.len() by {
                assert(la <= (items@[k]).0 <= items@[k].1 <= lb);
            }
        }
        assert(0 <= (items@[0]).0 <= items@[0].1 <= s@.len());
        let ghost before = events_view(out@);
        match parse_i64_at(s, items[0].0, items[0].1) {
            Some(n) => match SpriteEvent::from_i64(n) {
                Some(e) => {
                    let rec = read_record(s, &items, 1, -1);
                    out.push((e, rec));
                    assert(events_view(out@) =~= before.push((e, rec@)));
                    assert(events_view(out@) + event_records(all.skip(i as int + 1)) =~= before
                        + (seq![(e, rec@)] + event_records(all.skip(i as int + 1))));
                },
                None => {},
            },
            None => {},
        }
        i = i + 1;
    }
    assert(all.skip(i as int) =~= Seq::<Seq<char>>::empty());
    assert(events_view(out@) + Seq::<(SpriteEvent, RecordView)>::empty() =~= events_view(out@));
    out
}

/// Reads the sprites of the lines `lines` of `s`.
fn read_sprites(s: &str, lines: &Vec<(usize, usize)>) -> (r: Vec<SpriteRecord>)
    requires
        ranges_within(lines@, 0, s@.len() as int),
    ensures
        records_view(r@) == sprite_records(pieces_of(s@, lines@)),
{
    let ghost all = pieces_of(s@, lines@);
    let mut out: Vec<SpriteRecord> = Vec::new();
    let mut i: usize = 0;
    assert(all.skip(0) =~= all);
    assert(records_view(out@) + sprite_records(all) =~= sprite_records(all));
    while i < lines.len()
        invariant
            0 <= i <= lines.len(),
            all == pieces_of(s@, lines@),
            ranges_within(lines@, 0, s@.len() as int),
            records_view(out@) + sprite_records(all.skip(i as int)) == sprite_records(all),
        decreases lines.len() - i,
    {
        let (la, lb) = lines[i];
        assert(0 <= (lines@[i as int]).0 <= lines@[i as int].1 <= s@.len());
        let items = split_ranges(s, la, lb, FIELD_SEPARATOR);
        let ghost rest = all.skip(i as int);
        assert(rest[0] == all[i as int]);
        assert(rest.drop_first() =~= all.skip(i as int + 1));
        assert(pieces_of(s@, items@) == split_on(rest[0], FIELD_SEPARATOR));
        if items.len() != 11 {
            assert(records_view(out@) + Seq::<RecordView>::empty() =~= records_view(out@));
            return out;
        }
        assert(ranges_within(items@, 0, s@.len() as int)) by {
            assert forall|k: int| 0 <= k < items@.len() implies 0 <= (#[trigger] items@[k]).0
                <= items@[k].1 <= s@.len() by {
                assert(la <= (items@[k]).0 <= items@[k].1 <= lb);
            }
        }
        let ghost before = records_view(out@);
        let rec = read_record(s, &items, 0, 0);
        out.push(rec);
        assert(records_view(out@) =~= before.push(rec@));
        assert(records_view(out@) + sprite_records(all.skip(i as int + 1)) =~= before + (seq![
            rec@,
        ] + sprite_records(all.skip(i as int + 1))));
        i = i + 1;
    }
    assert(all.skip(i as int) =~= Seq::<Seq<char>>::empty());
    assert(records_view(out@) + Seq::<RecordView>::empty() =~= records_view(out@));
    out
}

/// The sprite information of a record whose id is a number, as the game takes it.
pub open spec fn info_of_record(r: RecordView) -> Option<SpriteInfo> {
    match parse_u32(r.id) {
        Some(id) => Some(
            SpriteInfo {
                id,
                res: r.res_id,
                l: r.left,
                t: r.top,
                r: r.right,
                b: r.bottom,
                vx: r.velocity_x,
                vy: r.velocity_y,
                frame: r.current_frame,
            },
        ),
        None => None,
    }
}

impl SpriteRecord {
    /// The record as the game's sprite information; `None` when the id is not a
    /// `u32` number.
    pub fn to_info(&self) -> (r: Option<SpriteInfo>)
        ensures
            r == info_of_record(self@),
    {
        let id_text = self.id.as_str();
        let n = id_text.unicode_len();
        assert(id_text@.subrange(0, n as int) =~= self.id@);
        match parse_u32_at(id_text, 0, n) {
            Some(id) => Some(
                SpriteInfo {
                    id,
                    res: self.res_id,
                    l: self.left,
                    t: self.top,
                    r: self.right,
                    b: self.bottom,
                    vx: self.velocity_x,
                    vy: self.velocity_y,
                    frame: self.current_frame,
                },
            ),
            None => None,
        }
    }
}

/// The message a client sends for a key event: `4`, a line break, the event's
/// number, the field separator and the key.
pub fn handle_key(event: KeyEvent, key: &str) -> (m: String)
    ensures
        m@ == seq![
            '4',
            '\n',
            if event == KeyEvent::KeyDown {
                '0'
            } else {
                '1'
            },
            FIELD_SEPARATOR,
        ] + key@,
{
    let head = match event {
        KeyEvent::KeyDown => "4\n0\u{241F}",
        KeyEvent::KeyUp => "4\n1\u{241F}",
    };
    proof {
        reveal_strlit("4\n0\u{241F}");
        reveal_strlit("4\n1\u{241F}");
    }
    let mut m = String::from_str(head);
    m.append(key);
    m
}

/// The message a client sends to join the game: `3`, a line break and the
/// player's name.
pub fn join_message(name: &str) -> (m: String)
    ensures
        m@ == seq!['3', '\n'] + name@,
{
    proof {
        reveal_strlit("3\n");
    }
    let mut m = String::from_str("3\n");
    m.append(name);
    m
}

/// A message of the server, as the client understands it.
pub enum ServerMessage {
    /// Not a message the client acts on: no line break, an id that is not a
    /// number, or an id it does not know.
    Ignored,
    Error(String),
    Uuid(String),
    Events(Vec<(SpriteEvent, SpriteRecord)>),
    Sprites(Vec<SpriteRecord>),
}

pub enum MessageView {
    Ignored,
    Error(Seq<char>),
    Uuid(Seq<char>),
    Events(Seq<(SpriteEvent, RecordView)>),
    Sprites(Seq<RecordView>),
}

impl View for ServerMessage {
    type V = MessageView;

    open spec fn view(&self) -> MessageView {
        match self {
            ServerMessage::Ignored => MessageView::Ignored,
            ServerMessage::Error(t) => MessageView::Error(t@),
            ServerMessage::Uuid(t) => MessageView::Uuid(t@),
            ServerMessage::Events(v) => MessageView::Events(events_view(v@)),
            ServerMessage::Sprites(v) => MessageView::Sprites(records_view(v@)),
        }
    }
}

/// A server message is its id, a line break, and its data: the error text, the
/// player's id, or the lines of events or sprites.
pub open spec fn message_of(s: Seq<char>) -> MessageView {
    match first_index(s, '\n') {
        None => MessageView::Ignored,
        Some(lf) => match parse_i64(s.take(lf)) {
            None => MessageView::Ignored,
            Some(id) => {
                let data = s.skip(lf + 1);
                if id == SERVER_MSG_ERR {
                    MessageView::Error(data)
                } else if id == SERVER_MSG_EVENT {
                    MessageView::Events(event_records(split_on(data, '\n')))
                } else if id == SERVER_MSG_UUID {
                    MessageView::Uuid(data)
                } else if id == SERVER_MSG_DATA {
                    MessageView::Sprites(sprite_records(split_on(data, '\n')))
                } else {
                    MessageView::Ignored
                }
            },
        },
    }
}

/// Reads a message of the server.
#[verifier::spinoff_prover]
#[verifier::rlimit(30)]
pub fn parse_server_message(msg: &str) -> (m: ServerMessage)
    ensures
        m@ == message_of(msg@),
{
    let lf = match find_char(msg, '\n') {
        Some(lf) => lf,
        None => {
            return ServerMessage::Ignored;
        },
    };
    let n = msg.unicode_len();
    assert(msg@.take(lf as int) =~= msg@.subrange(0, lf as int));
    assert(msg@.skip(lf + 1) =~= msg@.subrange(lf + 1, n as int));
    let id = match parse_i64_at(msg, 0, lf) {
        Some(id) => id,
        None => {
            return ServerMessage::Ignored;
        },
    };
    if id == SERVER_MSG_ERR {
        ServerMessage::Error(text_field(msg, (lf + 1, n)))
    } else if id == SERVER_MSG_EVENT {
        let lines = split_ranges(msg, lf + 1, n, '\n');
        ServerMessage::Events(read_events(msg, &lines))
    } else if id == SERVER_MSG_UUID {
        ServerMessage::Uuid(text_field(msg, (lf + 1, n)))
    } else if id == SERVER_MSG_DATA {
        let lines = split_ranges(msg, lf + 1, n, '\n');
        ServerMessage::Sprites(read_sprites(msg, &lines))
    } else {
        ServerMessage::Ignored
    }
}

/// Whether the events delete the sprite of the player with this id.
pub open spec fn player_deleted(events: Seq<(SpriteEvent, RecordView)>, uuid: Seq<char>) -> bool {
    exists|k: int| 0 <= k < events.len() && events[k].0 == SpriteEvent::Delete && events[k].1.id == uuid
}

/// What a client makes of a server message.
pub struct MessageOutcome {
    pub message: ServerMessage,
    /// The message deletes the sprite of the client's own player.
    pub player_died: bool,
}

/// Reads a server message for the client whose player has the id `uuid`, and
/// tells whether it reports that player's death.
pub fn handle_message(uuid: &str, msg: &str) -> (o: MessageOutcome)
    ensures
        o.message@ == message_of(msg@),
        o.player_died == (match message_of(msg@) {
            MessageView::Events(events) => player_deleted(events, uuid@),
            _ => false,
        }),
{
    let message = parse_server_message(msg);
    let mut died = false;
    if let ServerMessage::Events(events) = &message {
        let mut i: usize = 0;
        while i < events.len()
            invariant
                0 <= i <= events.len(),
                message@ == message_of(msg@),
                message == ServerMessage::Events(*events),
                died == exists|k: int| 0 <= k < i && events@[k].0 == SpriteEvent::Delete && events@[k].1.id@ == uuid@,
            decreases events.len() - i,
        {
            let is_delete = match events[i].0 {
                SpriteEvent::Delete => true,
                _ => false,
            };
            if is_delete && crate::text::text_eq(events[i].1.id.as_str(), uuid) {
                died = true;
            }
            i = i + 1;
        }
        proof {
            let ev = events_view(events@);
            if died {
                let k = choose|k: int| 0 <= k < i && events@[k].0 == SpriteEvent::Delete && events@[k].1.id@ == uuid@;
                assert(ev[k].0 == SpriteEvent::Delete && ev[k].1.id == uuid@);
            }
            if player_deleted(ev, uuid@) {
                let k = choose|k: int| 0 <= k < ev.len() && ev[k].0 == SpriteEvent::Delete && ev[k].1.id == uuid@;
                assert(events@[k].0 == SpriteEvent::Delete && events@[k].1.id@ == uuid@);
            }
        }
    }
    MessageOutcome { message, player_died: died }
}

// ------------------------------------------------------------------
// The clients' text messages
// ------------------------------------------------------------------
/// A message of a client, as the server understands it.
pub enum ClientMessage {
    /// The player joins under this name.
    Join(String),
    /// A key event: whether the key went down or up, and the key's name.
    Key(KeyEvent, String),
    /// Not a message the server acts on.
    Ignored,
}

pub enum ClientView {
    Join(Seq<char>),
    Key(KeyEvent, Seq<char>),
    Ignored,
}

impl View for ClientMessage {
    type V = ClientView;

    open spec fn view(&self) -> ClientView {
        match self {
            ClientMessage::Join(name) => ClientView::Join(name@),
            ClientMessage::Key(e, key) => ClientView::Key(*e, key@),
            ClientMessage::Ignored => ClientView::Ignored,
        }
    }
}

/// A key event's data: the event's number, the field separator, the key.
pub open spec fn key_data_of(data: Seq<char>) -> ClientView {
    match first_index(data, FIELD_SEPARATOR) {
        None => ClientView::Ignored,
        Some(p) => match parse_i64(data.take(p)) {
            Some(n) => ClientView::Key(key_event_of(n as int), data.skip(p + 1)),
            None => ClientView::Ignored,
        },
    }
}

/// A client message is its id, a line break and its data: the player's name
/// to join, or a key event.
pub open spec fn client_message_of(s: Seq<char>) -> ClientView {
    match first_index(s, '\n') {
        None => ClientView::Ignored,
        Some(lf) => match parse_i64(s.take(lf)) {
            Some(id) => {
                let data = s.skip(lf + 1);
                if id == MSG_JOIN {
                    ClientView::Join(data)
                } else if id == MSG_KEY_EVENT {
                    key_data_of(data)
                } else {
                    ClientView::Ignored
                }
            },
            None => ClientView::Ignored,
        },
    }
}

/// Reads a message of a client.
#[verifier::spinoff_prover]
pub fn parse_client_message(msg: &str) -> (m: ClientMessage)
    ensures
        m@ == client_message_of(msg@),
{
    let n = msg.unicode_len();
    let lf = match find_char(msg, '\n') {
        Some(lf) => lf,
        None => {
            return ClientMessage::Ignored;
        },
    };
    assert(msg@.take(lf as int) =~= msg@.subrange(0, lf as int));
    let id = match parse_i64_at(msg, 0, lf) {
        Some(id) => id,
        None => {
            return ClientMessage::Ignored;
        },
    };
    let data = msg.substring_char(lf + 1, n);
    assert(data@ =~= msg@.skip(lf + 1));
    if id == MSG_JOIN {
        ClientMessage::Join(String::from_str(data))
    } else if id == MSG_KEY_EVENT {
        let m = data.unicode_len();
        match find_char(data, FIELD_SEPARATOR) {
            None => ClientMessage::Ignored,
            Some(p) => {
                assert(data@.take(p as int) =~= data@.subrange(0, p as int));
                assert(data@.skip(p + 1) =~= data@.subrange(p + 1, m as int));
                match parse_i64_at(data, 0, p) {
                    Some(num) => ClientMessage::Key(
                        KeyEvent::from_i64(num),
                        String::from_str(data.substring_char(p + 1, m)),
                    ),
                    None => ClientMessage::Ignored,
                }
            },
        }
    } else {
        ClientMessage::Ignored
    }
}

proof fn lemma_first_index_at(s: Seq<char>, c: char, i: int)
    requires
        0 <= i < s.len(),
        s[i] == c,
        forall|j: int| 0 <= j < i ==> s[j] != c,
    ensures
        first_index(s, c) == Some(i),
{
    assert(0 <= i < s.len() && s[i] == c);
    let k = choose|k: int| 0 <= k < s.len() && s[k] == c && forall|j: int| 0 <= j < k ==> s[j] != c;
    assert(0 <= i < s.len() && s[i] == c && forall|j: int| 0 <= j < i ==> s[j] != c);
    if k < i {
        assert(s[k] != c);
    } else if k > i {
        assert(s[i] != c);
    }
}

proof fn lemma_single_digit(d: char)
    requires
        '0' <= d <= '9',
    ensures
        parse_i64(seq![d]) == Some((d as int - '0' as int) as i64),
{
    let s = seq![d];
    assert(s.drop_last() =~= Seq::<char>::empty());
    assert(all_digits(s));
    assert(digits_value(s) == digits_value(s.drop_last()) * 10 + digit_value(d));
}

proof fn lemma_key_data(event: KeyEvent, key: Seq<char>)
    ensures
        key_data_of(
            seq![
                if event == KeyEvent::KeyDown {
                    '0'
                } else {
                    '1'
                },
                FIELD_SEPARATOR,
            ] + key,
        ) == ClientView::Key(event, key),
{
    let d = if event == KeyEvent::KeyDown {
        '0'
    } else {
        '1'
    };
    let data = seq![d, FIELD_SEPARATOR] + key;
    lemma_first_index_at(data, FIELD_SEPARATOR, 1);
    assert(data.take(1) =~= seq![d]);
    lemma_single_digit(d);
    assert(data.skip(2) =~= key);
}

proof fn lemma_message_head(s: Seq<char>, id: char, data: Seq<char>)
    requires
        '0' <= id <= '9',
        s == seq![id, '\n'] + data,
    ensures
        first_index(s, '\n') == Some(1int),
        parse_i64(s.take(1)) == Some((id as int - '0' as int) as i64),
        s.skip(2) == data,
{
    lemma_first_index_at(s, '\n', 1);
    assert(s.take(1) =~= seq![id]);
    lemma_single_digit(id);
    assert(s.skip(2) =~= data);
}

/// What a client sends is what the server reads: a key message gives back the
/// event and the key, whatever the key's name; a join message gives back the
/// name.
pub proof fn lemma_client_messages_round_trip(event: KeyEvent, key: Seq<char>, name: Seq<char>)
    ensures
        client_message_of(
            seq![
                '4',
                '\n',
                if event == KeyEvent::KeyDown {
                    '0'
                } else {
                    '1'
                },
                FIELD_SEPARATOR,
            ] + key,
        ) == ClientView::Key(event, key),
        client_message_of(seq!['3', '\n'] + name) == ClientView::Join(name),
{
    let d = if event == KeyEvent::KeyDown {
        '0'
    } else {
        '1'
    };
    let data = seq![d, FIELD_SEPARATOR] + key;
    let s = seq!['4', '\n', d, FIELD_SEPARATOR] + key;
    assert(s =~= seq!['4', '\n'] + data);
    lemma_message_head(s, '4', data);
    lemma_key_data(event, key);
    let j = seq!['3', '\n'] + name;
    lemma_message_head(j, '3', name);
}

// ------------------------------------------------------------------
// Joining text
// ------------------------------------------------------------------
/// The pieces with `sep` between each two of them.
pub open spec fn join_with(ps: Seq<Seq<char>>, sep: char) -> Seq<char>
    decreases ps.len(),
{
    if ps.len() == 0 {
        Seq::empty()
    } else if ps.len() == 1 {
        ps[0]
    } else {
        join_with(ps.drop_last(), sep) + seq![sep] + ps.last()
    }
}

pub open spec fn free_of(s: Seq<char>, c: char) -> bool {
    forall|i: int| 0 <= i < s.len() ==> s[i] != c
}

proof fn lemma_split_extend(x: Seq<char>, b: Seq<char>, sep: char)
    requires
        free_of(b, sep),
    ensures
        split_on(x + b, sep) == split_on(x, sep).update(
            split_on(x, sep).len() - 1,
            split_on(x, sep).last() + b,
        ),
    decreases b.len(),
{
    lemma_split_on_nonempty(x, sep);
    let p = split_on(x, sep);
    if b.len() == 0 {
        assert(x + b =~= x);
        assert(p.last() + b =~= p.last());
        assert(p.update(p.len() - 1, p.last()) =~= p);
    } else {
        let b1 = b.drop_last();
        lemma_split_extend(x, b1, sep);
        assert((x + b).drop_last() =~= x + b1);
        assert((x + b).last() == b.last());
        assert(b.last() != sep);
        lemma_split_on_nonempty(x + b1, sep);
        assert((p.last() + b1).push(b.last()) =~= p.last() + b);
        assert(split_on(x + b, sep) =~= p.update(p.len() - 1, p.last() + b));
    }
}

/// Splitting joined pieces gives the pieces back, when no piece holds the
/// separator.
pub proof fn lemma_split_join(ps: Seq<Seq<char>>, sep: char)
    requires
        ps.len() >= 1,
        forall|k: int| 0 <= k < ps.len() ==> free_of(#[trigger] ps[k], sep),
    ensures
        split_on(join_with(ps, sep), sep) == ps,
    decreases ps.len(),
{
    if ps.len() == 1 {
        lemma_split_extend(Seq::empty(), ps[0], sep);
        assert(Seq::<char>::empty() + ps[0] =~= ps[0]);
        assert(Seq::<char>::empty() + ps[0] =~= ps[0]);
        assert(split_on(ps[0], sep) =~= ps);
    } else {
        let q = ps.drop_last();
        lemma_split_join(q, sep);
        let j = join_with(q, sep);
        lemma_split_extend(j.push(sep), ps.last(), sep);
        assert(j + seq![sep] =~= j.push(sep));
        assert(j.push(sep).drop_last() =~= j);
        assert(split_on(j.push(sep), sep) == split_on(j, sep).push(Seq::<char>::empty()));
        assert(Seq::<char>::empty() + ps.last() =~= ps.last());
        assert(split_on(join_with(ps, sep), sep) =~= ps);
    }
}

proof fn lemma_join_free(ps: Seq<Seq<char>>, sep: char, c: char)
    requires
        sep != c,
        forall|k: int| 0 <= k < ps.len() ==> free_of(#[trigger] ps[k], c),
    ensures
        free_of(join_with(ps, sep), c),
    decreases ps.len(),
{
    if ps.len() > 1 {
        let q = ps.drop_last();
        lemma_join_free(q, sep, c);
        let j = join_with(q, sep);
        let all = j + seq![sep] + ps.last();
        assert(free_of(ps.last(), c));
        assert forall|i: int| 0 <= i < all.len() implies all[i] != c by {
            if i < j.len() {
                assert(all[i] == j[i]);
            } else if i == j.len() {
                assert(all[i] == sep);
            } else {
                assert(all[i] == ps.last()[i - j.len() - 1]);
            }
        }
    } else if ps.len() == 1 {
        assert(free_of(ps[0], c));
    }
}

pub open spec fn views_of(v: Seq<String>) -> Seq<Seq<char>> {
    v.map_values(|s: String| s@)
}

/// The pieces joined with `sep`.
pub fn join(pieces: &Vec<String>, sep: &str) -> (s: String)
    requires
        sep@.len() == 1,
    ensures
        s@ == join_with(views_of(pieces@), sep@[0]),
{
    let ghost ps = views_of(pieces@);
    let mut out = String::new();
    let mut i: usize = 0;
    assert(ps.take(0) =~= Seq::<Seq<char>>::empty());
    while i < pieces.len()
        invariant
            0 <= i <= pieces.len(),
            ps == views_of(pieces@),
            sep@.len() == 1,
            out@ == join_with(ps.take(i as int), sep@[0]),
        decreases pieces.len() - i,
    {
        let ghost before = out@;
        if i > 0 {
            out.append(sep);
        }
        out.append(pieces[i].as_str());
        proof {
            let t = ps.take(i as int + 1);
            assert(t.drop_last() =~= ps.take(i as int));
            assert(t.last() == pieces@[i as int]@);
            if i > 0 {
                assert(sep@ =~= seq![sep@[0]]);
                assert(out@ =~= join_with(t, sep@[0]));
            } else {
                assert(t.len() == 1);
                assert(out@ =~= t[0]);
            }
        }
        i = i + 1;
    }
    assert(ps.take(pieces.len() as int) =~= ps);
    out
}

// ------------------------------------------------------------------
// Writing the server's messages
// ------------------------------------------------------------------
/// A record whose texts can travel: neither its id nor its name holds a field
/// separator or a line break.
pub open spec fn record_text_ok(r: RecordView) -> bool {
    &&& free_of(r.id, FIELD_SEPARATOR)
    &&& free_of(r.id, '\n')
    &&& free_of(r.name, FIELD_SEPARATOR)
    &&& free_of(r.name, '\n')
}

/// The eleven fields of a record, as written.
pub open spec fn record_fields(r: RecordView) -> Seq<Seq<char>> {
    seq![
        r.id,
        decimal_text(r.res_id as int),
        decimal_text(r.left as int),
        decimal_text(r.top as int),
        decimal_text(r.right as int),
        decimal_text(r.bottom as int),
        decimal_text(r.velocity_x as int),
        decimal_text(r.velocity_y as int),
        decimal_text(r.current_frame as int),
        r.name,
        decimal_text(r.score as int),
    ]
}

pub open spec fn event_fields(e: SpriteEvent, r: RecordView) -> Seq<Seq<char>> {
    seq![decimal_text(sprite_event_number(e))] + record_fields(r)
}

pub open spec fn event_lines(evs: Seq<(SpriteEvent, RecordView)>) -> Seq<Seq<char>> {
    evs.map_values(|p: (SpriteEvent, RecordView)| join_with(event_fields(p.0, p.1), FIELD_SEPARATOR))
}

pub open spec fn record_lines(rs: Seq<RecordView>) -> Seq<Seq<char>> {
    rs.map_values(|r: RecordView| join_with(record_fields(r), FIELD_SEPARATOR))
}

/// An event message: its id, a line break, and a line per event.
pub open spec fn events_text(evs: Seq<(SpriteEvent, RecordView)>) -> Seq<char> {
    seq!['3', '\n'] + join_with(event_lines(evs), '\n')
}

/// A data message: its id, a line break, and a line per sprite.
pub open spec fn sprites_text(rs: Seq<RecordView>) -> Seq<char> {
    seq!['1', '\n'] + join_with(record_lines(rs), '\n')
}

fn record_pieces(r: &SpriteRecord) -> (v: Vec<String>)
    ensures
        views_of(v@) == record_fields(r@),
{
    let v = vec![
        r.id.clone(),
        decimal(r.res_id as i64),
        decimal(r.left as i64),
        decimal(r.top as i64),
        decimal(r.right as i64),
        decimal(r.bottom as i64),
        decimal(r.velocity_x as i64),
        decimal(r.velocity_y as i64),
        decimal(r.current_frame as i64),
        r.name.clone(),
        decimal(r.score as i64),
    ];
    assert(views_of(v@) =~= record_fields(r@));
    v
}

/// Writes an event message.
pub fn events_message(events: &Vec<(SpriteEvent, SpriteRecord)>) -> (m: String)
    ensures
        m@ == events_text(events_view(events@)),
{
    let mut lines: Vec<String> = Vec::new();
    let mut i: usize = 0;
    while i < events.len()
        invariant
            0 <= i <= events.len(),
            views_of(lines@) == event_lines(events_view(events@)).take(i as int),
        decreases events.len() - i,
    {
        let mut fields: Vec<String> = Vec::new();
        fields.push(decimal(events[i].0.to_i64()));
        let rest = record_pieces(&events[i].1);
        let mut k: usize = 0;
        while k < rest.len()
            invariant
                0 <= k <= rest.len(),
                i < events.len(),
                views_of(fields@) == seq![decimal_text(sprite_event_number(events@[i as int].0))]
                    + views_of(rest@).take(k as int),
            decreases rest.len() - k,
        {
            let ghost before = views_of(fields@);
            let piece = rest[k].clone();
            assert(piece@ == rest@[k as int]@);
            fields.push(piece);
            proof {
                assert(views_of(fields@) =~= before.push(rest@[k as int]@));
                assert(views_of(rest@).take(k as int + 1) =~= views_of(rest@).take(k as int).push(
                    rest@[k as int]@,
                ));
                assert(views_of(fields@) =~= seq![
                    decimal_text(sprite_event_number(events@[i as int].0)),
                ] + views_of(rest@).take(k as int + 1));
            }
            k = k + 1;
        }
        assert(views_of(rest@).take(rest.len() as int) =~= views_of(rest@));
        proof {
            reveal_strlit("\u{241F}");
        }
        let ghost before = views_of(lines@);
        let line = join(&fields, "\u{241F}");
        lines.push(line);
        proof {
            let ev = events_view(events@);
            assert(ev[i as int] == (events@[i as int].0, events@[i as int].1@));
            assert(views_of(fields@) =~= event_fields(ev[i as int].0, ev[i as int].1));
            assert("\u{241F}"@[0] == FIELD_SEPARATOR);
            assert(line@ == event_lines(ev)[i as int]);
            assert(views_of(lines@) =~= before.push(line@));
            assert(views_of(lines@) =~= event_lines(events_view(events@)).take(i as int + 1));
        }
        i = i + 1;
    }
    assert(event_lines(events_view(events@)).take(events.len() as int) =~= event_lines(
        events_view(events@),
    ));
    proof {
        reveal_strlit("\n");
        reveal_strlit("3\n");
    }
    let body = join(&lines, "\n");
    let mut m = String::from_str("3\n");
    m.append(body.as_str());
    m
}

/// Writes a data message.
pub fn sprites_message(records: &Vec<SpriteRecord>) -> (m: String)
    ensures
        m@ == sprites_text(records_view(records@)),
{
    let mut lines: Vec<String> = Vec::new();
    let mut i: usize = 0;
    while i < records.len()
        invariant
            0 <= i <= records.len(),
            views_of(lines@) == record_lines(records_view(records@)).take(i as int),
        decreases records.len() - i,
    {
        let fields = record_pieces(&records[i]);
        proof {
            reveal_strlit("\u{241F}");
        }
        let ghost before = views_of(lines@);
        let line = join(&fields, "\u{241F}");
        lines.push(line);
        proof {
            let rv = records_view(records@);
            assert(rv[i as int] == records@[i as int]@);
            assert("\u{241F}"@[0] == FIELD_SEPARATOR);
            assert(line@ == record_lines(rv)[i as int]);
            assert(views_of(lines@) =~= before.push(line@));
            assert(views_of(lines@) =~= record_lines(records_view(records@)).take(i as int + 1));
        }
        i = i + 1;
    }
    assert(record_lines(records_view(records@)).take(records.len() as int) =~= record_lines(
        records_view(records@),
    ));
    proof {
        reveal_strlit("\n");
        reveal_strlit("1\n");
    }
    let body = join(&lines, "\n");
    let mut m = String::from_str("1\n");
    m.append(body.as_str());
    m
}

proof fn lemma_decimal_free(n: int)
    ensures
        free_of(decimal_text(n), FIELD_SEPARATOR),
        free_of(decimal_text(n), '\n'),
        parse_signed(decimal_text(n)) == Some(n),
        i32::MIN <= n <= i32::MAX ==> int_or(decimal_text(n), 0) == n && int_or(
            decimal_text(n),
            -1i32,
        ) == n,
        i64::MIN <= n <= i64::MAX ==> parse_i64(decimal_text(n)) == Some(n as i64),
{
    lemma_decimal_parses_back(n);
    let t = decimal_text(n);
    assert forall|i: int| 0 <= i < t.len() implies t[i] != FIELD_SEPARATOR && t[i] != '\n' by {
        assert(is_digit(t[i]) || t[i] == '-');
    }
}

proof fn lemma_record_fields(r: RecordView)
    requires
        record_text_ok(r),
    ensures
        forall|k: int|
            0 <= k < 11 ==> free_of(#[trigger] record_fields(r)[k], FIELD_SEPARATOR) && free_of(
                record_fields(r)[k],
                '\n',
            ),
        record_at(record_fields(r), 0, 0i32) == r,
        record_fields(r).len() == 11,
{
    lemma_decimal_free(r.res_id as int);
    lemma_decimal_free(r.left as int);
    lemma_decimal_free(r.top as int);
    lemma_decimal_free(r.right as int);
    lemma_decimal_free(r.bottom as int);
    lemma_decimal_free(r.velocity_x as int);
    lemma_decimal_free(r.velocity_y as int);
    lemma_decimal_free(r.current_frame as int);
    lemma_decimal_free(r.score as int);
}

proof fn lemma_event_fields(e: SpriteEvent, r: RecordView)
    requires
        record_text_ok(r),
    ensures
        forall|k: int|
            0 <= k < 12 ==> free_of(#[trigger] event_fields(e, r)[k], FIELD_SEPARATOR) && free_of(
                event_fields(e, r)[k],
                '\n',
            ),
        record_at(event_fields(e, r), 1, -1i32) == r,
        event_fields(e, r).len() == 12,
        parse_i64(event_fields(e, r)[0]) matches Some(n) && sprite_event_of(n as int) == Some(e),
{
    lemma_record_fields(r);
    lemma_decimal_free(sprite_event_number(e));
    lemma_event_numbers_round_trip(KeyEvent::KeyDown, MouseEvent::MouseMove, e);
    let f = event_fields(e, r);
    assert forall|k: int| 0 <= k < 12 implies free_of(#[trigger] f[k], FIELD_SEPARATOR) && free_of(
        f[k],
        '\n',
    ) by {
        if k > 0 {
            assert(f[k] == record_fields(r)[k - 1]);
        }
    }
    lemma_decimal_free(r.res_id as int);
    assert(f[2] == decimal_text(r.res_id as int));
}

proof fn lemma_event_records_of_lines(evs: Seq<(SpriteEvent, RecordView)>)
    requires
        forall|k: int| 0 <= k < evs.len() ==> record_text_ok(#[trigger] evs[k].1),
    ensures
        event_records(event_lines(evs)) == evs,
    decreases evs.len(),
{
    if evs.len() > 0 {
        let (e, r) = evs[0];
        lemma_event_fields(e, r);
        let f = event_fields(e, r);
        assert forall|k: int| 0 <= k < f.len() implies free_of(#[trigger] f[k], FIELD_SEPARATOR) by {}
        lemma_split_join(f, FIELD_SEPARATOR);
        let rest = evs.drop_first();
        assert forall|k: int| 0 <= k < rest.len() implies record_text_ok(#[trigger] rest[k].1) by {
            assert(rest[k] == evs[k + 1]);
        }
        lemma_event_records_of_lines(rest);
        assert(event_lines(evs).drop_first() =~= event_lines(rest));
        assert(event_lines(evs)[0] == join_with(f, FIELD_SEPARATOR));
        assert(evs =~= seq![(e, r)] + rest);
    } else {
        assert(event_lines(evs) =~= Seq::<Seq<char>>::empty());
    }
}

proof fn lemma_sprite_records_of_lines(rs: Seq<RecordView>)
    requires
        forall|k: int| 0 <= k < rs.len() ==> record_text_ok(#[trigger] rs[k]),
    ensures
        sprite_records(record_lines(rs)) == rs,
    decreases rs.len(),
{
    if rs.len() > 0 {
        let r = rs[0];
        lemma_record_fields(r);
        let f = record_fields(r);
        assert forall|k: int| 0 <= k < f.len() implies free_of(#[trigger] f[k], FIELD_SEPARATOR) by {}
        lemma_split_join(f, FIELD_SEPARATOR);
        let rest = rs.drop_first();
        assert forall|k: int| 0 <= k < rest.len() implies record_text_ok(#[trigger] rest[k]) by {
            assert(rest[k] == rs[k + 1]);
        }
        lemma_sprite_records_of_lines(rest);
        assert(record_lines(rs).drop_first() =~= record_lines(rest));
        assert(rs =~= seq![r] + rest);
    } else {
        assert(record_lines(rs) =~= Seq::<Seq<char>>::empty());
    }
}

proof fn lemma_empty_body()
    ensures
        event_records(split_on(Seq::<char>::empty(), '\n')) == Seq::<(SpriteEvent, RecordView)>::empty(),
        sprite_records(split_on(Seq::<char>::empty(), '\n')) == Seq::<RecordView>::empty(),
{
    let lines = split_on(Seq::<char>::empty(), '\n');
    assert(lines == seq![Seq::<char>::empty()]);
    assert(split_on(lines[0], FIELD_SEPARATOR).len() == 1);
}

/// What the server writes, a client reads back: an event message gives back
/// its events and a data message its sprites, as long as no id or name holds
/// a field separator or a line break.
pub proof fn lemma_server_messages_round_trip(
    evs: Seq<(SpriteEvent, RecordView)>,
    rs: Seq<RecordView>,
)
    requires
        forall|k: int| 0 <= k < evs.len() ==> record_text_ok(#[trigger] evs[k].1),
        forall|k: int| 0 <= k < rs.len() ==> record_text_ok(#[trigger] rs[k]),
    ensures
        message_of(events_text(evs)) == MessageView::Events(evs),
        message_of(sprites_text(rs)) == MessageView::Sprites(rs),
{
    let eb = join_with(event_lines(evs), '\n');
    lemma_message_head(events_text(evs), '3', eb);
    lemma_empty_body();
    if evs.len() > 0 {
        let lines = event_lines(evs);
        assert forall|k: int| 0 <= k < lines.len() implies free_of(#[trigger] lines[k], '\n') by {
            lemma_event_fields(evs[k].0, evs[k].1);
            let f = event_fields(evs[k].0, evs[k].1);
            assert forall|j: int| 0 <= j < f.len() implies free_of(#[trigger] f[j], '\n') by {}
            lemma_join_free(f, FIELD_SEPARATOR, '\n');
        }
        lemma_split_join(lines, '\n');
        lemma_event_records_of_lines(evs);
    } else {
        assert(event_lines(evs) =~= Seq::<Seq<char>>::empty());
        assert(evs =~= Seq::<(SpriteEvent, RecordView)>::empty());
    }
    let sb = join_with(record_lines(rs), '\n');
    lemma_message_head(sprites_text(rs), '1', sb);
    if rs.len() > 0 {
        let lines = record_lines(rs);
        assert forall|k: int| 0 <= k < lines.len() implies free_of(#[trigger] lines[k], '\n') by {
            lemma_record_fields(rs[k]);
            let f = record_fields(rs[k]);
            assert forall|j: int| 0 <= j < f.len() implies free_of(#[trigger] f[j], '\n') by {}
            lemma_join_free(f, FIELD_SEPARATOR, '\n');
        }
        lemma_split_join(lines, '\n');
        lemma_sprite_records_of_lines(rs);
    } else {
        assert(record_lines(rs) =~= Seq::<Seq<char>>::empty());
        assert(rs =~= Seq::<RecordView>::empty());
    }
}

/// The record the server sends about a sprite: the sprite's information,
/// its id written in decimal, its name, and no score.
pub open spec fn record_of(info: SpriteInfo, name: Seq<char>) -> RecordView {
    RecordView {
        id: decimal_text(info.id as int),
        res_id: info.res,
        left: info.l,
        top: info.t,
        right: info.r,
        bottom: info.b,
        velocity_x: info.vx,
        velocity_y: info.vy,
        current_frame: info.frame,
        name,
        score: 0,
    }
}

pub fn record_of_info(info: &SpriteInfo, name: &str) -> (r: SpriteRecord)
    ensures
        r@ == record_of(*info, name@),
{
    SpriteRecord {
        id: decimal(info.id as i64),
        res_id: info.res,
        left: info.l,
        top: info.t,
        right: info.r,
        bottom: info.b,
        velocity_x: info.vx,
        velocity_y: info.vy,
        current_frame: info.frame,
        name: String::from_str(name),
        score: 0,
    }
}

/// The sprite's name, or nothing.
pub open spec fn name_of(s: Sprite) -> Seq<char> {
    match s.name {
        Some(n) => n@,
        None => Seq::empty(),
    }
}

/// The record the server sends about a sprite of the game.
pub fn record_of_sprite(s: &Sprite) -> (r: SpriteRecord)
    ensures
        r@ == record_of(info_of(*s), name_of(*s)),
{
    let info = SpriteInfo {
        id: s.id,
        res: s.bitmap.id,
        l: s.position.left,
        t: s.position.top,
        r: s.position.right,
        b: s.position.bottom,
        vx: s.velocity.x,
        vy: s.velocity.y,
        frame: s.cur_frame,
    };
    let empty = String::new();
    let name = match &s.name {
        Some(n) => n.as_str(),
        None => empty.as_str(),
    };
    record_of_info(&info, name)
}

pub open spec fn records_of_sprites(s: Seq<Sprite>) -> Seq<RecordView> {
    s.map_values(|sp: Sprite| record_of(info_of(sp), name_of(sp)))
}

pub open spec fn records_of_events(evs: Seq<(SpriteEvent, SpriteInfo)>) -> Seq<
    (SpriteEvent, RecordView),
> {
    evs.map_values(|p: (SpriteEvent, SpriteInfo)| (p.0, record_of(p.1, Seq::empty())))
}

/// The data message that tells a new client every sprite of the game.
pub fn sprites_data_message(sprites: &Vec<Sprite>) -> (m: String)
    ensures
        m@ == sprites_text(records_of_sprites(sprites@)),
{
    let mut records: Vec<SpriteRecord> = Vec::new();
    let mut i: usize = 0;
    while i < sprites.len()
        invariant
            0 <= i <= sprites.len(),
            records_view(records@) == records_of_sprites(sprites@).take(i as int),
        decreases sprites.len() - i,
    {
        let ghost before = records_view(records@);
        let r = record_of_sprite(&sprites[i]);
        records.push(r);
        assert(records_view(records@) =~= before.push(r@));
        assert(records_view(records@) =~= records_of_sprites(sprites@).take(i as int + 1));
        i = i + 1;
    }
    assert(records_of_sprites(sprites@).take(sprites.len() as int) =~= records_of_sprites(sprites@));
    sprites_message(&records)
}

/// The event message that tells the clients what happened in a step.
pub fn sprite_events_message(events: &Vec<(SpriteEvent, SpriteInfo)>) -> (m: String)
    ensures
        m@ == events_text(records_of_events(events@)),
{
    let mut records: Vec<(SpriteEvent, SpriteRecord)> = Vec::new();
    let mut i: usize = 0;
    while i < events.len()
        invariant
            0 <= i <= events.len(),
            events_view(records@) == records_of_events(events@).take(i as int),
        decreases events.len() - i,
    {
        let ghost before = events_view(records@);
        let (e, info) = events[i];
        proof {
            reveal_strlit("");
        }
        assert(""@ =~= Seq::<char>::empty());
        let r = record_of_info(&info, "");
        records.push((e, r));
        assert(events_view(records@) =~= before.push((e, r@)));
        assert(events_view(records@) =~= records_of_events(events@).take(i as int + 1));
        i = i + 1;
    }
    assert(records_of_events(events@).take(events.len() as int) =~= records_of_events(events@));
    events_message(&records)
}

/// A client gets back the sprite information the server had: reading the id
/// of a record written from it gives the same number.
pub proof fn lemma_sprite_info_round_trip(info: SpriteInfo, name: Seq<char>)
    ensures
        info_of_record(record_of(info, name)) == Some(info),
        free_of(record_of(info, name).id, FIELD_SEPARATOR),
        free_of(record_of(info, name).id, '\n'),
{
    lemma_decimal_free(info.id as int);
    lemma_decimal_parses_back(info.id as int);
}

/// The events of a server step reach every client intact: the event message
/// reads back as the same events, each with the sprite information the
/// server had.
pub proof fn lemma_events_reach_clients(evs: Seq<(SpriteEvent, SpriteInfo)>)
    ensures
        message_of(events_text(records_of_events(evs))) == MessageView::Events(
            records_of_events(evs),
        ),
        forall|k: int|
            0 <= k < evs.len() ==> (#[trigger] records_of_events(evs)[k]).0 == evs[k].0
                && info_of_record(records_of_events(evs)[k].1) == Some(evs[k].1),
{
    let rs = records_of_events(evs);
    assert forall|k: int| 0 <= k < rs.len() implies record_text_ok(#[trigger] rs[k].1) by {
        lemma_sprite_info_round_trip(evs[k].1, Seq::empty());
    }
    assert forall|k: int| 0 <= k < evs.len() implies (#[trigger] rs[k]).0 == evs[k].0
        && info_of_record(rs[k].1) == Some(evs[k].1) by {
        lemma_sprite_info_round_trip(evs[k].1, Seq::empty());
    }
    lemma_server_messages_round_trip(rs, Seq::empty());
}

/// A new client learns every sprite intact: the data message reads back as
/// the same sprites, each with its information and name, as long as no name
/// holds a field separator or a line break.
pub proof fn lemma_sprites_reach_clients(sprites: Seq<Sprite>)
    requires
        forall|k: int|
            0 <= k < sprites.len() ==> free_of(name_of(#[trigger] sprites[k]), FIELD_SEPARATOR)
                && free_of(name_of(sprites[k]), '\n'),
    ensures
        message_of(sprites_text(records_of_sprites(sprites))) == MessageView::Sprites(
            records_of_sprites(sprites),
        ),
        forall|k: int|
            0 <= k < sprites.len() ==> info_of_record(#[trigger] records_of_sprites(sprites)[k])
                == Some(info_of(sprites[k])),
{
    let rs = records_of_sprites(sprites);
    assert forall|k: int| 0 <= k < rs.len() implies record_text_ok(#[trigger] rs[k]) by {
        lemma_sprite_info_round_trip(info_of(sprites[k]), name_of(sprites[k]));
    }
    assert forall|k: int| 0 <= k < sprites.len() implies info_of_record(#[trigger] rs[k]) == Some(
        info_of(sprites[k]),
    ) by {
        lemma_sprite_info_round_trip(info_of(sprites[k]), name_of(sprites[k]));
    }
    lemma_server_messages_round_trip(Seq::empty(), rs);
}

} // verus!
