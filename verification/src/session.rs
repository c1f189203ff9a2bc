//! The binary conversation of the networked tank game. A frame is one message
//! id byte followed by a bincode body; frames travel in batches, one bincode
//! sequence of byte strings per websocket message. The client keeps a
//! session: who it is, the names of the players, and the frames it has yet to
//! send.
use std::collections::HashMap;
use vstd::prelude::*;
use vstd::utf8::{decode_utf8, encode_utf8, valid_utf8};
use crate::battle::{client_key_command, player_at, spec_key_command, ServerEvent, TankCommand};
use crate::game::KeyEvent;
use crate::numbers::{decimal, decimal_text, digits_of};

verus! {

/// Client to server: the connection closed.
pub const MSG_DISCONNECT: u8 = 1;

/// Client to server: start playing, under the name in the body.
pub const MSG_START: u8 = 2;

/// Client to server: a key went down or up.
pub const MSG_KEY_EVENT: u8 = 3;

/// Client to server: where the client's own tank is.
pub const MSG_SYNC_DATA: u8 = 4;

/// Client to server: a new connection asks for its address.
pub const MSG_CONNECT: u8 = 5;

/// Server to client: an error text.
pub const SERVER_MSG_ERR: u8 = 0;

/// Server to client: where every sprite is.
pub const SERVER_MSG_SYNC: u8 = 1;

/// Server to client: the client's address.
pub const SERVER_MSG_IP: u8 = 2;

/// Server to client: deaths and arrivals.
pub const SERVER_MSG_EVENT: u8 = 3;

/// Server to client: the players (id, address, name).
pub const SERVER_MSG_PLAYERS: u8 = 4;

/// Milliseconds between two uploads of a client.
pub const CLIENT_SYNC_DELAY: u64 = 100;

/// Milliseconds between two broadcasts of the server.
pub const SERVER_SYNC_DELAY: u64 = 100;

// ------------------------------------------------------------------
// bincode's fixed-width little-endian format
// ------------------------------------------------------------------
/// The `k` little-endian bytes of `n`.
pub open spec fn le_bytes(n: nat, k: nat) -> Seq<u8>
    decreases k,
{
    if k == 0 {
        Seq::empty()
    } else {
        seq![(n % 256) as u8] + le_bytes(n / 256, (k - 1) as nat)
    }
}

/// The number that little-endian bytes stand for.
pub open spec fn le_value(b: Seq<u8>) -> nat
    decreases b.len(),
{
    if b.len() == 0 {
        0
    } else {
        b[0] as nat + 256 * le_value(b.skip(1))
    }
}

/// A byte string with its length in front, as eight bytes.
pub open spec fn block_bytes(b: Seq<u8>) -> Seq<u8> {
    le_bytes(b.len(), 8) + b
}

/// A text: its UTF-8 bytes with their count in front.
pub open spec fn text_bytes(s: Seq<char>) -> Seq<u8> {
    block_bytes(encode_utf8(s))
}

pub open spec fn blocks_bytes(ms: Seq<Seq<u8>>) -> Seq<u8>
    decreases ms.len(),
{
    if ms.len() == 0 {
        Seq::empty()
    } else {
        block_bytes(ms[0]) + blocks_bytes(ms.skip(1))
    }
}

/// A batch of frames: their count, then each frame with its length in front.
pub open spec fn batch_bytes(ms: Seq<Seq<u8>>) -> Seq<u8> {
    le_bytes(ms.len(), 8) + blocks_bytes(ms)
}

/// A key event as the tuple (variant, key, player): three four-byte numbers.
pub open spec fn key_event_bytes(variant: u32, key: i32, player: u32) -> Seq<u8> {
    le_bytes(variant as nat, 4) + le_bytes((key as u32) as nat, 4) + le_bytes(player as nat, 4)
}

/// Reads a length: eight bytes.
pub open spec fn take_len(b: Seq<u8>) -> Option<(nat, Seq<u8>)> {
    if b.len() < 8 {
        None
    } else {
        Some((le_value(b.take(8)), b.skip(8)))
    }
}

/// Reads a byte string with its length in front.
pub open spec fn take_block(b: Seq<u8>) -> Option<(Seq<u8>, Seq<u8>)> {
    match take_len(b) {
        Some((n, rest)) => if n <= rest.len() {
            Some((rest.take(n as int), rest.skip(n as int)))
        } else {
            None
        },
        None => None,
    }
}

/// Reads a text: a byte string that must be valid UTF-8.
pub open spec fn take_text(b: Seq<u8>) -> Option<(Seq<char>, Seq<u8>)> {
    match take_block(b) {
        Some((body, rest)) => if valid_utf8(body) {
            Some((decode_utf8(body), rest))
        } else {
            None
        },
        None => None,
    }
}

/// Reads `n` byte strings one after the other.
pub open spec fn take_blocks(b: Seq<u8>, n: nat) -> Option<(Seq<Seq<u8>>, Seq<u8>)>
    decreases n,
{
    if n == 0 {
        Some((Seq::empty(), b))
    } else {
        match take_block(b) {
            Some((m, rest)) => match take_blocks(rest, (n - 1) as nat) {
                Some((ms, rest2)) => Some((seq![m] + ms, rest2)),
                None => None,
            },
            None => None,
        }
    }
}

/// Reads an entry of the player list: a four-byte id, an address, a name.
pub open spec fn take_entry(b: Seq<u8>) -> Option<((u32, Seq<char>, Seq<char>), Seq<u8>)> {
    if b.len() < 4 {
        None
    } else {
        let id = le_value(b.take(4)) as u32;
        match take_text(b.skip(4)) {
            Some((ip, rest)) => match take_text(rest) {
                Some((name, rest2)) => Some(((id, ip, name), rest2)),
                None => None,
            },
            None => None,
        }
    }
}

pub open spec fn take_entries(b: Seq<u8>, n: nat) -> Option<
    (Seq<(u32, Seq<char>, Seq<char>)>, Seq<u8>),
>
    decreases n,
{
    if n == 0 {
        Some((Seq::empty(), b))
    } else {
        match take_entry(b) {
            Some((e, rest)) => match take_entries(rest, (n - 1) as nat) {
                Some((es, rest2)) => Some((seq![e] + es, rest2)),
                None => None,
            },
            None => None,
        }
    }
}

/// The text that bincode reads from these bytes; what follows it is ignored.
pub open spec fn text_of(b: Seq<u8>) -> Option<Seq<char>> {
    match take_text(b) {
        Some((s, _)) => Some(s),
        None => None,
    }
}

/// The batch of frames that bincode reads from these bytes.
pub open spec fn frames_of(b: Seq<u8>) -> Option<Seq<Seq<u8>>> {
    match take_len(b) {
        Some((n, rest)) => match take_blocks(rest, n) {
            Some((ms, _)) => Some(ms),
            None => None,
        },
        None => None,
    }
}

/// The player list that bincode reads from these bytes.
pub open spec fn roster_of(b: Seq<u8>) -> Option<Seq<(u32, Seq<char>, Seq<char>)>> {
    match take_len(b) {
        Some((n, rest)) => match take_entries(rest, n) {
            Some((es, _)) => Some(es),
            None => None,
        },
        None => None,
    }
}

pub open spec fn frames_view(ms: Seq<Vec<u8>>) -> Seq<Seq<u8>> {
    ms.map_values(|m: Vec<u8>| m@)
}

pub open spec fn roster_view(ps: Seq<(u32, String, String)>) -> Seq<(u32, Seq<char>, Seq<char>)> {
    ps.map_values(|p: (u32, String, String)| (p.0, p.1@, p.2@))
}

/// `bincode::serialize` of a text. Claims the bytes that bincode's default
/// format gives (length as eight little-endian bytes, then the UTF-8 bytes),
/// and that it succeeds: with no size limit, writing into a `Vec` cannot fail.
#[verifier::external_body]
fn encode_text(s: &str) -> (r: Option<Vec<u8>>)
    ensures
        r is Some,
        r.unwrap()@ == text_bytes(s@),
{
    bincode::serialize(s).ok()
}

/// `bincode::deserialize` of a `String`: claims that it gives the text that
/// the format holds at the front of the bytes, and fails where there is none.
#[verifier::external_body]
fn decode_text(b: &[u8]) -> (r: Option<String>)
    ensures
        match r {
            Some(s) => text_of(b@) == Some(s@),
            None => text_of(b@) is None,
        },
{
    bincode::deserialize::<String>(b).ok()
}

/// `bincode::serialize` of a batch of frames. Claims the bytes of bincode's
/// default format, and success, as for a text.
#[verifier::external_body]
fn encode_batch(ms: &Vec<Vec<u8>>) -> (r: Option<Vec<u8>>)
    ensures
        r is Some,
        r.unwrap()@ == batch_bytes(frames_view(ms@)),
{
    bincode::serialize(ms).ok()
}

/// `bincode::deserialize` of a batch of frames: claims that it gives the
/// frames that the format holds, and fails where it holds none.
#[verifier::external_body]
fn decode_batch(b: &[u8]) -> (r: Option<Vec<Vec<u8>>>)
    ensures
        match r {
            Some(ms) => frames_of(b@) == Some(frames_view(ms@)),
            None => frames_of(b@) is None,
        },
{
    bincode::deserialize::<Vec<Vec<u8>>>(b).ok()
}

/// `bincode::deserialize` of a player list (id, address, name): claims that it
/// gives the entries that the format holds, and fails where it holds none.
#[verifier::external_body]
fn decode_roster(b: &[u8]) -> (r: Option<Vec<(u32, String, String)>>)
    ensures
        match r {
            Some(ps) => roster_of(b@) == Some(roster_view(ps@)),
            None => roster_of(b@) is None,
        },
{
    bincode::deserialize::<Vec<(u32, String, String)>>(b).ok()
}

/// `bincode::serialize` of a key event as (variant, key, player). Claims the
/// bytes of bincode's default format, and success, as for a text.
#[verifier::external_body]
fn encode_key_event(variant: u32, key: i32, player: u32) -> (r: Option<Vec<u8>>)
    ensures
        r is Some,
        r.unwrap()@ == key_event_bytes(variant, key, player),
{
    bincode::serialize(&(variant, key, player)).ok()
}

// ------------------------------------------------------------------
// Frames and batches
// ------------------------------------------------------------------
/// A frame: the message id, then the body.
pub open spec fn frame_bytes(id: u8, body: Seq<u8>) -> Seq<u8> {
    seq![id] + body
}

fn framed(id: u8, body: Vec<u8>) -> (r: Vec<u8>)
    ensures
        r@ == frame_bytes(id, body@),
{
    let mut r = body;
    r.insert(0, id);
    assert(r@ =~= frame_bytes(id, body@));
    r
}

/// Packs frames into one websocket message; there is none to send when there
/// are no frames.
pub fn pack_batch(frames: &Vec<Vec<u8>>) -> (r: Option<Vec<u8>>)
    ensures
        frames@.len() == 0 ==> r is None,
        frames@.len() > 0 ==> r is Some && r.unwrap()@ == batch_bytes(frames_view(frames@)),
{
    if frames.len() == 0 {
        None
    } else {
        encode_batch(frames)
    }
}

// ------------------------------------------------------------------
// The server's side
// ------------------------------------------------------------------
/// What a client asks of the server.
#[derive(Debug, PartialEq, Eq)]
pub enum ServerRequest {
    /// A new connection wants to know its address.
    Connect,
    /// Start playing under this name.
    Start(String),
    /// A start whose name could not be read.
    BadStart,
    /// The connection closed.
    Disconnect,
    /// A key event, still encoded.
    KeyEvent(Vec<u8>),
    /// The client's own tank, still encoded.
    SyncData(Vec<u8>),
    /// An id the server does not know.
    Unknown(u8),
}

/// A request as plain values.
pub enum RequestView {
    Connect,
    Start(Seq<char>),
    BadStart,
    Disconnect,
    KeyEvent(Seq<u8>),
    SyncData(Seq<u8>),
    Unknown(u8),
}

impl ServerRequest {
    pub open spec fn view(&self) -> RequestView {
        match self {
            ServerRequest::Connect => RequestView::Connect,
            ServerRequest::Start(name) => RequestView::Start(name@),
            ServerRequest::BadStart => RequestView::BadStart,
            ServerRequest::Disconnect => RequestView::Disconnect,
            ServerRequest::KeyEvent(b) => RequestView::KeyEvent(b@),
            ServerRequest::SyncData(b) => RequestView::SyncData(b@),
            ServerRequest::Unknown(id) => RequestView::Unknown(*id),
        }
    }
}

/// How the server reads a frame: by its id, with the body after it.
pub open spec fn spec_request(f: Seq<u8>) -> RequestView
    recommends
        f.len() > 0,
{
    let id = f[0];
    let body = f.skip(1);
    if id == MSG_CONNECT {
        RequestView::Connect
    } else if id == MSG_START {
        match text_of(body) {
            Some(name) => RequestView::Start(name),
            None => RequestView::BadStart,
        }
    } else if id == MSG_DISCONNECT {
        RequestView::Disconnect
    } else if id == MSG_KEY_EVENT {
        RequestView::KeyEvent(body)
    } else if id == MSG_SYNC_DATA {
        RequestView::SyncData(body)
    } else {
        RequestView::Unknown(id)
    }
}

/// Reads a frame that a client sent.
pub fn server_request(frame: Vec<u8>) -> (r: ServerRequest)
    requires
        frame@.len() > 0,
    ensures
        r.view() == spec_request(frame@),
{
    let mut body = frame;
    let id = body.remove(0);
    assert(body@ =~= frame@.skip(1));
    if id == MSG_CONNECT {
        ServerRequest::Connect
    } else if id == MSG_START {
        match decode_text(body.as_slice()) {
            Some(name) => ServerRequest::Start(name),
            None => ServerRequest::BadStart,
        }
    } else if id == MSG_DISCONNECT {
        ServerRequest::Disconnect
    } else if id == MSG_KEY_EVENT {
        ServerRequest::KeyEvent(body)
    } else if id == MSG_SYNC_DATA {
        ServerRequest::SyncData(body)
    } else {
        ServerRequest::Unknown(id)
    }
}

/// The requests of a batch; empty frames are passed over.
pub open spec fn spec_requests(fs: Seq<Seq<u8>>) -> Seq<RequestView>
    decreases fs.len(),
{
    if fs.len() == 0 {
        Seq::empty()
    } else if fs.last().len() == 0 {
        spec_requests(fs.drop_last())
    } else {
        spec_requests(fs.drop_last()).push(spec_request(fs.last()))
    }
}

pub open spec fn requests_view(rs: Seq<ServerRequest>) -> Seq<RequestView> {
    rs.map_values(|r: ServerRequest| r.view())
}

/// Reads what one websocket message of a client holds: nothing when it is no
/// batch of frames.
pub fn unpack_requests(batch: &Vec<u8>) -> (r: Option<Vec<ServerRequest>>)
    ensures
        match frames_of(batch@) {
            Some(fs) => r is Some && requests_view(r.unwrap()@) == spec_requests(fs),
            None => r is None,
        },
{
    let frames = match decode_batch(batch.as_slice()) {
        Some(fs) => fs,
        None => return None,
    };
    let ghost fs = frames_view(frames@);
    let mut requests: Vec<ServerRequest> = Vec::new();
    let mut i: usize = 0;
    while i < frames.len()
        invariant
            0 <= i <= frames.len(),
            fs == frames_view(frames@),
            requests_view(requests@) == spec_requests(fs.take(i as int)),
        decreases frames.len() - i,
    {
        let f = frames[i].clone();
        proof {
            assert(fs.take(i as int + 1).drop_last() =~= fs.take(i as int));
            assert(fs.take(i as int + 1).last() == f@);
        }
        if f.len() > 0 {
            let q = server_request(f);
            requests.push(q);
            assert(requests_view(requests@) =~= spec_requests(fs.take(i as int)).push(q.view()));
        }
        i = i + 1;
    }
    assert(fs.take(frames.len() as int) =~= fs);
    Some(requests)
}

/// The answer to a new connection: its address.
pub fn address_frame(ip: &str) -> (r: Vec<u8>)
    ensures
        r@ == frame_bytes(SERVER_MSG_IP, text_bytes(ip@)),
{
    let body = encode_text(ip).unwrap();
    framed(SERVER_MSG_IP, body)
}

// ------------------------------------------------------------------
// The client's side
// ------------------------------------------------------------------
/// What the client's game does after a frame from the server.
#[derive(Debug, PartialEq, Eq)]
pub enum ClientEffect {
    /// Nothing more.
    Nothing,
    /// The frame was empty and was passed over.
    Skipped,
    /// The body of a frame with this id could not be read.
    Undecodable(u8),
    /// The server reported an error.
    ServerError(String),
    /// The server told the client its address.
    Address(String),
    /// These sprites are to carry these player names.
    Names(Vec<(u32, String)>),
    /// The sprites are to follow this data, still encoded.
    Synchronize(Vec<u8>),
    /// These events are to be shown, still encoded.
    Events(Vec<u8>),
}

/// An effect as plain values.
pub enum EffectView {
    Nothing,
    Skipped,
    Undecodable(u8),
    ServerError(Seq<char>),
    Address(Seq<char>),
    Names(Seq<(u32, Seq<char>)>),
    Synchronize(Seq<u8>),
    Events(Seq<u8>),
}

pub open spec fn names_view(ns: Seq<(u32, String)>) -> Seq<(u32, Seq<char>)> {
    ns.map_values(|n: (u32, String)| (n.0, n.1@))
}

impl ClientEffect {
    pub open spec fn view(&self) -> EffectView {
        match self {
            ClientEffect::Nothing => EffectView::Nothing,
            ClientEffect::Skipped => EffectView::Skipped,
            ClientEffect::Undecodable(id) => EffectView::Undecodable(*id),
            ClientEffect::ServerError(s) => EffectView::ServerError(s@),
            ClientEffect::Address(s) => EffectView::Address(s@),
            ClientEffect::Names(ns) => EffectView::Names(names_view(ns@)),
            ClientEffect::Synchronize(b) => EffectView::Synchronize(b@),
            ClientEffect::Events(b) => EffectView::Events(b@),
        }
    }
}

pub open spec fn effects_view(es: Seq<ClientEffect>) -> Seq<EffectView> {
    es.map_values(|e: ClientEffect| e.view())
}

/// The client's side of the conversation.
pub struct ClientSession {
    /// The address the server saw this client at.
    pub current_player_ip: String,
    /// The id of the client's own tank; 0 until the server names it.
    pub current_player_id: u32,
    /// The name the client plays under.
    pub current_player_name: String,
    /// Every player the server told of: id to (address, name).
    pub player_names: HashMap<u32, (String, String)>,
    /// Frames waiting for the next upload.
    pub outbox: Vec<Vec<u8>>,
}

/// A session as plain values.
pub struct SessionView {
    pub ip: Seq<char>,
    pub id: u32,
    pub name: Seq<char>,
    pub names: Map<u32, (Seq<char>, Seq<char>)>,
    pub outbox: Seq<Seq<u8>>,
}

pub open spec fn player_names_view(m: Map<u32, (String, String)>) -> Map<u32, (Seq<char>, Seq<char>)> {
    m.map_values(|p: (String, String)| (p.0@, p.1@))
}

impl ClientSession {
    pub open spec fn view(&self) -> SessionView {
        SessionView {
            ip: self.current_player_ip@,
            id: self.current_player_id,
            name: self.current_player_name@,
            names: player_names_view(self.player_names@),
            outbox: frames_view(self.outbox@),
        }
    }
}

/// The player list entered into the names: a later entry for an id replaces
/// an earlier one.
pub open spec fn insert_all(
    m: Map<u32, (Seq<char>, Seq<char>)>,
    ps: Seq<(u32, Seq<char>, Seq<char>)>,
) -> Map<u32, (Seq<char>, Seq<char>)>
    decreases ps.len(),
{
    if ps.len() == 0 {
        m
    } else {
        insert_all(m, ps.drop_last()).insert(ps.last().0, (ps.last().1, ps.last().2))
    }
}

pub open spec fn entry_addresses(ps: Seq<(u32, Seq<char>, Seq<char>)>) -> Seq<(u32, Seq<char>)> {
    ps.map_values(|p: (u32, Seq<char>, Seq<char>)| (p.0, p.1))
}

pub open spec fn entry_names(ps: Seq<(u32, Seq<char>, Seq<char>)>) -> Seq<(u32, Seq<char>)> {
    ps.map_values(|p: (u32, Seq<char>, Seq<char>)| (p.0, p.2))
}

/// What the client does with one frame from the server.
pub open spec fn spec_step(v: SessionView, f: Seq<u8>) -> (SessionView, EffectView) {
    if f.len() == 0 {
        (v, EffectView::Skipped)
    } else {
        let id = f[0];
        let body = f.skip(1);
        if id == SERVER_MSG_ERR {
            match text_of(body) {
                Some(s) => (v, EffectView::ServerError(s)),
                None => (v, EffectView::Undecodable(id)),
            }
        } else if id == SERVER_MSG_PLAYERS {
            match roster_of(body) {
                Some(ps) => (
                    SessionView {
                        id: match player_at(entry_addresses(ps), v.ip) {
                            Some(u) => u,
                            None => v.id,
                        },
                        names: insert_all(v.names, ps),
                        ..v
                    },
                    EffectView::Names(entry_names(ps)),
                ),
                None => (v, EffectView::Undecodable(id)),
            }
        } else if id == SERVER_MSG_IP {
            match text_of(body) {
                Some(ip) => (
                    SessionView {
                        ip: ip,
                        outbox: v.outbox.push(frame_bytes(MSG_START, text_bytes(v.name))),
                        ..v
                    },
                    EffectView::Address(ip),
                ),
                None => (v, EffectView::Undecodable(id)),
            }
        } else if id == SERVER_MSG_SYNC {
            (v, EffectView::Synchronize(body))
        } else if id == SERVER_MSG_EVENT {
            (v, EffectView::Events(body))
        } else {
            (v, EffectView::Nothing)
        }
    }
}

/// What the client does with frames, one after the other.
pub open spec fn run_frames(v: SessionView, fs: Seq<Seq<u8>>) -> (SessionView, Seq<EffectView>)
    decreases fs.len(),
{
    if fs.len() == 0 {
        (v, Seq::empty())
    } else {
        let (v1, es) = run_frames(v, fs.drop_last());
        let (v2, e) = spec_step(v1, fs.last());
        (v2, es.push(e))
    }
}

impl ClientSession {
    pub fn new() -> (c: ClientSession)
        ensures
            c.view().ip.len() == 0,
            c.view().id == 0,
            c.view().name.len() == 0,
            c.view().names == Map::<u32, (Seq<char>, Seq<char>)>::empty(),
            c.view().outbox.len() == 0,
    {
        let c = ClientSession {
            current_player_ip: String::new(),
            current_player_id: 0,
            current_player_name: String::new(),
            player_names: HashMap::new(),
            outbox: Vec::new(),
        };
        assert(c.view().names =~= Map::<u32, (Seq<char>, Seq<char>)>::empty());
        assert(c.view().outbox =~= Seq::<Seq<u8>>::empty());
        c
    }

    fn push_frame(&mut self, id: u8, body: Vec<u8>)
        ensures
            final(self).view() == (SessionView {
                outbox: old(self).view().outbox.push(frame_bytes(id, body@)),
                ..old(self).view()
            }),
    {
        let f = framed(id, body);
        self.outbox.push(f);
        assert(frames_view(self.outbox@) =~= frames_view(old(self).outbox@).push(f@));
    }

    /// Queues a frame for the next upload.
    pub fn queue_frame(&mut self, id: u8, body: Vec<u8>)
        ensures
            final(self).view() == (SessionView {
                outbox: old(self).view().outbox.push(frame_bytes(id, body@)),
                ..old(self).view()
            }),
    {
        self.push_frame(id, body);
    }

    fn enter_players(&mut self, players: &Vec<(u32, String, String)>) -> (ns: Vec<(u32, String)>)
        ensures
            final(self).view() == (SessionView {
                id: match player_at(entry_addresses(roster_view(players@)), old(self).view().ip) {
                    Some(u) => u,
                    None => old(self).view().id,
                },
                names: insert_all(old(self).view().names, roster_view(players@)),
                ..old(self).view()
            }),
            names_view(ns@) == entry_names(roster_view(players@)),
    {
        broadcast use vstd::std_specs::hash::group_hash_axioms;
        let ghost ps = roster_view(players@);
        let mut ns: Vec<(u32, String)> = Vec::new();
        let mut i: usize = 0;
        while i < players.len()
            invariant
                0 <= i <= players.len(),
                ps == roster_view(players@),
                self.current_player_ip@ == old(self).current_player_ip@,
                self.current_player_name@ == old(self).current_player_name@,
                frames_view(self.outbox@) == frames_view(old(self).outbox@),
                self.current_player_id == (match player_at(
                    entry_addresses(ps.take(i as int)),
                    old(self).view().ip,
                ) {
                    Some(u) => u,
                    None => old(self).view().id,
                }),
                player_names_view(self.player_names@) == insert_all(
                    old(self).view().names,
                    ps.take(i as int),
                ),
                names_view(ns@) == entry_names(ps.take(i as int)),
            decreases players.len() - i,
        {
            let uid = players[i].0;
            let ip = players[i].1.clone();
            let name = players[i].2.clone();
            proof {
                assert(ps.take(i as int + 1).drop_last() =~= ps.take(i as int));
                assert(ps.take(i as int + 1).last() == ps[i as int]);
                assert(ps[i as int] == (uid, ip@, name@));
                assert(entry_addresses(ps.take(i as int + 1)).drop_last() =~= entry_addresses(
                    ps.take(i as int),
                ));
            }
            if crate::text::text_eq(ip.as_str(), self.current_player_ip.as_str()) {
                self.current_player_id = uid;
            }
            let ghost before = self.player_names@;
            self.player_names.insert(uid, (ip.clone(), name.clone()));
            proof {
                assert(player_names_view(self.player_names@) =~= player_names_view(before).insert(
                    uid,
                    (ip@, name@),
                ));
            }
            let ghost ns_before = ns@;
            let ghost entry = (uid, name@);
            ns.push((uid, name));
            proof {
                assert(names_view(ns@) =~= names_view(ns_before).push(entry));
                assert(entry_names(ps.take(i as int + 1)) =~= entry_names(ps.take(i as int)).push(
                    entry,
                ));
            }
            i = i + 1;
        }
        assert(ps.take(players.len() as int) =~= ps);
        ns
    }

    /// Handles a frame from the server.
    pub fn handle_frame(&mut self, frame: Vec<u8>) -> (e: ClientEffect)
        requires
            frame@.len() > 0,
        ensures
            (final(self).view(), e.view()) == spec_step(old(self).view(), frame@),
    {
        let mut body = frame;
        let id = body.remove(0);
        assert(body@ =~= frame@.skip(1));
        if id == SERVER_MSG_ERR {
            match decode_text(body.as_slice()) {
                Some(s) => ClientEffect::ServerError(s),
                None => ClientEffect::Undecodable(id),
            }
        } else if id == SERVER_MSG_PLAYERS {
            match decode_roster(body.as_slice()) {
                Some(players) => ClientEffect::Names(self.enter_players(&players)),
                None => ClientEffect::Undecodable(id),
            }
        } else if id == SERVER_MSG_IP {
            match decode_text(body.as_slice()) {
                Some(ip) => {
                    self.current_player_ip = ip.clone();
                    let start = encode_text(self.current_player_name.as_str()).unwrap();
                    self.push_frame(MSG_START, start);
                    ClientEffect::Address(ip)
                },
                None => ClientEffect::Undecodable(id),
            }
        } else if id == SERVER_MSG_SYNC {
            ClientEffect::Synchronize(body)
        } else if id == SERVER_MSG_EVENT {
            ClientEffect::Events(body)
        } else {
            ClientEffect::Nothing
        }
    }

    /// Handles the frames of a batch in order; an empty frame is passed over.
    pub fn client_handle_message(&mut self, messages: Vec<Vec<u8>>) -> (es: Vec<ClientEffect>)
        ensures
            (final(self).view(), effects_view(es@)) == run_frames(
                old(self).view(),
                frames_view(messages@),
            ),
    {
        let ghost fs = frames_view(messages@);
        let mut es: Vec<ClientEffect> = Vec::new();
        let mut i: usize = 0;
        while i < messages.len()
            invariant
                0 <= i <= messages.len(),
                fs == frames_view(messages@),
                (self.view(), effects_view(es@)) == run_frames(old(self).view(), fs.take(i as int)),
            decreases messages.len() - i,
        {
            let f = messages[i].clone();
            proof {
                assert(fs.take(i as int + 1).drop_last() =~= fs.take(i as int));
                assert(fs.take(i as int + 1).last() == f@);
            }
            let e = if f.len() > 0 {
                self.handle_frame(f)
            } else {
                ClientEffect::Skipped
            };
            es.push(e);
            assert(effects_view(es@) =~= run_frames(old(self).view(), fs.take(i as int)).1.push(
                e.view(),
            ));
            i = i + 1;
        }
        assert(fs.take(messages.len() as int) =~= fs);
        es
    }

    /// Handles one websocket message from the server: nothing happens when it
    /// is no batch of frames.
    pub fn receive(&mut self, batch: &Vec<u8>) -> (r: Option<Vec<ClientEffect>>)
        ensures
            match frames_of(batch@) {
                Some(fs) => r is Some && (final(self).view(), effects_view(r.unwrap()@))
                    == run_frames(old(self).view(), fs),
                None => r is None && final(self).view() == old(self).view(),
            },
    {
        match decode_batch(batch.as_slice()) {
            Some(frames) => Some(self.client_handle_message(frames)),
            None => None,
        }
    }

    /// The frames waiting for upload, packed into one message; the outbox is
    /// then empty.
    pub fn take_outbox(&mut self) -> (r: Option<Vec<u8>>)
        ensures
            final(self).view() == (SessionView { outbox: Seq::empty(), ..old(self).view() }),
            old(self).view().outbox.len() == 0 ==> r is None,
            old(self).view().outbox.len() > 0 ==> r is Some && r.unwrap()@ == batch_bytes(
                old(self).view().outbox,
            ),
    {
        let mut messages: Vec<Vec<u8>> = Vec::new();
        std::mem::swap(&mut messages, &mut self.outbox);
        assert(frames_view(self.outbox@) =~= Seq::<Seq<u8>>::empty());
        pack_batch(&messages)
    }
}

// ------------------------------------------------------------------
// Joining
// ------------------------------------------------------------------
/// The name a player joins under: the first four characters of the name it
/// gave, or, when it gave none, the last four digits of the clock counted in
/// tenths of a second.
pub open spec fn join_name_of(name: Seq<char>, now_millis: u64) -> Seq<char> {
    if name.len() == 0 {
        let t = decimal_text((now_millis / 100) as int);
        t.skip(t.len() - 4)
    } else if name.len() <= 4 {
        name
    } else {
        name.take(4)
    }
}

proof fn lemma_four_digits(k: nat)
    requires
        k >= 1000,
    ensures
        digits_of(k).len() >= 4,
{
    assert(digits_of(k).len() == digits_of(k / 10).len() + 1);
    assert(digits_of(k / 10).len() == digits_of(k / 100).len() + 1);
    assert(digits_of(k / 100).len() == digits_of(k / 1000).len() + 1);
    assert(digits_of(k / 1000).len() >= 1);
}

/// Picks the name a player joins under. The clock's name is worked out even
/// when a name was given, so the clock must read at least 100000 ms.
pub fn join_name(name: &str, now_millis: u64) -> (r: String)
    requires
        now_millis / 100 >= 1000,
    ensures
        r@ == join_name_of(name@, now_millis),
{
    let t = decimal((now_millis / 100) as i64);
    proof {
        lemma_four_digits((now_millis / 100) as nat);
    }
    let n = name.unicode_len();
    if n == 0 {
        let len = t.as_str().unicode_len();
        let r = String::from_str(t.as_str().substring_char(len - 4, len));
        assert(r@ =~= join_name_of(name@, now_millis));
        r
    } else if n <= 4 {
        let r = String::from_str(name);
        r
    } else {
        let r = String::from_str(name.substring_char(0, 4));
        assert(r@ =~= join_name_of(name@, now_millis));
        r
    }
}

/// The variant number that bincode gives a key event.
pub open spec fn key_variant(event: KeyEvent) -> u32 {
    match event {
        KeyEvent::KeyDown => 0,
        KeyEvent::KeyUp => 1,
    }
}

impl ClientSession {
    /// The player asks to join: it will play under [`join_name_of`], and the
    /// server is asked for the client's address.
    pub fn player_join_game(&mut self, name: &str, now_millis: u64)
        requires
            now_millis / 100 >= 1000,
        ensures
            final(self).view() == (SessionView {
                name: join_name_of(name@, now_millis),
                outbox: old(self).view().outbox.push(seq![MSG_CONNECT]),
                ..old(self).view()
            }),
    {
        self.current_player_name = join_name(name, now_millis);
        self.push_frame(MSG_CONNECT, Vec::new());
        assert(frame_bytes(MSG_CONNECT, Seq::<u8>::empty()) =~= seq![MSG_CONNECT]);
    }

    /// The player's tank was destroyed and the wait is over: start again under
    /// this name.
    pub fn rejoin(&mut self, name: &str)
        ensures
            final(self).view() == (SessionView {
                outbox: old(self).view().outbox.push(frame_bytes(MSG_START, text_bytes(name@))),
                ..old(self).view()
            }),
    {
        let body = encode_text(name).unwrap();
        self.push_frame(MSG_START, body);
    }

    /// A key event of the player: once the server has named the player's tank,
    /// the event goes to the server and the tank reacts at once as a client
    /// may (it drives or stops, but it does not fire); before that nothing
    /// happens.
    pub fn forward_key(&mut self, event: KeyEvent, key: i32) -> (c: Option<TankCommand>)
        ensures
            old(self).view().id == 0 ==> c is None && final(self).view() == old(self).view(),
            old(self).view().id != 0 ==> {
                &&& c == Some(
                    if spec_key_command(event, key) == TankCommand::Fire {
                        TankCommand::Ignore
                    } else {
                        spec_key_command(event, key)
                    },
                )
                &&& final(self).view() == (SessionView {
                    outbox: old(self).view().outbox.push(
                        frame_bytes(
                            MSG_KEY_EVENT,
                            key_event_bytes(key_variant(event), key, old(self).view().id),
                        ),
                    ),
                    ..old(self).view()
                })
            },
    {
        if self.current_player_id == 0 {
            return None;
        }
        let variant: u32 = match event {
            KeyEvent::KeyDown => 0,
            KeyEvent::KeyUp => 1,
        };
        let body = encode_key_event(variant, key, self.current_player_id).unwrap();
        self.push_frame(MSG_KEY_EVENT, body);
        Some(client_key_command(event, key))
    }
}

// ------------------------------------------------------------------
// What one side writes, the other reads
// ------------------------------------------------------------------
pub open spec fn pow256(k: nat) -> nat
    decreases k,
{
    if k == 0 {
        1
    } else {
        256 * pow256((k - 1) as nat)
    }
}

proof fn lemma_le_round_trip(n: nat, k: nat)
    requires
        n < pow256(k),
    ensures
        le_bytes(n, k).len() == k,
        le_value(le_bytes(n, k)) == n,
    decreases k,
{
    if k > 0 {
        let p = pow256((k - 1) as nat);
        assert(n / 256 < p) by (nonlinear_arith)
            requires
                n < 256 * p,
        ;
        lemma_le_round_trip(n / 256, (k - 1) as nat);
        let b = le_bytes(n, k);
        assert(b.skip(1) =~= le_bytes(n / 256, (k - 1) as nat));
        assert(n == (n % 256) + 256 * (n / 256)) by (nonlinear_arith);
    }
}

proof fn lemma_take_block(b: Seq<u8>, rest: Seq<u8>)
    requires
        b.len() < pow256(8),
    ensures
        take_block(block_bytes(b) + rest) == Some((b, rest)),
{
    lemma_le_round_trip(b.len(), 8);
    let all = block_bytes(b) + rest;
    assert(all.take(8) =~= le_bytes(b.len(), 8));
    assert(all.skip(8) =~= b + rest);
    assert((b + rest).take(b.len() as int) =~= b);
    assert((b + rest).skip(b.len() as int) =~= rest);
}

proof fn lemma_take_text(s: Seq<char>, rest: Seq<u8>)
    requires
        encode_utf8(s).len() < pow256(8),
    ensures
        take_text(text_bytes(s) + rest) == Some((s, rest)),
{
    lemma_take_block(encode_utf8(s), rest);
    vstd::utf8::encode_utf8_valid_utf8(s);
    vstd::utf8::encode_utf8_decode_utf8(s);
}

proof fn lemma_take_blocks(ms: Seq<Seq<u8>>, rest: Seq<u8>)
    requires
        forall|i: int| 0 <= i < ms.len() ==> (#[trigger] ms[i]).len() < pow256(8),
    ensures
        take_blocks(blocks_bytes(ms) + rest, ms.len()) == Some((ms, rest)),
    decreases ms.len(),
{
    if ms.len() > 0 {
        let tail = ms.skip(1);
        assert forall|i: int| 0 <= i < tail.len() implies (#[trigger] tail[i]).len() < pow256(8) by {
            assert(tail[i] == ms[i + 1]);
        }
        lemma_take_blocks(tail, rest);
        lemma_take_block(ms[0], blocks_bytes(tail) + rest);
        assert(blocks_bytes(ms) + rest =~= block_bytes(ms[0]) + (blocks_bytes(tail) + rest));
        assert(seq![ms[0]] + tail =~= ms);
    } else {
        assert(blocks_bytes(ms) + rest =~= rest);
    }
}

/// A batch that one side packs, the other side unpacks, frame for frame.
pub proof fn lemma_batch_round_trip(ms: Seq<Seq<u8>>)
    requires
        ms.len() < pow256(8),
        forall|i: int| 0 <= i < ms.len() ==> (#[trigger] ms[i]).len() < pow256(8),
    ensures
        frames_of(batch_bytes(ms)) == Some(ms),
{
    lemma_le_round_trip(ms.len(), 8);
    let all = batch_bytes(ms);
    assert(all.take(8) =~= le_bytes(ms.len(), 8));
    assert(all.skip(8) =~= blocks_bytes(ms) + Seq::<u8>::empty());
    lemma_take_blocks(ms, Seq::empty());
}

/// The name that a client starts (or starts again) under is the name that the
/// server reads.
pub proof fn lemma_start_round_trip(name: Seq<char>)
    requires
        encode_utf8(name).len() < pow256(8),
    ensures
        spec_request(frame_bytes(MSG_START, text_bytes(name))) == RequestView::Start(name),
{
    let f = frame_bytes(MSG_START, text_bytes(name));
    assert(f.skip(1) =~= text_bytes(name) + Seq::<u8>::empty());
    lemma_take_text(name, Seq::empty());
}

/// The address that the server answers a connection with is the address that
/// the client keeps; the client then asks to start under its name.
pub proof fn lemma_address_round_trip(v: SessionView, ip: Seq<char>)
    requires
        encode_utf8(ip).len() < pow256(8),
    ensures
        spec_step(v, frame_bytes(SERVER_MSG_IP, text_bytes(ip))) == (
            SessionView {
                ip: ip,
                outbox: v.outbox.push(frame_bytes(MSG_START, text_bytes(v.name))),
                ..v
            },
            EffectView::Address(ip),
        ),
{
    let f = frame_bytes(SERVER_MSG_IP, text_bytes(ip));
    assert(f.skip(1) =~= text_bytes(ip) + Seq::<u8>::empty());
    lemma_take_text(ip, Seq::empty());
}

// ------------------------------------------------------------------
// The server's players
// ------------------------------------------------------------------
/// The players the server knows, as (id, address), in the order they joined.
pub struct Roster {
    pub players: Vec<(u32, String)>,
}

pub open spec fn roster_entries(ps: Seq<(u32, String)>) -> Seq<(u32, Seq<char>)> {
    ps.map_values(|p: (u32, String)| (p.0, p.1@))
}

pub open spec fn not_of(id: u32) -> spec_fn((u32, Seq<char>)) -> bool {
    |p: (u32, Seq<char>)| p.0 != id
}

/// The entries that do not belong to this id.
pub open spec fn without_id(ps: Seq<(u32, Seq<char>)>, id: u32) -> Seq<(u32, Seq<char>)> {
    ps.filter(not_of(id))
}

/// The first entry at this address.
pub open spec fn first_at(ps: Seq<(u32, Seq<char>)>, ip: Seq<char>) -> Option<int> {
    if exists|i: int| 0 <= i < ps.len() && ps[i].1 == ip {
        Some(choose|i: int| 0 <= i < ps.len() && ps[i].1 == ip && forall|j: int| 0 <= j < i ==> ps[j].1 != ip)
    } else {
        None
    }
}

impl Roster {
    pub open spec fn view(&self) -> Seq<(u32, Seq<char>)> {
        roster_entries(self.players@)
    }

    pub fn new() -> (r: Roster)
        ensures
            r.view().len() == 0,
    {
        let r = Roster { players: Vec::new() };
        assert(r.view() =~= Seq::<(u32, Seq<char>)>::empty());
        r
    }

    pub fn len(&self) -> (n: usize)
        ensures
            n == self.view().len(),
    {
        self.players.len()
    }

    /// Drops the entries of this id.
    pub fn forget(&mut self, id: u32)
        ensures
            final(self).view() == without_id(old(self).view(), id),
    {
        let ghost v = self.view();
        let mut kept: Vec<(u32, String)> = Vec::new();
        let mut i: usize = 0;
        while i < self.players.len()
            invariant
                0 <= i <= self.players.len(),
                v == roster_entries(self.players@),
                roster_entries(kept@) == without_id(v.take(i as int), id),
            decreases self.players.len() - i,
        {
            proof {
                assert(v.take(i as int + 1).drop_last() =~= v.take(i as int));
                assert(v.take(i as int + 1).last() == v[i as int]);
                reveal(Seq::filter);
            }
            if self.players[i].0 != id {
                let entry = (self.players[i].0, self.players[i].1.clone());
                let ghost before = kept@;
                kept.push(entry);
                assert(roster_entries(kept@) =~= roster_entries(before).push(v[i as int]));
            }
            i = i + 1;
        }
        assert(v.take(self.players.len() as int) =~= v);
        self.players = kept;
    }

    /// A player joined with this id at this address; an earlier entry of the
    /// same id is replaced.
    pub fn join(&mut self, id: u32, ip: String)
        ensures
            final(self).view() == without_id(old(self).view(), id).push((id, ip@)),
    {
        self.forget(id);
        let ghost before = self.players@;
        self.players.push((id, ip));
        assert(roster_entries(self.players@) =~= roster_entries(before).push((id, ip@)));
    }

    /// A player at this address left: the first one listed there goes, and its
    /// id is given back; nothing changes when no one is there.
    pub fn leave(&mut self, ip: &str) -> (r: Option<u32>)
        ensures
            match first_at(old(self).view(), ip@) {
                Some(i) => r == Some(old(self).view()[i].0) && final(self).view() == old(
                    self,
                ).view().remove(i),
                None => r is None && final(self).view() == old(self).view(),
            },
    {
        let ghost v = self.view();
        let mut i: usize = 0;
        while i < self.players.len()
            invariant
                0 <= i <= self.players.len(),
                v == roster_entries(self.players@),
                v == roster_entries(old(self).players@),
                self.players@ == old(self).players@,
                forall|j: int| 0 <= j < i ==> v[j].1 != ip@,
            decreases self.players.len() - i,
        {
            if crate::text::text_eq(self.players[i].1.as_str(), ip) {
                let id = self.players[i].0;
                proof {
                    assert(v[i as int].1 == ip@);
                    let w = choose|k: int| 0 <= k < v.len() && v[k].1 == ip@ && forall|j: int| 0 <= j < k ==> v[j].1 != ip@;
                    assert(0 <= i < v.len() && v[i as int].1 == ip@ && forall|j: int| 0 <= j < i ==> v[j].1 != ip@);
                    assert(w == i as int) by {
                        if w < i as int {
                            assert(v[w].1 != ip@);
                        } else if w > i as int {
                            assert(v[i as int].1 != ip@);
                        }
                    }
                }
                self.players.remove(i);
                assert(roster_entries(self.players@) =~= v.remove(i as int));
                return Some(id);
            }
            i = i + 1;
        }
        assert(!(exists|k: int| 0 <= k < v.len() && v[k].1 == ip@));
        None
    }
}

/// A player that joined at an address where no one else is, is the one that
/// leaves when that address goes; the others stay as they were.
pub proof fn lemma_join_then_leave(v: Seq<(u32, Seq<char>)>, id: u32, ip: Seq<char>)
    requires
        forall|i: int| 0 <= i < v.len() ==> (#[trigger] v[i]).1 != ip,
    ensures
        ({
            let w = without_id(v, id).push((id, ip));
            &&& first_at(w, ip) == Some(w.len() - 1)
            &&& w[w.len() - 1].0 == id
            &&& w.remove(w.len() - 1) == without_id(v, id)
        }),
{
    let f = without_id(v, id);
    let w = f.push((id, ip));
    assert forall|k: int| 0 <= k < f.len() implies (#[trigger] f[k]).1 != ip by {
        assert(f.contains(f[k]));
        v.lemma_filter_contains_rev(not_of(id), f[k]);
        let j = choose|j: int| 0 <= j < v.len() && v[j] == f[k];
        assert(v[j].1 != ip);
    }
    let last = w.len() - 1;
    assert(w[last].1 == ip);
    assert forall|j: int| 0 <= j < last implies w[j].1 != ip by {
        assert(w[j] == f[j]);
    }
    let c = choose|i: int| 0 <= i < w.len() && w[i].1 == ip && forall|j: int| 0 <= j < i ==> w[j].1 != ip;
    assert(0 <= last < w.len() && w[last].1 == ip && forall|j: int| 0 <= j < last ==> w[j].1 != ip);
    assert(c == last) by {
        if c < last {
            assert(w[c] == f[c]);
        }
    }
    assert(w.remove(last) =~= f);
}

/// The roster after dropping the players whose deaths the events report, in
/// the order of the events.
pub open spec fn without_dead(v: Seq<(u32, Seq<char>)>, events: Seq<ServerEvent>) -> Seq<(u32, Seq<char>)>
    decreases events.len(),
{
    if events.len() == 0 {
        v
    } else {
        let before = without_dead(v, events.drop_last());
        match events.last() {
            ServerEvent::PlayerDying(id, _, _) => without_id(before, id),
            _ => before,
        }
    }
}

impl Roster {
    /// Drops the players whose deaths the events report.
    pub fn forget_dead(&mut self, events: &Vec<ServerEvent>)
        ensures
            final(self).view() == without_dead(old(self).view(), events@),
    {
        let mut i: usize = 0;
        while i < events.len()
            invariant
                0 <= i <= events.len(),
                self.view() == without_dead(old(self).view(), events@.take(i as int)),
            decreases events.len() - i,
        {
            proof {
                assert(events@.take(i as int + 1).drop_last() =~= events@.take(i as int));
                assert(events@.take(i as int + 1).last() == events@[i as int]);
            }
            match &events[i] {
                ServerEvent::PlayerDying(id, _, _) => self.forget(*id),
                _ => {},
            }
            i = i + 1;
        }
        assert(events@.take(events.len() as int) =~= events@);
    }
}

} // verus!
