use crate::bitmap::BitmapRes;
use crate::engine::{
    collision_check, find_id, first_collider, insert_index, run_prefix, run_prefix_ok,
    sprites_calls, update_sprites_ok, update_sprites_result, update_step_ok, with_sprite,
    EngineView, GameEngine, UpdateCallback,
};
use crate::geometry::{fits_i32, trunc_div, Point, Rect};
use crate::sprite::{
    calls_view, collision_fits, draw_fits, frames_fit, move_fits, moved_to, replay,
    spec_new_sprite, with_frames, CanvasContext, DrawCall, DrawCallView, Sprite, BA_DIE, BA_STOP,
    BA_WRAP, SA_KILL,
};
use crate::utils::Counter;
use crate::text::text_eq;
use std::collections::HashMap;
use vstd::prelude::*;

verus! {

/// Width of the game field.
pub const CLIENT_WIDTH: i32 = 1000;

/// Height of the game field.
pub const CLIENT_HEIGHT: i32 = 1000;

pub const RES_TANK_BITMAP: i32 = 0;

pub const RES_MISSILE_BITMAP: i32 = 1;

pub const RES_LG_EXPLOSION_BITMAP: i32 = 2;

pub const RES_SM_EXPLOSION__BITMAP: i32 = 3;

/// Speed of a tank, in pixels per frame.
pub const TANK_VELOCITY: i32 = 6;

/// Speed of a missile, in pixels per frame.
pub const MISSILE_VELOCITY: i32 = 2;

pub const GMAE_TITLE: &'static str = "Tank";

#[derive(Clone, Copy, Debug, PartialEq, Eq, Structural)]
pub enum MouseEvent {
    MouseMove,
    MouseClick,
}

#[derive(Clone, Copy, Debug, PartialEq, Eq, Structural)]
pub enum KeyEvent {
    KeyDown,
    KeyUp,
}

/// `0` is a key press; every other number is a key release.
pub open spec fn key_event_of(num: int) -> KeyEvent {
    if num == 0 {
        KeyEvent::KeyDown
    } else {
        KeyEvent::KeyUp
    }
}

pub open spec fn key_event_number(e: KeyEvent) -> int {
    match e {
        KeyEvent::KeyDown => 0,
        KeyEvent::KeyUp => 1,
    }
}

pub open spec fn mouse_event_of(num: int) -> Option<MouseEvent> {
    if num == 0 {
        Some(MouseEvent::MouseMove)
    } else if num == 1 {
        Some(MouseEvent::MouseClick)
    } else {
        None
    }
}

pub open spec fn mouse_event_number(e: MouseEvent) -> int {
    match e {
        MouseEvent::MouseMove => 0,
        MouseEvent::MouseClick => 1,
    }
}

pub open spec fn sprite_event_of(num: int) -> Option<SpriteEvent> {
    if num == 0 {
        Some(SpriteEvent::Add)
    } else if num == 1 {
        Some(SpriteEvent::Update)
    } else if num == 2 {
        Some(SpriteEvent::Delete)
    } else {
        None
    }
}

pub open spec fn sprite_event_number(e: SpriteEvent) -> int {
    match e {
        SpriteEvent::Add => 0,
        SpriteEvent::Update => 1,
        SpriteEvent::Delete => 2,
    }
}

/// Every event survives the trip through its number: `from_i64(e.to_i64())`
/// gives `e` back, for key, mouse and sprite events.
pub proof fn lemma_event_numbers_round_trip(k: KeyEvent, m: MouseEvent, s: SpriteEvent)
    ensures
        key_event_of(key_event_number(k)) == k,
        mouse_event_of(mouse_event_number(m)) == Some(m),
        sprite_event_of(sprite_event_number(s)) == Some(s),
{
}

impl KeyEvent {
    /// `0` is a key press; every other number is a key release.
    pub fn from_i64(num: i64) -> (e: KeyEvent)
        ensures
            e == key_event_of(num as int),
    {
        match num {
            0 => KeyEvent::KeyDown,
            1 => KeyEvent::KeyUp,
            _ => KeyEvent::KeyUp,
        }
    }

    pub fn to_i64(&self) -> (n: i64)
        ensures
            n == key_event_number(*self),
    {
        match self {
            KeyEvent::KeyDown => 0,
            KeyEvent::KeyUp => 1,
        }
    }
}

impl MouseEvent {
    /// The event with this number, if any.
    pub fn from_i64(num: i64) -> (e: Option<MouseEvent>)
        ensures
            e == mouse_event_of(num as int),
    {
        match num {
            0 => Some(MouseEvent::MouseMove),
            1 => Some(MouseEvent::MouseClick),
            _ => None,
        }
    }

    pub fn to_i64(&self) -> (n: i64)
        ensures
            n == mouse_event_number(*self),
    {
        match self {
            MouseEvent::MouseMove => 0,
            MouseEvent::MouseClick => 1,
        }
    }
}

/// What happened to a sprite, as sent from the server to the clients.
#[derive(Clone, Copy, Debug, PartialEq, Eq, Structural)]
pub enum SpriteEvent {
    Add,
    Update,
    Delete,
}

impl SpriteEvent {
    /// The event with this number, if any.
    pub fn from_i64(num: i64) -> (e: Option<SpriteEvent>)
        ensures
            e == sprite_event_of(num as int),
    {
        match num {
            0 => Some(SpriteEvent::Add),
            1 => Some(SpriteEvent::Update),
            2 => Some(SpriteEvent::Delete),
            _ => None,
        }
    }

    pub fn to_i64(&self) -> (n: i64)
        ensures
            n == sprite_event_number(*self),
    {
        match self {
            SpriteEvent::Add => 0,
            SpriteEvent::Update => 1,
            SpriteEvent::Delete => 2,
        }
    }
}

/// Everything a client needs to show a sprite.
#[derive(Clone, Copy, Debug, PartialEq, Eq, Structural)]
pub struct SpriteInfo {
    pub id: u32,
    pub res: i32,
    pub l: i32,
    pub t: i32,
    pub r: i32,
    pub b: i32,
    pub vx: i32,
    pub vy: i32,
    pub frame: i32,
}

/// A player who joined the game.
pub struct Player {
    pub name: String,
}

/// The information about a sprite that an event carries.
pub open spec fn info_of(s: Sprite) -> SpriteInfo {
    SpriteInfo {
        id: s.id,
        res: s.bitmap.id,
        l: s.position.left,
        t: s.position.top,
        r: s.position.right,
        b: s.position.bottom,
        vx: s.velocity.x,
        vy: s.velocity.y,
        frame: s.cur_frame,
    }
}

// ------------------------------------------------------------------
// The sprites of the game
// ------------------------------------------------------------------
pub open spec fn field() -> Rect {
    Rect { left: 0, top: 0, right: CLIENT_WIDTH, bottom: CLIENT_HEIGHT }
}

pub open spec fn tank_bitmap() -> BitmapRes {
    BitmapRes { id: RES_TANK_BITMAP, width: 36, height: 144 }
}

pub open spec fn missile_bitmap() -> BitmapRes {
    BitmapRes { id: RES_MISSILE_BITMAP, width: 17, height: 68 }
}

pub open spec fn sm_explosion_bitmap() -> BitmapRes {
    BitmapRes { id: RES_SM_EXPLOSION__BITMAP, width: 17, height: 136 }
}

pub open spec fn lg_explosion_bitmap() -> BitmapRes {
    BitmapRes { id: RES_LG_EXPLOSION_BITMAP, width: 33, height: 272 }
}

/// A player's tank at `(x, y)`: four still frames, one per direction, wrapping
/// around the field.
pub open spec fn tank_sprite(id: u32, x: i32, y: i32) -> Sprite {
    Sprite {
        frame_delay: -1i32,
        ..with_frames(
            spec_new_sprite(
                id,
                tank_bitmap(),
                Point { x, y },
                Point { x: 0, y: 0 },
                0,
                field(),
                BA_WRAP,
            ),
            4,
            false,
        )
    }
}

/// A missile at `(x, y)`: four still frames, one per direction; it dies when it
/// leaves the field.
pub open spec fn missile_sprite(id: u32, x: i32, y: i32) -> Sprite {
    Sprite {
        frame_delay: -1i32,
        ..with_frames(
            spec_new_sprite(
                id,
                missile_bitmap(),
                Point { x, y },
                Point { x: 0, y: 0 },
                0,
                field(),
                BA_DIE,
            ),
            4,
            false,
        )
    }
}

/// An explosion at the origin: eight frames played once.
pub open spec fn explosion_sprite(id: u32, bitmap: BitmapRes) -> Sprite {
    with_frames(
        spec_new_sprite(
            id,
            bitmap,
            Point { x: 0, y: 0 },
            Point { x: 0, y: 0 },
            0,
            field(),
            BA_STOP,
        ),
        8,
        true,
    )
}

pub open spec fn known_res(res: i32) -> bool {
    res == RES_TANK_BITMAP || res == RES_MISSILE_BITMAP || res == RES_SM_EXPLOSION__BITMAP || res
        == RES_LG_EXPLOSION_BITMAP
}

/// The id a new sprite gets: the one asked for, or else the engine's next id.
pub open spec fn new_id(e: EngineView, id: Option<u32>) -> u32 {
    match id {
        Some(i) => i,
        None => (e.count + 1) as u32,
    }
}

pub open spec fn count_after(e: EngineView, id: Option<u32>) -> u32 {
    match id {
        Some(_) => e.count,
        None => (e.count + 1) as u32,
    }
}

/// The engine after the sprite `s` was added.
pub open spec fn engine_with(e: EngineView, id: Option<u32>, s: Sprite) -> EngineView {
    EngineView {
        sprites: e.sprites.insert(insert_index(e.sprites, 0, 0), s),
        count: count_after(e, id),
    }
}

/// True when `TankGame::add_sprite` can run: a fresh id is left when one is needed.
pub open spec fn add_sprite_ok(e: EngineView, id: Option<u32>) -> bool {
    id is None ==> e.count < u32::MAX
}

/// What `TankGame::add_sprite(engine, id, res)` leaves: for a known resource the
/// new sprite `s` at the index returned; otherwise nothing changes and 0 is
/// returned. Tanks and missiles are placed at random, so `s` is any sprite of
/// the right kind whose top-left corner lies on the field.
pub open spec fn added_sprite(e0: EngineView, id: Option<u32>, res: i32, e1: EngineView, idx: int) -> bool {
    if !known_res(res) {
        e1 == e0 && idx == 0
    } else {
        &&& idx == insert_index(e0.sprites, 0, 0)
        &&& 0 <= idx < e1.sprites.len()
        &&& e1 == engine_with(e0, id, e1.sprites[idx])
        &&& {
            let s = e1.sprites[idx];
            let i = new_id(e0, id);
            if res == RES_TANK_BITMAP {
                &&& 0 <= s.position.left <= CLIENT_WIDTH
                &&& 0 <= s.position.top <= CLIENT_HEIGHT
                &&& s == tank_sprite(i, s.position.left, s.position.top)
            } else if res == RES_MISSILE_BITMAP {
                &&& 0 <= s.position.left <= CLIENT_WIDTH
                &&& 0 <= s.position.top <= CLIENT_HEIGHT
                &&& s == missile_sprite(i, s.position.left, s.position.top)
            } else if res == RES_SM_EXPLOSION__BITMAP {
                s == explosion_sprite(i, sm_explosion_bitmap())
            } else {
                s == explosion_sprite(i, lg_explosion_bitmap())
            }
        }
    }
}

/// The explosion left where a sprite with this bitmap died: a small one for a
/// missile, a large one for anything else.
pub open spec fn explosion_for(bitmap_id: i32) -> BitmapRes {
    if bitmap_id == RES_MISSILE_BITMAP {
        sm_explosion_bitmap()
    } else {
        lg_explosion_bitmap()
    }
}

pub open spec fn explosion_res_for(bitmap_id: i32) -> i32 {
    if bitmap_id == RES_MISSILE_BITMAP {
        RES_SM_EXPLOSION__BITMAP
    } else {
        RES_LG_EXPLOSION_BITMAP
    }
}

// ------------------------------------------------------------------
// The server's reactions to deaths and collisions
// ------------------------------------------------------------------
/// Collects, during an engine update, the indices of the sprites that died and
/// of the explosions added for them.
pub struct ServerRules {
    pub sprites_dying: Vec<usize>,
    pub sprites_add: Vec<usize>,
}

impl View for ServerRules {
    type V = (Seq<usize>, Seq<usize>);

    open spec fn view(&self) -> (Seq<usize>, Seq<usize>) {
        (self.sprites_dying@, self.sprites_add@)
    }
}

/// The engine after an explosion was added for the sprite dying at `idx`, and
/// the index of that explosion.
pub open spec fn after_explosion(e: EngineView, idx: int) -> (EngineView, int) {
    let boom = explosion_sprite((e.count + 1) as u32, explosion_for(e.sprites[idx].bitmap.id));
    let at = insert_index(e.sprites, 0, 0);
    let e1 = engine_with(e, None, boom);
    let pos = e1.sprites[idx].position;
    (with_sprite(e1, at, moved_to(e1.sprites[at], pos.left as int, pos.top as int)), at)
}

pub open spec fn hits(hitter: i32, hittee: i32) -> bool {
    ||| hitter == RES_MISSILE_BITMAP && hittee == RES_TANK_BITMAP
    ||| hitter == RES_TANK_BITMAP && hittee == RES_MISSILE_BITMAP
    ||| hitter == RES_MISSILE_BITMAP && hittee == RES_MISSILE_BITMAP
}

/// On the server, a collision between two missiles, or between a missile and
/// a tank (whichever moved), is a hit that marks both sprites dying and leaves
/// every other sprite as it was; any other collision changes nothing and is no
/// hit.
pub proof fn lemma_server_collisions_kill_missiles(
    cb: (Seq<usize>, Seq<usize>),
    e: EngineView,
    hitter: int,
    hittee: int,
)
    requires
        0 <= hitter < e.sprites.len(),
        0 <= hittee < e.sprites.len(),
        hitter != hittee,
    ensures
        ({
            let a = e.sprites[hitter].bitmap.id;
            let b = e.sprites[hittee].bitmap.id;
            let r = <ServerRules as UpdateCallback>::collision_effect(cb, e, hitter, hittee);
            let armed = (a == RES_MISSILE_BITMAP && b == RES_MISSILE_BITMAP) || (a
                == RES_MISSILE_BITMAP && b == RES_TANK_BITMAP) || (a == RES_TANK_BITMAP && b
                == RES_MISSILE_BITMAP);
            &&& r.0 == cb
            &&& r.2 == armed
            &&& r.1.count == e.count
            &&& r.1.sprites.len() == e.sprites.len()
            &&& armed ==> r.1.sprites[hitter] == Sprite { dying: true, ..e.sprites[hitter] }
            &&& armed ==> r.1.sprites[hittee] == Sprite { dying: true, ..e.sprites[hittee] }
            &&& !armed ==> r.1 == e
            &&& forall|k: int|
                0 <= k < e.sprites.len() && k != hitter && k != hittee ==> r.1.sprites[k]
                    == e.sprites[k]
        }),
{
}

impl UpdateCallback for ServerRules {
    open spec fn dying_ok(cb: (Seq<usize>, Seq<usize>), e: EngineView, idx: int) -> bool {
        &&& e.count < u32::MAX
        &&& {
            let boom = explosion_sprite(
                (e.count + 1) as u32,
                explosion_for(e.sprites[idx].bitmap.id),
            );
            let at = insert_index(e.sprites, 0, 0);
            let e1 = engine_with(e, None, boom);
            let pos = e1.sprites[idx].position;
            move_fits(e1.sprites[at], pos.left as int, pos.top as int)
        }
    }

    open spec fn dying_effect(cb: (Seq<usize>, Seq<usize>), e: EngineView, idx: int) -> (
        (Seq<usize>, Seq<usize>),
        EngineView,
    ) {
        let r = after_explosion(e, idx);
        ((cb.0.push(idx as usize), cb.1.push(r.1 as usize)), r.0)
    }

    open spec fn collision_ok(
        cb: (Seq<usize>, Seq<usize>),
        e: EngineView,
        hitter: int,
        hittee: int,
    ) -> bool {
        true
    }

    open spec fn collision_effect(
        cb: (Seq<usize>, Seq<usize>),
        e: EngineView,
        hitter: int,
        hittee: int,
    ) -> ((Seq<usize>, Seq<usize>), EngineView, bool) {
        if hits(e.sprites[hitter].bitmap.id, e.sprites[hittee].bitmap.id) {
            let e1 = with_sprite(e, hittee, Sprite { dying: true, ..e.sprites[hittee] });
            let e2 = with_sprite(e1, hitter, Sprite { dying: true, ..e1.sprites[hitter] });
            (cb, e2, true)
        } else {
            (cb, e, false)
        }
    }

    fn on_sprite_dying(&mut self, engine: &mut GameEngine, idx_sprite_dying: usize) {
        self.sprites_dying.push(idx_sprite_dying);
        let bitmap_id = engine.sprites[idx_sprite_dying].bitmap.id;
        let res = if bitmap_id == RES_MISSILE_BITMAP {
            RES_SM_EXPLOSION__BITMAP
        } else {
            RES_LG_EXPLOSION_BITMAP
        };
        assert(explosion_res_for(bitmap_id) == res);
        let idx = TankGame::add_sprite(engine, None, res);
        proof {
            assert(explosion_sprite(
                (old(engine)@.count + 1) as u32,
                explosion_for(bitmap_id),
            ) == engine@.sprites[idx as int]);
        }
        let pos = engine.sprites[idx_sprite_dying].position;
        engine.sprites[idx].set_position(pos.left, pos.top);
        self.sprites_add.push(idx);
    }

    fn on_sprite_collision(
        &mut self,
        engine: &mut GameEngine,
        idx_sprite_hitter: usize,
        idx_sprite_hittee: usize,
    ) -> (hit: bool) {
        let hitter = engine.sprites[idx_sprite_hitter].bitmap.id;
        let hittee = engine.sprites[idx_sprite_hittee].bitmap.id;
        if hitter == RES_MISSILE_BITMAP && hittee == RES_TANK_BITMAP || hitter == RES_TANK_BITMAP
            && hittee == RES_MISSILE_BITMAP {
            engine.kill_sprite(idx_sprite_hittee);
            engine.kill_sprite(idx_sprite_hitter);
            true
        } else if hitter == RES_MISSILE_BITMAP && hittee == RES_MISSILE_BITMAP {
            engine.kill_sprite(idx_sprite_hittee);
            engine.kill_sprite(idx_sprite_hitter);
            true
        } else {
            false
        }
    }
}

// ------------------------------------------------------------------
// The game
// ------------------------------------------------------------------
/// The shared tank game: the server runs it in full; a client only moves the
/// sprites and applies the events the server sends.
pub struct TankGame {
    pub engine: GameEngine,
    pub events: Vec<(SpriteEvent, SpriteInfo)>,
    pub players: HashMap<u32, Player>,
}

impl TankGame {
    pub fn new() -> (g: TankGame)
        ensures
            g.engine@.sprites.len() == 0,
            g.engine@.count == 0,
            g.events@.len() == 0,
            g.players@.dom().len() == 0,
    {
        TankGame { engine: GameEngine::new(), events: Vec::new(), players: HashMap::new() }
    }

    /// Creates the sprite for resource `res` (a tank or a missile at a random
    /// point of the field, or an explosion at the origin), adds it to the engine
    /// and returns its index; an unknown resource adds nothing and gives 0.
    pub fn add_sprite(engine: &mut GameEngine, id: Option<u32>, res: i32) -> (idx: usize)
        requires
            add_sprite_ok(old(engine)@, id),
        ensures
            added_sprite(old(engine)@, id, res, final(engine)@, idx as int),
    {
        let ghost e0 = engine@;
        if res == RES_TANK_BITMAP {
            let sid = match id {
                Some(i) => i,
                None => engine.next_sprite_id(),
            };
            let mut tank_sprite = Sprite::with_bounds_action(
                sid,
                BitmapRes::new(RES_TANK_BITMAP, 36, 144),
                Rect::new(0, 0, CLIENT_WIDTH, CLIENT_HEIGHT),
                BA_WRAP,
            );
            tank_sprite.set_num_frames(4, false);
            tank_sprite.set_frame_delay(-1);
            let ghost s = tank_sprite;
            let idx = engine.add_sprite(tank_sprite);
            assert(engine@.sprites[idx as int] == s);
            idx
        } else if res == RES_MISSILE_BITMAP {
            let sid = match id {
                Some(i) => i,
                None => engine.next_sprite_id(),
            };
            let mut sprite = Sprite::with_bounds_action(
                sid,
                BitmapRes::new(RES_MISSILE_BITMAP, 17, 68),
                Rect::new(0, 0, CLIENT_WIDTH, CLIENT_HEIGHT),
                BA_DIE,
            );
            sprite.set_num_frames(4, false);
            sprite.set_frame_delay(-1);
            let ghost s = sprite;
            let idx = engine.add_sprite(sprite);
            assert(engine@.sprites[idx as int] == s);
            idx
        } else if res == RES_SM_EXPLOSION__BITMAP {
            let sid = match id {
                Some(i) => i,
                None => engine.next_sprite_id(),
            };
            let mut sprite = Sprite::from_bitmap(
                sid,
                BitmapRes::new(RES_SM_EXPLOSION__BITMAP, 17, 136),
                Rect::new(0, 0, CLIENT_WIDTH, CLIENT_HEIGHT),
            );
            sprite.set_num_frames(8, true);
            let ghost s = sprite;
            let idx = engine.add_sprite(sprite);
            assert(engine@.sprites[idx as int] == s);
            idx
        } else if res == RES_LG_EXPLOSION_BITMAP {
            let sid = match id {
                Some(i) => i,
                None => engine.next_sprite_id(),
            };
            let mut sprite = Sprite::from_bitmap(
                sid,
                BitmapRes::new(RES_LG_EXPLOSION_BITMAP, 33, 272),
                Rect::new(0, 0, CLIENT_WIDTH, CLIENT_HEIGHT),
            );
            sprite.set_num_frames(8, true);
            let ghost s = sprite;
            let idx = engine.add_sprite(sprite);
            assert(engine@.sprites[idx as int] == s);
            idx
        } else {
            0
        }
    }

    pub fn events(&mut self) -> (e: &mut Vec<(SpriteEvent, SpriteInfo)>)
        ensures
            *e == old(self).events,
            *final(self) == (TankGame { events: *final(e), ..*old(self) }),
    {
        &mut self.events
    }

    pub fn sprites(&self) -> (s: &Vec<Sprite>)
        ensures
            s@ == self.engine@.sprites,
    {
        self.engine.sprites()
    }
}

/// A sprite after the server's description of it was applied: its position
/// rectangle, velocity and frame are replaced (its collision box is kept).
pub open spec fn apply_info(s: Sprite, info: SpriteInfo) -> Sprite {
    Sprite {
        position: Rect { left: info.l, top: info.t, right: info.r, bottom: info.b },
        velocity: Point { x: info.vx, y: info.vy },
        cur_frame: info.frame,
        ..s
    }
}

impl TankGame {
    /// Records an event about the sprite at `sprite_idx`, to be sent to the clients.
    fn add_sprite_event(&mut self, event: SpriteEvent, sprite_idx: usize)
        requires
            sprite_idx < old(self).engine@.sprites.len(),
        ensures
            final(self).events@ == old(self).events@.push(
                (event, info_of(old(self).engine@.sprites[sprite_idx as int])),
            ),
            final(self).engine == old(self).engine,
            final(self).players == old(self).players,
    {
        let sprite = &self.engine.sprites[sprite_idx];
        let info = SpriteInfo {
            id: sprite.id,
            res: sprite.bitmap.id,
            l: sprite.position.left,
            t: sprite.position.top,
            r: sprite.position.right,
            b: sprite.position.bottom,
            vx: sprite.velocity.x,
            vy: sprite.velocity.y,
            frame: sprite.cur_frame,
        };
        self.events.push((event, info));
    }

    /// A player joins: a tank with the given id is placed at a random point of
    /// the field, an `Add` event is recorded for it, and the player is
    /// registered under that id with the given name (empty when there is none).
    pub fn join_game(&mut self, id: u32, name: Option<&str>)
        ensures
            added_sprite(
                old(self).engine@,
                Some(id),
                RES_TANK_BITMAP,
                final(self).engine@,
                insert_index(old(self).engine@.sprites, 0, 0),
            ),
            final(self).events@ == old(self).events@.push(
                (
                    SpriteEvent::Add,
                    info_of(final(self).engine@.sprites[insert_index(old(self).engine@.sprites, 0, 0)]),
                ),
            ),
            final(self).players@.dom() == old(self).players@.dom().insert(id),
            final(self).players@[id].name@ == (match name {
                Some(n) => n@,
                None => Seq::<char>::empty(),
            }),
            forall|k: u32| k != id && old(self).players@.contains_key(k) ==> final(self).players@[k]
                == old(self).players@[k],
    {
        broadcast use vstd::std_specs::hash::group_hash_axioms;

        let sprite_index = TankGame::add_sprite(&mut self.engine, Some(id), RES_TANK_BITMAP);
        self.add_sprite_event(SpriteEvent::Add, sprite_index);
        let sprite_id = self.engine.sprites[sprite_index].id;
        let player_name = match name {
            Some(n) => n.to_owned(),
            None => String::new(),
        };
        self.players.insert(sprite_id, Player { name: player_name });
    }

    /// A player leaves: the player is forgotten and, if a sprite has that id, a
    /// `Delete` event is recorded for it and it is marked as dying.
    pub fn leave_game(&mut self, id: u32)
        ensures
            final(self).players@ == old(self).players@.remove(id),
            match find_id(old(self).engine@.sprites, id, 0) {
                Some(j) => {
                    &&& final(self).events@ == old(self).events@.push(
                        (SpriteEvent::Delete, info_of(old(self).engine@.sprites[j])),
                    )
                    &&& final(self).engine@ == with_sprite(
                        old(self).engine@,
                        j,
                        Sprite { dying: true, ..old(self).engine@.sprites[j] },
                    )
                },
                None => final(self).events@ == old(self).events@ && final(self).engine@ == old(
                    self,
                ).engine@,
            },
    {
        broadcast use vstd::std_specs::hash::group_hash_axioms;

        self.players.remove(&id);
        proof {
            crate::engine::lemma_find_id_bounds(self.engine@.sprites, id, 0);
        }
        if let Some(index) = self.engine.query_sprite_idx(id) {
            self.add_sprite_event(SpriteEvent::Delete, index);
            self.engine.kill_sprite(index);
        }
    }

    /// Applies an event sent by the server: `Add` creates the sprite (with the
    /// sent id), `Update` finds it, `Delete` marks it as dying. The sprite that
    /// was created or found then takes the sent position, velocity and frame.
    pub fn handle_server_event(&mut self, event: SpriteEvent, sprite_info: SpriteInfo)
        requires
            event == SpriteEvent::Add && !known_res(sprite_info.res) ==> old(
                self,
            ).engine@.sprites.len() > 0,
        ensures
            final(self).events == old(self).events,
            final(self).players == old(self).players,
            event == SpriteEvent::Add ==> exists|e1: EngineView, idx: int|
                added_sprite(old(self).engine@, Some(sprite_info.id), sprite_info.res, e1, idx)
                    && final(self).engine@ == with_sprite(
                    e1,
                    idx,
                    apply_info(e1.sprites[idx], sprite_info),
                ),
            event == SpriteEvent::Update ==> match find_id(
                old(self).engine@.sprites,
                sprite_info.id,
                0,
            ) {
                Some(j) => final(self).engine@ == with_sprite(
                    old(self).engine@,
                    j,
                    apply_info(old(self).engine@.sprites[j], sprite_info),
                ),
                None => final(self).engine@ == old(self).engine@,
            },
            event == SpriteEvent::Delete ==> match find_id(
                old(self).engine@.sprites,
                sprite_info.id,
                0,
            ) {
                Some(j) => final(self).engine@ == with_sprite(
                    old(self).engine@,
                    j,
                    Sprite { dying: true, ..old(self).engine@.sprites[j] },
                ),
                None => final(self).engine@ == old(self).engine@,
            },
    {
        proof {
            crate::engine::lemma_find_id_bounds(self.engine@.sprites, sprite_info.id, 0);
        }
        let found = match event {
            SpriteEvent::Add => Some(
                TankGame::add_sprite(&mut self.engine, Some(sprite_info.id), sprite_info.res),
            ),
            SpriteEvent::Update => self.engine.query_sprite_idx(sprite_info.id),
            SpriteEvent::Delete => {
                if let Some(sprite) = self.engine.query_sprite(sprite_info.id) {
                    sprite.kill();
                }
                None
            },
        };
        let ghost e1 = self.engine@;
        if let Some(sprite_idx) = found {
            let sprite = &mut self.engine.sprites[sprite_idx];
            sprite.set_position_rect(
                Rect::new(sprite_info.l, sprite_info.t, sprite_info.r, sprite_info.b),
            );
            sprite.set_velocity(sprite_info.vx, sprite_info.vy);
            sprite.set_current_frame(sprite_info.frame);
            proof {
                if event == SpriteEvent::Add {
                    assert(added_sprite(old(self).engine@, Some(sprite_info.id), sprite_info.res, e1, sprite_idx as int));
                }
            }
        }
    }
}

// ------------------------------------------------------------------
// The server's game step
// ------------------------------------------------------------------
/// One event per listed index, about the sprite now at that index.
pub open spec fn events_for(e: EngineView, idxs: Seq<usize>, ev: SpriteEvent) -> Seq<
    (SpriteEvent, SpriteInfo),
> {
    idxs.map_values(|i: usize| (ev, info_of(e.sprites[i as int])))
}

/// The ids of the tanks at the listed indices.
pub open spec fn tank_ids_at(e: EngineView, idxs: Seq<usize>) -> Set<u32> {
    Set::new(
        |id: u32|
            exists|k: int|
                0 <= k < idxs.len() && e.sprites[idxs[k] as int].bitmap.id == RES_TANK_BITMAP
                    && e.sprites[idxs[k] as int].id == id,
    )
}

pub open spec fn no_reports() -> (Seq<usize>, Seq<usize>) {
    (Seq::empty(), Seq::empty())
}

/// True when a server step can run: the engine update can, and every index it
/// reports still points into the sprite list afterwards.
pub open spec fn update_ok(e: EngineView) -> bool {
    &&& update_sprites_ok::<ServerRules>(no_reports(), e)
    &&& {
        let r = update_sprites_result::<ServerRules>(no_reports(), e);
        &&& forall|k: int| 0 <= k < r.0.0.len() ==> r.0.0[k] < r.1.sprites.len()
        &&& forall|k: int| 0 <= k < r.0.1.len() ==> r.0.1[k] < r.1.sprites.len()
    }
}

/// Whether every listed index is below `len`.
fn all_below(v: &Vec<usize>, len: usize) -> (b: bool)
    ensures
        b == forall|m: int| 0 <= m < v@.len() ==> v@[m] < len,
{
    let mut j: usize = 0;
    while j < v.len()
        invariant
            0 <= j <= v@.len(),
            forall|m: int| 0 <= m < j ==> v@[m] < len,
        decreases v@.len() - j,
    {
        if v[j] >= len {
            return false;
        }
        j = j + 1;
    }
    true
}

/// A client's reactions: none. It only moves the sprites; what dies and what
/// collides is decided by the server and sent as events.
pub struct ClientRules {}

impl View for ClientRules {
    type V = ();

    open spec fn view(&self) -> () {
        ()
    }
}

impl UpdateCallback for ClientRules {
    open spec fn dying_ok(cb: (), e: EngineView, idx: int) -> bool {
        true
    }

    open spec fn dying_effect(cb: (), e: EngineView, idx: int) -> ((), EngineView) {
        (cb, e)
    }

    open spec fn collision_ok(cb: (), e: EngineView, hitter: int, hittee: int) -> bool {
        true
    }

    open spec fn collision_effect(cb: (), e: EngineView, hitter: int, hittee: int) -> (
        (),
        EngineView,
        bool,
    ) {
        (cb, e, false)
    }

    fn on_sprite_dying(&mut self, engine: &mut GameEngine, idx_sprite_dying: usize) {
    }

    fn on_sprite_collision(
        &mut self,
        engine: &mut GameEngine,
        idx_sprite_hitter: usize,
        idx_sprite_hittee: usize,
    ) -> (hit: bool) {
        false
    }
}

impl TankGame {
    /// A client's step: every sprite moves and animates; sprites that die are
    /// removed, collisions are left to the server.
    pub fn update_sprites(&mut self)
        requires
            update_sprites_ok::<ClientRules>((), old(self).engine@),
        ensures
            final(self).engine@ == update_sprites_result::<ClientRules>((), old(self).engine@).1,
            final(self).events == old(self).events,
            final(self).players == old(self).players,
    {
        let mut rules = ClientRules {};
        self.engine.update_sprites(&mut rules);
    }

    /// What drawing the game calls for: the field painted blue, then the
    /// sprites' calls.
    pub fn draw_calls(&self) -> (r: Vec<DrawCall>)
        requires
            forall|i: int|
                0 <= i < self.engine@.sprites.len() ==> draw_fits(#[trigger] self.engine@.sprites[i]),
        ensures
            calls_view(r@) == seq![
                DrawCallView::FillStyle("#2e6da3"@),
                DrawCallView::FillRect { x: 0, y: 0, width: CLIENT_WIDTH, height: CLIENT_HEIGHT },
            ] + sprites_calls(self.engine@.sprites),
    {
        let mut calls: Vec<DrawCall> = Vec::new();
        calls.push(DrawCall::FillStyle(String::from_str("#2e6da3")));
        calls.push(DrawCall::FillRect { x: 0, y: 0, width: CLIENT_WIDTH, height: CLIENT_HEIGHT });
        let mut sprites = self.engine.draw_calls();
        let ghost head = calls@;
        calls.append(&mut sprites);
        proof {
            reveal_strlit("#2e6da3");
            assert(calls_view(calls@) =~= calls_view(head) + sprites_calls(self.engine@.sprites));
        }
        calls
    }

    /// Paints the field blue and draws the sprites on it: makes the calls of
    /// [`TankGame::draw_calls`] on the canvas.
    pub fn draw<C: CanvasContext>(&self, context: &C)
        requires
            forall|i: int|
                0 <= i < self.engine@.sprites.len() ==> draw_fits(#[trigger] self.engine@.sprites[i]),
    {
        replay(&self.draw_calls(), context);
    }
}

proof fn lemma_reports_pair_up(cb: (Seq<usize>, Seq<usize>), e: EngineView, n: nat)
    ensures
        ({
            let r = run_prefix::<ServerRules>(cb, e, n);
            r.0.0.len() - cb.0.len() == r.0.1.len() - cb.1.len()
        }),
    decreases n,
{
    if n > 0 {
        lemma_reports_pair_up(cb, e, (n - 1) as nat);
    }
}

/// Every sprite that dies in a server step leaves exactly one explosion: the
/// step reports as many explosions as deaths.
pub proof fn lemma_every_death_leaves_an_explosion(e: EngineView)
    ensures
        ({
            let r = update_sprites_result::<ServerRules>(no_reports(), e);
            r.0.0.len() == r.0.1.len()
        }),
{
    lemma_reports_pair_up(no_reports(), e, e.sprites.len());
}

/// A copy of the engine.
fn copy_engine(e: &GameEngine) -> (r: GameEngine)
    ensures
        r@ == e@,
{
    let mut sprites: Vec<Sprite> = Vec::new();
    let mut i: usize = 0;
    while i < e.sprites.len()
        invariant
            0 <= i <= e.sprites.len(),
            sprites@ == e@.sprites.take(i as int),
        decreases e.sprites.len() - i,
    {
        sprites.push(e.sprites[i].copy());
        assert(sprites@ =~= e@.sprites.take(i as int + 1));
        i = i + 1;
    }
    assert(e@.sprites.take(e.sprites.len() as int) =~= e@.sprites);
    GameEngine { sprites, counter: Counter { count: e.counter.count } }
}

/// Whether the explosion that the server adds for the dying sprite at `i` of
/// `e` can be moved to where that sprite was (see `ServerRules::dying_ok`).
fn explosion_check(e: &GameEngine, i: usize, Ghost(cb): Ghost<(Seq<usize>, Seq<usize>)>) -> (ok: bool)
    requires
        i < e@.sprites.len(),
    ensures
        ok == <ServerRules as UpdateCallback>::dying_ok(cb, e@, i as int),
{
    if e.counter.count == u32::MAX {
        return false;
    }
    let at = insert_position(&e.sprites, 0);
    proof {
        crate::engine::lemma_insert_index_bounds(e@.sprites, 0, 0);
    }
    let bitmap = if e.sprites[i].bitmap.id == RES_MISSILE_BITMAP {
        BitmapRes::new(RES_SM_EXPLOSION__BITMAP, 17, 136)
    } else {
        BitmapRes::new(RES_LG_EXPLOSION_BITMAP, 33, 272)
    };
    let mut boom = Sprite::from_bitmap(
        e.counter.count + 1,
        bitmap,
        Rect::new(0, 0, CLIENT_WIDTH, CLIENT_HEIGHT),
    );
    boom.set_num_frames(8, true);
    assert(boom == explosion_sprite(
        (e@.count + 1) as u32,
        explosion_for(e@.sprites[i as int].bitmap.id),
    ));
    let pos = if i < at {
        e.sprites[i].position
    } else if i == at {
        boom.position
    } else {
        e.sprites[i - 1].position
    };
    let ghost e2 = engine_with(e@, None, boom);
    assert(e2.sprites[at as int] == boom);
    assert(e2.sprites[i as int].position == pos);
    boom.move_fits_check(pos.left as i64, pos.top as i64)
}

/// Whether the server's reactions let the sprite at `i` be updated as a step
/// of the engine update (see `update_step_ok`).
fn server_step_check(e: &GameEngine, i: usize, Ghost(cb): Ghost<(Seq<usize>, Seq<usize>)>) -> (ok: bool)
    requires
        i < e@.sprites.len(),
    ensures
        ok == update_step_ok::<ServerRules>(cb, e@, i as int),
{
    if !e.sprites[i].update_fits_check() {
        return false;
    }
    let mut c = e.sprites[i].copy();
    let act = c.update();
    let ghost e1v = with_sprite(e@, i as int, c);
    if act == SA_KILL {
        let mut e1 = copy_engine(e);
        e1.sprites.set(i, c);
        assert(e1@ == e1v);
        proof {
            crate::engine::lemma_insert_index_bounds(e1v.sprites, 0, 0);
        }
        assert(after_explosion(e1v, i as int).0.sprites.len() == e1v.sprites.len() + 1);
        explosion_check(&e1, i, Ghost(cb))
    } else {
        proof {
            crate::engine::lemma_first_collider_bounds(e1v.sprites, i as int, 0);
            match first_collider(e1v.sprites, i as int, 0) {
                None => {},
                Some(j) => {
                    assert(collision_check::<ServerRules>(cb, e1v, i as int).1.sprites.len()
                        == e1v.sprites.len());
                },
            }
        }
        true
    }
}

impl TankGame {
    /// Whether the server's game step can run without overflowing `i32` or the
    /// id counter (see `update_sprites_ok`), as `try_update` requires.
    pub fn update_check(&self) -> (ok: bool)
        ensures
            ok == update_sprites_ok::<ServerRules>(no_reports(), self.engine@),
    {
        let ghost cb0 = no_reports();
        let ghost e0 = self.engine@;
        let mut eng = copy_engine(&self.engine);
        let mut rules = ServerRules { sprites_dying: Vec::new(), sprites_add: Vec::new() };
        let mut killed: Vec<u32> = Vec::new();
        let n = eng.sprites.len();
        let mut i: usize = 0;
        assert(rules@ == cb0);
        while i < n
            invariant
                0 <= i <= n,
                n == e0.sprites.len(),
                e0 == self.engine@,
                cb0 == no_reports(),
                run_prefix_ok::<ServerRules>(cb0, e0, i as nat),
                (rules@, eng@, killed@) == run_prefix::<ServerRules>(cb0, e0, i as nat),
            decreases n - i,
        {
            if i >= eng.sprites.len() || !server_step_check(&eng, i, Ghost(rules@)) {
                proof {
                    assert(!update_step_ok::<ServerRules>(rules@, eng@, i as int));
                    assert(!run_prefix_ok::<ServerRules>(cb0, e0, (i + 1) as nat));
                    if run_prefix_ok::<ServerRules>(cb0, e0, n as nat) {
                        crate::engine::lemma_run_prefix_ok_smaller::<ServerRules>(
                            cb0,
                            e0,
                            (i + 1) as nat,
                            n as nat,
                        );
                    }
                    assert(!run_prefix_ok::<ServerRules>(cb0, e0, n as nat));
                    assert(update_sprites_ok::<ServerRules>(cb0, e0) == run_prefix_ok::<ServerRules>(
                        cb0,
                        e0,
                        n as nat,
                    ));
                }
                return false;
            }
            eng.update_sprite_at(&mut rules, i, &mut killed);
            i = i + 1;
        }
        true
    }
}

impl TankGame {
    /// The server's game step: every sprite is updated; a dying sprite leaves an
    /// explosion, a missile hitting a tank or another missile destroys both.
    /// Afterwards an `Add` event is recorded for each explosion, a `Delete` event
    /// for each death, and the players whose tanks died are forgotten.
    pub fn update(&mut self)
        requires
            update_ok(old(self).engine@),
        ensures
            ({
                let r = update_sprites_result::<ServerRules>(no_reports(), old(self).engine@);
                &&& final(self).engine@ == r.1
                &&& final(self).events@ == old(self).events@ + events_for(
                    r.1,
                    r.0.1,
                    SpriteEvent::Add,
                ) + events_for(r.1, r.0.0, SpriteEvent::Delete)
                &&& final(self).players@ == old(self).players@.remove_keys(
                    tank_ids_at(r.1, r.0.0),
                )
            }),
    {
        let ok = self.try_update();
        assert(ok);
    }

    /// The server's game step where a reported index may no longer point into
    /// the sprite list after the step (the case in which [`TankGame::update`]
    /// cannot run): the sprites are updated all the same, and then either the
    /// events are recorded and the dead players forgotten as `update` does, or,
    /// when a reported index is stale, nothing is recorded and `false` comes
    /// back.
    pub fn try_update(&mut self) -> (ok: bool)
        requires
            update_sprites_ok::<ServerRules>(no_reports(), old(self).engine@),
        ensures
            ({
                let r = update_sprites_result::<ServerRules>(no_reports(), old(self).engine@);
                &&& final(self).engine@ == r.1
                &&& ok == update_ok(old(self).engine@)
                &&& ok ==> final(self).events@ == old(self).events@ + events_for(
                    r.1,
                    r.0.1,
                    SpriteEvent::Add,
                ) + events_for(r.1, r.0.0, SpriteEvent::Delete)
                &&& ok ==> final(self).players@ == old(self).players@.remove_keys(
                    tank_ids_at(r.1, r.0.0),
                )
                &&& !ok ==> final(self).events@ == old(self).events@
                &&& !ok ==> final(self).players@ == old(self).players@
            }),
    {
        broadcast use vstd::std_specs::hash::group_hash_axioms;

        let mut rules = ServerRules { sprites_dying: Vec::new(), sprites_add: Vec::new() };
        self.engine.update_sprites(&mut rules);
        let ghost r = update_sprites_result::<ServerRules>(no_reports(), old(self).engine@);
        let len = self.engine.sprites.len();
        if !all_below(&rules.sprites_add, len) || !all_below(&rules.sprites_dying, len) {
            return false;
        }
        let ghost ev0 = self.events@;
        let n_add = rules.sprites_add.len();
        let mut k: usize = 0;
        while k < n_add
            invariant
                0 <= k <= n_add,
                n_add == r.0.1.len(),
                rules@ == r.0,
                self.engine@ == r.1,
                forall|j: int| 0 <= j < r.0.1.len() ==> r.0.1[j] < r.1.sprites.len(),
                self.events@ == ev0 + events_for(r.1, r.0.1.take(k as int), SpriteEvent::Add),
                self.players == old(self).players,
            decreases n_add - k,
        {
            let idx = rules.sprites_add[k];
            self.add_sprite_event(SpriteEvent::Add, idx);
            assert(r.0.1.take(k as int + 1) == r.0.1.take(k as int).push(idx));
            k = k + 1;
        }
        assert(r.0.1.take(n_add as int) == r.0.1);
        let ghost ev1 = self.events@;
        let n_dying = rules.sprites_dying.len();
        let mut k: usize = 0;
        while k < n_dying
            invariant
                0 <= k <= n_dying,
                n_dying == r.0.0.len(),
                rules@ == r.0,
                self.engine@ == r.1,
                forall|j: int| 0 <= j < r.0.0.len() ==> r.0.0[j] < r.1.sprites.len(),
                self.events@ == ev1 + events_for(r.1, r.0.0.take(k as int), SpriteEvent::Delete),
                self.players@ == old(self).players@.remove_keys(
                    tank_ids_at(r.1, r.0.0.take(k as int)),
                ),
            decreases n_dying - k,
        {
            let idx = rules.sprites_dying[k];
            self.add_sprite_event(SpriteEvent::Delete, idx);
            let ghost before = self.players@;
            if self.engine.sprites[idx].bitmap.id == RES_TANK_BITMAP {
                let id = self.engine.sprites[idx].id;
                self.players.remove(&id);
            }
            assert(r.0.0.take(k as int + 1) == r.0.0.take(k as int).push(idx));
            assert(self.players@ =~= old(self).players@.remove_keys(
                tank_ids_at(r.1, r.0.0.take(k as int + 1)),
            )) by {
                let prefix = r.0.0.take(k as int);
                let next = r.0.0.take(k as int + 1);
                assert forall|id: u32|
                    tank_ids_at(r.1, next).contains(id) <==> (tank_ids_at(r.1, prefix).contains(
                        id,
                    ) || (r.1.sprites[idx as int].bitmap.id == RES_TANK_BITMAP
                        && r.1.sprites[idx as int].id == id)) by {
                    if tank_ids_at(r.1, next).contains(id) {
                        let w = choose|w: int|
                            0 <= w < next.len() && r.1.sprites[next[w] as int].bitmap.id
                                == RES_TANK_BITMAP && r.1.sprites[next[w] as int].id == id;
                        if w < k {
                            assert(prefix[w] == next[w]);
                        }
                    }
                    if tank_ids_at(r.1, prefix).contains(id) {
                        let w = choose|w: int|
                            0 <= w < prefix.len() && r.1.sprites[prefix[w] as int].bitmap.id
                                == RES_TANK_BITMAP && r.1.sprites[prefix[w] as int].id == id;
                        assert(next[w] == prefix[w]);
                    }
                    if r.1.sprites[idx as int].bitmap.id == RES_TANK_BITMAP
                        && r.1.sprites[idx as int].id == id {
                        assert(next[k as int] == idx);
                    }
                }
            }
            k = k + 1;
        }
        assert(r.0.0.take(n_dying as int) == r.0.0);
        true
    }
}

// ------------------------------------------------------------------
// Keys
// ------------------------------------------------------------------
/// The frame (direction) and velocity a tank takes when an arrow key is
/// released; `None` for any other key.
pub open spec fn arrow_move(key: Seq<char>) -> Option<(i32, Point)> {
    if key == "ArrowLeft"@ {
        Some((2i32, Point { x: -6i32, y: 0 }))
    } else if key == "ArrowRight"@ {
        Some((3i32, Point { x: TANK_VELOCITY, y: 0 }))
    } else if key == "ArrowUp"@ {
        Some((0i32, Point { x: 0, y: -6i32 }))
    } else if key == "ArrowDown"@ {
        Some((1i32, Point { x: 0, y: TANK_VELOCITY }))
    } else {
        None
    }
}

/// Velocity and top-left corner of a missile fired in direction `dir` (0 up,
/// 1 down, 2 left, 3 right) by a tank at `p`; `None` for any other direction.
pub open spec fn launch(dir: i32, p: Rect) -> Option<(Point, int, int)> {
    let half_w = trunc_div(p.right - p.left, 2);
    let half_h = trunc_div(p.top - p.bottom, 2);
    if dir == 0 {
        Some((Point { x: 0, y: -2i32 }, p.left + half_w - 8, p.top - 17))
    } else if dir == 1 {
        Some((Point { x: 0, y: MISSILE_VELOCITY }, p.left + half_w - 8, p.bottom as int))
    } else if dir == 2 {
        Some((Point { x: -2i32, y: 0 }, p.left - 17, p.top - half_h - 8))
    } else if dir == 3 {
        Some((Point { x: MISSILE_VELOCITY, y: 0 }, p.right as int, p.top - half_h - 8))
    } else {
        None
    }
}

/// True when the launch point can be computed within `i32`.
pub open spec fn launch_arith_fits(dir: i32, p: Rect) -> bool {
    let w = p.right - p.left;
    let h = p.top - p.bottom;
    &&& (dir == 0 || dir == 1) ==> fits_i32(w) && fits_i32(p.left + trunc_div(w, 2)) && fits_i32(
        p.left + trunc_div(w, 2) - 8,
    )
    &&& dir == 0 ==> fits_i32(p.top - 17)
    &&& dir == 2 ==> fits_i32(p.left - 17)
    &&& (dir == 2 || dir == 3) ==> fits_i32(h) && fits_i32(p.top - trunc_div(h, 2)) && fits_i32(
        p.top - trunc_div(h, 2) - 8,
    )
}

/// A fresh missile after it was turned to direction `dir` and launched from `p`.
pub open spec fn fired(m: Sprite, dir: i32, p: Rect) -> Sprite {
    let turned = Sprite { cur_frame: dir, ..m };
    match launch(dir, p) {
        Some(l) => moved_to(Sprite { velocity: l.0, ..turned }, l.1, l.2),
        None => turned,
    }
}

/// The unit vector a tank or missile with frame `frame` points along: 0 up,
/// 1 down, 2 left, 3 right (screen coordinates, y grows downwards).
pub open spec fn facing(frame: int) -> (int, int) {
    if frame == 0 {
        (0, -1)
    } else if frame == 1 {
        (0, 1)
    } else if frame == 2 {
        (-1, 0)
    } else {
        (1, 0)
    }
}

/// The unit vector an arrow key points along; `None` for any other key.
pub open spec fn arrow_direction(key: Seq<char>) -> Option<(int, int)> {
    if key == "ArrowLeft"@ {
        Some((-1, 0))
    } else if key == "ArrowRight"@ {
        Some((1, 0))
    } else if key == "ArrowUp"@ {
        Some((0, -1))
    } else if key == "ArrowDown"@ {
        Some((0, 1))
    } else {
        None
    }
}

/// A missile fired by a tank facing `dir` takes that frame and flies the way
/// the tank faces, at the missile speed.
pub proof fn lemma_missile_flies_the_way_the_tank_faces(m: Sprite, dir: i32, p: Rect)
    requires
        0 <= dir <= 3,
    ensures
        fired(m, dir, p).cur_frame == dir,
        fired(m, dir, p).velocity.x == MISSILE_VELOCITY * facing(dir as int).0,
        fired(m, dir, p).velocity.y == MISSILE_VELOCITY * facing(dir as int).1,
{
}

/// An arrow key drives the tank the way the arrow points, at the tank speed,
/// and turns it to the frame that faces that way; other keys do neither.
pub proof fn lemma_arrows_drive_the_way_they_point(key: Seq<char>)
    ensures
        arrow_move(key) is Some <==> arrow_direction(key) is Some,
        arrow_move(key) matches Some(mv) ==> {
            let d = arrow_direction(key)->0;
            &&& mv.1.x == TANK_VELOCITY * d.0
            &&& mv.1.y == TANK_VELOCITY * d.1
            &&& 0 <= mv.0 <= 3
            &&& facing(mv.0 as int) == d
        },
{
    reveal_strlit("ArrowLeft");
    reveal_strlit("ArrowRight");
    reveal_strlit("ArrowUp");
    reveal_strlit("ArrowDown");
}

/// The frame of the sprite found at `idx` once a sprite with frame 0 has been
/// inserted at `at`.
pub open spec fn frame_after_insert(s: Seq<Sprite>, at: int, idx: int) -> i32 {
    if idx < at {
        s[idx].cur_frame
    } else if idx == at {
        0
    } else {
        s[idx - 1].cur_frame
    }
}

/// True when the tank at `idx` can fire: an id is left for the missile, and
/// wherever the missile is created on the field, it can be moved to its
/// launch point within `i32`.
pub open spec fn fire_ok(e: EngineView, idx: int) -> bool {
    let at = insert_index(e.sprites, 0, 0);
    let dir = frame_after_insert(e.sprites, at, idx);
    let p = e.sprites[idx].position;
    &&& e.count < u32::MAX
    &&& launch_arith_fits(dir, p)
    &&& forall|mx: i32, my: i32|
        0 <= mx <= CLIENT_WIDTH && 0 <= my <= CLIENT_HEIGHT ==> (launch(dir, p) matches Some(l)
            ==> move_fits(#[trigger] missile_sprite((e.count + 1) as u32, mx, my), l.1, l.2))
}

fn fits64(v: i64) -> (b: bool)
    ensures
        b == fits_i32(v as int),
{
    -0x8000_0000 <= v && v <= 0x7fff_ffff
}

fn half_toward_zero(w: i64) -> (r: i64)
    requires
        -0x1_0000_0000 <= w <= 0x1_0000_0000,
    ensures
        r == trunc_div(w as int, 2),
{
    if w >= 0 {
        w / 2
    } else {
        -((-w) / 2)
    }
}

/// Where a sprite of z-order `z` goes into the list.
fn insert_position(s: &Vec<Sprite>, z: i32) -> (k: usize)
    ensures
        k == insert_index(s@, z as int, 0),
{
    let mut k: usize = 0;
    while k < s.len()
        invariant
            0 <= k <= s.len(),
            insert_index(s@, z as int, k as int) == insert_index(s@, z as int, 0),
        decreases s.len() - k,
    {
        if z < s[k].z_order {
            return k;
        }
        k = k + 1;
    }
    k
}

/// Whether the tank at `idx` can fire (see `fire_ok`).
#[verifier::rlimit(50)]
pub fn fire_check(e: &GameEngine, idx: usize) -> (b: bool)
    requires
        idx < e@.sprites.len(),
    ensures
        b == fire_ok(e@, idx as int),
{
    let ghost ev = e@;
    if e.counter.count == u32::MAX {
        return false;
    }
    let at = insert_position(&e.sprites, 0);
    let dir = if idx < at {
        e.sprites[idx].cur_frame
    } else if idx == at {
        0
    } else {
        e.sprites[idx - 1].cur_frame
    };
    assert(dir == frame_after_insert(ev.sprites, at as int, idx as int));
    let p = e.sprites[idx].position;
    let (l, t, r, b) = (p.left as i64, p.top as i64, p.right as i64, p.bottom as i64);
    let w = r - l;
    let h = t - b;
    let hw = half_toward_zero(w);
    let hh = half_toward_zero(h);
    let arith = (!(dir == 0 || dir == 1) || (fits64(w) && fits64(l + hw) && fits64(l + hw - 8)))
        && (dir != 0 || fits64(t - 17)) && (dir != 2 || fits64(l - 17)) && (!(dir == 2 || dir == 3)
        || (fits64(h) && fits64(t - hh) && fits64(t - hh - 8)));
    if !arith {
        return false;
    }
    if dir < 0 || dir > 3 {
        return true;
    }
    let (x, y) = if dir == 0 {
        (l + hw - 8, t - 17)
    } else if dir == 1 {
        (l + hw - 8, b)
    } else if dir == 2 {
        (l - 17, t - hh - 8)
    } else {
        (r, t - hh - 8)
    };
    let ghost id = (ev.count + 1) as u32;
    assert(launch(dir, p) matches Some(lp) && lp.1 == x && lp.2 == y);
    let moves_x = fits64(x - 1000) && fits64(x + 17);
    let moves = moves_x && fits64(y - 1000) && fits64(y + 17);
    proof {
        if moves {
            assert forall|mx: i32, my: i32|
                0 <= mx <= CLIENT_WIDTH && 0 <= my <= CLIENT_HEIGHT implies (launch(dir, p) matches Some(
                lp,
            ) ==> move_fits(#[trigger] missile_sprite(id, mx, my), lp.1, lp.2)) by {
                let m = missile_sprite(id, mx, my);
                assert(m.position == Rect { left: mx, top: my, right: (mx + 17) as i32, bottom: (my + 17) as i32 });
            }
        } else {
            if !moves_x {
                let m = missile_sprite(id, 1000, 0);
                assert(m.position == Rect { left: 1000, top: 0, right: 1017, bottom: 17 });
                assert(!move_fits(m, x as int, y as int));
            } else {
                let m = missile_sprite(id, 0, 1000);
                assert(m.position == Rect { left: 0, top: 1000, right: 17, bottom: 1017 });
                assert(!move_fits(m, x as int, y as int));
            }
        }
    }
    moves
}

impl TankGame {
    /// Whether a key event can be handled (see `on_key_event`): it can, except
    /// for a space pressed for a tank that cannot fire.
    pub fn key_event_ok(&self, event: KeyEvent, key: &str, sprite_id: u32) -> (b: bool)
        ensures
            b == (find_id(self.engine@.sprites, sprite_id, 0) matches Some(idx) ==> (event
                == KeyEvent::KeyDown && key@ == " "@ ==> fire_ok(self.engine@, idx))),
    {
        proof {
            reveal_strlit(" ");
            crate::engine::lemma_find_id_bounds(self.engine@.sprites, sprite_id, 0);
        }
        match self.engine.query_sprite_idx(sprite_id) {
            None => true,
            Some(idx) => {
                let space = match event {
                    KeyEvent::KeyDown => text_eq(key, " "),
                    KeyEvent::KeyUp => false,
                };
                if space {
                    fire_check(&self.engine, idx)
                } else {
                    true
                }
            },
        }
    }
}

impl TankGame {
    /// A key event from the player whose tank has id `sprite_id`. Space, when
    /// pressed, fires a missile in the direction the tank faces (an `Add` event
    /// is recorded as the missile is created). An arrow key, when pressed,
    /// stops the tank; when released, turns the tank and drives it that way.
    /// Each of these records an `Update` event for the tank.
    pub fn on_key_event(&mut self, event: KeyEvent, key: &str, sprite_id: u32)
        requires
            find_id(old(self).engine@.sprites, sprite_id, 0) matches Some(idx) ==> (event
                == KeyEvent::KeyDown && key@ == " "@ ==> fire_ok(old(self).engine@, idx)),
        ensures
            final(self).players == old(self).players,
            match find_id(old(self).engine@.sprites, sprite_id, 0) {
                None => final(self).engine@ == old(self).engine@ && final(self).events@ == old(
                    self,
                ).events@,
                Some(idx) => {
                    let e0 = old(self).engine@;
                    let tank = e0.sprites[idx];
                    if event == KeyEvent::KeyDown && key@ == " "@ {
                        exists|e1: EngineView, m: int|
                            {
                                &&& added_sprite(e0, None, RES_MISSILE_BITMAP, e1, m)
                                &&& final(self).events@ == old(self).events@.push(
                                    (SpriteEvent::Add, info_of(e1.sprites[m])),
                                )
                                &&& final(self).engine@ == with_sprite(
                                    e1,
                                    m,
                                    fired(e1.sprites[m], e1.sprites[idx].cur_frame, tank.position),
                                )
                            }
                    } else if event == KeyEvent::KeyDown && arrow_move(key@) is Some {
                        let stopped = Sprite { velocity: Point { x: 0, y: 0 }, ..tank };
                        &&& final(self).engine@ == with_sprite(e0, idx, stopped)
                        &&& final(self).events@ == old(self).events@.push(
                            (SpriteEvent::Update, info_of(stopped)),
                        )
                    } else if event == KeyEvent::KeyUp && arrow_move(key@) is Some {
                        let mv = arrow_move(key@)->0;
                        let moving = Sprite { cur_frame: mv.0, velocity: mv.1, ..tank };
                        &&& final(self).engine@ == with_sprite(e0, idx, moving)
                        &&& final(self).events@ == old(self).events@.push(
                            (SpriteEvent::Update, info_of(moving)),
                        )
                    } else {
                        final(self).engine@ == e0 && final(self).events@ == old(self).events@
                    }
                },
            },
    {
        proof {
            crate::engine::lemma_find_id_bounds(self.engine@.sprites, sprite_id, 0);
        }
        if let Some(idx) = self.engine.query_sprite_idx(sprite_id) {
            match event {
                KeyEvent::KeyDown => {
                    if text_eq(key, " ") {
                        let tank_position = self.engine.sprites[idx].position;
                        let ghost e0 = self.engine@;
                        proof {
                            crate::engine::lemma_insert_index_bounds(e0.sprites, 0, 0);
                        }
                        let missile_idx = TankGame::add_sprite(
                            &mut self.engine,
                            None,
                            RES_MISSILE_BITMAP,
                        );
                        let ghost e1 = self.engine@;
                        self.add_sprite_event(SpriteEvent::Add, missile_idx);
                        let direction = self.engine.sprites[idx].current_frame();
                        assert(direction == frame_after_insert(
                            e0.sprites,
                            insert_index(e0.sprites, 0, 0),
                            idx as int,
                        ));
                        let ghost m0 = e1.sprites[missile_idx as int];
                        let missile = &mut self.engine.sprites[missile_idx];
                        missile.set_current_frame(direction);
                        if direction == 0 {
                            missile.set_velocity(0, -MISSILE_VELOCITY);
                            missile.set_position(
                                tank_position.left + (tank_position.right - tank_position.left) / 2
                                    - 8,
                                tank_position.top - 17,
                            );
                        } else if direction == 1 {
                            missile.set_velocity(0, MISSILE_VELOCITY);
                            missile.set_position(
                                tank_position.left + (tank_position.right - tank_position.left) / 2
                                    - 8,
                                tank_position.bottom,
                            );
                        } else if direction == 2 {
                            missile.set_velocity(-MISSILE_VELOCITY, 0);
                            missile.set_position(
                                tank_position.left - 17,
                                tank_position.top - (tank_position.top - tank_position.bottom) / 2
                                    - 8,
                            );
                        } else if direction == 3 {
                            missile.set_velocity(MISSILE_VELOCITY, 0);
                            missile.set_position(
                                tank_position.right,
                                tank_position.top - (tank_position.top - tank_position.bottom) / 2
                                    - 8,
                            );
                        }
                        assert(self.engine@ == with_sprite(
                            e1,
                            missile_idx as int,
                            fired(m0, direction, tank_position),
                        ));
                        assert(added_sprite(e0, None, RES_MISSILE_BITMAP, e1, missile_idx as int));
                        assert(self.events@ == old(self).events@.push(
                            (SpriteEvent::Add, info_of(e1.sprites[missile_idx as int])),
                        ));
                        assert(e1.sprites[idx as int].cur_frame == direction);
                    } else if text_eq(key, "ArrowLeft") || text_eq(key, "ArrowRight") || text_eq(
                        key,
                        "ArrowUp",
                    ) || text_eq(key, "ArrowDown") {
                        self.engine.sprites[idx].set_velocity(0, 0);
                        self.add_sprite_event(SpriteEvent::Update, idx);
                    }
                },
                KeyEvent::KeyUp => {
                    let do_update = {
                        let tank = &mut self.engine.sprites[idx];
                        if text_eq(key, "ArrowLeft") {
                            tank.set_current_frame(2);
                            tank.set_velocity(-TANK_VELOCITY, 0);
                            true
                        } else if text_eq(key, "ArrowRight") {
                            tank.set_current_frame(3);
                            tank.set_velocity(TANK_VELOCITY, 0);
                            true
                        } else if text_eq(key, "ArrowUp") {
                            tank.set_current_frame(0);
                            tank.set_velocity(0, -TANK_VELOCITY);
                            true
                        } else if text_eq(key, "ArrowDown") {
                            tank.set_current_frame(1);
                            tank.set_velocity(0, TANK_VELOCITY);
                            true
                        } else {
                            false
                        }
                    };
                    if do_update {
                        self.add_sprite_event(SpriteEvent::Update, idx);
                    } else {
                        assert(self.engine@.sprites =~= old(self).engine@.sprites);
                    }
                },
            }
        }
    }
}

} // verus!
