use crate::bitmap::BitmapRes;
use crate::engine::{
    find_id, insert_index, lemma_find_id_bounds, lemma_insert_index_bounds, update_sprites_ok,
    update_sprites_result, with_sprite, EngineView, GameEngine, UpdateCallback,
};
use crate::geometry::{trunc_div_signed, Point, Rect};
use crate::sprite::{
    move_fits, moved_to, spec_new_sprite, with_frames, Sprite, BA_BOUNCE, BA_DIE, BA_STOP, BA_WRAP,
};
use crate::utils::rand_int;
use vstd::prelude::*;

verus! {

// ------------------------------------------------------------------
// Resources and events
// ------------------------------------------------------------------
pub const RES_SPLASH_BITMAP: i32 = 0;
pub const RES_DESERT_BITMAP: i32 = 1;
pub const RES_CAR_BITMAP: i32 = 2;
pub const RES_SM_CAR_BITMAP: i32 = 3;
pub const RES_MISSILE_BITMAP: i32 = 4;
pub const RES_BLOBBO_BITMAP: i32 = 5;
pub const RES_BMISSILE_BITMAP: i32 = 6;
pub const RES_JELLY_BITMAP: i32 = 7;
pub const RES_JMISSILE_BITMAP: i32 = 8;
pub const RES_TIMMY_BITMAP: i32 = 9;
pub const RES_TMISSILE_BITMAP: i32 = 10;
pub const RES_SM_EXPLOSION_BITMAP: i32 = 11;
pub const RES_LG_EXPLOSION_BITMAP: i32 = 12;
pub const RES_GAME_OVER_BITMAP: i32 = 13;

pub const RES_BMISSILE_SOUND: i32 = 100;
pub const RES_GAMEOVER_SOUND: i32 = 101;
pub const RES_JMISSILE_SOUND: i32 = 102;
pub const RES_LG_EXPLODE_SOUND: i32 = 103;
pub const RES_SM_EXPLODE_SOUND: i32 = 104;
pub const RES_MISSILE_SOUND: i32 = 105;
pub const URL_BACKGROUND_MUSIC: &'static str = "Music.mp3";

pub const EVENT_MOUSE_MOVE: i32 = 0;
pub const EVENT_MOUSE_CLICK: i32 = 1;
pub const EVENT_TOUCH_MOVE: i32 = 10;

pub const CLIENT_WIDTH: i32 = 600;
pub const CLIENT_HEIGHT: i32 = 450;

/// What the game asks the speakers to do.
#[derive(Clone, Copy, Debug, PartialEq, Eq, Structural)]
pub enum Audio {
    /// Play the sound with this resource id.
    Sound(i32),
    /// Start the background music.
    PlayMusic,
    /// Pause the background music.
    PauseMusic,
}

// ------------------------------------------------------------------
// The sprites of the game
// ------------------------------------------------------------------
pub open spec fn space_field() -> Rect {
    Rect { left: 0, top: 0, right: CLIENT_WIDTH, bottom: CLIENT_HEIGHT }
}

/// Where aliens fly: the sky above the desert.
pub open spec fn sky() -> Rect {
    Rect { left: 0, top: 0, right: CLIENT_WIDTH, bottom: 410 }
}

pub open spec fn is_alien(b: i32) -> bool {
    b == RES_BLOBBO_BITMAP || b == RES_JELLY_BITMAP || b == RES_TIMMY_BITMAP
}

pub open spec fn is_alien_missile(b: i32) -> bool {
    b == RES_BMISSILE_BITMAP || b == RES_JMISSILE_BITMAP || b == RES_TMISSILE_BITMAP
}

pub open spec fn lg_explosion_bitmap() -> BitmapRes {
    BitmapRes { id: RES_LG_EXPLOSION_BITMAP, width: 33, height: 272 }
}

pub open spec fn sm_explosion_bitmap() -> BitmapRes {
    BitmapRes { id: RES_SM_EXPLOSION_BITMAP, width: 17, height: 136 }
}

/// An explosion: eight frames played once, with its top-left corner at `(x, y)`.
pub open spec fn explosion(id: u32, bitmap: BitmapRes, x: int, y: int) -> Sprite {
    moved_to(
        with_frames(
            spec_new_sprite(
                id,
                bitmap,
                Point { x: 0, y: 0 },
                Point { x: 0, y: 0 },
                0,
                space_field(),
                BA_STOP,
            ),
            8,
            true,
        ),
        x,
        y,
    )
}

/// True when an explosion can be placed at `(x, y)` within `i32` arithmetic.
pub open spec fn explosion_fits(bitmap: BitmapRes, x: int, y: int) -> bool {
    move_fits(
        with_frames(
            spec_new_sprite(
                0,
                bitmap,
                Point { x: 0, y: 0 },
                Point { x: 0, y: 0 },
                0,
                space_field(),
                BA_STOP,
            ),
            8,
            true,
        ),
        x,
        y,
    )
}

/// The engine after an explosion with the next id was added at `(x, y)`.
pub open spec fn with_explosion(e: EngineView, bitmap: BitmapRes, x: int, y: int) -> EngineView {
    EngineView {
        sprites: e.sprites.insert(
            insert_index(e.sprites, 0, 0),
            explosion((e.count + 1) as u32, bitmap, x, y),
        ),
        count: (e.count + 1) as u32,
    }
}

fn add_explosion(engine: &mut GameEngine, large: bool, x: i32, y: i32) -> (idx: usize)
    requires
        old(engine)@.count < u32::MAX,
        explosion_fits(
            if large {
                lg_explosion_bitmap()
            } else {
                sm_explosion_bitmap()
            },
            x as int,
            y as int,
        ),
    ensures
        idx == insert_index(old(engine)@.sprites, 0, 0),
        final(engine)@ == with_explosion(
            old(engine)@,
            if large {
                lg_explosion_bitmap()
            } else {
                sm_explosion_bitmap()
            },
            x as int,
            y as int,
        ),
{
    let id = engine.next_sprite_id();
    let bitmap = if large {
        BitmapRes::new(RES_LG_EXPLOSION_BITMAP, 33, 272)
    } else {
        BitmapRes::new(RES_SM_EXPLOSION_BITMAP, 17, 136)
    };
    let mut sprite = Sprite::from_bitmap(id, bitmap, Rect::new(0, 0, CLIENT_WIDTH, CLIENT_HEIGHT));
    sprite.set_num_frames(8, true);
    sprite.set_position(x, y);
    engine.add_sprite(sprite)
}

// ------------------------------------------------------------------
// The state the engine's reactions change
// ------------------------------------------------------------------
/// The score and the other counters of a game of SpaceOut, and the sounds it
/// asked for that were not played yet.
pub struct SpaceOutState {
    pub difficulty: i32,
    pub game_over: bool,
    pub demo: bool,
    pub game_over_delay: i32,
    pub fire_input_delay: i32,
    pub score: i32,
    pub num_lives: i32,
    pub car_sprite_id: u32,
    pub audio: Vec<Audio>,
}

pub struct StateView {
    pub difficulty: i32,
    pub game_over: bool,
    pub demo: bool,
    pub game_over_delay: i32,
    pub fire_input_delay: i32,
    pub score: i32,
    pub num_lives: i32,
    pub car_sprite_id: u32,
    pub audio: Seq<Audio>,
}

impl View for SpaceOutState {
    type V = StateView;

    open spec fn view(&self) -> StateView {
        StateView {
            difficulty: self.difficulty,
            game_over: self.game_over,
            demo: self.demo,
            game_over_delay: self.game_over_delay,
            fire_input_delay: self.fire_input_delay,
            score: self.score,
            num_lives: self.num_lives,
            car_sprite_id: self.car_sprite_id,
            audio: self.audio@,
        }
    }
}

/// A missile of the car met an alien.
pub open spec fn shot_alien(a: i32, b: i32) -> bool {
    (a == RES_MISSILE_BITMAP && is_alien(b)) || (b == RES_MISSILE_BITMAP && is_alien(a))
}

/// The car met a missile of an alien.
pub open spec fn car_hit(a: i32, b: i32) -> bool {
    (a == RES_CAR_BITMAP && is_alien_missile(b)) || (b == RES_CAR_BITMAP && is_alien_missile(a))
}

/// The difficulty after scoring `score`: aliens come more often as the score
/// grows, up to a limit.
pub open spec fn difficulty_for(score: int) -> int {
    let d = 80 - trunc_div_signed(score, 20);
    if d >= 20 {
        d
    } else {
        20
    }
}

pub open spec fn killed(e: EngineView, i: int) -> EngineView {
    with_sprite(e, i, Sprite { dying: true, ..e.sprites[i] })
}

/// Where the car is after an explosion was added.
pub open spec fn car_index(e: EngineView, car: u32) -> int {
    match find_id(e.sprites, car, 0) {
        Some(j) => j,
        None => 0,
    }
}

/// The car's missile at `hitter` or `hittee` and the alien there are both
/// destroyed; a large explosion appears where the alien was, and the score
/// goes up by 25.
pub open spec fn alien_shot_effect(cb: StateView, e: EngineView, hitter: int, hittee: int) -> (
    StateView,
    EngineView,
) {
    let a = e.sprites[hitter].bitmap.id;
    let pos = if a == RES_MISSILE_BITMAP {
        e.sprites[hittee].position
    } else {
        e.sprites[hitter].position
    };
    let e1 = killed(killed(e, hitter), hittee);
    let score = cb.score + 25;
    (
        StateView {
            score: score as i32,
            difficulty: difficulty_for(score) as i32,
            audio: cb.audio.push(Audio::Sound(RES_SM_EXPLODE_SOUND)),
            ..cb
        },
        with_explosion(e1, lg_explosion_bitmap(), pos.left as int, pos.top as int),
    )
}

/// The alien missile is destroyed, a large explosion appears where the car
/// was, the car goes back to its start and a life is lost; with the last life
/// the game is over.
pub open spec fn car_hit_effect(cb: StateView, e: EngineView, hitter: int, hittee: int) -> (
    StateView,
    EngineView,
) {
    let a = e.sprites[hitter].bitmap.id;
    let missile = if a == RES_CAR_BITMAP {
        hittee
    } else {
        hitter
    };
    let car_pos = if a == RES_CAR_BITMAP {
        e.sprites[hitter].position
    } else {
        e.sprites[hittee].position
    };
    let e2 = with_explosion(
        killed(e, missile),
        lg_explosion_bitmap(),
        car_pos.left as int,
        car_pos.top as int,
    );
    let c = car_index(e2, cb.car_sprite_id);
    let e3 = with_sprite(e2, c, moved_to(e2.sprites[c], 300, 405));
    let lives = cb.num_lives - 1;
    let audio = cb.audio.push(Audio::Sound(RES_LG_EXPLODE_SOUND));
    if lives == 0 {
        (
            StateView {
                num_lives: lives as i32,
                game_over: true,
                game_over_delay: 150,
                audio: audio.push(Audio::Sound(RES_GAMEOVER_SOUND)),
                ..cb
            },
            e3,
        )
    } else {
        (StateView { num_lives: lives as i32, audio, ..cb }, e3)
    }
}

/// The difficulty starts at 80 and falls as the score grows, by one for every
/// 20 points, but never below 20.
pub proof fn lemma_difficulty_falls_to_twenty(s1: int, s2: int)
    requires
        0 <= s1 <= s2,
    ensures
        difficulty_for(0) == 80,
        20 <= difficulty_for(s2) <= difficulty_for(s1) <= 80,
{
    assert(s1 / 20 <= s2 / 20) by (nonlinear_arith)
        requires
            0 <= s1 <= s2,
    ;
}

/// A missile that hits the car costs exactly one life, and the game is over
/// exactly when that was the last one; the car is put back at its start.
pub proof fn lemma_car_hit_costs_one_life(cb: StateView, e: EngineView, hitter: int, hittee: int)
    requires
        car_hit(e.sprites[hitter].bitmap.id, e.sprites[hittee].bitmap.id),
        cb.num_lives > i32::MIN,
    ensures
        ({
            let r = car_hit_effect(cb, e, hitter, hittee);
            &&& r.0.num_lives == cb.num_lives - 1
            &&& r.0.game_over == (cb.num_lives == 1 || cb.game_over)
            &&& r.0.score == cb.score
        }),
{
}

impl UpdateCallback for SpaceOutState {
    open spec fn dying_ok(cb: StateView, e: EngineView, idx: int) -> bool {
        is_alien_missile(e.sprites[idx].bitmap.id) ==> e.count < u32::MAX && explosion_fits(
            sm_explosion_bitmap(),
            e.sprites[idx].position.left as int,
            e.sprites[idx].position.top as int,
        )
    }

    /// A dying alien missile leaves a small explosion, with a sound outside
    /// the demo.
    open spec fn dying_effect(cb: StateView, e: EngineView, idx: int) -> (StateView, EngineView) {
        let s = e.sprites[idx];
        if is_alien_missile(s.bitmap.id) {
            (
                StateView {
                    audio: if cb.demo {
                        cb.audio
                    } else {
                        cb.audio.push(Audio::Sound(RES_SM_EXPLODE_SOUND))
                    },
                    ..cb
                },
                with_explosion(
                    e,
                    sm_explosion_bitmap(),
                    s.position.left as int,
                    s.position.top as int,
                ),
            )
        } else {
            (cb, e)
        }
    }

    open spec fn collision_ok(cb: StateView, e: EngineView, hitter: int, hittee: int) -> bool {
        let a = e.sprites[hitter].bitmap.id;
        let b = e.sprites[hittee].bitmap.id;
        if shot_alien(a, b) {
            let pos = if a == RES_MISSILE_BITMAP {
                e.sprites[hittee].position
            } else {
                e.sprites[hitter].position
            };
            &&& e.count < u32::MAX
            &&& explosion_fits(lg_explosion_bitmap(), pos.left as int, pos.top as int)
            &&& cb.score + 25 <= i32::MAX
        } else if car_hit(a, b) {
            let missile = if a == RES_CAR_BITMAP {
                hittee
            } else {
                hitter
            };
            let car_pos = if a == RES_CAR_BITMAP {
                e.sprites[hitter].position
            } else {
                e.sprites[hittee].position
            };
            let e2 = with_explosion(
                killed(e, missile),
                lg_explosion_bitmap(),
                car_pos.left as int,
                car_pos.top as int,
            );
            &&& e.count < u32::MAX
            &&& explosion_fits(lg_explosion_bitmap(), car_pos.left as int, car_pos.top as int)
            &&& find_id(e2.sprites, cb.car_sprite_id, 0) is Some
            &&& move_fits(e2.sprites[car_index(e2, cb.car_sprite_id)], 300, 405)
            &&& cb.num_lives > i32::MIN
        } else {
            true
        }
    }

    /// See `alien_shot_effect` and `car_hit_effect`; the engine is never asked
    /// to put a sprite back.
    open spec fn collision_effect(cb: StateView, e: EngineView, hitter: int, hittee: int) -> (
        StateView,
        EngineView,
        bool,
    ) {
        let a = e.sprites[hitter].bitmap.id;
        let b = e.sprites[hittee].bitmap.id;
        if shot_alien(a, b) {
            let r = alien_shot_effect(cb, e, hitter, hittee);
            (r.0, r.1, false)
        } else if car_hit(a, b) {
            let r = car_hit_effect(cb, e, hitter, hittee);
            (r.0, r.1, false)
        } else {
            (cb, e, false)
        }
    }

    fn on_sprite_dying(&mut self, engine: &mut GameEngine, idx_sprite_dying: usize) {
        let bitmap_id = engine.sprites[idx_sprite_dying].bitmap.id;
        if bitmap_id == RES_BMISSILE_BITMAP || bitmap_id == RES_JMISSILE_BITMAP || bitmap_id
            == RES_TMISSILE_BITMAP {
            if !self.demo {
                self.audio.push(Audio::Sound(RES_SM_EXPLODE_SOUND));
            }
            let pos = engine.sprites[idx_sprite_dying].position;
            add_explosion(engine, false, pos.left, pos.top);
        }
    }

    fn on_sprite_collision(
        &mut self,
        engine: &mut GameEngine,
        idx_sprite_hitter: usize,
        idx_sprite_hittee: usize,
    ) -> (hit: bool) {
        let hitter = engine.sprites[idx_sprite_hitter].bitmap.id;
        let hittee = engine.sprites[idx_sprite_hittee].bitmap.id;
        let hitter_alien = hitter == RES_BLOBBO_BITMAP || hitter == RES_JELLY_BITMAP || hitter
            == RES_TIMMY_BITMAP;
        let hittee_alien = hittee == RES_BLOBBO_BITMAP || hittee == RES_JELLY_BITMAP || hittee
            == RES_TIMMY_BITMAP;
        let hitter_shot = hitter == RES_BMISSILE_BITMAP || hitter == RES_JMISSILE_BITMAP || hitter
            == RES_TMISSILE_BITMAP;
        let hittee_shot = hittee == RES_BMISSILE_BITMAP || hittee == RES_JMISSILE_BITMAP || hittee
            == RES_TMISSILE_BITMAP;
        if hitter == RES_MISSILE_BITMAP && hittee_alien || hittee == RES_MISSILE_BITMAP
            && hitter_alien {
            self.audio.push(Audio::Sound(RES_SM_EXPLODE_SOUND));
            let pos = if hitter == RES_MISSILE_BITMAP {
                engine.sprites[idx_sprite_hittee].position
            } else {
                engine.sprites[idx_sprite_hitter].position
            };
            engine.kill_sprite(idx_sprite_hitter);
            engine.kill_sprite(idx_sprite_hittee);
            add_explosion(engine, true, pos.left, pos.top);
            self.score = self.score + 25;
            let d = 80 - self.score / 20;
            self.difficulty = if d >= 20 {
                d
            } else {
                20
            };
        }
        if hitter == RES_CAR_BITMAP && hittee_shot || hittee == RES_CAR_BITMAP && hitter_shot {
            self.audio.push(Audio::Sound(RES_LG_EXPLODE_SOUND));
            let car_pos = if hitter == RES_CAR_BITMAP {
                engine.sprites[idx_sprite_hitter].position
            } else {
                engine.sprites[idx_sprite_hittee].position
            };
            if hitter == RES_CAR_BITMAP {
                engine.kill_sprite(idx_sprite_hittee);
            } else {
                engine.kill_sprite(idx_sprite_hitter);
            }
            add_explosion(engine, true, car_pos.left, car_pos.top);
            let ghost e2 = engine@;
            proof {
                lemma_find_id_bounds(e2.sprites, self.car_sprite_id, 0);
            }
            match engine.query_sprite(self.car_sprite_id) {
                Some(car) => {
                    car.set_position(300, 405);
                },
                None => {},
            }
            self.num_lives = self.num_lives - 1;
            if self.num_lives == 0 {
                self.audio.push(Audio::Sound(RES_GAMEOVER_SOUND));
                self.game_over = true;
                self.game_over_delay = 150;
            }
        }
        false
    }
}

// ------------------------------------------------------------------
// The car, its missiles and the aliens
// ------------------------------------------------------------------
pub open spec fn zero_point() -> Point {
    Point { x: 0, y: 0 }
}

pub open spec fn car_bitmap() -> BitmapRes {
    BitmapRes { id: RES_CAR_BITMAP, width: 37, height: 18 }
}

pub open spec fn missile_bitmap() -> BitmapRes {
    BitmapRes { id: RES_MISSILE_BITMAP, width: 5, height: 16 }
}

/// A place a sprite may first be put at, before it is moved: a point of the
/// area `r`, counted from the area's top-left corner.
pub open spec fn start_in(start: Point, r: Rect) -> bool {
    0 <= start.x <= r.right - r.left && 0 <= start.y <= r.bottom - r.top
}

/// The car, at its start in the middle of the road; it wraps around the field.
pub open spec fn car_sprite(id: u32, start: Point) -> Sprite {
    moved_to(
        spec_new_sprite(id, car_bitmap(), start, zero_point(), 0, space_field(), BA_WRAP),
        300,
        405,
    )
}

/// A missile of the car, fired from above the car's left edge `car_left`,
/// flying up; it dies when it leaves the field.
pub open spec fn car_missile(id: u32, start: Point, car_left: int) -> Sprite {
    Sprite {
        velocity: Point { x: 0, y: -7i32 },
        ..moved_to(
            spec_new_sprite(id, missile_bitmap(), start, zero_point(), 0, space_field(), BA_DIE),
            car_left + 15,
            400,
        )
    }
}

/// An alien of kind `kind`: 1 is a Blobbo and 2 a Jelly, both bouncing off
/// the sky's edges; any other kind is a Timmy, which wraps around. It has
/// eight frames, sits at `(x, y)` and flies with velocity `(vx, vy)`.
pub open spec fn alien_sprite(
    kind: int,
    id: u32,
    start: Point,
    x: int,
    y: int,
    vx: int,
    vy: int,
) -> Sprite {
    let (bitmap, action) = if kind == 1 {
        (BitmapRes { id: RES_BLOBBO_BITMAP, width: 32, height: 272 }, BA_BOUNCE)
    } else if kind == 2 {
        (BitmapRes { id: RES_JELLY_BITMAP, width: 33, height: 264 }, BA_BOUNCE)
    } else {
        (BitmapRes { id: RES_TIMMY_BITMAP, width: 33, height: 136 }, BA_WRAP)
    };
    Sprite {
        velocity: Point { x: vx as i32, y: vy as i32 },
        ..moved_to(
            with_frames(spec_new_sprite(id, bitmap, start, zero_point(), 0, sky(), action), 8, false),
            x,
            y,
        )
    }
}

/// The random choices an alien can come out of: a Blobbo enters at the left or
/// right edge, anywhere in height, with any velocity from -2 to 5 on each axis;
/// a Jelly anywhere, drifting by -2 to 3 and falling by 3 to 8; a Timmy
/// anywhere, flying right by 3 to 10.
pub open spec fn alien_choice(kind: int, start: Point, x: int, y: int, vx: int, vy: int) -> bool {
    &&& 0 <= kind <= 3
    &&& start_in(start, sky())
    &&& 0 <= y <= 370
    &&& if kind == 1 {
        &&& (x == 0 || x == 600)
        &&& -2 <= vx <= 5
        &&& -2 <= vy <= 5
    } else if kind == 2 {
        &&& 0 <= x <= 600
        &&& -2 <= vx <= 3
        &&& 3 <= vy <= 8
    } else {
        &&& 0 <= x <= 600
        &&& 3 <= vx <= 10
        &&& vy == 0
    }
}

/// Where a drawn alien comes in across: a Blobbo at the left edge on a side
/// draw of 0, else at the right; the others where the place was drawn.
pub open spec fn alien_x(kind: int, side: int, x: int) -> int {
    if kind == 1 {
        if side == 0 {
            0
        } else {
            600
        }
    } else {
        x
    }
}

/// A drawn alien's velocity across.
pub open spec fn alien_vx(kind: int, draw: int) -> int {
    if kind == 1 || kind == 2 {
        draw - 2
    } else {
        draw + 3
    }
}

/// A drawn alien's velocity down.
pub open spec fn alien_vy(kind: int, draw: int) -> int {
    if kind == 1 {
        draw - 2
    } else if kind == 2 {
        draw + 3
    } else {
        0
    }
}

/// The engine after an alien with the next id was added.
pub open spec fn with_alien(
    e: EngineView,
    kind: int,
    start: Point,
    x: int,
    y: int,
    vx: int,
    vy: int,
) -> EngineView {
    EngineView {
        sprites: e.sprites.insert(
            insert_index(e.sprites, 0, 0),
            alien_sprite(kind, (e.count + 1) as u32, start, x, y, vx, vy),
        ),
        count: (e.count + 1) as u32,
    }
}

/// Some alien with the id `id` came out of one of the allowed choices.
pub open spec fn is_new_alien(s: Sprite, id: u32) -> bool {
    exists|kind: int, start: Point, x: int, y: int, vx: int, vy: int|
        alien_choice(kind, start, x, y, vx, vy) && s == #[trigger] alien_sprite(
            kind,
            id,
            start,
            x,
            y,
            vx,
            vy,
        )
}

pub open spec fn all_flat(s: Seq<Sprite>) -> bool {
    forall|i: int| 0 <= i < s.len() ==> (#[trigger] s[i]).z_order == 0
}

proof fn lemma_flat_insert_at_end(s: Seq<Sprite>)
    requires
        all_flat(s),
    ensures
        insert_index(s, 0, 0) == s.len(),
{
    lemma_insert_index_bounds(s, 0, 0);
    if insert_index(s, 0, 0) < s.len() {
        assert(s[insert_index(s, 0, 0)].z_order == 0);
    }
}

/// A new game: the counters are reset. In the demo, six aliens fly around;
/// otherwise the car stands at its start and the music plays.
pub open spec fn fresh_game(s0: StateView, e0: EngineView, s1: StateView, e1: EngineView) -> bool {
    &&& s1 == StateView {
        fire_input_delay: 0,
        score: 0,
        num_lives: 3,
        difficulty: 80,
        game_over: false,
        car_sprite_id: if s0.demo {
            s0.car_sprite_id
        } else {
            (e0.count + 1) as u32
        },
        audio: if s0.demo {
            s0.audio
        } else {
            s0.audio.push(Audio::PlayMusic)
        },
        ..s0
    }
    &&& if s0.demo {
        &&& e1.sprites.len() == 6
        &&& e1.count == e0.count + 6
        &&& forall|i: int| 0 <= i < 6 ==> is_new_alien(#[trigger] e1.sprites[i], (e0.count + i + 1) as u32)
    } else {
        &&& e1.sprites.len() == 1
        &&& e1.count == e0.count + 1
        &&& exists|start: Point|
            start_in(start, space_field()) && e1.sprites[0] == #[trigger] car_sprite(
                (e0.count + 1) as u32,
                start,
            )
    }
}

pub open spec fn new_game_ok(s0: StateView, e0: EngineView) -> bool {
    if s0.demo {
        e0.count + 6 <= u32::MAX
    } else {
        e0.count < u32::MAX
    }
}

/// A game of SpaceOut: the car in the desert shoots the aliens that fly by
/// and dodges their missiles.
pub struct SpaceOut {
    pub engine: GameEngine,
    pub state: SpaceOutState,
}

impl SpaceOut {
    /// A game in demo mode, with nothing on the field yet.
    pub fn new() -> (g: SpaceOut)
        ensures
            g.engine@.sprites.len() == 0,
            g.engine@.count == 0,
            g.state@ == (StateView {
                difficulty: 80,
                game_over: false,
                demo: true,
                game_over_delay: 0,
                fire_input_delay: 0,
                score: 0,
                num_lives: 3,
                car_sprite_id: 0,
                audio: Seq::empty(),
            }),
    {
        SpaceOut {
            engine: GameEngine::new(),
            state: SpaceOutState {
                difficulty: 80,
                game_over: false,
                demo: true,
                game_over_delay: 0,
                fire_input_delay: 0,
                score: 0,
                num_lives: 3,
                car_sprite_id: 0,
                audio: Vec::new(),
            },
        }
    }

    pub fn difficulty(&self) -> (d: i32)
        ensures
            d == self.state.difficulty,
    {
        self.state.difficulty
    }

    pub fn engine(&mut self) -> (e: &mut GameEngine)
        ensures
            *e == old(self).engine,
            *final(self) == (SpaceOut { engine: *final(e), ..*old(self) }),
    {
        &mut self.engine
    }

    /// Adds the alien that these draws make: the kind (1 a Blobbo, 2 a Jelly,
    /// 0 or 3 a Timmy), the starting corner, the side a Blobbo enters from (the
    /// left on 0, else the right), the place the others come in at, the height,
    /// and the draws for the velocity: a Blobbo's is each draw less 2, a
    /// Jelly's is the first draw less 2 across and the second plus 3 down, a
    /// Timmy's is the first draw plus 3 across.
    pub fn add_drawn_alien(
        &mut self,
        kind: i32,
        start: Point,
        side: i32,
        x: i32,
        y: i32,
        vx_draw: i32,
        vy_draw: i32,
    )
        requires
            old(self).engine@.count < u32::MAX,
            0 <= kind <= 3,
            start_in(start, sky()),
            0 <= x <= CLIENT_WIDTH,
            0 <= y <= 370,
            0 <= vx_draw <= 7,
            0 <= vy_draw <= 7,
        ensures
            final(self).state@ == old(self).state@,
            final(self).engine@ == with_alien(
                old(self).engine@,
                kind as int,
                start,
                alien_x(kind as int, side as int, x as int),
                y as int,
                alien_vx(kind as int, vx_draw as int),
                alien_vy(kind as int, vy_draw as int),
            ),
    {
        let id = self.engine.next_sprite_id();
        let bounds = Rect::new(0, 0, CLIENT_WIDTH, 410);
        let (bitmap, action) = if kind == 1 {
            (BitmapRes::new(RES_BLOBBO_BITMAP, 32, 272), BA_BOUNCE)
        } else if kind == 2 {
            (BitmapRes::new(RES_JELLY_BITMAP, 33, 264), BA_BOUNCE)
        } else {
            (BitmapRes::new(RES_TIMMY_BITMAP, 33, 136), BA_WRAP)
        };
        let mut sprite = Sprite::new(id, bitmap, start, Point { x: 0, y: 0 }, 0, bounds, action);
        sprite.set_num_frames(8, false);
        let (px, vx, vy) = if kind == 1 {
            (if side == 0 { 0 } else { 600 }, vx_draw - 2, vy_draw - 2)
        } else if kind == 2 {
            (x, vx_draw - 2, vy_draw + 3)
        } else {
            (x, vx_draw + 3, 0)
        };
        sprite.set_position(px, y);
        sprite.set_velocity(vx, vy);
        assert(sprite == alien_sprite(
            kind as int,
            id,
            start,
            px as int,
            y as int,
            vx as int,
            vy as int,
        ));
        self.engine.add_sprite(sprite);
    }

    /// Adds a random alien: see `alien_choice`.
    pub fn add_alien(&mut self)
        requires
            old(self).engine@.count < u32::MAX,
        ensures
            final(self).state@ == old(self).state@,
            exists|kind: int, start: Point, x: int, y: int, vx: int, vy: int|
                alien_choice(kind, start, x, y, vx, vy) && final(self).engine@ == #[trigger] with_alien(
                    old(self).engine@,
                    kind,
                    start,
                    x,
                    y,
                    vx,
                    vy,
                ),
    {
        let kind = rand_int(0, 3);
        let start = Point { x: rand_int(0, CLIENT_WIDTH), y: rand_int(0, 410) };
        let (side, x, y, vx_draw, vy_draw) = if kind == 1 {
            let side = rand_int(0, 2);
            let y = rand_int(0, 370);
            (side, 0, y, rand_int(0, 7), rand_int(0, 7))
        } else if kind == 2 {
            let x = rand_int(0, CLIENT_WIDTH);
            let y = rand_int(0, 370);
            (0, x, y, rand_int(0, 5), rand_int(0, 5))
        } else {
            let x = rand_int(0, CLIENT_WIDTH);
            let y = rand_int(0, 370);
            (0, x, y, rand_int(0, 7), 0)
        };
        self.add_drawn_alien(kind, start, side, x, y, vx_draw, vy_draw);
        assert(alien_choice(
            kind as int,
            start,
            alien_x(kind as int, side as int, x as int),
            y as int,
            alien_vx(kind as int, vx_draw as int),
            alien_vy(kind as int, vy_draw as int),
        ));
    }
}

impl SpaceOut {
    /// Starts a new game: see `fresh_game`.
    pub fn new_game(&mut self)
        requires
            new_game_ok(old(self).state@, old(self).engine@),
        ensures
            fresh_game(old(self).state@, old(self).engine@, final(self).state@, final(self).engine@),
    {
        self.engine.clean_up_sprites();
        self.state.fire_input_delay = 0;
        self.state.score = 0;
        self.state.num_lives = 3;
        self.state.difficulty = 80;
        self.state.game_over = false;
        let ghost e0 = old(self).engine@;
        if self.state.demo {
            let mut i: usize = 0;
            while i < 6
                invariant
                    0 <= i <= 6,
                    e0 == old(self).engine@,
                    e0.count + 6 <= u32::MAX,
                    self.engine@.sprites.len() == i,
                    self.engine@.count == e0.count + i,
                    all_flat(self.engine@.sprites),
                    forall|j: int|
                        0 <= j < i ==> is_new_alien(
                            #[trigger] self.engine@.sprites[j],
                            (e0.count + j + 1) as u32,
                        ),
                    self.state@ == (StateView {
                        fire_input_delay: 0,
                        score: 0,
                        num_lives: 3,
                        difficulty: 80,
                        game_over: false,
                        ..old(self).state@
                    }),
                decreases 6 - i,
            {
                let ghost before = self.engine@;
                proof {
                    lemma_flat_insert_at_end(before.sprites);
                }
                self.add_alien();
                proof {
                    let (k, st, x, y, vx, vy) = choose|
                        k: int,
                        st: Point,
                        x: int,
                        y: int,
                        vx: int,
                        vy: int,
                    |
                        alien_choice(k, st, x, y, vx, vy) && self.engine@ == #[trigger] with_alien(
                            before,
                            k,
                            st,
                            x,
                            y,
                            vx,
                            vy,
                        );
                    let a = alien_sprite(k, (before.count + 1) as u32, st, x, y, vx, vy);
                    assert(self.engine@.sprites == before.sprites.push(a));
                    assert(self.engine@.sprites[i as int] == a);
                    assert(is_new_alien(a, (e0.count + i + 1) as u32));
                    assert forall|j: int| 0 <= j < i + 1 implies is_new_alien(
                        #[trigger] self.engine@.sprites[j],
                        (e0.count + j + 1) as u32,
                    ) by {
                        if j < i {
                            assert(self.engine@.sprites[j] == before.sprites[j]);
                        }
                    }
                }
                i = i + 1;
            }
        } else {
            let id = self.engine.next_sprite_id();
            let mut car = Sprite::with_bounds_action(
                id,
                BitmapRes::new(RES_CAR_BITMAP, 37, 18),
                Rect::new(0, 0, CLIENT_WIDTH, CLIENT_HEIGHT),
                BA_WRAP,
            );
            let ghost start = Point { x: car.position.left, y: car.position.top };
            self.state.car_sprite_id = car.id;
            car.set_position(300, 405);
            assert(car == car_sprite(id, start));
            self.engine.add_sprite(car);
            self.state.audio.push(Audio::PlayMusic);
            assert(self.engine@.sprites[0] == car_sprite((e0.count + 1) as u32, start));
        }
    }

    /// One turn of the game loop. While the game runs, a new alien comes now
    /// and then (outside the demo, with a chance of one in `difficulty / 2 + 1`)
    /// and the sprites are updated, with `SpaceOutState`'s reactions. Once the
    /// game is over, a countdown runs; at its end the music pauses and the
    /// demo starts again.
    pub fn game_cycle(&mut self)
        requires
            !old(self).state.game_over ==> {
                &&& 0 <= old(self).state.difficulty
                &&& update_sprites_ok::<SpaceOutState>(old(self).state@, old(self).engine@)
                &&& !old(self).state.demo ==> old(self).engine@.count < u32::MAX && forall|
                    kind: int,
                    start: Point,
                    x: int,
                    y: int,
                    vx: int,
                    vy: int,
                |
                    alien_choice(kind, start, x, y, vx, vy) ==> update_sprites_ok::<SpaceOutState>(
                        old(self).state@,
                        #[trigger] with_alien(old(self).engine@, kind, start, x, y, vx, vy),
                    )
            },
            old(self).state.game_over ==> {
                &&& old(self).state.game_over_delay > i32::MIN
                &&& old(self).state.game_over_delay == 1 ==> old(self).engine@.count + 6
                    <= u32::MAX
            },
        ensures
            !old(self).state.game_over ==> exists|e1: EngineView|
                {
                    &&& (e1 == old(self).engine@ || (!old(self).state.demo && exists|
                        kind: int,
                        start: Point,
                        x: int,
                        y: int,
                        vx: int,
                        vy: int,
                    |
                        alien_choice(kind, start, x, y, vx, vy) && e1 == #[trigger] with_alien(
                            old(self).engine@,
                            kind,
                            start,
                            x,
                            y,
                            vx,
                            vy,
                        )))
                    &&& (final(self).state@, final(self).engine@)
                        == update_sprites_result::<SpaceOutState>(old(self).state@, e1)
                },
            old(self).state.game_over && old(self).state.game_over_delay != 1 ==> final(self).state@ == (StateView {
                game_over_delay: (old(self).state.game_over_delay - 1) as i32,
                ..old(self).state@
            }) && final(self).engine@ == old(self).engine@,
            old(self).state.game_over && old(self).state.game_over_delay == 1 ==> fresh_game(
                StateView {
                    game_over_delay: 0,
                    demo: true,
                    audio: old(self).state@.audio.push(Audio::PauseMusic),
                    ..old(self).state@
                },
                old(self).engine@,
                final(self).state@,
                final(self).engine@,
            ),
    {
        let alien_draw = if !self.state.game_over && !self.state.demo {
            rand_int(0, self.state.difficulty / 2)
        } else {
            1
        };
        self.game_cycle_with(alien_draw);
    }

    /// One turn of the game loop, given the draw that decides whether an alien
    /// comes: while the game runs, a new alien comes exactly when the game is
    /// not the demo and the draw is 0, and then the sprites are updated, with
    /// `SpaceOutState`'s reactions. Once the game is over, a countdown runs; at
    /// its end the music pauses and the demo starts again.
    pub fn game_cycle_with(&mut self, alien_draw: i32)
        requires
            !old(self).state.game_over ==> {
                &&& 0 <= old(self).state.difficulty
                &&& update_sprites_ok::<SpaceOutState>(old(self).state@, old(self).engine@)
                &&& !old(self).state.demo ==> old(self).engine@.count < u32::MAX && forall|
                    kind: int,
                    start: Point,
                    x: int,
                    y: int,
                    vx: int,
                    vy: int,
                |
                    alien_choice(kind, start, x, y, vx, vy) ==> update_sprites_ok::<SpaceOutState>(
                        old(self).state@,
                        #[trigger] with_alien(old(self).engine@, kind, start, x, y, vx, vy),
                    )
            },
            old(self).state.game_over ==> {
                &&& old(self).state.game_over_delay > i32::MIN
                &&& old(self).state.game_over_delay == 1 ==> old(self).engine@.count + 6
                    <= u32::MAX
            },
        ensures
            !old(self).state.game_over ==> exists|e1: EngineView|
                {
                    &&& (!old(self).state.demo && alien_draw == 0) ==> exists|
                        kind: int,
                        start: Point,
                        x: int,
                        y: int,
                        vx: int,
                        vy: int,
                    |
                        alien_choice(kind, start, x, y, vx, vy) && e1 == #[trigger] with_alien(
                            old(self).engine@,
                            kind,
                            start,
                            x,
                            y,
                            vx,
                            vy,
                        )
                    &&& !(!old(self).state.demo && alien_draw == 0) ==> e1 == old(self).engine@
                    &&& (final(self).state@, final(self).engine@)
                        == update_sprites_result::<SpaceOutState>(old(self).state@, e1)
                },
            old(self).state.game_over && old(self).state.game_over_delay != 1 ==> final(self).state@ == (StateView {
                game_over_delay: (old(self).state.game_over_delay - 1) as i32,
                ..old(self).state@
            }) && final(self).engine@ == old(self).engine@,
            old(self).state.game_over && old(self).state.game_over_delay == 1 ==> fresh_game(
                StateView {
                    game_over_delay: 0,
                    demo: true,
                    audio: old(self).state@.audio.push(Audio::PauseMusic),
                    ..old(self).state@
                },
                old(self).engine@,
                final(self).state@,
                final(self).engine@,
            ),
    {
        if !self.state.game_over {
            if !self.state.demo {
                if alien_draw == 0 {
                    self.add_alien();
                }
            }
            self.engine.update_sprites(&mut self.state);
        } else {
            self.state.game_over_delay = self.state.game_over_delay - 1;
            if self.state.game_over_delay == 0 {
                self.state.audio.push(Audio::PauseMusic);
                self.state.demo = true;
                self.new_game();
            }
        }
    }

    /// A click or touch at `(x, y)`. A click starts a new game when none is
    /// running; during a game it fires a missile from the car. A move steers
    /// the car to `x`, outside the demo.
    pub fn on_touch_event(&mut self, event: i32, x: i32, y: i32)
        requires
            event == EVENT_MOUSE_CLICK && (old(self).state.demo || old(self).state.game_over)
                ==> old(self).engine@.count < u32::MAX,
            event == EVENT_MOUSE_CLICK && !(old(self).state.demo || old(self).state.game_over)
                ==> {
                let e = old(self).engine@;
                &&& e.count < u32::MAX
                &&& (find_id(e.sprites, old(self).state.car_sprite_id, 0) matches Some(c) && forall|
                    start: Point,
                |
                    start_in(start, space_field()) ==> move_fits(
                        #[trigger] spec_new_sprite(
                            0,
                            missile_bitmap(),
                            start,
                            zero_point(),
                            0,
                            space_field(),
                            BA_DIE,
                        ),
                        e.sprites[c].position.left + 15,
                        400,
                    ))
            },
            (event == EVENT_MOUSE_MOVE || event == EVENT_TOUCH_MOVE) && !old(self).state.demo
                ==> (find_id(old(self).engine@.sprites, old(self).state.car_sprite_id, 0) matches Some(
                c,
            ) && move_fits(
                old(self).engine@.sprites[c],
                x as int,
                old(self).engine@.sprites[c].position.top as int,
            )),
        ensures
            event == EVENT_MOUSE_CLICK && (old(self).state.demo || old(self).state.game_over)
                ==> fresh_game(
                StateView { demo: false, ..old(self).state@ },
                old(self).engine@,
                final(self).state@,
                final(self).engine@,
            ),
            event == EVENT_MOUSE_CLICK && !(old(self).state.demo || old(self).state.game_over)
                ==> {
                let e = old(self).engine@;
                let c = car_index(e, old(self).state.car_sprite_id);
                &&& final(self).state@ == (StateView {
                    audio: old(self).state@.audio.push(Audio::Sound(RES_MISSILE_SOUND)),
                    ..old(self).state@
                })
                &&& exists|start: Point|
                    start_in(start, space_field()) && final(self).engine@ == (EngineView {
                        sprites: e.sprites.insert(
                            insert_index(e.sprites, 0, 0),
                            #[trigger] car_missile(
                                (e.count + 1) as u32,
                                start,
                                e.sprites[c].position.left as int,
                            ),
                        ),
                        count: (e.count + 1) as u32,
                    })
            },
            (event == EVENT_MOUSE_MOVE || event == EVENT_TOUCH_MOVE) ==> final(self).state@ == old(self).state@,
            (event == EVENT_MOUSE_MOVE || event == EVENT_TOUCH_MOVE) && old(self).state.demo
                ==> final(self).engine@ == old(self).engine@,
            (event == EVENT_MOUSE_MOVE || event == EVENT_TOUCH_MOVE) && !old(self).state.demo
                ==> {
                let e = old(self).engine@;
                let c = car_index(e, old(self).state.car_sprite_id);
                final(self).engine@ == with_sprite(
                    e,
                    c,
                    moved_to(e.sprites[c], x as int, e.sprites[c].position.top as int),
                )
            },
            event != EVENT_MOUSE_CLICK && event != EVENT_MOUSE_MOVE && event != EVENT_TOUCH_MOVE
                ==> final(self).state@ == old(self).state@ && final(self).engine@ == old(self).engine@,
    {
        proof {
            lemma_find_id_bounds(self.engine@.sprites, self.state.car_sprite_id, 0);
        }
        if event == EVENT_MOUSE_CLICK {
            if self.state.demo || self.state.game_over {
                self.state.demo = false;
                self.new_game();
                return ;
            }
            let car_left = match self.engine.query_sprite_idx(self.state.car_sprite_id) {
                Some(c) => self.engine.sprites()[c].position.left,
                None => 0,
            };
            let id = self.engine.next_sprite_id();
            let mut sprite = Sprite::with_bounds_action(
                id,
                BitmapRes::new(RES_MISSILE_BITMAP, 5, 16),
                Rect::new(0, 0, CLIENT_WIDTH, CLIENT_HEIGHT),
                BA_DIE,
            );
            let ghost start = Point { x: sprite.position.left, y: sprite.position.top };
            assert(spec_new_sprite(0, missile_bitmap(), start, zero_point(), 0, space_field(), BA_DIE).position
                == sprite.position);
            sprite.set_position(car_left + 15, 400);
            sprite.set_velocity(0, -7);
            assert(sprite == car_missile(id, start, car_left as int));
            let ghost e = old(self).engine@;
            assert(car_left == e.sprites[car_index(e, old(self).state.car_sprite_id)].position.left);
            self.engine.add_sprite(sprite);
            self.state.audio.push(Audio::Sound(RES_MISSILE_SOUND));
            assert(start_in(start, space_field()));
            assert(self.engine@ == (EngineView {
                sprites: e.sprites.insert(
                    insert_index(e.sprites, 0, 0),
                    car_missile((e.count + 1) as u32, start, car_left as int),
                ),
                count: (e.count + 1) as u32,
            }));
        } else if event == EVENT_TOUCH_MOVE || event == EVENT_MOUSE_MOVE {
            if self.state.demo {
                return ;
            }
            match self.engine.query_sprite(self.state.car_sprite_id) {
                Some(car) => {
                    let top = car.position.top;
                    car.set_position(x, top);
                },
                None => {},
            }
        }
    }
}

} // verus!
