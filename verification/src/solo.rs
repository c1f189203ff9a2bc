use crate::bitmap::BitmapRes;
use crate::engine::{
    find_id, insert_index, lemma_find_id_bounds, lemma_insert_index_bounds, update_sprites_ok, update_sprites_result,
    with_sprite, EngineView, GameEngine, UpdateCallback,
};
use crate::game::{
    explosion_sprite, facing, fired, launch, launch_arith_fits, lg_explosion_bitmap, missile_sprite,
    sm_explosion_bitmap, tank_sprite, CLIENT_HEIGHT, CLIENT_WIDTH, MISSILE_VELOCITY,
    RES_LG_EXPLOSION_BITMAP, RES_MISSILE_BITMAP, RES_SM_EXPLOSION__BITMAP, RES_TANK_BITMAP,
    TANK_VELOCITY,
};
use crate::geometry::{Point, Rect};
use crate::sprite::{move_fits, moved_to, Sprite, BA_DIE, BA_WRAP};
use vstd::prelude::*;

verus! {

pub const KEYCODE_LEFT: i32 = 37;
pub const KEYCODE_RIGHT: i32 = 39;
pub const KEYCODE_UP: i32 = 38;
pub const KEYCODE_DOWN: i32 = 40;
pub const KEYCODE_SPACE: i32 = 32;

// ------------------------------------------------------------------
// The single-player game's reactions
// ------------------------------------------------------------------
/// An explosion placed with its top-left corner at `(x, y)`.
pub open spec fn explosion_at(id: u32, bitmap: BitmapRes, x: int, y: int) -> Sprite {
    moved_to(explosion_sprite(id, bitmap), x, y)
}

/// The engine after an explosion with the next id was added at `(x, y)`.
pub open spec fn with_explosion_at(e: EngineView, bitmap: BitmapRes, x: int, y: int) -> EngineView {
    EngineView {
        sprites: e.sprites.insert(
            insert_index(e.sprites, 0, 0),
            explosion_at((e.count + 1) as u32, bitmap, x, y),
        ),
        count: (e.count + 1) as u32,
    }
}

pub open spec fn explosion_at_fits(e: EngineView, bitmap: BitmapRes, x: int, y: int) -> bool {
    e.count < u32::MAX && move_fits(explosion_sprite(0, bitmap), x, y)
}

fn add_explosion_at(engine: &mut GameEngine, large: bool, x: i32, y: i32) -> (idx: usize)
    requires
        explosion_at_fits(
            old(engine)@,
            if large {
                lg_explosion_bitmap()
            } else {
                sm_explosion_bitmap()
            },
            x as int,
            y as int,
        ),
    ensures
        final(engine)@ == with_explosion_at(
            old(engine)@,
            if large {
                lg_explosion_bitmap()
            } else {
                sm_explosion_bitmap()
            },
            x as int,
            y as int,
        ),
{
    let id = engine.next_sprite_id();
    let bitmap = if large {
        BitmapRes::new(RES_LG_EXPLOSION_BITMAP, 33, 272)
    } else {
        BitmapRes::new(RES_SM_EXPLOSION__BITMAP, 17, 136)
    };
    let mut sprite = Sprite::from_bitmap(id, bitmap, Rect::new(0, 0, CLIENT_WIDTH, CLIENT_HEIGHT));
    sprite.set_num_frames(8, true);
    sprite.set_position(x, y);
    engine.add_sprite(sprite)
}

pub open spec fn missile_meets_tank(a: i32, b: i32) -> bool {
    (a == RES_MISSILE_BITMAP && b == RES_TANK_BITMAP) || (a == RES_TANK_BITMAP && b
        == RES_MISSILE_BITMAP)
}

pub open spec fn killed_at(e: EngineView, i: int) -> EngineView {
    with_sprite(e, i, Sprite { dying: true, ..e.sprites[i] })
}

/// In the single-player game, two colliding missiles both die; a missile and a
/// tank (whichever moved) both die and a large explosion is added where the
/// tank was; any other collision changes nothing. No collision asks the engine
/// to put the moved sprite back.
pub proof fn lemma_solo_collisions_kill_missiles(cb: u32, e: EngineView, hitter: int, hittee: int)
    requires
        0 <= hitter < e.sprites.len(),
        0 <= hittee < e.sprites.len(),
        hitter != hittee,
    ensures
        ({
            let a = e.sprites[hitter].bitmap.id;
            let b = e.sprites[hittee].bitmap.id;
            let r = <SoloRules as UpdateCallback>::collision_effect(cb, e, hitter, hittee);
            let n = e.sprites.len();
            let at = insert_index(e.sprites, 0, 0);
            let tank = if a == RES_TANK_BITMAP {
                hitter
            } else {
                hittee
            };
            let both_missiles = a == RES_MISSILE_BITMAP && b == RES_MISSILE_BITMAP;
            let missile_and_tank = (a == RES_MISSILE_BITMAP && b == RES_TANK_BITMAP) || (a
                == RES_TANK_BITMAP && b == RES_MISSILE_BITMAP);
            &&& r.0 == cb
            &&& !r.2
            &&& both_missiles ==> {
                &&& r.1.count == e.count
                &&& r.1.sprites.len() == n
                &&& r.1.sprites[hitter] == Sprite { dying: true, ..e.sprites[hitter] }
                &&& r.1.sprites[hittee] == Sprite { dying: true, ..e.sprites[hittee] }
                &&& forall|k: int|
                    0 <= k < n && k != hitter && k != hittee ==> r.1.sprites[k] == e.sprites[k]
            }
            &&& missile_and_tank ==> {
                &&& 0 <= at <= n
                &&& r.1.count == (e.count + 1) as u32
                &&& r.1.sprites.len() == n + 1
                &&& r.1.sprites[at] == explosion_at(
                    (e.count + 1) as u32,
                    lg_explosion_bitmap(),
                    e.sprites[tank].position.left as int,
                    e.sprites[tank].position.top as int,
                )
                &&& forall|k: int|
                    0 <= k < n ==> r.1.sprites[if k < at {
                        k
                    } else {
                        k + 1
                    }] == if k == hitter || k == hittee {
                        Sprite { dying: true, ..e.sprites[k] }
                    } else {
                        e.sprites[k]
                    }
            }
            &&& !both_missiles && !missile_and_tank ==> r.1 == e
        }),
{
    let k = killed_at(killed_at(e, hittee), hitter);
    lemma_insert_index_bounds(e.sprites, 0, 0);
    lemma_insert_index_bounds(k.sprites, 0, 0);
    assert(forall|j: int| 0 <= j < e.sprites.len() ==> #[trigger] k.sprites[j].z_order == e.sprites[j].z_order);
}

/// The single-player game's reactions. Its view is the id of the player's
/// tank, 0 once it is destroyed.
pub struct SoloRules {
    pub current_player_id: u32,
}

impl View for SoloRules {
    type V = u32;

    open spec fn view(&self) -> u32 {
        self.current_player_id
    }
}

impl UpdateCallback for SoloRules {
    open spec fn dying_ok(cb: u32, e: EngineView, idx: int) -> bool {
        let s = e.sprites[idx];
        s.bitmap.id == RES_MISSILE_BITMAP ==> explosion_at_fits(
            e,
            sm_explosion_bitmap(),
            s.position.left as int,
            s.position.top as int,
        )
    }

    /// The player's tank dying leaves the game without a player; a missile
    /// dying leaves a small explosion where it was.
    open spec fn dying_effect(cb: u32, e: EngineView, idx: int) -> (u32, EngineView) {
        let s = e.sprites[idx];
        if s.bitmap.id == RES_TANK_BITMAP {
            (
                if s.id == cb {
                    0
                } else {
                    cb
                },
                e,
            )
        } else if s.bitmap.id == RES_MISSILE_BITMAP {
            (
                cb,
                with_explosion_at(
                    e,
                    sm_explosion_bitmap(),
                    s.position.left as int,
                    s.position.top as int,
                ),
            )
        } else {
            (cb, e)
        }
    }

    open spec fn collision_ok(cb: u32, e: EngineView, hitter: int, hittee: int) -> bool {
        let a = e.sprites[hitter].bitmap.id;
        let b = e.sprites[hittee].bitmap.id;
        let pos = if a == RES_TANK_BITMAP {
            e.sprites[hitter].position
        } else {
            e.sprites[hittee].position
        };
        missile_meets_tank(a, b) ==> explosion_at_fits(
            e,
            lg_explosion_bitmap(),
            pos.left as int,
            pos.top as int,
        )
    }

    /// A missile and a tank destroy each other and leave a large explosion
    /// where the tank was; two missiles destroy each other. The engine is
    /// never asked to put a sprite back.
    open spec fn collision_effect(cb: u32, e: EngineView, hitter: int, hittee: int) -> (
        u32,
        EngineView,
        bool,
    ) {
        let a = e.sprites[hitter].bitmap.id;
        let b = e.sprites[hittee].bitmap.id;
        if missile_meets_tank(a, b) {
            let pos = if a == RES_TANK_BITMAP {
                e.sprites[hitter].position
            } else {
                e.sprites[hittee].position
            };
            (
                cb,
                with_explosion_at(
                    killed_at(killed_at(e, hittee), hitter),
                    lg_explosion_bitmap(),
                    pos.left as int,
                    pos.top as int,
                ),
                false,
            )
        } else if a == RES_MISSILE_BITMAP && b == RES_MISSILE_BITMAP {
            (cb, killed_at(killed_at(e, hittee), hitter), false)
        } else {
            (cb, e, false)
        }
    }

    fn on_sprite_dying(&mut self, engine: &mut GameEngine, idx_sprite_dying: usize) {
        let bitmap_id = engine.sprites[idx_sprite_dying].bitmap.id;
        if bitmap_id == RES_TANK_BITMAP {
            if engine.sprites[idx_sprite_dying].id == self.current_player_id {
                self.current_player_id = 0;
            }
        } else if bitmap_id == RES_MISSILE_BITMAP {
            let pos = engine.sprites[idx_sprite_dying].position;
            add_explosion_at(engine, false, pos.left, pos.top);
        }
    }

    fn on_sprite_collision(
        &mut self,
        engine: &mut GameEngine,
        idx_sprite_hitter: usize,
        idx_sprite_hittee: usize,
    ) -> (hit: bool) {
        let hitter = engine.sprites[idx_sprite_hitter].bitmap.id;
        let hittee = engine.sprites[idx_sprite_hittee].bitmap.id;
        if hitter == RES_MISSILE_BITMAP && hittee == RES_TANK_BITMAP || hitter == RES_TANK_BITMAP
            && hittee == RES_MISSILE_BITMAP {
            let pos = if hitter == RES_TANK_BITMAP {
                engine.sprites[idx_sprite_hitter].position
            } else {
                engine.sprites[idx_sprite_hittee].position
            };
            engine.kill_sprite(idx_sprite_hittee);
            engine.kill_sprite(idx_sprite_hitter);
            add_explosion_at(engine, true, pos.left, pos.top);
        }
        if hitter == RES_MISSILE_BITMAP && hittee == RES_MISSILE_BITMAP {
            engine.kill_sprite(idx_sprite_hittee);
            engine.kill_sprite(idx_sprite_hitter);
        }
        false
    }
}

// ------------------------------------------------------------------
// The single-player game
// ------------------------------------------------------------------
/// A tank game played alone in the page: the player drives with the arrow
/// keys and fires with the space bar.
pub struct Game {
    pub engine: GameEngine,
    pub rules: SoloRules,
}

/// Where the player's tank is, when there is one.
pub open spec fn player_index(g_engine: EngineView, id: u32) -> Option<int> {
    if id == 0 {
        None
    } else {
        find_id(g_engine.sprites, id, 0)
    }
}

/// The engine after a missile fired by the tank at `t` was added: it starts
/// somewhere on the field and is then turned and launched as the tank faces.
pub open spec fn with_missile(e: EngineView, t: int, mx: i32, my: i32) -> EngineView {
    let tank = e.sprites[t];
    EngineView {
        sprites: e.sprites.insert(
            insert_index(e.sprites, 0, 0),
            fired(missile_sprite((e.count + 1) as u32, mx, my), tank.cur_frame, tank.position),
        ),
        count: (e.count + 1) as u32,
    }
}

/// True when the tank at `t` can fire: an id is left, and from wherever on the
/// field the missile starts, its launch stays within `i32` arithmetic.
pub open spec fn solo_fire_ok(e: EngineView, t: int) -> bool {
    let tank = e.sprites[t];
    &&& e.count < u32::MAX
    &&& launch_arith_fits(tank.cur_frame, tank.position)
    &&& forall|mx: i32, my: i32|
        0 <= mx <= CLIENT_WIDTH && 0 <= my <= CLIENT_HEIGHT ==> (launch(
            tank.cur_frame,
            tank.position,
        ) matches Some(l) ==> move_fits(#[trigger] missile_sprite((e.count + 1) as u32, mx, my), l.1, l.2))
}

pub open spec fn is_arrow_code(k: i32) -> bool {
    k == KEYCODE_LEFT || k == KEYCODE_RIGHT || k == KEYCODE_UP || k == KEYCODE_DOWN
}

/// The frame and velocity a pressed arrow gives the tank.
pub open spec fn arrow_drive(k: i32) -> (i32, Point) {
    if k == KEYCODE_LEFT {
        (2i32, Point { x: -6i32, y: 0 })
    } else if k == KEYCODE_RIGHT {
        (3i32, Point { x: TANK_VELOCITY, y: 0 })
    } else if k == KEYCODE_UP {
        (0i32, Point { x: 0, y: -6i32 })
    } else {
        (1i32, Point { x: 0, y: TANK_VELOCITY })
    }
}

/// The unit vector an arrow key code points along (screen coordinates, y
/// grows downwards).
pub open spec fn keycode_direction(k: i32) -> (int, int) {
    if k == KEYCODE_LEFT {
        (-1, 0)
    } else if k == KEYCODE_RIGHT {
        (1, 0)
    } else if k == KEYCODE_UP {
        (0, -1)
    } else {
        (0, 1)
    }
}

/// A pressed arrow drives the tank the way the arrow points, at the tank
/// speed, and turns it to the frame that faces that way.
pub proof fn lemma_solo_arrows_drive_the_way_they_point(k: i32)
    requires
        is_arrow_code(k),
    ensures
        arrow_drive(k).1.x == TANK_VELOCITY * keycode_direction(k).0,
        arrow_drive(k).1.y == TANK_VELOCITY * keycode_direction(k).1,
        0 <= arrow_drive(k).0 <= 3,
        facing(arrow_drive(k).0 as int) == keycode_direction(k),
{
}

fn is_arrow(k: i32) -> (b: bool)
    ensures
        b == is_arrow_code(k),
{
    k == KEYCODE_LEFT || k == KEYCODE_RIGHT || k == KEYCODE_UP || k == KEYCODE_DOWN
}

fn drive_for(k: i32) -> (r: (i32, Point))
    ensures
        r == arrow_drive(k),
{
    if k == KEYCODE_LEFT {
        (2, Point { x: -TANK_VELOCITY, y: 0 })
    } else if k == KEYCODE_RIGHT {
        (3, Point { x: TANK_VELOCITY, y: 0 })
    } else if k == KEYCODE_UP {
        (0, Point { x: 0, y: -TANK_VELOCITY })
    } else {
        (1, Point { x: 0, y: TANK_VELOCITY })
    }
}

impl Game {
    pub fn new() -> (g: Game)
        ensures
            g.engine@.sprites.len() == 0,
            g.engine@.count == 0,
            g.rules.current_player_id == 0,
    {
        Game { engine: GameEngine::new(), rules: SoloRules { current_player_id: 0 } }
    }

    /// The player's tank comes into the game at a random point of the field.
    pub fn join_game(&mut self)
        requires
            old(self).engine@.count < u32::MAX,
        ensures
            final(self).rules.current_player_id == old(self).engine@.count + 1,
            exists|x: i32, y: i32|
                0 <= x <= CLIENT_WIDTH && 0 <= y <= CLIENT_HEIGHT && final(self).engine@ == (
                EngineView {
                    sprites: old(self).engine@.sprites.insert(
                        insert_index(old(self).engine@.sprites, 0, 0),
                        #[trigger] tank_sprite((old(self).engine@.count + 1) as u32, x, y),
                    ),
                    count: (old(self).engine@.count + 1) as u32,
                }),
    {
        let id = self.engine.next_sprite_id();
        let mut tank = Sprite::with_bounds_action(
            id,
            BitmapRes::new(RES_TANK_BITMAP, 36, 144),
            Rect::new(0, 0, CLIENT_WIDTH, CLIENT_HEIGHT),
            BA_WRAP,
        );
        self.rules.current_player_id = tank.id;
        tank.set_num_frames(4, false);
        tank.set_frame_delay(-1);
        let ghost (x, y) = (tank.position.left, tank.position.top);
        assert(tank == tank_sprite(id, x, y));
        self.engine.add_sprite(tank);
        assert(0 <= x <= CLIENT_WIDTH && 0 <= y <= CLIENT_HEIGHT);
        assert(self.engine@ == (EngineView {
            sprites: old(self).engine@.sprites.insert(
                insert_index(old(self).engine@.sprites, 0, 0),
                tank_sprite((old(self).engine@.count + 1) as u32, x, y),
            ),
            count: (old(self).engine@.count + 1) as u32,
        }));
    }

    /// A key was released: the space bar fires a missile the way the tank
    /// faces, an arrow stops the tank. Nothing happens without a player.
    pub fn on_keyup_event(&mut self, keycode: i32)
        requires
            player_index(old(self).engine@, old(self).rules.current_player_id) matches Some(t)
                ==> (keycode == KEYCODE_SPACE ==> solo_fire_ok(old(self).engine@, t)),
        ensures
            final(self).rules == old(self).rules,
            match player_index(old(self).engine@, old(self).rules.current_player_id) {
                None => final(self).engine@ == old(self).engine@,
                Some(t) => if keycode == KEYCODE_SPACE {
                    exists|mx: i32, my: i32|
                        0 <= mx <= CLIENT_WIDTH && 0 <= my <= CLIENT_HEIGHT && final(self).engine@
                            == #[trigger] with_missile(old(self).engine@, t, mx, my)
                } else if is_arrow_code(keycode) {
                    final(self).engine@ == with_sprite(
                        old(self).engine@,
                        t,
                        Sprite { velocity: Point { x: 0, y: 0 }, ..old(self).engine@.sprites[t] },
                    )
                } else {
                    final(self).engine@ == old(self).engine@
                },
            },
    {
        if self.rules.current_player_id == 0 {
            return ;
        }
        proof {
            lemma_find_id_bounds(self.engine@.sprites, self.rules.current_player_id, 0);
        }
        let t = match self.engine.query_sprite_idx(self.rules.current_player_id) {
            Some(t) => t,
            None => {
                return ;
            },
        };
        if keycode == KEYCODE_SPACE {
            let tank_position = self.engine.sprites()[t].position;
            let direction = self.engine.sprites()[t].current_frame();
            let id = self.engine.next_sprite_id();
            let mut sprite = Sprite::with_bounds_action(
                id,
                BitmapRes::new(RES_MISSILE_BITMAP, 17, 68),
                Rect::new(0, 0, CLIENT_WIDTH, CLIENT_HEIGHT),
                BA_DIE,
            );
            sprite.set_num_frames(4, false);
            sprite.set_frame_delay(-1);
            let ghost (mx, my) = (sprite.position.left, sprite.position.top);
            assert(sprite == missile_sprite(id, mx, my));
            let ghost m0 = sprite;
            sprite.set_current_frame(direction);
            if direction == 0 {
                sprite.set_velocity(0, -MISSILE_VELOCITY);
                sprite.set_position(
                    tank_position.left + (tank_position.right - tank_position.left) / 2 - 8,
                    tank_position.top - 17,
                );
            } else if direction == 1 {
                sprite.set_velocity(0, MISSILE_VELOCITY);
                sprite.set_position(
                    tank_position.left + (tank_position.right - tank_position.left) / 2 - 8,
                    tank_position.bottom,
                );
            } else if direction == 2 {
                sprite.set_velocity(-MISSILE_VELOCITY, 0);
                sprite.set_position(
                    tank_position.left - 17,
                    tank_position.top - (tank_position.top - tank_position.bottom) / 2 - 8,
                );
            } else if direction == 3 {
                sprite.set_velocity(MISSILE_VELOCITY, 0);
                sprite.set_position(
                    tank_position.right,
                    tank_position.top - (tank_position.top - tank_position.bottom) / 2 - 8,
                );
            }
            assert(sprite == fired(m0, direction, tank_position));
            self.engine.add_sprite(sprite);
            assert(self.engine@ == with_missile(old(self).engine@, t as int, mx, my));
        } else if keycode == KEYCODE_LEFT || keycode == KEYCODE_RIGHT || keycode == KEYCODE_UP
            || keycode == KEYCODE_DOWN {
            self.engine.sprites[t].set_velocity(0, 0);
        }
    }

    /// A key was pressed: an arrow turns the tank and drives it that way.
    /// Nothing happens without a player.
    pub fn on_keydown_event(&mut self, keycode: i32)
        ensures
            final(self).rules == old(self).rules,
            match player_index(old(self).engine@, old(self).rules.current_player_id) {
                Some(t) => if is_arrow_code(keycode) {
                    final(self).engine@ == with_sprite(
                        old(self).engine@,
                        t,
                        Sprite {
                            cur_frame: arrow_drive(keycode).0,
                            velocity: arrow_drive(keycode).1,
                            ..old(self).engine@.sprites[t]
                        },
                    )
                } else {
                    final(self).engine@ == old(self).engine@
                },
                None => final(self).engine@ == old(self).engine@,
            },
    {
        if self.rules.current_player_id == 0 {
            return ;
        }
        proof {
            lemma_find_id_bounds(self.engine@.sprites, self.rules.current_player_id, 0);
        }
        let t = match self.engine.query_sprite_idx(self.rules.current_player_id) {
            Some(t) => t,
            None => {
                return ;
            },
        };
        if is_arrow(keycode) {
            let (frame, velocity) = drive_for(keycode);
            let tank = &mut self.engine.sprites[t];
            tank.set_current_frame(frame);
            tank.set_velocity(velocity.x, velocity.y);
        }
    }

    /// One frame: every sprite is updated, with the single-player reactions.
    pub fn update_sprites(&mut self)
        requires
            update_sprites_ok::<SoloRules>(old(self).rules@, old(self).engine@),
        ensures
            (final(self).rules@, final(self).engine@) == update_sprites_result::<SoloRules>(
                old(self).rules@,
                old(self).engine@,
            ),
    {
        self.engine.update_sprites(&mut self.rules);
    }
}

} // verus!
