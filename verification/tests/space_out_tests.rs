use tank::bitmap::BitmapRes;
use tank::engine::UpdateCallback;
use tank::geometry::{Point, Rect};
use tank::space_out::{
    Audio, SpaceOut, EVENT_MOUSE_CLICK, EVENT_MOUSE_MOVE, RES_BLOBBO_BITMAP, RES_BMISSILE_BITMAP,
    RES_CAR_BITMAP, RES_GAMEOVER_SOUND, RES_JELLY_BITMAP, RES_LG_EXPLODE_SOUND,
    RES_LG_EXPLOSION_BITMAP, RES_MISSILE_BITMAP, RES_MISSILE_SOUND, RES_SM_EXPLODE_SOUND,
    RES_SM_EXPLOSION_BITMAP, RES_TIMMY_BITMAP,
};
use tank::sprite::{Sprite, BA_STOP};

fn started() -> SpaceOut {
    let mut g = SpaceOut::new();
    g.on_touch_event(EVENT_MOUSE_CLICK, 0, 0);
    g
}

#[test]
fn a_click_in_the_demo_starts_a_game() {
    let mut g = SpaceOut::new();
    assert!(g.state.demo);
    assert_eq!(g.difficulty(), 80);
    g.on_touch_event(EVENT_MOUSE_CLICK, 0, 0);
    assert!(!g.state.demo);
    assert_eq!((g.state.score, g.state.num_lives), (0, 3));
    assert_eq!(g.state.audio, vec![Audio::PlayMusic]);
    let car = &g.engine.sprites()[0];
    assert_eq!(car.id, g.state.car_sprite_id);
    assert_eq!((car.bitmap.id, car.position.left, car.position.top), (RES_CAR_BITMAP, 300, 405));
}

#[test]
fn the_car_follows_the_pointer_and_fires() {
    let mut g = started();
    g.on_touch_event(EVENT_MOUSE_MOVE, 100, 7);
    let car = &g.engine.sprites()[0];
    assert_eq!((car.position.left, car.position.top), (100, 405));
    g.on_touch_event(EVENT_MOUSE_CLICK, 0, 0);
    let missile = g.engine.sprites().iter().find(|s| s.bitmap.id == RES_MISSILE_BITMAP).unwrap();
    assert_eq!((missile.position.left, missile.position.top), (115, 400));
    assert_eq!((missile.velocity.x, missile.velocity.y), (0, -7));
    assert_eq!(g.state.audio.last(), Some(&Audio::Sound(RES_MISSILE_SOUND)));
}

#[test]
fn the_demo_shows_six_aliens() {
    let mut g = SpaceOut::new();
    g.new_game();
    assert_eq!(g.engine.sprites().len(), 6);
    for s in g.engine.sprites() {
        assert!([RES_BLOBBO_BITMAP, RES_JELLY_BITMAP, RES_TIMMY_BITMAP].contains(&s.bitmap.id));
        assert_eq!(s.num_frames, 8);
        assert!(0 <= s.position.top && s.position.top <= 370);
    }
}

fn plain(id: u32, res: i32, x: i32, y: i32) -> Sprite {
    Sprite::new(id, BitmapRes::new(res, 20, 20), Point { x, y }, Point { x: 0, y: 0 }, 0, Rect::new(0, 0, 600, 450), BA_STOP)
}

#[test]
fn shooting_an_alien_scores_and_explodes() {
    let mut g = started();
    let a = g.engine.add_sprite(plain(50, RES_MISSILE_BITMAP, 10, 10));
    let b = g.engine.add_sprite(plain(51, RES_BLOBBO_BITMAP, 200, 100));
    let restore = g.state.on_sprite_collision(&mut g.engine, a, b);
    assert!(!restore);
    assert!(g.engine.sprites()[a].dying && g.engine.sprites()[b].dying);
    assert_eq!(g.state.score, 25);
    assert_eq!(g.difficulty(), 79);
    let boom = g.engine.sprites().iter().find(|s| s.bitmap.id == RES_LG_EXPLOSION_BITMAP).unwrap();
    assert_eq!((boom.position.left, boom.position.top), (200, 100));
    assert_eq!(g.state.audio.last(), Some(&Audio::Sound(RES_SM_EXPLODE_SOUND)));
}

#[test]
fn difficulty_stops_at_twenty() {
    let mut g = started();
    g.state.score = 5000;
    let a = g.engine.add_sprite(plain(50, RES_MISSILE_BITMAP, 10, 10));
    let b = g.engine.add_sprite(plain(51, RES_TIMMY_BITMAP, 200, 100));
    g.state.on_sprite_collision(&mut g.engine, b, a);
    assert_eq!(g.difficulty(), 20);
}

#[test]
fn the_third_hit_ends_the_game() {
    let mut g = started();
    for lives in [2, 1, 0] {
        let car = g.engine.query_sprite_idx(g.state.car_sprite_id).unwrap();
        let shot = g.engine.add_sprite(plain(60 + lives as u32, RES_BMISSILE_BITMAP, 300, 400));
        g.state.on_sprite_collision(&mut g.engine, shot, car);
        assert_eq!(g.state.num_lives, lives);
        let car = &g.engine.sprites()[g.engine.query_sprite_idx(g.state.car_sprite_id).unwrap()];
        assert_eq!((car.position.left, car.position.top), (300, 405));
    }
    assert!(g.state.game_over);
    assert_eq!(g.state.game_over_delay, 150);
    assert!(g.state.audio.contains(&Audio::Sound(RES_LG_EXPLODE_SOUND)));
    assert_eq!(g.state.audio.last(), Some(&Audio::Sound(RES_GAMEOVER_SOUND)));
}

#[test]
fn the_demo_returns_after_the_countdown() {
    let mut g = started();
    g.state.game_over = true;
    g.state.game_over_delay = 2;
    g.game_cycle();
    assert_eq!(g.state.game_over_delay, 1);
    assert!(!g.state.demo);
    g.game_cycle();
    assert!(g.state.demo);
    assert!(!g.state.game_over);
    assert!(g.state.audio.contains(&Audio::PauseMusic));
    assert_eq!(g.engine.sprites().len(), 6);
}

#[test]
fn a_dying_alien_missile_leaves_a_small_explosion() {
    let mut g = started();
    let m = g.engine.add_sprite(plain(70, RES_BMISSILE_BITMAP, 40, 50));
    g.state.on_sprite_dying(&mut g.engine, m);
    let boom = g.engine.sprites().iter().find(|s| s.bitmap.id == RES_SM_EXPLOSION_BITMAP).unwrap();
    assert_eq!((boom.position.left, boom.position.top), (40, 50));
    assert_eq!(g.state.audio.last(), Some(&Audio::Sound(RES_SM_EXPLODE_SOUND)));
}

#[test]
fn drawn_aliens_follow_their_draws() {
    let mut g = SpaceOut::new();
    g.add_drawn_alien(1, Point { x: 10, y: 20 }, 1, 0, 100, 7, 0);
    let s = &g.engine.sprites()[0];
    assert_eq!(s.bitmap.id, RES_BLOBBO_BITMAP);
    assert_eq!((s.position.left, s.position.top), (600, 100));
    assert_eq!((s.velocity.x, s.velocity.y), (5, -2));
    g.add_drawn_alien(3, Point { x: 10, y: 20 }, 0, 250, 30, 0, 4);
    let t = &g.engine.sprites()[1];
    assert_eq!(t.bitmap.id, RES_TIMMY_BITMAP);
    assert_eq!((t.position.left, t.position.top), (250, 30));
    assert_eq!((t.velocity.x, t.velocity.y), (3, 0));
    g.add_drawn_alien(2, Point { x: 10, y: 20 }, 0, 40, 50, 0, 5);
    let j = &g.engine.sprites()[2];
    assert_eq!(j.bitmap.id, RES_JELLY_BITMAP);
    assert_eq!((j.velocity.x, j.velocity.y), (-2, 8));
}

#[test]
fn an_alien_comes_exactly_on_a_draw_of_zero() {
    let mut g = started();
    let before = g.engine.sprites().len();
    g.game_cycle_with(1);
    assert_eq!(g.engine.sprites().len(), before);
    g.game_cycle_with(0);
    assert_eq!(g.engine.sprites().len(), before + 1);
}
