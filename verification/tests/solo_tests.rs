use tank::engine::UpdateCallback;
use tank::game::{RES_LG_EXPLOSION_BITMAP, RES_MISSILE_BITMAP, RES_SM_EXPLOSION__BITMAP, RES_TANK_BITMAP};
use tank::solo::{Game, KEYCODE_DOWN, KEYCODE_LEFT, KEYCODE_SPACE, KEYCODE_UP};

#[test]
fn without_a_player_keys_do_nothing() {
    let mut g = Game::new();
    g.on_keydown_event(KEYCODE_LEFT);
    g.on_keyup_event(KEYCODE_SPACE);
    assert!(g.engine.sprites().is_empty());
}

#[test]
fn arrows_drive_and_stop_the_tank() {
    let mut g = Game::new();
    g.join_game();
    assert_eq!(g.rules.current_player_id, 1);
    let tank = &g.engine.sprites()[0];
    assert_eq!((tank.bitmap.id, tank.num_frames, tank.frame_delay), (RES_TANK_BITMAP, 4, -1));
    g.on_keydown_event(KEYCODE_DOWN);
    let tank = &g.engine.sprites()[0];
    assert_eq!((tank.cur_frame, tank.velocity.x, tank.velocity.y), (1, 0, 6));
    g.on_keyup_event(KEYCODE_DOWN);
    let tank = &g.engine.sprites()[0];
    assert_eq!((tank.velocity.x, tank.velocity.y), (0, 0));
}

#[test]
fn space_fires_the_way_the_tank_faces() {
    let mut g = Game::new();
    g.join_game();
    g.on_keydown_event(KEYCODE_UP);
    g.on_keyup_event(KEYCODE_UP);
    let tank = g.engine.sprites()[0].position;
    g.on_keyup_event(KEYCODE_SPACE);
    let missile = g.engine.sprites().iter().find(|s| s.bitmap.id == RES_MISSILE_BITMAP).unwrap();
    assert_eq!(missile.cur_frame, 0);
    assert_eq!((missile.velocity.x, missile.velocity.y), (0, -2));
    assert_eq!(missile.position.left, tank.left + (tank.right - tank.left) / 2 - 8);
    assert_eq!(missile.position.top, tank.top - 17);
}

#[test]
fn a_missile_destroys_a_tank_and_explodes() {
    let mut g = Game::new();
    g.join_game();
    g.on_keydown_event(KEYCODE_UP);
    g.on_keyup_event(KEYCODE_SPACE);
    let t = g.engine.query_sprite_idx(1).unwrap();
    let m = g.engine.query_sprite_idx(2).unwrap();
    let pos = g.engine.sprites()[t].position;
    assert!(!g.rules.on_sprite_collision(&mut g.engine, m, t));
    assert!(g.engine.sprites()[t].dying && g.engine.sprites()[m].dying);
    let boom = g.engine.sprites().iter().find(|s| s.bitmap.id == RES_LG_EXPLOSION_BITMAP).unwrap();
    assert_eq!((boom.position.left, boom.position.top), (pos.left, pos.top));
    g.rules.on_sprite_dying(&mut g.engine, t);
    assert_eq!(g.rules.current_player_id, 0);
    g.rules.on_sprite_dying(&mut g.engine, m);
    assert!(g.engine.sprites().iter().any(|s| s.bitmap.id == RES_SM_EXPLOSION__BITMAP));
}
