use tank::game::{
    KeyEvent, MouseEvent, SpriteEvent, SpriteInfo, TankGame, CLIENT_HEIGHT, CLIENT_WIDTH,
    RES_LG_EXPLOSION_BITMAP, RES_MISSILE_BITMAP, RES_SM_EXPLOSION__BITMAP, RES_TANK_BITMAP,
};
use tank::engine::GameEngine;

#[test]
fn event_numbers_round_trip() {
    for e in [KeyEvent::KeyDown, KeyEvent::KeyUp] {
        assert_eq!(KeyEvent::from_i64(e.to_i64()), e);
    }
    for e in [MouseEvent::MouseMove, MouseEvent::MouseClick] {
        assert_eq!(MouseEvent::from_i64(e.to_i64()), Some(e));
    }
    for e in [SpriteEvent::Add, SpriteEvent::Update, SpriteEvent::Delete] {
        assert_eq!(SpriteEvent::from_i64(e.to_i64()), Some(e));
    }
    assert_eq!(KeyEvent::from_i64(7), KeyEvent::KeyUp);
    assert_eq!(KeyEvent::from_i64(0), KeyEvent::KeyDown);
    assert_eq!(SpriteEvent::from_i64(3), None);
    assert_eq!(MouseEvent::from_i64(-1), None);
    assert_eq!(SpriteEvent::Delete.to_i64(), 2);
}

#[test]
fn add_sprite_builds_each_kind() {
    let mut engine = GameEngine::new();
    let t = TankGame::add_sprite(&mut engine, Some(7), RES_TANK_BITMAP);
    let s = &engine.sprites()[t];
    assert_eq!(s.id, 7);
    assert_eq!(s.num_frames, 4);
    assert_eq!(s.position.bottom - s.position.top, 36);
    assert!(0 <= s.position.left && s.position.left <= CLIENT_WIDTH);
    assert!(0 <= s.position.top && s.position.top <= CLIENT_HEIGHT);
    let m = TankGame::add_sprite(&mut engine, None, RES_MISSILE_BITMAP);
    assert_eq!(engine.sprites()[m].id, 1);
    let x = TankGame::add_sprite(&mut engine, None, RES_SM_EXPLOSION__BITMAP);
    assert_eq!(engine.sprites()[x].num_frames, 8);
    assert_eq!((engine.sprites()[x].position.left, engine.sprites()[x].position.top), (0, 0));
    let l = TankGame::add_sprite(&mut engine, None, RES_LG_EXPLOSION_BITMAP);
    assert_eq!(engine.sprites()[l].bitmap.width, 33);
    assert_eq!(engine.sprites().len(), 4);
    // an unknown resource adds nothing
    assert_eq!(TankGame::add_sprite(&mut engine, None, 42), 0);
    assert_eq!(engine.sprites().len(), 4);
}

#[test]
fn joining_and_leaving_records_events() {
    let mut game = TankGame::new();
    game.join_game(5, Some("ann"));
    assert_eq!(game.sprites().len(), 1);
    assert_eq!(game.events().len(), 1);
    assert_eq!(game.events()[0].0, SpriteEvent::Add);
    assert_eq!(game.events()[0].1.id, 5);
    assert_eq!(game.events()[0].1.res, RES_TANK_BITMAP);
    assert_eq!(game.players.get(&5).map(|p| p.name.clone()), Some("ann".to_string()));
    game.leave_game(5);
    assert!(game.players.get(&5).is_none());
    assert_eq!(game.events().len(), 2);
    assert_eq!(game.events()[1].0, SpriteEvent::Delete);
    assert!(game.sprites()[0].dying);
}

#[test]
fn server_events_create_update_and_delete() {
    let mut game = TankGame::new();
    let info = SpriteInfo { id: 9, res: RES_MISSILE_BITMAP, l: 10, t: 20, r: 27, b: 37, vx: 2, vy: 0, frame: 3 };
    game.handle_server_event(SpriteEvent::Add, info);
    let s = &game.sprites()[0];
    assert_eq!((s.id, s.position.left, s.position.top, s.velocity.x, s.cur_frame), (9, 10, 20, 2, 3));
    let moved = SpriteInfo { l: 30, r: 47, ..info };
    game.handle_server_event(SpriteEvent::Update, moved);
    assert_eq!(game.sprites()[0].position.left, 30);
    game.handle_server_event(SpriteEvent::Delete, moved);
    assert!(game.sprites()[0].dying);
    // an update of an unknown sprite changes nothing
    game.handle_server_event(SpriteEvent::Update, SpriteInfo { id: 1000, ..moved });
    assert_eq!(game.sprites().len(), 1);
}

#[test]
fn keys_steer_and_fire() {
    let mut game = TankGame::new();
    game.join_game(1, None);
    game.events().clear();
    // releasing an arrow drives the tank that way
    game.on_key_event(KeyEvent::KeyUp, "ArrowLeft", 1);
    let tank = game.sprites().iter().find(|s| s.id == 1).unwrap();
    assert_eq!((tank.velocity.x, tank.velocity.y, tank.cur_frame), (-6, 0, 2));
    assert_eq!(game.events().last().unwrap().0, SpriteEvent::Update);
    // pressing an arrow stops it
    game.on_key_event(KeyEvent::KeyDown, "ArrowLeft", 1);
    let tank = game.sprites().iter().find(|s| s.id == 1).unwrap();
    assert_eq!((tank.velocity.x, tank.velocity.y), (0, 0));
    // space fires a missile in the tank's direction
    game.on_key_event(KeyEvent::KeyDown, " ", 1);
    assert_eq!(game.sprites().len(), 2);
    let missile = game.sprites().iter().find(|s| s.bitmap.id == RES_MISSILE_BITMAP).unwrap();
    assert_eq!((missile.velocity.x, missile.velocity.y, missile.cur_frame), (-2, 0, 2));
    // a key for an unknown player does nothing
    let n = game.events().len();
    game.on_key_event(KeyEvent::KeyUp, "ArrowUp", 77);
    assert_eq!(game.events().len(), n);
}

#[test]
fn a_missile_hitting_a_tank_marks_both_dying() {
    let mut game = TankGame::new();
    let tank = SpriteInfo { id: 1, res: RES_TANK_BITMAP, l: 100, t: 100, r: 136, b: 136, vx: 0, vy: 0, frame: 0 };
    let missile = SpriteInfo { id: 2, res: RES_MISSILE_BITMAP, l: 150, t: 110, r: 167, b: 127, vx: -20, vy: 0, frame: 2 };
    game.handle_server_event(SpriteEvent::Add, tank);
    game.handle_server_event(SpriteEvent::Add, missile);
    game.update();
    // the collision marks both as dying; nothing is reported yet
    assert!(game.sprites().iter().all(|s| s.dying));
    assert_eq!(game.sprites().len(), 2);
    assert!(game.events().is_empty());
    // the missile was put back where it was before the step
    let m = game.sprites().iter().find(|s| s.id == 2).unwrap();
    assert_eq!(m.position.left, 150);
}

#[test]
fn a_step_whose_reported_sprites_are_gone_records_nothing() {
    let mut game = TankGame::new();
    let tank = SpriteInfo { id: 10, res: RES_TANK_BITMAP, l: 100, t: 100, r: 136, b: 136, vx: 0, vy: 0, frame: 0 };
    let missile = SpriteInfo { id: 11, res: RES_MISSILE_BITMAP, l: 150, t: 110, r: 167, b: 127, vx: -20, vy: 0, frame: 2 };
    game.handle_server_event(SpriteEvent::Add, tank);
    game.handle_server_event(SpriteEvent::Add, missile);
    assert!(game.try_update());
    // both die now: each leaves an explosion, reported at indices past the end
    // of the list once the two are removed
    assert!(!game.try_update());
    assert!(game.events().is_empty());
    assert_eq!(game.sprites().len(), 2);
    assert!(game.sprites().iter().all(|s| s.id != 10 && s.id != 11));
}

#[test]
fn client_step_moves_sprites_without_collisions() {
    let mut game = TankGame::new();
    let tank = SpriteInfo { id: 1, res: RES_TANK_BITMAP, l: 100, t: 100, r: 136, b: 136, vx: 0, vy: 0, frame: 0 };
    let missile = SpriteInfo { id: 2, res: RES_MISSILE_BITMAP, l: 150, t: 110, r: 167, b: 127, vx: -20, vy: 0, frame: 2 };
    game.handle_server_event(SpriteEvent::Add, tank);
    game.handle_server_event(SpriteEvent::Add, missile);
    game.update_sprites();
    assert!(game.sprites().iter().all(|s| !s.dying));
    let m = game.sprites().iter().find(|s| s.id == 2).unwrap();
    assert_eq!(m.position.left, 130);
}

#[test]
fn the_game_paints_the_field_before_the_sprites() {
    let mut game = TankGame::new();
    let tank = SpriteInfo { id: 10, res: RES_TANK_BITMAP, l: 100, t: 100, r: 136, b: 136, vx: 0, vy: 0, frame: 0 };
    game.handle_server_event(SpriteEvent::Add, tank);
    let calls = game.draw_calls();
    assert_eq!(calls[0], tank::sprite::DrawCall::FillStyle("#2e6da3".to_string()));
    assert_eq!(calls[1], tank::sprite::DrawCall::FillRect { x: 0, y: 0, width: CLIENT_WIDTH, height: CLIENT_HEIGHT });
    assert_eq!(calls.len(), 2 + game.engine.draw_calls().len());
}

#[test]
fn a_tank_on_the_field_can_fire() {
    let mut game = TankGame::new();
    let tank = SpriteInfo { id: 10, res: RES_TANK_BITMAP, l: 100, t: 100, r: 136, b: 136, vx: 0, vy: 0, frame: 0 };
    game.handle_server_event(SpriteEvent::Add, tank);
    assert!(game.key_event_ok(KeyEvent::KeyDown, " ", 10));
    assert!(game.key_event_ok(KeyEvent::KeyDown, " ", 99));
    let far = SpriteInfo { id: 11, res: RES_TANK_BITMAP, l: i32::MAX - 10, t: 100, r: i32::MAX, b: 136, vx: 0, vy: 0, frame: 3 };
    game.handle_server_event(SpriteEvent::Add, far);
    assert!(!game.key_event_ok(KeyEvent::KeyDown, " ", 11));
    assert!(game.key_event_ok(KeyEvent::KeyUp, " ", 11));
}

#[test]
fn a_step_past_the_i32_limits_is_refused_by_the_check() {
    let mut game = TankGame::new();
    let tank = SpriteInfo { id: 10, res: RES_TANK_BITMAP, l: 100, t: 100, r: 136, b: 136, vx: 3, vy: 0, frame: 0 };
    game.handle_server_event(SpriteEvent::Add, tank);
    assert!(game.update_check());
    let far = SpriteInfo { id: 11, res: RES_TANK_BITMAP, l: i32::MAX - 36, t: 100, r: i32::MAX, b: 136, vx: 10, vy: 0, frame: 0 };
    game.handle_server_event(SpriteEvent::Add, far);
    assert!(!game.update_check());
}
