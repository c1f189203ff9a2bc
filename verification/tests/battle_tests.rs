use tank::background::{draw_pieces, ImagePiece, Viewport};
use tank::battle::{
    extra_data_for, find_current_player, healed_lives, key_command, leaders, orient_key_events,
    portrait_key, remove_leader, Collision, ClientUpdateCallback, DyingAction, DyingSprite,
    Fighter, Scoreboard, ServerEvent, ServerUpdateCallback, TankCommand, LANDSCAPE, PORTRAIT,
    SPRITE_MISSILE, SPRITE_NURSE, SPRITE_TANK, VK_DOWN, VK_LEFT, VK_RIGHT, VK_SPACE, VK_UP,
};
use tank::game::KeyEvent;

fn missile(id: u32, parent: u32) -> Fighter {
    Fighter { class: SPRITE_MISSILE, id, parent, lives: 0 }
}

fn tank(id: u32, lives: u32) -> Fighter {
    Fighter { class: SPRITE_TANK, id, parent: 0, lives }
}

#[test]
fn portrait_turns_arrows() {
    assert_eq!(portrait_key(VK_UP), VK_LEFT);
    assert_eq!(portrait_key(VK_DOWN), VK_RIGHT);
    assert_eq!(portrait_key(VK_LEFT), VK_DOWN);
    assert_eq!(portrait_key(VK_RIGHT), VK_UP);
    assert_eq!(portrait_key(VK_SPACE), VK_SPACE);
    let mut k = VK_UP;
    for _ in 0..4 {
        k = portrait_key(k);
    }
    assert_eq!(k, VK_UP);
    let mut events = vec![(KeyEvent::KeyDown, VK_UP), (KeyEvent::KeyUp, 65)];
    orient_key_events(&mut events, LANDSCAPE);
    assert_eq!(events, vec![(KeyEvent::KeyDown, VK_UP), (KeyEvent::KeyUp, 65)]);
    orient_key_events(&mut events, PORTRAIT);
    assert_eq!(events, vec![(KeyEvent::KeyDown, VK_LEFT), (KeyEvent::KeyUp, 65)]);
}

#[test]
fn keys_become_commands() {
    assert_eq!(key_command(KeyEvent::KeyDown, VK_SPACE), TankCommand::Fire);
    assert_eq!(key_command(KeyEvent::KeyDown, VK_LEFT), TankCommand::Drive { dx: -1, dy: 0, frame: 2 });
    assert_eq!(key_command(KeyEvent::KeyDown, VK_DOWN), TankCommand::Drive { dx: 0, dy: 1, frame: 1 });
    assert_eq!(key_command(KeyEvent::KeyUp, VK_RIGHT), TankCommand::Stop);
    assert_eq!(key_command(KeyEvent::KeyUp, VK_SPACE), TankCommand::Ignore);
    assert_eq!(key_command(KeyEvent::KeyDown, 13), TankCommand::Ignore);
    assert_eq!(tank::battle::client_key_command(KeyEvent::KeyDown, VK_SPACE), TankCommand::Ignore);
}

#[test]
fn missiles_hurt_other_tanks_only() {
    let rules = ServerUpdateCallback::new();
    let own = rules.on_sprite_collision(missile(9, 1), tank(1, 3));
    assert_eq!(own, Collision { kill_hitter: false, kill_hittee: false, hittee_lives: 3, killer: None, stop_hittee: false, restore: false });
    let hit = rules.on_sprite_collision(missile(9, 2), tank(1, 3));
    assert!(hit.kill_hitter && !hit.kill_hittee && !hit.restore);
    assert_eq!(hit.hittee_lives, 2);
    let last = rules.on_sprite_collision(missile(9, 2), tank(1, 1));
    assert!(last.kill_hitter && last.kill_hittee && last.restore);
    assert_eq!(last.killer, Some(2));
    let nurse = rules.on_sprite_collision(missile(9, 2), Fighter { class: SPRITE_NURSE, id: 4, parent: 0, lives: 0 });
    assert!(nurse.kill_hittee && nurse.kill_hitter);
    assert_eq!(nurse.killer, Some(2));
    let same = rules.on_sprite_collision(missile(9, 2), missile(8, 2));
    assert!(!same.kill_hittee && !same.restore);
    let other = rules.on_sprite_collision(missile(9, 2), missile(8, 3));
    assert!(other.kill_hittee && other.kill_hitter);
    let tanks = rules.on_sprite_collision(tank(1, 3), tank(2, 3));
    assert!(tanks.stop_hittee && tanks.restore && !tanks.kill_hittee);
}

#[test]
fn client_stops_only_its_own_tank() {
    let client = ClientUpdateCallback::new(2);
    assert!(client.on_sprite_collision(tank(1, 3), tank(2, 3)).stop_hittee);
    assert!(!client.on_sprite_collision(tank(2, 3), tank(1, 3)).stop_hittee);
    assert!(client.on_sprite_collision(tank(2, 3), tank(1, 3)).restore);
    assert!(!client.on_sprite_collision(missile(5, 1), tank(2, 3)).kill_hittee);
}

#[test]
fn deaths_lead_to_explosions_and_events() {
    let mut rules = ServerUpdateCallback::new();
    let dying = |class| DyingSprite { class, id: 3, name: "ann".to_string(), killer: 4, killer_name: "bob".to_string() };
    assert_eq!(rules.on_sprite_dying(dying(SPRITE_MISSILE)), DyingAction::SmallExplosion);
    assert_eq!(rules.on_sprite_dying(dying(SPRITE_NURSE)), DyingAction::Heal { killer: 4 });
    assert_eq!(rules.on_sprite_dying(dying(SPRITE_TANK)), DyingAction::LargeExplosion { killer: 4 });
    let events = rules.take_events();
    assert_eq!(events.len(), 1);
    match &events[0] {
        ServerEvent::PlayerDying(id, name, killer) => assert_eq!((*id, name.as_str(), killer.as_str()), (3, "ann", "bob")),
        _ => panic!("expected a death"),
    }
    assert!(rules.take_events().is_empty());
    assert_eq!(healed_lives(3), 4);
    assert_eq!(healed_lives(6), 6);
}

#[test]
fn leaders_are_the_three_best_in_stable_order() {
    let scores = vec![(1, 5), (2, 9), (3, 5), (4, 1), (5, 9)];
    assert_eq!(leaders(&scores), vec![(2, 9), (5, 9), (1, 5)]);
    assert_eq!(leaders(&vec![(7, 0)]), vec![(7, 0)]);
    assert!(leaders(&vec![]).is_empty());
    let mut l = vec![(2, 9), (5, 9), (1, 5)];
    remove_leader(&mut l, 5);
    assert_eq!(l, vec![(2, 9), (1, 5)]);
}

#[test]
fn scoreboard_shows_deaths_for_150_frames() {
    let mut board = Scoreboard::new();
    board.update_leaders(&vec![(1, 3), (2, 4)]);
    assert!(board.on_player_dying(2, "ann".to_string(), "bob".to_string(), Some(2)));
    assert_eq!(board.leaders, vec![(1, 3)]);
    assert!(!board.on_player_dying(1, "cat".to_string(), "dan".to_string(), Some(2)));
    assert_eq!(board.dying_players.len(), 2);
    assert_eq!(board.dying_players[0], (0, "bob".to_string(), "ann".to_string()));
    for _ in 0..149 {
        board.age();
    }
    assert_eq!(board.dying_players.len(), 2);
    assert_eq!(board.dying_players[0].0, 149);
    board.age();
    assert!(board.dying_players.is_empty());
}

#[test]
fn the_client_finds_itself_by_address() {
    let players = vec![
        (1, "1.1.1.1".to_string(), "ann".to_string()),
        (2, "2.2.2.2".to_string(), "bob".to_string()),
        (3, "1.1.1.1".to_string(), "cat".to_string()),
    ];
    assert_eq!(find_current_player(&players, "1.1.1.1"), Some(3));
    assert_eq!(find_current_player(&players, "2.2.2.2"), Some(2));
    assert_eq!(find_current_player(&players, "9.9.9.9"), None);
}

#[test]
fn only_tanks_carry_extra_data() {
    let d = extra_data_for(0, 70000, 6).unwrap();
    assert_eq!((d.score, d.lives), (70000u32 as u16, 6));
    assert!(extra_data_for(1, 5, 6).is_none());
}

fn piece(sx: i32, sy: i32, w: i32, h: i32, dx: i32, dy: i32) -> ImagePiece {
    ImagePiece { source_x: sx, source_y: sy, width: w, height: h, dest_x: dx, dest_y: dy }
}

fn view(l: i32, t: i32, r: i32, b: i32) -> Viewport {
    Viewport { left: l, top: t, right: r, bottom: b, left_negative: l < 0, top_negative: t < 0 }
}

#[test]
fn a_viewport_inside_the_bitmap_is_one_piece() {
    assert_eq!(draw_pieces(view(10, 20, 110, 120), 200, 200, 5, 6), vec![piece(10, 20, 100, 100, 5, 6)]);
}

#[test]
fn a_viewport_past_the_right_edge_wraps_to_the_left() {
    assert_eq!(
        draw_pieces(view(150, 0, 250, 100), 200, 200, 0, 0),
        vec![piece(150, 0, 50, 100, 0, 0), piece(0, 0, 50, 100, 50, 0)]
    );
    // with nothing left of the bitmap before the edge, only the wrapped part is drawn
    assert_eq!(draw_pieces(view(200, 0, 300, 100), 200, 200, 0, 0), vec![piece(0, 0, 100, 100, 0, 0)]);
}

#[test]
fn a_viewport_past_the_top_and_left_is_four_pieces() {
    let p = draw_pieces(view(-10, -20, 90, 80), 200, 200, 0, 0);
    assert_eq!(p.len(), 4);
    assert_eq!(p[0], piece(190, 180, 10, 20, 0, 0));
    assert_eq!(p[1], piece(0, 180, 90, 20, 10, 0));
    assert_eq!(p[2], piece(190, 0, 10, 80, 0, 20));
    assert_eq!(p[3], piece(0, 0, 90, 80, 10, 20));
}

#[test]
fn the_pieces_past_the_top_and_left_tile_the_viewport() {
    assert_eq!(
        draw_pieces(view(-20, -10, 80, 70), 100, 80, 0, 0),
        vec![
            piece(80, 70, 20, 10, 0, 0),
            piece(0, 70, 80, 10, 20, 0),
            piece(80, 0, 20, 70, 0, 10),
            piece(0, 0, 80, 70, 20, 10),
        ]
    );
}

#[test]
fn a_viewport_past_the_bottom_wraps_to_the_top() {
    assert_eq!(
        draw_pieces(view(0, 150, 100, 250), 200, 200, 0, 0),
        vec![piece(0, 150, 100, 50, 0, 0), piece(0, 0, 100, 50, 0, 50)]
    );
}
