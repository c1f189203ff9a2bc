use tank::bitmap::{Bitmap, BitmapRes, HtmlImage};
use tank::engine::GameEngine;
use tank::geometry::{div_trunc, Point, Rect};
use tank::sprite::{DrawCall, Sprite, BA_BOUNCE, BA_DIE, BA_STOP, BA_WRAP, SA_KILL, SA_NONE};

#[test]
fn it_works() {
    assert_eq!(2 + 2, 4);
}

#[test]
fn rect_inflate_grows_both_sides() {
    let mut r = Rect::new(10, 20, 30, 40);
    r.inflate(2, 3);
    assert_eq!((r.left, r.top, r.right, r.bottom), (8, 17, 32, 43));
}

#[test]
fn rect_offset_and_contain() {
    let mut r = Rect::new(0, 0, 10, 10);
    r.offset(5, -5);
    assert_eq!((r.left, r.top, r.right, r.bottom), (5, -5, 15, 5));
    assert!(r.contain(5, -5));
    assert!(r.contain(15, 5));
    assert!(!r.contain(16, 0));
    assert!(!r.contain(4, 0));
    let z = Rect::zero();
    assert_eq!((z.left, z.top, z.right, z.bottom), (0, 0, 0, 0));
    let p = Point::new();
    assert_eq!((p.x, p.y), (0, 0));
}

#[test]
fn division_truncates_toward_zero() {
    assert_eq!(div_trunc(7, 2), 3);
    assert_eq!(div_trunc(-7, 2), -3);
    assert_eq!(div_trunc(7, -2), -3);
    assert_eq!(div_trunc(-7, -2), 3);
}

#[test]
fn bitmaps_report_their_size() {
    let b = BitmapRes::new(3, 17, 136);
    assert_eq!((b.id(), b.width(), b.height()), (3, 17, 136));
    let img = HtmlImage::new(6, 64, 32);
    assert_eq!((img.id(), img.width(), img.height()), (6, 64, 32));
}

fn sprite_at(x: i32, y: i32, vx: i32, vy: i32, action: u32) -> Sprite {
    Sprite::new(
        1,
        BitmapRes::new(0, 10, 10),
        Point { x, y },
        Point { x: vx, y: vy },
        0,
        Rect::new(0, 0, 100, 100),
        action,
    )
}

#[test]
fn new_sprite_has_a_shrunk_collision_box() {
    let s = sprite_at(0, 0, 0, 0, BA_STOP);
    assert_eq!((s.position.left, s.position.top, s.position.right, s.position.bottom), (0, 0, 10, 10));
    // the box shrinks by a twelfth of the size, rounded toward zero: 10 / 12 = 0
    assert_eq!((s.collision.left, s.collision.right), (0, 10));
    let big = Sprite::new(2, BitmapRes::new(0, 36, 24), Point { x: 0, y: 0 }, Point { x: 0, y: 0 }, 0, Rect::new(0, 0, 100, 100), BA_STOP);
    assert_eq!((big.collision.left, big.collision.top, big.collision.right, big.collision.bottom), (3, 2, 33, 22));
}

#[test]
fn sprite_moves_by_its_velocity() {
    let mut s = sprite_at(10, 10, 3, -2, BA_STOP);
    assert_eq!(s.update(), SA_NONE);
    assert_eq!((s.position.left, s.position.top), (13, 8));
}

#[test]
fn wrapping_sprite_comes_back_on_the_other_side() {
    let mut s = sprite_at(95, 50, 10, 0, BA_WRAP);
    s.update();
    // past the right edge: it reappears with its right edge at the left bound
    assert_eq!(s.position.left, -10);
}

#[test]
fn bouncing_sprite_turns_around() {
    let mut s = sprite_at(88, 50, 5, 0, BA_BOUNCE);
    s.update();
    assert_eq!(s.velocity.x, -5);
    assert_eq!(s.position.right, 100);
}

#[test]
fn stopping_sprite_halts_at_the_edge() {
    let mut s = sprite_at(88, 50, 5, 1, BA_STOP);
    s.update();
    assert_eq!((s.velocity.x, s.velocity.y), (0, 0));
    assert_eq!(s.position.right, 100);
}

#[test]
fn dying_sprite_asks_to_be_removed() {
    let mut s = sprite_at(95, 50, 10, 0, BA_DIE);
    assert_eq!(s.update(), SA_KILL);
    let mut t = sprite_at(10, 10, 0, 0, BA_STOP);
    t.kill();
    assert_eq!(t.update(), SA_KILL);
}

#[test]
fn frames_advance_and_loop() {
    let mut s = Sprite::from_bitmap(1, BitmapRes::new(0, 10, 40), Rect::new(0, 0, 100, 100));
    s.set_num_frames(4, false);
    assert_eq!(s.height(), 10);
    assert_eq!(s.position.bottom, 10);
    s.set_frame_delay(0);
    for expected in [1, 2, 3, 0, 1] {
        s.update_frame();
        assert_eq!(s.current_frame(), expected);
    }
}

#[test]
fn one_cycle_animation_ends_in_death() {
    let mut s = Sprite::from_bitmap(1, BitmapRes::new(0, 10, 20), Rect::new(0, 0, 100, 100));
    s.set_num_frames(2, true);
    s.update_frame();
    assert_eq!(s.current_frame(), 1);
    s.update_frame();
    assert!(s.dying);
}

#[test]
fn engine_orders_sprites_by_z_order() {
    let mut e = GameEngine::new();
    let mut a = sprite_at(0, 0, 0, 0, BA_STOP);
    a.z_order = 5;
    a.id = 10;
    let mut b = sprite_at(0, 0, 0, 0, BA_STOP);
    b.z_order = 1;
    b.id = 11;
    let mut c = sprite_at(0, 0, 0, 0, BA_STOP);
    c.z_order = 5;
    c.id = 12;
    assert_eq!(e.add_sprite(a), 0);
    assert_eq!(e.add_sprite(b), 0);
    assert_eq!(e.add_sprite(c), 2);
    let ids: Vec<u32> = e.sprites().iter().map(|s| s.id).collect();
    assert_eq!(ids, vec![11, 10, 12]);
    assert_eq!(e.query_sprite_idx(12), Some(2));
    assert_eq!(e.query_sprite_idx(99), None);
    assert_eq!(e.next_sprite_id(), 1);
    assert_eq!(e.next_sprite_id(), 2);
    e.clean_up_sprites();
    assert_eq!(e.sprites().len(), 0);
}

fn sheet_sprite(id: u32, x: i32, y: i32) -> Sprite {
    Sprite::new(id, BitmapRes::new(7, 20, 80), Point { x, y }, Point { x: 0, y: 0 }, 0, Rect::new(0, 0, 500, 500), BA_STOP)
}

#[test]
fn a_hidden_sprite_draws_nothing() {
    let mut s = sheet_sprite(1, 5, 6);
    s.hidden = true;
    assert!(s.draw_calls().is_empty());
}

#[test]
fn a_single_frame_sprite_draws_its_sheet_then_its_name() {
    let mut s = sheet_sprite(1, 5, 6);
    s.name = Some("Bo".to_string());
    assert_eq!(
        s.draw_calls(),
        vec![
            DrawCall::ImageAt { res_id: 7, x: 5, y: 6 },
            DrawCall::FillStyle("#fff".to_string()),
            DrawCall::Text { text: "Bo".to_string(), x: 25, y: 6 },
        ]
    );
}

#[test]
fn a_sprite_with_frames_draws_its_current_frame() {
    let mut s = sheet_sprite(1, 5, 6);
    s.set_num_frames(4, false);
    s.set_current_frame(2);
    assert_eq!(
        s.draw_calls(),
        vec![
            DrawCall::Image {
                res_id: 7,
                source_x: 0,
                source_y: 40,
                source_width: 20,
                source_height: 20,
                dest_x: 5,
                dest_y: 6,
                dest_width: 20,
                dest_height: 20,
            },
            DrawCall::FillStyle("#fff".to_string()),
        ]
    );
}

#[test]
fn the_engine_draws_every_sprite_in_order() {
    let mut e = GameEngine::new();
    e.add_sprite(sheet_sprite(1, 5, 6));
    e.add_sprite(sheet_sprite(2, 50, 60));
    let calls = e.draw_calls();
    assert_eq!(calls.len(), 4);
    assert_eq!(calls[0], DrawCall::ImageAt { res_id: 7, x: 5, y: 6 });
    assert_eq!(calls[2], DrawCall::ImageAt { res_id: 7, x: 50, y: 60 });
}

#[test]
fn ids_count_up_from_one() {
    let mut e = GameEngine::new();
    let ids: Vec<u32> = (0..5).map(|_| e.next_sprite_id()).collect();
    assert_eq!(ids, vec![1, 2, 3, 4, 5]);
}
