use tank::game::KeyEvent;
use tank::platform::{EventQueues, Listeners};
use tank::timer;
use tank::utils::{rand_int, rgb, Counter, Timer};

fn tick(_t: f64) {}
fn hello() {}
fn bye() {}
fn progress(_n: i32, _t: i32) {}
fn text(_s: String) {}

type Page = Listeners<fn(f64), fn(), fn(i32, i32), fn(String)>;

#[test]
fn listeners_call_what_was_registered_last() {
    let mut l: Page = Listeners::new();
    assert!(l.on_connect().is_none());
    assert!(l.on_close().is_none());
    l.set_on_connect_listener(hello);
    l.set_on_close_listener(bye);
    l.set_on_resource_load_listener(progress);
    l.set_frame_callback(tick);
    l.set_on_message_listener(text);
    assert!(l.on_connect() == Some(hello as fn()));
    assert!(l.on_close() == Some(bye as fn()));
    assert!(l.on_window_resize().is_none());
    l.set_on_connect_listener(bye);
    assert!(l.on_connect() == Some(bye as fn()));
    assert!(l.on_resource_load().is_some());
    assert!(l.request_animation_frame_callback().is_some());
    assert!(l.on_message().is_some());
    assert!(l.on_keyup().is_none() && l.on_keydown().is_none());
}

#[test]
fn queued_events_come_out_in_order_once() {
    let mut q = EventQueues::new();
    q.on_keydown_event(37);
    q.on_keyup_event(37);
    q.on_message("hi".to_string());
    q.on_binary_message(vec![1, 2]);
    assert_eq!(q.pick_key_events(), vec![(KeyEvent::KeyDown, 37), (KeyEvent::KeyUp, 37)]);
    assert!(q.pick_key_events().is_empty());
    assert_eq!(q.pick_messages(), vec!["hi".to_string()]);
    assert_eq!(q.pick_binary_messages(), vec![vec![1u8, 2]]);
    assert!(q.pick_messages().is_empty());
}

#[test]
fn fps_timer_paces_frames() {
    let mut t = timer::Timer::new(20);
    assert_eq!(t.fps(), 20);
    assert_eq!(t.frame_time, 50);
    t.start(1000);
    // the next frame was set at the absolute start time, the clock counts from the start
    assert!(!t.ready_for_next_frame(1000));
    assert!(t.ready_for_next_frame(2001));
    assert_eq!(t.next_time, 1001 + 50);
    assert!(!t.ready_for_next_frame(2001));
    assert!(t.ready_for_next_frame(2052));
}

#[test]
fn clock_timer_paces_frames() {
    let mut t = Timer::new(10, 500);
    assert_eq!(t.next_time, 600);
    assert!(!t.ready_for_next_frame(600));
    assert!(t.ready_for_next_frame(601));
    assert_eq!(t.next_time, 701);
    assert!(!t.ready_for_next_frame(650));
}

#[test]
fn random_integers_stay_in_range() {
    for _ in 0..200 {
        let r = rand_int(3, 5);
        assert!((3..=5).contains(&r));
    }
    assert_eq!(rand_int(7, 7), 7);
}

#[test]
fn colours_pack_red_first() {
    assert_eq!(rgb(0x12, 0x34, 0x56), 0x563412);
    assert_eq!(rgb(255, 255, 255), 0xffffff);
}

#[test]
fn counter_hands_out_increasing_ids() {
    let mut c = Counter::new();
    assert_eq!(c.next(), Some(1));
    assert_eq!(c.next(), Some(2));
    c.count = u32::MAX;
    assert_eq!(c.next(), None);
}
