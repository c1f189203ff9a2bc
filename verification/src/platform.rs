use crate::game::KeyEvent;
use vstd::prelude::*;

verus! {

// ------------------------------------------------------------------
// The listeners that the page's callbacks are handed to
// ------------------------------------------------------------------
/// The listeners registered with the page, one slot per kind of callback:
/// `Tick` takes a timestamp, `Notify` nothing, `Progress` the resources loaded
/// so far and in all, `Text` a key or a message. A slot holds the listener
/// registered last, or nothing.
pub struct Listeners<Tick, Notify, Progress, Text> {
    pub request_animation_frame_callback: Option<Tick>,
    pub on_window_resize_listener: Option<Notify>,
    pub on_resource_load_listener: Option<Progress>,
    pub on_connect_listener: Option<Notify>,
    pub on_close_listener: Option<Notify>,
    pub on_keyup_listener: Option<Text>,
    pub on_keydown_listener: Option<Text>,
    pub on_message_listener: Option<Text>,
}

impl<Tick: Copy, Notify: Copy, Progress: Copy, Text: Copy> Listeners<Tick, Notify, Progress, Text> {
    /// No listener registered yet.
    pub fn new() -> (l: Self)
        ensures
            l.request_animation_frame_callback is None,
            l.on_window_resize_listener is None,
            l.on_resource_load_listener is None,
            l.on_connect_listener is None,
            l.on_close_listener is None,
            l.on_keyup_listener is None,
            l.on_keydown_listener is None,
            l.on_message_listener is None,
    {
        Listeners {
            request_animation_frame_callback: None,
            on_window_resize_listener: None,
            on_resource_load_listener: None,
            on_connect_listener: None,
            on_close_listener: None,
            on_keyup_listener: None,
            on_keydown_listener: None,
            on_message_listener: None,
        }
    }

    pub fn set_frame_callback(&mut self, callback: Tick)
        ensures
            *final(self) == (Listeners {
                request_animation_frame_callback: Some(callback),
                ..*old(self)
            }),
    {
        self.request_animation_frame_callback = Some(callback);
    }

    pub fn set_on_window_resize_listener(&mut self, listener: Notify)
        ensures
            *final(self) == (Listeners { on_window_resize_listener: Some(listener), ..*old(self) }),
    {
        self.on_window_resize_listener = Some(listener);
    }

    pub fn set_on_resource_load_listener(&mut self, listener: Progress)
        ensures
            *final(self) == (Listeners { on_resource_load_listener: Some(listener), ..*old(self) }),
    {
        self.on_resource_load_listener = Some(listener);
    }

    pub fn set_on_connect_listener(&mut self, listener: Notify)
        ensures
            *final(self) == (Listeners { on_connect_listener: Some(listener), ..*old(self) }),
    {
        self.on_connect_listener = Some(listener);
    }

    pub fn set_on_close_listener(&mut self, listener: Notify)
        ensures
            *final(self) == (Listeners { on_close_listener: Some(listener), ..*old(self) }),
    {
        self.on_close_listener = Some(listener);
    }

    pub fn set_on_keyup_listener(&mut self, listener: Text)
        ensures
            *final(self) == (Listeners { on_keyup_listener: Some(listener), ..*old(self) }),
    {
        self.on_keyup_listener = Some(listener);
    }

    pub fn set_on_keydown_listener(&mut self, listener: Text)
        ensures
            *final(self) == (Listeners { on_keydown_listener: Some(listener), ..*old(self) }),
    {
        self.on_keydown_listener = Some(listener);
    }

    pub fn set_on_message_listener(&mut self, listener: Text)
        ensures
            *final(self) == (Listeners { on_message_listener: Some(listener), ..*old(self) }),
    {
        self.on_message_listener = Some(listener);
    }

    /// The listener to call when the page asks for the next frame.
    pub fn request_animation_frame_callback(&self) -> (r: Option<Tick>)
        ensures
            r == self.request_animation_frame_callback,
    {
        self.request_animation_frame_callback
    }

    /// The listener to call when the window was resized.
    pub fn on_window_resize(&self) -> (r: Option<Notify>)
        ensures
            r == self.on_window_resize_listener,
    {
        self.on_window_resize_listener
    }

    /// The listener to call when another resource was loaded.
    pub fn on_resource_load(&self) -> (r: Option<Progress>)
        ensures
            r == self.on_resource_load_listener,
    {
        self.on_resource_load_listener
    }

    /// The listener to call when the connection to the server is open.
    pub fn on_connect(&self) -> (r: Option<Notify>)
        ensures
            r == self.on_connect_listener,
    {
        self.on_connect_listener
    }

    /// The listener to call when the connection to the server was closed.
    pub fn on_close(&self) -> (r: Option<Notify>)
        ensures
            r == self.on_close_listener,
    {
        self.on_close_listener
    }

    /// The listener to call with a released key.
    pub fn on_keyup(&self) -> (r: Option<Text>)
        ensures
            r == self.on_keyup_listener,
    {
        self.on_keyup_listener
    }

    /// The listener to call with a pressed key.
    pub fn on_keydown(&self) -> (r: Option<Text>)
        ensures
            r == self.on_keydown_listener,
    {
        self.on_keydown_listener
    }

    /// The listener to call with a message of the server.
    pub fn on_message(&self) -> (r: Option<Text>)
        ensures
            r == self.on_message_listener,
    {
        self.on_message_listener
    }
}

/// Registering a listener makes it the one its event calls, and leaves the
/// listeners of the other events as they were.
pub proof fn lemma_registered_listener_is_called<Tick, Notify, Progress, Text>(
    before: Listeners<Tick, Notify, Progress, Text>,
    after: Listeners<Tick, Notify, Progress, Text>,
    listener: Notify,
)
    requires
        after == (Listeners { on_connect_listener: Some(listener), ..before }),
    ensures
        after.on_connect_listener == Some(listener),
        after.on_close_listener == before.on_close_listener,
        after.on_window_resize_listener == before.on_window_resize_listener,
        after.request_animation_frame_callback == before.request_animation_frame_callback,
        after.on_resource_load_listener == before.on_resource_load_listener,
        after.on_keyup_listener == before.on_keyup_listener,
        after.on_keydown_listener == before.on_keydown_listener,
        after.on_message_listener == before.on_message_listener,
{
}

// ------------------------------------------------------------------
// The events that the page reports between two frames
// ------------------------------------------------------------------
/// The key events and messages that arrived since the game last picked them
/// up, in the order they arrived.
pub struct EventQueues {
    pub key_events: Vec<(KeyEvent, i32)>,
    pub messages: Vec<String>,
    pub binary_messages: Vec<Vec<u8>>,
}

impl EventQueues {
    pub fn new() -> (q: EventQueues)
        ensures
            q.key_events@ == Seq::<(KeyEvent, i32)>::empty(),
            q.messages@ == Seq::<String>::empty(),
            q.binary_messages@ == Seq::<Vec<u8>>::empty(),
    {
        EventQueues { key_events: Vec::new(), messages: Vec::new(), binary_messages: Vec::new() }
    }

    /// A key was released.
    pub fn on_keyup_event(&mut self, key: i32)
        ensures
            final(self).key_events@ == old(self).key_events@.push((KeyEvent::KeyUp, key)),
            final(self).messages@ == old(self).messages@,
            final(self).binary_messages@ == old(self).binary_messages@,
    {
        self.key_events.push((KeyEvent::KeyUp, key));
    }

    /// A key was pressed.
    pub fn on_keydown_event(&mut self, key: i32)
        ensures
            final(self).key_events@ == old(self).key_events@.push((KeyEvent::KeyDown, key)),
            final(self).messages@ == old(self).messages@,
            final(self).binary_messages@ == old(self).binary_messages@,
    {
        self.key_events.push((KeyEvent::KeyDown, key));
    }

    /// A text message arrived.
    pub fn on_message(&mut self, msg: String)
        ensures
            final(self).messages@ == old(self).messages@.push(msg),
            final(self).key_events@ == old(self).key_events@,
            final(self).binary_messages@ == old(self).binary_messages@,
    {
        self.messages.push(msg);
    }

    /// A binary message arrived.
    pub fn on_binary_message(&mut self, msg: Vec<u8>)
        ensures
            final(self).binary_messages@ == old(self).binary_messages@.push(msg),
            final(self).key_events@ == old(self).key_events@,
            final(self).messages@ == old(self).messages@,
    {
        self.binary_messages.push(msg);
    }

    /// Hands out the key events that arrived, oldest first, and forgets them.
    pub fn pick_key_events(&mut self) -> (r: Vec<(KeyEvent, i32)>)
        ensures
            r@ == old(self).key_events@,
            final(self).key_events@ == Seq::<(KeyEvent, i32)>::empty(),
            final(self).messages@ == old(self).messages@,
            final(self).binary_messages@ == old(self).binary_messages@,
    {
        let mut events: Vec<(KeyEvent, i32)> = Vec::new();
        events.append(&mut self.key_events);
        events
    }

    /// Hands out the text messages that arrived, oldest first, and forgets them.
    pub fn pick_messages(&mut self) -> (r: Vec<String>)
        ensures
            r@ == old(self).messages@,
            final(self).messages@ == Seq::<String>::empty(),
            final(self).key_events@ == old(self).key_events@,
            final(self).binary_messages@ == old(self).binary_messages@,
    {
        let mut msgs: Vec<String> = Vec::new();
        msgs.append(&mut self.messages);
        msgs
    }

    /// Hands out the binary messages that arrived, oldest first, and forgets them.
    pub fn pick_binary_messages(&mut self) -> (r: Vec<Vec<u8>>)
        ensures
            r@ == old(self).binary_messages@,
            final(self).binary_messages@ == Seq::<Vec<u8>>::empty(),
            final(self).key_events@ == old(self).key_events@,
            final(self).messages@ == old(self).messages@,
    {
        let mut msgs: Vec<Vec<u8>> = Vec::new();
        msgs.append(&mut self.binary_messages);
        msgs
    }
}

} // verus!
