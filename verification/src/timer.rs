use vstd::prelude::*;

verus! {

/// Paces a game loop at `fps` frames per second. The clock is read by the
/// caller and handed in, in milliseconds.
pub struct Timer {
    pub fps: u64,
    /// Milliseconds per frame.
    pub frame_time: u64,
    pub start_time: u64,
    pub next_time: u64,
    /// Milliseconds since `start_time` at the last check.
    pub current_time: u64,
}

impl Timer {
    pub fn new(fps: u64) -> (t: Timer)
        requires
            fps > 0,
        ensures
            t.fps == fps,
            t.frame_time == 1000u64 / fps,
            t.start_time == 0,
            t.next_time == 0,
            t.current_time == 0,
    {
        Timer { fps, frame_time: 1000 / fps, start_time: 0, next_time: 0, current_time: 0 }
    }

    pub fn fps(&self) -> (f: u64)
        ensures
            f == self.fps,
    {
        self.fps
    }

    /// Starts counting at `now`; the first frame is due at once.
    pub fn start(&mut self, now: u64)
        ensures
            *final(self) == (Timer { start_time: now, next_time: now, ..*old(self) }),
    {
        self.start_time = now;
        self.next_time = now;
    }

    /// Whether a new frame is due at `now`: the time since the start has passed
    /// the time set for it. If so, the following frame is set one frame time
    /// after this one.
    pub fn ready_for_next_frame(&mut self, now: u64) -> (ready: bool)
        requires
            old(self).start_time <= now,
            now - old(self).start_time + old(self).frame_time <= u64::MAX,
        ensures
            final(self).current_time == now - old(self).start_time,
            ready == (final(self).current_time > old(self).next_time),
            final(self).next_time == if ready {
                final(self).current_time + old(self).frame_time
            } else {
                old(self).next_time as int
            },
            final(self).fps == old(self).fps,
            final(self).frame_time == old(self).frame_time,
            final(self).start_time == old(self).start_time,
    {
        self.current_time = now - self.start_time;
        if self.current_time > self.next_time {
            self.next_time = self.current_time + self.frame_time;
            true
        } else {
            false
        }
    }
}

/// Two checks at the same moment never both find a frame due: after a frame
/// was found due, the next one is not due before a frame time has passed.
pub proof fn lemma_no_two_frames_at_once(t0: Timer, t1: Timer, now: u64, ready: bool)
    requires
        t0.start_time <= now,
        now - t0.start_time + t0.frame_time <= u64::MAX,
        t1.current_time == now - t0.start_time,
        ready == (t1.current_time > t0.next_time),
        t1.next_time == (if ready {
            t1.current_time + t0.frame_time
        } else {
            t0.next_time as int
        }),
        t1.start_time == t0.start_time,
        ready,
    ensures
        !(now - t1.start_time > t1.next_time),
{
}

} // verus!
