use rand::Rng;
use vstd::prelude::*;

verus! {

/// Draws an `i32` from the half-open range `[low, high)` with
/// `rand::thread_rng().gen_range(low, high)`. The crate panics when `low >= high`;
/// what is claimed here is only that the result lies in the range. Which value
/// comes back depends on the thread's random generator, so nothing more is said.
#[verifier::external_body]
fn thread_gen_range(low: i32, high: i32) -> (r: i32)
    requires
        low < high,
    ensures
        low <= r < high,
{
    rand::thread_rng().gen_range(low, high)
}

/// A random integer in the closed range `[low, high]`.
pub fn rand_int(low: i32, high: i32) -> (r: i32)
    requires
        low <= high < i32::MAX,
    ensures
        low <= r <= high,
{
    thread_gen_range(low, high + 1)
}

/// Hands out the ids 1, 2, 3, ... until the `u32` range is used up.
pub struct Counter {
    pub count: u32,
}

impl Counter {
    pub fn new() -> (c: Counter)
        ensures
            c.count == 0,
    {
        Counter { count: 0 }
    }

    /// The next id, or `None` once every `u32` id has been handed out.
    pub fn next(&mut self) -> (r: Option<u32>)
        ensures
            old(self).count != u32::MAX ==> final(self).count == old(self).count + 1 && r
                == Some(final(self).count),
            old(self).count == u32::MAX ==> final(self).count == old(self).count && r.is_none(),
    {
        if self.count != u32::MAX {
            self.count = self.count + 1;
            Some(self.count)
        } else {
            None
        }
    }
}

/// Paces a game loop at a number of frames per second. The clock is read by
/// the caller and handed in, in milliseconds.
pub struct Timer {
    /// Milliseconds per frame.
    pub frame_time: u64,
    /// When the next frame is due.
    pub next_time: u64,
}

impl Timer {
    /// A timer whose first frame is due one frame time after `now`.
    pub fn new(fps: u64, now: u64) -> (t: Timer)
        requires
            fps > 0,
            now + 1000u64 / fps <= u64::MAX,
        ensures
            t.frame_time == 1000u64 / fps,
            t.next_time == now + 1000u64 / fps,
    {
        Timer { frame_time: 1000 / fps, next_time: now + 1000 / fps }
    }

    /// Whether a frame is due at `now`, that is `now` is past the time set for
    /// it; if so, the following one is set one frame time after `now`.
    pub fn ready_for_next_frame(&mut self, now: u64) -> (ready: bool)
        requires
            now > old(self).next_time ==> now + old(self).frame_time <= u64::MAX,
        ensures
            ready == (now > old(self).next_time),
            final(self).frame_time == old(self).frame_time,
            final(self).next_time == if ready {
                now + old(self).frame_time
            } else {
                old(self).next_time as int
            },
    {
        if now > self.next_time {
            self.next_time = now + self.frame_time;
            true
        } else {
            false
        }
    }
}

/// Packs a colour into `0x00BBGGRR`, each channel taken as given (no masking),
/// as the canvas helper expects.
pub fn rgb(red: i32, green: i32, blue: i32) -> (c: u32)
    ensures
        c == (red as u32 | ((green as u32) << 8u32) | ((blue as u32) << 16u32)),
        0 <= red < 256 && 0 <= green < 256 && 0 <= blue < 256 ==> c == red + green * 256 + blue
            * 65536,
{
    let (r, g, b) = (red as u32, green as u32, blue as u32);
    let c = r | g << 8 | b << 16;
    if 0 <= red && red < 256 && 0 <= green && green < 256 && 0 <= blue && blue < 256 {
        assert(r < 256 && g < 256 && b < 256 ==> (r | g << 8u32 | b << 16u32) == r + g * 256 + b
            * 65536) by (bit_vector);
    }
    c
}

} // verus!
