use crate::bitmap::BitmapRes;
use crate::geometry::{
    fits_i32, inflate_fits, offset_fits, spec_contains, spec_inflate, spec_offset, spec_overlaps,
    div_trunc, trunc_div, trunc_div_signed, Point, Rect,
};
use crate::utils::rand_int;
use vstd::prelude::*;

verus! {

/// What a sprite asks of the engine after an update.
pub type SpriteAction = u32;

pub const SA_NONE: SpriteAction = 0;

pub const SA_KILL: SpriteAction = 1;

pub const SA_ADDSPRITE: SpriteAction = 2;

/// What a sprite does when it reaches the edge of its bounds.
pub type BoundsAction = u32;

pub const BA_STOP: BoundsAction = 0;

pub const BA_WRAP: BoundsAction = 1;

pub const BA_BOUNCE: BoundsAction = 2;

pub const BA_DIE: BoundsAction = 3;

/// A moving, animated picture on the game field.
pub struct Sprite {
    pub id: u32,
    pub bitmap: BitmapRes,
    pub num_frames: i32,
    pub cur_frame: i32,
    pub frame_delay: i32,
    pub frame_trigger: i32,
    pub position: Rect,
    pub bounds: Rect,
    pub velocity: Point,
    pub z_order: i32,
    pub collision: Rect,
    pub bounds_action: BoundsAction,
    pub hidden: bool,
    pub dying: bool,
    pub one_cycle: bool,
    pub name: Option<String>,
}

// ------------------------------------------------------------------
// The collision rectangle
// ------------------------------------------------------------------
/// The horizontal amount by which the collision box is grown: a twelfth of
/// the negated width, rounded toward zero (so it shrinks a box of positive width).
pub open spec fn x_shrink(p: Rect) -> int {
    trunc_div(p.left - p.right, 12)
}

pub open spec fn y_shrink(p: Rect) -> int {
    trunc_div(p.top - p.bottom, 12)
}

/// The collision box that belongs to a position.
pub open spec fn collision_of(p: Rect) -> Rect {
    spec_inflate(p, x_shrink(p), y_shrink(p))
}

/// True when the collision box of `p` can be computed without overflow.
pub open spec fn collision_fits(p: Rect) -> bool {
    &&& fits_i32(p.left - p.right)
    &&& fits_i32(p.top - p.bottom)
    &&& inflate_fits(p, x_shrink(p), y_shrink(p))
}

/// True when the sprite's collision box is the one its position calls for.
pub open spec fn collision_consistent(s: Sprite) -> bool {
    s.collision == collision_of(s.position)
}

// ------------------------------------------------------------------
// Moving to a point
// ------------------------------------------------------------------
/// The position after moving the top-left corner to `(x, y)`, keeping the size.
pub open spec fn position_at(p: Rect, x: int, y: int) -> Rect {
    spec_offset(p, x - p.left, y - p.top)
}

pub open spec fn move_fits(s: Sprite, x: int, y: int) -> bool {
    &&& fits_i32(x - s.position.left)
    &&& fits_i32(y - s.position.top)
    &&& offset_fits(s.position, x - s.position.left, y - s.position.top)
    &&& collision_fits(position_at(s.position, x, y))
}

/// The sprite with its top-left corner moved to `(x, y)` and its collision box recomputed.
pub open spec fn moved_to(s: Sprite, x: int, y: int) -> Sprite {
    let p = position_at(s.position, x, y);
    Sprite { position: p, collision: collision_of(p), ..s }
}

// ------------------------------------------------------------------
// Frame animation
// ------------------------------------------------------------------
pub open spec fn frame_due(s: Sprite) -> bool {
    s.frame_delay >= 0 && s.frame_trigger - 1 <= 0
}

pub open spec fn frame_fits(s: Sprite) -> bool {
    &&& s.frame_trigger > i32::MIN
    &&& frame_due(s) ==> s.cur_frame < i32::MAX
}

/// One tick of the frame counter: when the trigger runs out the frame advances,
/// and past the last frame the animation either restarts or, for a one-cycle
/// animation, marks the sprite as dying.
pub open spec fn spec_update_frame(s: Sprite) -> Sprite {
    if frame_due(s) {
        let f = s.cur_frame + 1;
        if f >= s.num_frames {
            if s.one_cycle {
                Sprite { frame_trigger: s.frame_delay, cur_frame: f as i32, dying: true, ..s }
            } else {
                Sprite { frame_trigger: s.frame_delay, cur_frame: 0, ..s }
            }
        } else {
            Sprite { frame_trigger: s.frame_delay, cur_frame: f as i32, ..s }
        }
    } else {
        Sprite { frame_trigger: (s.frame_trigger - 1) as i32, ..s }
    }
}

// ------------------------------------------------------------------
// Bounds actions, one axis at a time
// ------------------------------------------------------------------
/// Wrap: a sprite that left the bounds on one side comes back on the other.
pub open spec fn wrap_axis(pos: int, size: int, lo: int, hi: int) -> int {
    if pos + size < lo {
        hi
    } else if pos > hi {
        lo - size
    } else {
        pos
    }
}

pub open spec fn wrap_axis_fits(pos: int, size: int, lo: int, hi: int) -> bool {
    &&& fits_i32(pos + size)
    &&& (!(pos + size < lo) && pos > hi) ==> fits_i32(lo - size)
}

/// Bounce: a sprite that crossed an edge is put back against it and that
/// component of its velocity is reversed. Gives the new position and velocity.
pub open spec fn bounce_axis(pos: int, size: int, vel: int, lo: int, hi: int) -> (int, int) {
    if pos < lo {
        (lo, -vel)
    } else if pos + size > hi {
        (hi - size, -vel)
    } else {
        (pos, vel)
    }
}

pub open spec fn bounce_axis_fits(pos: int, size: int, vel: int, lo: int, hi: int) -> bool {
    &&& !(pos < lo) ==> fits_i32(pos + size)
    &&& (!(pos < lo) && pos + size > hi) ==> fits_i32(hi - size)
    &&& (pos < lo || pos + size > hi) ==> fits_i32(-vel)
}

/// Stop: a sprite that crossed an edge is clamped to the bounds.
/// Gives the new position and whether it had to be clamped.
pub open spec fn stop_axis(pos: int, size: int, lo: int, hi: int) -> (int, bool) {
    if pos < lo || pos > hi - size {
        (spec_max(lo, spec_min(pos, hi - size)), true)
    } else {
        (pos, false)
    }
}

pub open spec fn stop_axis_fits(pos: int, size: int, lo: int, hi: int) -> bool {
    fits_i32(hi - size)
}

pub open spec fn spec_max(a: int, b: int) -> int {
    if a >= b {
        a
    } else {
        b
    }
}

pub open spec fn spec_min(a: int, b: int) -> int {
    if a <= b {
        a
    } else {
        b
    }
}

/// True when the rectangle of size `w` by `h` at `(x, y)` lies wholly outside the bounds.
pub open spec fn outside_bounds(x: int, y: int, w: int, h: int, b: Rect) -> bool {
    x + w < b.left || x > b.right || y + h < b.top || y > b.bottom
}

// ------------------------------------------------------------------
// A whole update
// ------------------------------------------------------------------
pub open spec fn next_x(s: Sprite) -> int {
    s.position.left + s.velocity.x
}

pub open spec fn next_y(s: Sprite) -> int {
    s.position.top + s.velocity.y
}

pub open spec fn width_of(p: Rect) -> int {
    p.right - p.left
}

pub open spec fn height_of(p: Rect) -> int {
    p.bottom - p.top
}

/// The position (before moving) and velocity that the bounds action asks for,
/// for a sprite whose frame was already advanced. `None` means the sprite dies.
pub open spec fn bounds_step(f: Sprite) -> Option<(int, int, Point)> {
    let nx = next_x(f);
    let ny = next_y(f);
    let w = width_of(f.position);
    let h = height_of(f.position);
    let b = f.bounds;
    if f.bounds_action == BA_WRAP {
        Some((wrap_axis(nx, w, b.left as int, b.right as int), wrap_axis(ny, h, b.top as int, b.bottom as int), f.velocity))
    } else if f.bounds_action == BA_BOUNCE {
        let bx = bounce_axis(nx, w, f.velocity.x as int, b.left as int, b.right as int);
        let by = bounce_axis(ny, h, f.velocity.y as int, b.top as int, b.bottom as int);
        Some((bx.0, by.0, Point { x: bx.1 as i32, y: by.1 as i32 }))
    } else if f.bounds_action == BA_DIE {
        if outside_bounds(nx, ny, w, h, b) {
            None
        } else {
            Some((nx, ny, f.velocity))
        }
    } else {
        let sx = stop_axis(nx, w, b.left as int, b.right as int);
        let sy = stop_axis(ny, h, b.top as int, b.bottom as int);
        Some((sx.0, sy.0, if sx.1 || sy.1 { Point { x: 0, y: 0 } } else { f.velocity }))
    }
}

pub open spec fn bounds_step_fits(f: Sprite) -> bool {
    let nx = next_x(f);
    let ny = next_y(f);
    let w = width_of(f.position);
    let h = height_of(f.position);
    let b = f.bounds;
    &&& fits_i32(nx)
    &&& fits_i32(ny)
    &&& fits_i32(w)
    &&& fits_i32(h)
    &&& f.bounds_action == BA_WRAP ==> wrap_axis_fits(nx, w, b.left as int, b.right as int)
        && wrap_axis_fits(ny, h, b.top as int, b.bottom as int)
    &&& f.bounds_action == BA_BOUNCE ==> bounce_axis_fits(nx, w, f.velocity.x as int, b.left as int, b.right as int)
        && bounce_axis_fits(ny, h, f.velocity.y as int, b.top as int, b.bottom as int)
    &&& f.bounds_action == BA_DIE ==> fits_i32(nx + w) && (!(nx + w < b.left) && !(nx > b.right) ==> fits_i32(ny + h))
    &&& (f.bounds_action != BA_WRAP && f.bounds_action != BA_BOUNCE && f.bounds_action != BA_DIE)
        ==> stop_axis_fits(nx, w, b.left as int, b.right as int) && stop_axis_fits(ny, h, b.top as int, b.bottom as int)
}

/// The sprite and the action after one update.
pub open spec fn update_result(s: Sprite) -> (Sprite, SpriteAction) {
    if s.dying {
        (s, SA_KILL)
    } else {
        let f = spec_update_frame(s);
        match bounds_step(f) {
            None => (f, SA_KILL),
            Some(step) => (moved_to(Sprite { velocity: step.2, ..f }, step.0, step.1), SA_NONE),
        }
    }
}

/// True when one update of the sprite stays within `i32` arithmetic.
pub open spec fn update_fits(s: Sprite) -> bool {
    !s.dying ==> {
        let f = spec_update_frame(s);
        &&& frame_fits(s)
        &&& bounds_step_fits(f)
        &&& match bounds_step(f) {
            None => true,
            Some(step) => move_fits(f, step.0, step.1),
        }
    }
}

/// The sprite and its update result agree on every field that an update never touches.
pub open spec fn same_identity(a: Sprite, b: Sprite) -> bool {
    &&& a.id == b.id
    &&& a.bitmap == b.bitmap
    &&& a.num_frames == b.num_frames
    &&& a.frame_delay == b.frame_delay
    &&& a.bounds == b.bounds
    &&& a.z_order == b.z_order
    &&& a.bounds_action == b.bounds_action
    &&& a.hidden == b.hidden
    &&& a.one_cycle == b.one_cycle
    &&& a.name == b.name
}

/// The sprite that `Sprite::new` builds.
pub open spec fn spec_new_sprite(
    id: u32,
    bitmap: BitmapRes,
    position: Point,
    velocity: Point,
    z_order: i32,
    bounds: Rect,
    bounds_action: BoundsAction,
) -> Sprite {
    let p = Rect {
        left: position.x,
        top: position.y,
        right: (position.x + bitmap.width) as i32,
        bottom: (position.y + bitmap.height) as i32,
    };
    Sprite {
        id,
        bitmap,
        num_frames: 1,
        cur_frame: 0,
        frame_delay: 0,
        frame_trigger: 0,
        position: p,
        bounds,
        velocity,
        z_order,
        collision: collision_of(p),
        bounds_action,
        hidden: false,
        dying: false,
        one_cycle: false,
        name: None,
    }
}

/// The sprite after `set_num_frames`: the frame count and one-cycle flag set,
/// and the position cut to the height of one frame.
pub open spec fn with_frames(s: Sprite, num_frames: i32, one_cycle: bool) -> Sprite {
    Sprite {
        num_frames,
        one_cycle,
        position: Rect {
            bottom: (s.position.top + trunc_div_signed(height_of(s.position), num_frames as int)) as i32,
            ..s.position
        },
        ..s
    }
}

/// True when `set_num_frames(num_frames, _)` stays within `i32` arithmetic.
pub open spec fn frames_fit(s: Sprite, num_frames: i32) -> bool {
    &&& num_frames != 0
    &&& fits_i32(height_of(s.position))
    &&& !(height_of(s.position) == i32::MIN && num_frames == -1)
    &&& fits_i32(s.position.top + trunc_div_signed(height_of(s.position), num_frames as int))
}

fn max_i32(a: i32, b: i32) -> (r: i32)
    ensures
        r == spec_max(a as int, b as int),
{
    if a >= b {
        a
    } else {
        b
    }
}

fn min_i32(a: i32, b: i32) -> (r: i32)
    ensures
        r == spec_min(a as int, b as int),
{
    if a <= b {
        a
    } else {
        b
    }
}

impl Sprite {
    /// A sprite showing `bitmap` with its top-left corner at `position`.
    pub fn new(
        id: u32,
        bitmap: BitmapRes,
        position: Point,
        velocity: Point,
        z_order: i32,
        bounds: Rect,
        bounds_action: BoundsAction,
    ) -> (s: Sprite)
        requires
            fits_i32(position.x + bitmap.width),
            fits_i32(position.y + bitmap.height),
            collision_fits(
                Rect {
                    left: position.x,
                    top: position.y,
                    right: (position.x + bitmap.width) as i32,
                    bottom: (position.y + bitmap.height) as i32,
                },
            ),
        ensures
            s == spec_new_sprite(id, bitmap, position, velocity, z_order, bounds, bounds_action),
    {
        let mut sprite = Sprite {
            id,
            position: Rect::new(
                position.x,
                position.y,
                position.x + bitmap.width,
                position.y + bitmap.height,
            ),
            bitmap,
            num_frames: 1,
            cur_frame: 0,
            frame_delay: 0,
            frame_trigger: 0,
            velocity,
            z_order,
            bounds,
            bounds_action,
            hidden: false,
            dying: false,
            one_cycle: false,
            name: None,
            collision: Rect::zero(),
        };
        sprite.calc_collision_rect();
        sprite
    }

    /// A still sprite at the origin that stops at its bounds.
    pub fn from_bitmap(id: u32, bitmap: BitmapRes, bounds: Rect) -> (s: Sprite)
        requires
            collision_fits(Rect { left: 0, top: 0, right: bitmap.width, bottom: bitmap.height }),
        ensures
            s == spec_new_sprite(
                id,
                bitmap,
                Point { x: 0, y: 0 },
                Point { x: 0, y: 0 },
                0,
                bounds,
                BA_STOP,
            ),
    {
        Sprite::new(id, bitmap, Point { x: 0, y: 0 }, Point { x: 0, y: 0 }, 0, bounds, BA_STOP)
    }

    /// A still sprite placed at a random point inside its bounds: its left edge is
    /// drawn from `[0, bounds width]` and its top edge from `[0, bounds height]`.
    pub fn with_bounds_action(
        id: u32,
        bitmap: BitmapRes,
        bounds: Rect,
        bounds_action: BoundsAction,
    ) -> (s: Sprite)
        requires
            0 <= bounds.right - bounds.left < i32::MAX,
            0 <= bounds.bottom - bounds.top < i32::MAX,
            0 <= bitmap.width,
            0 <= bitmap.height,
            bounds.right - bounds.left + bitmap.width <= i32::MAX,
            bounds.bottom - bounds.top + bitmap.height <= i32::MAX,
        ensures
            0 <= s.position.left <= bounds.right - bounds.left,
            0 <= s.position.top <= bounds.bottom - bounds.top,
            s == spec_new_sprite(
                id,
                bitmap,
                Point { x: s.position.left, y: s.position.top },
                Point { x: 0, y: 0 },
                0,
                bounds,
                bounds_action,
            ),
    {
        let x_pos = rand_int(0, bounds.right - bounds.left);
        let y_pos = rand_int(0, bounds.bottom - bounds.top);
        Sprite::new(
            id,
            bitmap,
            Point { x: x_pos, y: y_pos },
            Point { x: 0, y: 0 },
            0,
            bounds,
            bounds_action,
        )
    }

    /// Recomputes the collision box from the position.
    pub fn calc_collision_rect(&mut self)
        requires
            collision_fits(old(self).position),
        ensures
            *final(self) == (Sprite { collision: collision_of(old(self).position), ..*old(self) }),
    {
        let x_shrink = (self.position.left - self.position.right) / 12;
        let y_shrink = (self.position.top - self.position.bottom) / 12;
        self.collision = self.position;
        self.collision.inflate(x_shrink, y_shrink);
    }

    /// Advances the frame counter by one tick.
    pub fn update_frame(&mut self)
        requires
            frame_fits(*old(self)),
        ensures
            *final(self) == spec_update_frame(*old(self)),
    {
        self.frame_trigger = self.frame_trigger - 1;
        if self.frame_delay >= 0 && self.frame_trigger <= 0 {
            self.frame_trigger = self.frame_delay;
            self.cur_frame = self.cur_frame + 1;
            if self.cur_frame >= self.num_frames {
                if self.one_cycle {
                    self.dying = true;
                } else {
                    self.cur_frame = 0;
                }
            }
        }
    }

    /// Moves the top-left corner to `position`, keeping the size.
    pub fn set_position_point(&mut self, position: &Point)
        requires
            move_fits(*old(self), position.x as int, position.y as int),
        ensures
            *final(self) == moved_to(*old(self), position.x as int, position.y as int),
    {
        let dx = position.x - self.position.left;
        let dy = position.y - self.position.top;
        self.position.offset(dx, dy);
        self.calc_collision_rect();
    }

    /// Moves the top-left corner to `(x, y)`, keeping the size.
    pub fn set_position(&mut self, x: i32, y: i32)
        requires
            move_fits(*old(self), x as int, y as int),
        ensures
            *final(self) == moved_to(*old(self), x as int, y as int),
    {
        let x = x - self.position.left;
        let y = y - self.position.top;
        self.position.offset(x, y);
        self.calc_collision_rect();
    }

    /// Replaces the position as given; the collision box is left as it was.
    pub fn set_position_rect(&mut self, position: Rect)
        ensures
            *final(self) == (Sprite { position, ..*old(self) }),
    {
        self.position = position;
    }

    /// One step of the sprite: it advances its frame, moves by its velocity and
    /// then applies its bounds action.
    pub fn update(&mut self) -> (action: SpriteAction)
        requires
            update_fits(*old(self)),
        ensures
            (*final(self), action) == update_result(*old(self)),
    {
        if self.dying {
            return SA_KILL;
        }
        self.update_frame();
        let ghost f = *self;
        let nx = self.position.left + self.velocity.x;
        let ny = self.position.top + self.velocity.y;
        let w = self.position.right - self.position.left;
        let h = self.position.bottom - self.position.top;
        let mut new_x = nx;
        let mut new_y = ny;
        if self.bounds_action == BA_WRAP {
            if (nx + w) < self.bounds.left {
                new_x = self.bounds.right;
            } else if nx > self.bounds.right {
                new_x = self.bounds.left - w;
            }
            if (ny + h) < self.bounds.top {
                new_y = self.bounds.bottom;
            } else if ny > self.bounds.bottom {
                new_y = self.bounds.top - h;
            }
        } else if self.bounds_action == BA_BOUNCE {
            let mut bounce = false;
            let mut new_velocity = self.velocity;
            if nx < self.bounds.left {
                bounce = true;
                new_x = self.bounds.left;
                new_velocity.x = -new_velocity.x;
            } else if (nx + w) > self.bounds.right {
                bounce = true;
                new_x = self.bounds.right - w;
                new_velocity.x = -new_velocity.x;
            }
            if ny < self.bounds.top {
                bounce = true;
                new_y = self.bounds.top;
                new_velocity.y = -new_velocity.y;
            } else if (ny + h) > self.bounds.bottom {
                bounce = true;
                new_y = self.bounds.bottom - h;
                new_velocity.y = -new_velocity.y;
            }
            if bounce {
                self.velocity = new_velocity;
            }
        } else if self.bounds_action == BA_DIE {
            if (nx + w) < self.bounds.left || nx > self.bounds.right || (ny + h) < self.bounds.top
                || ny > self.bounds.bottom {
                return SA_KILL;
            }
        } else {
            if nx < self.bounds.left || nx > (self.bounds.right - w) {
                new_x = max_i32(self.bounds.left, min_i32(nx, self.bounds.right - w));
                self.set_velocity(0, 0);
            }
            if ny < self.bounds.top || ny > (self.bounds.bottom - h) {
                new_y = max_i32(self.bounds.top, min_i32(ny, self.bounds.bottom - h));
                self.set_velocity(0, 0);
            }
        }
        assert(bounds_step(f) == Some(
            (new_x as int, new_y as int, self.velocity),
        ));
        self.set_position_point(&Point { x: new_x, y: new_y });
        SA_NONE
    }

    pub fn set_current_frame(&mut self, cur_frame: i32)
        ensures
            *final(self) == (Sprite { cur_frame, ..*old(self) }),
    {
        self.cur_frame = cur_frame;
    }

    pub fn current_frame(&self) -> (f: i32)
        ensures
            f == self.cur_frame,
    {
        self.cur_frame
    }

    pub fn set_frame_delay(&mut self, frame_delay: i32)
        ensures
            *final(self) == (Sprite { frame_delay, ..*old(self) }),
    {
        self.frame_delay = frame_delay;
    }

    pub fn set_velocity(&mut self, x: i32, y: i32)
        ensures
            *final(self) == (Sprite { velocity: Point { x, y }, ..*old(self) }),
    {
        self.velocity.x = x;
        self.velocity.y = y;
    }

    pub fn set_velocity_point(&mut self, velocity: &Point)
        ensures
            *final(self) == (Sprite { velocity: *velocity, ..*old(self) }),
    {
        self.velocity.x = velocity.x;
        self.velocity.y = velocity.y;
    }

    pub fn velocity(&self) -> (v: &Point)
        ensures
            *v == self.velocity,
    {
        &self.velocity
    }

    /// Whether the sprite's collision box overlaps `test` (edges touching count).
    pub fn test_collison(&self, test: &Rect) -> (b: bool)
        ensures
            b == spec_overlaps(self.collision, *test),
    {
        self.collision.left <= test.right && test.left <= self.collision.right
            && self.collision.top <= test.bottom && test.top <= self.collision.bottom
    }

    /// Whether the point lies inside the sprite's position rectangle.
    pub fn is_point_inside(&self, x: i32, y: i32) -> (b: bool)
        ensures
            b == spec_contains(self.position, x as int, y as int),
    {
        self.position.contain(x, y)
    }

    /// The height of one frame: the sheet's height divided among the frames.
    pub fn height(&self) -> (h: i32)
        requires
            self.num_frames != 0,
            !(self.bitmap.height == i32::MIN && self.num_frames == -1),
        ensures
            h == trunc_div_signed(self.bitmap.height as int, self.num_frames as int),
    {
        div_trunc(self.bitmap.height, self.num_frames)
    }

    pub fn width(&self) -> (w: i32)
        ensures
            w == self.bitmap.width,
    {
        self.bitmap.width
    }

    pub fn z_order(&self) -> (z: i32)
        ensures
            z == self.z_order,
    {
        self.z_order
    }

    pub fn bitmap(&self) -> (b: &BitmapRes)
        ensures
            *b == self.bitmap,
    {
        &self.bitmap
    }

    pub fn position(&self) -> (p: &Rect)
        ensures
            *p == self.position,
    {
        &self.position
    }

    pub fn hidden(&self) -> (h: bool)
        ensures
            h == self.hidden,
    {
        self.hidden
    }

    pub fn id(&self) -> (i: u32)
        ensures
            i == self.id,
    {
        self.id
    }

    pub fn name(&self) -> (n: Option<&String>)
        ensures
            n == match self.name {
                Some(ref s) => Some(s),
                None => None::<&String>,
            },
    {
        self.name.as_ref()
    }

    /// Splits the sheet into `num_frames` frames stacked vertically: the
    /// sprite keeps its top edge and becomes one frame high. The collision box
    /// is left as it was.
    pub fn set_num_frames(&mut self, num_frames: i32, one_cycle: bool)
        requires
            frames_fit(*old(self), num_frames),
        ensures
            *final(self) == with_frames(*old(self), num_frames, one_cycle),
    {
        self.num_frames = num_frames;
        self.one_cycle = one_cycle;
        self.position.bottom = self.position.top + div_trunc(
            self.position.bottom - self.position.top,
            self.num_frames,
        );
    }

    /// Marks the sprite as dying; the engine removes it at its next update.
    pub fn kill(&mut self)
        ensures
            *final(self) == (Sprite { dying: true, ..*old(self) }),
    {
        self.dying = true;
    }
}

/// Where a game draws: the page's canvas, or anything that takes the same
/// calls.
pub trait CanvasContext {
    fn draw_image_at(&self, res_id: i32, x: i32, y: i32);

    fn draw_image(
        &self,
        res_id: i32,
        source_x: i32,
        source_y: i32,
        source_width: i32,
        source_height: i32,
        dest_x: i32,
        dest_y: i32,
        dest_width: i32,
        dest_height: i32,
    );

    fn fill_style(&self, style: &str);

    fn fill_rect(&self, x: i32, y: i32, width: i32, height: i32);

    fn fill_text(&self, text: &str, x: i32, y: i32);
}

// ------------------------------------------------------------------
// Deciding the arithmetic limits of an update
// ------------------------------------------------------------------
fn fits64(v: i64) -> (b: bool)
    ensures
        b == fits_i32(v as int),
{
    -0x8000_0000 <= v && v <= 0x7fff_ffff
}

fn twelfth_toward_zero(a: i64) -> (r: i64)
    requires
        -0x1_0000_0000_0000 <= a <= 0x1_0000_0000_0000,
    ensures
        r == trunc_div(a as int, 12),
{
    if a >= 0 {
        a / 12
    } else {
        -((-a) / 12)
    }
}

/// Whether the collision box of the rectangle `(l, t, r, b)` can be computed
/// in `i32` (see `collision_fits`).
fn collision_fits_check(l: i64, t: i64, r: i64, b: i64) -> (ok: bool)
    requires
        fits_i32(l as int),
        fits_i32(t as int),
        fits_i32(r as int),
        fits_i32(b as int),
    ensures
        ok == collision_fits(Rect { left: l as i32, top: t as i32, right: r as i32, bottom: b as i32 }),
{
    let xs = twelfth_toward_zero(l - r);
    let ys = twelfth_toward_zero(t - b);
    fits64(l - r) && fits64(t - b) && fits64(l - xs) && fits64(r + xs) && fits64(t - ys) && fits64(
        b + ys,
    )
}

impl Sprite {
    /// Whether the sprite can be moved to `(x, y)` within `i32` (see
    /// `move_fits`).
    pub fn move_fits_check(&self, x: i64, y: i64) -> (ok: bool)
        requires
            -0x1_0000_0000 <= x <= 0x1_0000_0000,
            -0x1_0000_0000 <= y <= 0x1_0000_0000,
        ensures
            ok == move_fits(*self, x as int, y as int),
    {
        let p = self.position;
        let (l, t, r, b) = (p.left as i64, p.top as i64, p.right as i64, p.bottom as i64);
        let dx = x - l;
        let dy = y - t;
        if !(fits64(dx) && fits64(dy) && fits64(x) && fits64(r + dx) && fits64(y) && fits64(b + dy)) {
            return false;
        }
        let ok = collision_fits_check(x, y, r + dx, b + dy);
        assert(position_at(p, x as int, y as int) == Rect {
            left: x as i32,
            top: y as i32,
            right: (r + dx) as i32,
            bottom: (b + dy) as i32,
        });
        ok
    }

    /// Whether one update of the sprite stays within `i32` (see
    /// `update_fits`).
    pub fn update_fits_check(&self) -> (ok: bool)
        ensures
            ok == update_fits(*self),
    {
        if self.dying {
            return true;
        }
        let due = self.frame_delay >= 0 && self.frame_trigger as i64 - 1 <= 0;
        if !(self.frame_trigger > i32::MIN && (!due || self.cur_frame < i32::MAX)) {
            return false;
        }
        let ghost f = spec_update_frame(*self);
        assert(f.position == self.position && f.velocity == self.velocity && f.bounds
            == self.bounds && f.bounds_action == self.bounds_action);
        let p = self.position;
        let bd = self.bounds;
        let (l, t, r, b) = (p.left as i64, p.top as i64, p.right as i64, p.bottom as i64);
        let (bl, bt, br, bb) = (bd.left as i64, bd.top as i64, bd.right as i64, bd.bottom as i64);
        let (vx, vy) = (self.velocity.x as i64, self.velocity.y as i64);
        let nx = l + vx;
        let ny = t + vy;
        let w = r - l;
        let h = b - t;
        if !(fits64(nx) && fits64(ny) && fits64(w) && fits64(h)) {
            return false;
        }
        let action = self.bounds_action;
        let step: Option<(i64, i64)> = if action == BA_WRAP {
            let fx = fits64(nx + w) && (!(!(nx + w < bl) && nx > br) || fits64(bl - w));
            let fy = fits64(ny + h) && (!(!(ny + h < bt) && ny > bb) || fits64(bt - h));
            if !(fx && fy) {
                return false;
            }
            let x = if nx + w < bl {
                br
            } else if nx > br {
                bl - w
            } else {
                nx
            };
            let y = if ny + h < bt {
                bb
            } else if ny > bb {
                bt - h
            } else {
                ny
            };
            Some((x, y))
        } else if action == BA_BOUNCE {
            let fx = (nx < bl || fits64(nx + w)) && (!(!(nx < bl) && nx + w > br) || fits64(br - w))
                && (!(nx < bl || nx + w > br) || fits64(-vx));
            let fy = (ny < bt || fits64(ny + h)) && (!(!(ny < bt) && ny + h > bb) || fits64(bb - h))
                && (!(ny < bt || ny + h > bb) || fits64(-vy));
            if !(fx && fy) {
                return false;
            }
            let x = if nx < bl {
                bl
            } else if nx + w > br {
                br - w
            } else {
                nx
            };
            let y = if ny < bt {
                bt
            } else if ny + h > bb {
                bb - h
            } else {
                ny
            };
            Some((x, y))
        } else if action == BA_DIE {
            let outside_x = nx + w < bl || nx > br;
            if !(fits64(nx + w) && (outside_x || fits64(ny + h))) {
                return false;
            }
            if outside_x || ny + h < bt || ny > bb {
                None
            } else {
                Some((nx, ny))
            }
        } else {
            if !(fits64(br - w) && fits64(bb - h)) {
                return false;
            }
            let x = if nx < bl || nx > br - w {
                if bl >= (if nx <= br - w {
                    nx
                } else {
                    br - w
                }) {
                    bl
                } else if nx <= br - w {
                    nx
                } else {
                    br - w
                }
            } else {
                nx
            };
            let y = if ny < bt || ny > bb - h {
                if bt >= (if ny <= bb - h {
                    ny
                } else {
                    bb - h
                }) {
                    bt
                } else if ny <= bb - h {
                    ny
                } else {
                    bb - h
                }
            } else {
                ny
            };
            Some((x, y))
        };
        assert(bounds_step_fits(f));
        match step {
            None => {
                assert(bounds_step(f) is None);
                true
            },
            Some((x, y)) => {
                assert(bounds_step(f) matches Some(st) && st.0 == x && st.1 == y);
                self.move_fits_check(x, y)
            },
        }
    }

    /// A copy of the sprite.
    pub fn copy(&self) -> (r: Sprite)
        ensures
            r == *self,
    {
        Sprite {
            id: self.id,
            bitmap: self.bitmap,
            num_frames: self.num_frames,
            cur_frame: self.cur_frame,
            frame_delay: self.frame_delay,
            frame_trigger: self.frame_trigger,
            position: self.position,
            bounds: self.bounds,
            velocity: self.velocity,
            z_order: self.z_order,
            collision: self.collision,
            bounds_action: self.bounds_action,
            hidden: self.hidden,
            dying: self.dying,
            one_cycle: self.one_cycle,
            name: match &self.name {
                Some(n) => Some(n.clone()),
                None => None,
            },
        }
    }
}

/// One call on a canvas.
#[derive(Debug, PartialEq, Eq)]
pub enum DrawCall {
    /// A whole bitmap with its top-left corner at `(x, y)`.
    ImageAt { res_id: i32, x: i32, y: i32 },
    /// A part of a bitmap, drawn into a rectangle of the canvas.
    Image {
        res_id: i32,
        source_x: i32,
        source_y: i32,
        source_width: i32,
        source_height: i32,
        dest_x: i32,
        dest_y: i32,
        dest_width: i32,
        dest_height: i32,
    },
    /// The colour for what is filled from now on.
    FillStyle(String),
    /// A filled rectangle.
    FillRect { x: i32, y: i32, width: i32, height: i32 },
    /// A text with its start at `(x, y)`.
    Text { text: String, x: i32, y: i32 },
}

/// A canvas call as plain values.
pub enum DrawCallView {
    ImageAt { res_id: i32, x: i32, y: i32 },
    Image {
        res_id: i32,
        source_x: i32,
        source_y: i32,
        source_width: i32,
        source_height: i32,
        dest_x: i32,
        dest_y: i32,
        dest_width: i32,
        dest_height: i32,
    },
    FillStyle(Seq<char>),
    FillRect { x: i32, y: i32, width: i32, height: i32 },
    Text { text: Seq<char>, x: i32, y: i32 },
}

impl DrawCall {
    pub open spec fn view(&self) -> DrawCallView {
        match self {
            DrawCall::ImageAt { res_id, x, y } => DrawCallView::ImageAt {
                res_id: *res_id,
                x: *x,
                y: *y,
            },
            DrawCall::Image {
                res_id,
                source_x,
                source_y,
                source_width,
                source_height,
                dest_x,
                dest_y,
                dest_width,
                dest_height,
            } => DrawCallView::Image {
                res_id: *res_id,
                source_x: *source_x,
                source_y: *source_y,
                source_width: *source_width,
                source_height: *source_height,
                dest_x: *dest_x,
                dest_y: *dest_y,
                dest_width: *dest_width,
                dest_height: *dest_height,
            },
            DrawCall::FillStyle(style) => DrawCallView::FillStyle(style@),
            DrawCall::FillRect { x, y, width, height } => DrawCallView::FillRect {
                x: *x,
                y: *y,
                width: *width,
                height: *height,
            },
            DrawCall::Text { text, x, y } => DrawCallView::Text { text: text@, x: *x, y: *y },
        }
    }
}

pub open spec fn calls_view(cs: Seq<DrawCall>) -> Seq<DrawCallView> {
    cs.map_values(|c: DrawCall| c.view())
}

/// Makes the calls on the canvas, in order.
pub fn replay<C: CanvasContext>(calls: &Vec<DrawCall>, context: &C) {
    let mut i: usize = 0;
    while i < calls.len()
        invariant
            0 <= i <= calls.len(),
        decreases calls.len() - i,
    {
        match &calls[i] {
            DrawCall::ImageAt { res_id, x, y } => context.draw_image_at(*res_id, *x, *y),
            DrawCall::Image {
                res_id,
                source_x,
                source_y,
                source_width,
                source_height,
                dest_x,
                dest_y,
                dest_width,
                dest_height,
            } => context.draw_image(
                *res_id,
                *source_x,
                *source_y,
                *source_width,
                *source_height,
                *dest_x,
                *dest_y,
                *dest_width,
                *dest_height,
            ),
            DrawCall::FillStyle(style) => context.fill_style(style.as_str()),
            DrawCall::FillRect { x, y, width, height } => context.fill_rect(*x, *y, *width, *height),
            DrawCall::Text { text, x, y } => context.fill_text(text.as_str(), *x, *y),
        }
        i = i + 1;
    }
}

/// The height of one frame of a sprite.
pub open spec fn frame_height(s: Sprite) -> int {
    trunc_div_signed(s.bitmap.height as int, s.num_frames as int)
}

/// True when the current frame's place on the sheet can be computed in `i32`.
pub open spec fn draw_fits(s: Sprite) -> bool {
    &&& s.num_frames != 0
    &&& !(s.bitmap.height == i32::MIN && s.num_frames == -1)
    &&& fits_i32(s.cur_frame * frame_height(s))
}

/// What drawing a sprite calls for: nothing when it is hidden; else the whole
/// sheet at its top-left corner when it has a single frame, or the current
/// frame of the sheet there; then a white fill colour, and its name, when it
/// has one, at its top-right corner.
pub open spec fn sprite_calls(s: Sprite) -> Seq<DrawCallView> {
    if s.hidden {
        Seq::empty()
    } else {
        let image = if s.num_frames == 1 {
            DrawCallView::ImageAt { res_id: s.bitmap.id, x: s.position.left, y: s.position.top }
        } else {
            let h = frame_height(s) as i32;
            DrawCallView::Image {
                res_id: s.bitmap.id,
                source_x: 0,
                source_y: (s.cur_frame * frame_height(s)) as i32,
                source_width: s.bitmap.width,
                source_height: h,
                dest_x: s.position.left,
                dest_y: s.position.top,
                dest_width: s.bitmap.width,
                dest_height: h,
            }
        };
        let styled = seq![image, DrawCallView::FillStyle("#fff"@)];
        match s.name {
            Some(name) => styled.push(
                DrawCallView::Text { text: name@, x: s.position.right, y: s.position.top },
            ),
            None => styled,
        }
    }
}

impl Sprite {
    /// The part of the sheet that shows the current frame: `(x, y, width,
    /// height)`, the frames being stacked from the top.
    pub fn frame_source(&self) -> (r: (i32, i32, i32, i32))
        requires
            draw_fits(*self),
        ensures
            r == (0i32, (self.cur_frame * frame_height(*self)) as i32, self.bitmap.width, frame_height(
                *self,
            ) as i32),
    {
        let h = self.height();
        (0, self.cur_frame * h, self.width(), h)
    }

    /// What drawing the sprite calls for, in order (see [`sprite_calls`]).
    pub fn draw_calls(&self) -> (r: Vec<DrawCall>)
        requires
            draw_fits(*self),
        ensures
            calls_view(r@) == sprite_calls(*self),
    {
        let mut calls: Vec<DrawCall> = Vec::new();
        if !self.hidden {
            if self.num_frames == 1 {
                calls.push(
                    DrawCall::ImageAt {
                        res_id: self.bitmap.id,
                        x: self.position.left,
                        y: self.position.top,
                    },
                );
            } else {
                let (sx, sy, sw, sh) = self.frame_source();
                calls.push(
                    DrawCall::Image {
                        res_id: self.bitmap.id,
                        source_x: sx,
                        source_y: sy,
                        source_width: sw,
                        source_height: sh,
                        dest_x: self.position.left,
                        dest_y: self.position.top,
                        dest_width: sw,
                        dest_height: sh,
                    },
                );
            }
            calls.push(DrawCall::FillStyle(String::from_str("#fff")));
            if let Some(name) = &self.name {
                calls.push(
                    DrawCall::Text {
                        text: name.clone(),
                        x: self.position.right,
                        y: self.position.top,
                    },
                );
            }
        }
        proof {
            reveal_strlit("#fff");
            assert(calls_view(calls@) =~= sprite_calls(*self));
        }
        calls
    }

    /// Draws the sprite: makes the calls of [`Sprite::draw_calls`] on the
    /// canvas.
    pub fn draw<C: CanvasContext>(&self, context: &C)
        requires
            draw_fits(*self),
    {
        replay(&self.draw_calls(), context);
    }
}

// ------------------------------------------------------------------
// Laws of the sprite update
// ------------------------------------------------------------------
/// A sprite that is already dying is reported for removal and left unchanged.
pub proof fn lemma_dying_sprite_is_killed(s: Sprite)
    requires
        s.dying,
    ensures
        update_result(s) == (s, SA_KILL),
{
}

/// An update never changes the size of a sprite, never touches its identity,
/// and, whenever the sprite survives, leaves its collision box consistent with
/// its new position.
pub proof fn lemma_update_keeps_size_and_identity(s: Sprite)
    requires
        update_fits(s),
    ensures
        width_of(update_result(s).0.position) == width_of(s.position),
        height_of(update_result(s).0.position) == height_of(s.position),
        same_identity(update_result(s).0, s),
        update_result(s).1 == SA_NONE ==> collision_consistent(update_result(s).0),
{
}

/// With the stop action, a sprite that fits inside its bounds stays inside
/// them after an update, and its velocity is either kept or set to zero.
pub proof fn lemma_stop_keeps_sprite_in_bounds(s: Sprite)
    requires
        update_fits(s),
        !s.dying,
        s.bounds_action == BA_STOP,
        width_of(s.position) <= width_of(s.bounds),
        height_of(s.position) <= height_of(s.bounds),
    ensures
        update_result(s).1 == SA_NONE,
        s.bounds.left <= update_result(s).0.position.left,
        update_result(s).0.position.right <= s.bounds.right,
        s.bounds.top <= update_result(s).0.position.top,
        update_result(s).0.position.bottom <= s.bounds.bottom,
        update_result(s).0.velocity == s.velocity || update_result(s).0.velocity == (Point {
            x: 0,
            y: 0,
        }),
{
}

/// With the bounce action, a sprite that fits inside its bounds stays inside
/// them, and each component of its velocity is either kept or reversed.
pub proof fn lemma_bounce_keeps_sprite_in_bounds(s: Sprite)
    requires
        update_fits(s),
        !s.dying,
        s.bounds_action == BA_BOUNCE,
        width_of(s.position) <= width_of(s.bounds),
        height_of(s.position) <= height_of(s.bounds),
    ensures
        update_result(s).1 == SA_NONE,
        s.bounds.left <= update_result(s).0.position.left,
        update_result(s).0.position.right <= s.bounds.right,
        s.bounds.top <= update_result(s).0.position.top,
        update_result(s).0.position.bottom <= s.bounds.bottom,
        update_result(s).0.velocity.x == s.velocity.x || update_result(s).0.velocity.x
            == -s.velocity.x,
        update_result(s).0.velocity.y == s.velocity.y || update_result(s).0.velocity.y
            == -s.velocity.y,
{
}

/// With the die action, a live sprite is reported for removal exactly when its
/// next position lies wholly outside its bounds; otherwise it simply moves by
/// its velocity.
pub proof fn lemma_die_kills_exactly_outside(s: Sprite)
    requires
        update_fits(s),
        !s.dying,
        s.bounds_action == BA_DIE,
    ensures
        (update_result(s).1 == SA_KILL) == outside_bounds(
            next_x(s),
            next_y(s),
            width_of(s.position),
            height_of(s.position),
            s.bounds,
        ),
        update_result(s).1 == SA_NONE ==> update_result(s).0.position.left == next_x(s)
            && update_result(s).0.position.top == next_y(s),
{
}

/// With the wrap action, a sprite whose next position is still (partly)
/// within its bounds simply moves by its velocity.
pub proof fn lemma_wrap_moves_inside(s: Sprite)
    requires
        update_fits(s),
        !s.dying,
        s.bounds_action == BA_WRAP,
        s.bounds.left <= next_x(s) + width_of(s.position),
        next_x(s) <= s.bounds.right,
        s.bounds.top <= next_y(s) + height_of(s.position),
        next_y(s) <= s.bounds.bottom,
    ensures
        update_result(s).1 == SA_NONE,
        update_result(s).0.position.left == next_x(s),
        update_result(s).0.position.top == next_y(s),
        update_result(s).0.velocity == s.velocity,
{
}

/// With the wrap action, a live sprite that leaves its bounds comes back on the
/// opposite side: on each axis, when its next position lies wholly before the
/// first bound it is put at the far bound, when it lies past the far bound it
/// is put just before the first bound (by its own size), and otherwise it
/// moves by its velocity; its size and velocity are kept.
pub proof fn lemma_wrap_comes_back(s: Sprite)
    requires
        update_fits(s),
        !s.dying,
        s.bounds_action == BA_WRAP,
    ensures
        ({
            let r = update_result(s).0;
            let (nx, ny) = (s.position.left + s.velocity.x, s.position.top + s.velocity.y);
            let (w, h) = (s.position.right - s.position.left, s.position.bottom - s.position.top);
            let b = s.bounds;
            &&& update_result(s).1 == SA_NONE
            &&& nx + w < b.left ==> r.position.left == b.right
            &&& !(nx + w < b.left) && nx > b.right ==> r.position.left == b.left - w
            &&& !(nx + w < b.left) && !(nx > b.right) ==> r.position.left == nx
            &&& ny + h < b.top ==> r.position.top == b.bottom
            &&& !(ny + h < b.top) && ny > b.bottom ==> r.position.top == b.top - h
            &&& !(ny + h < b.top) && !(ny > b.bottom) ==> r.position.top == ny
            &&& r.position.right - r.position.left == w
            &&& r.position.bottom - r.position.top == h
            &&& r.velocity == s.velocity
        }),
{
}

/// A looping animation keeps its frame number within `[0, num_frames)`.
pub proof fn lemma_looping_frame_stays_in_range(s: Sprite)
    requires
        frame_fits(s),
        !s.one_cycle,
        0 <= s.cur_frame < s.num_frames,
    ensures
        0 <= spec_update_frame(s).cur_frame < s.num_frames,
        !spec_update_frame(s).dying || s.dying,
{
}

/// A one-cycle animation that runs past its last frame marks the sprite as dying.
pub proof fn lemma_one_cycle_ends_in_death(s: Sprite)
    requires
        frame_fits(s),
        s.one_cycle,
        frame_due(s),
        s.cur_frame + 1 >= s.num_frames,
    ensures
        spec_update_frame(s).dying,
{
}

} // verus!
