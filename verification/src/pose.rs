use vstd::prelude::*;

verus! {

// ------------------------------------------------------------------
// Which animation a snowball fighter shows
// ------------------------------------------------------------------
pub const ANIM_IDLE: usize = 0;
pub const ANIM_WALK: usize = 1;
pub const ANIM_CROUCH: usize = 2;
pub const ANIM_STANDUP: usize = 3;
pub const ANIM_THROW_LEFT: usize = 4;
pub const ANIM_THROW_RIGHT: usize = 5;
pub const ANIM_HIT: usize = 6;
pub const ANIM_JUMP: usize = 7;

/// The number of animations a fighter has.
pub const NUM_ANIMATIONS: usize = 8;

/// A fighter's animation state: the animation shown (if any), the one shown
/// before it (if any), the side it faces (0 left, 1 right) and, per animation,
/// whether it is drawn mirrored.
pub struct Pose {
    pub current: Option<usize>,
    pub last: Option<usize>,
    pub front: i32,
    pub flips: Vec<bool>,
}

pub struct PoseView {
    pub current: Option<usize>,
    pub last: Option<usize>,
    pub front: i32,
    pub flips: Seq<bool>,
}

impl View for Pose {
    type V = PoseView;

    open spec fn view(&self) -> PoseView {
        PoseView { current: self.current, last: self.last, front: self.front, flips: self.flips@ }
    }
}

/// Shows animation `a`; the one shown so far becomes the last one. Nothing
/// changes when `a` is already shown. The flag tells whether it changed.
pub open spec fn switch_to(p: PoseView, a: usize) -> (PoseView, bool) {
    if p.current != Some(a) {
        (PoseView { last: p.current, current: Some(a), ..p }, true)
    } else {
        (p, false)
    }
}

/// Mirrors the animation shown when the fighter faces right.
pub open spec fn face(p: PoseView) -> PoseView {
    match p.current {
        Some(i) => if i < p.flips.len() {
            PoseView { flips: p.flips.update(i as int, p.front != 0), ..p }
        } else {
            p
        },
        None => p,
    }
}

/// Goes back to the animation shown before; none is remembered after that.
pub open spec fn restore(p: PoseView) -> PoseView {
    PoseView { current: p.last, last: None, ..p }
}

pub open spec fn spec_idle(p: PoseView) -> PoseView {
    face(
        if p.current != Some(ANIM_CROUCH) {
            switch_to(p, ANIM_IDLE).0
        } else {
            p
        },
    )
}

pub open spec fn spec_walk(p: PoseView) -> PoseView {
    if p.current != Some(ANIM_CROUCH) && p.current != Some(ANIM_STANDUP) {
        face(switch_to(p, ANIM_WALK).0)
    } else {
        p
    }
}

/// Throwing to a side: not while crouching or already throwing. The throw's
/// animation is restarted when it was not shown.
pub open spec fn spec_throw(p: PoseView, front: i32) -> (PoseView, Option<usize>) {
    if p.current != Some(ANIM_CROUCH) && p.current != Some(ANIM_THROW_LEFT) && p.current != Some(
        ANIM_THROW_RIGHT,
    ) {
        let a = if front == 0 {
            ANIM_THROW_LEFT
        } else {
            ANIM_THROW_RIGHT
        };
        let r = switch_to(PoseView { front, ..p }, a);
        (
            r.0,
            if r.1 {
                Some(a)
            } else {
                None
            },
        )
    } else {
        (p, None)
    }
}

/// Standing up or crouching: not in the air. The animation is restarted when
/// it was not shown.
pub open spec fn spec_posture(p: PoseView, a: usize) -> (PoseView, Option<usize>) {
    if p.current != Some(ANIM_JUMP) {
        let r = switch_to(p, a);
        (
            face(r.0),
            if r.1 {
                Some(a)
            } else {
                None
            },
        )
    } else {
        (p, None)
    }
}

/// Being hit: only while idle.
pub open spec fn spec_hit(p: PoseView) -> (PoseView, Option<usize>) {
    if p.current == Some(ANIM_IDLE) {
        (face(switch_to(p, ANIM_HIT).0), Some(ANIM_HIT))
    } else {
        (p, None)
    }
}

pub open spec fn spec_jump(p: PoseView) -> (PoseView, Option<usize>) {
    let r = switch_to(p, ANIM_JUMP);
    if r.1 {
        (face(r.0), Some(ANIM_JUMP))
    } else {
        (p, None)
    }
}

pub open spec fn ended_at(ended: Seq<bool>, a: Option<usize>) -> bool {
    match a {
        Some(i) => i < ended.len() && ended[i as int],
        None => false,
    }
}

/// After a frame: a finished stand-up turns into idling; a finished throw or
/// hit, and a finished jump, go back to what was shown before.
pub open spec fn spec_after_frame(p: PoseView, ended: Seq<bool>) -> PoseView {
    let p1 = if p.current == Some(ANIM_STANDUP) && ended_at(ended, p.current) {
        face(switch_to(p, ANIM_IDLE).0)
    } else {
        p
    };
    let p2 = if (p1.current == Some(ANIM_THROW_LEFT) || p1.current == Some(ANIM_THROW_RIGHT)
        || p1.current == Some(ANIM_HIT)) && ended_at(ended, p1.current) {
        face(restore(p1))
    } else {
        p1
    };
    if p2.current == Some(ANIM_JUMP) && ended_at(ended, p2.current) {
        restore(p2)
    } else {
        p2
    }
}

impl Pose {
    /// A fighter idling, facing right; only the idle animation is mirrored.
    pub fn new() -> (p: Pose)
        ensures
            p@.current == Some(ANIM_IDLE),
            p@.last is None,
            p@.front == 1,
            p@.flips == seq![true, false, false, false, false, false, false, false],
    {
        let flips = vec![true, false, false, false, false, false, false, false];
        assert(flips@ =~= seq![true, false, false, false, false, false, false, false]);
        Pose { current: Some(ANIM_IDLE), last: None, front: 1, flips }
    }

    fn switch_to(&mut self, a: usize) -> (changed: bool)
        ensures
            (final(self)@, changed) == switch_to(old(self)@, a),
    {
        if self.current != Some(a) {
            self.last = self.current;
            self.current = Some(a);
            true
        } else {
            false
        }
    }

    fn face(&mut self)
        ensures
            final(self)@ == face(old(self)@),
    {
        if let Some(i) = self.current {
            if i < self.flips.len() {
                let f = self.front != 0;
                self.flips.set(i, f);
            }
        }
    }

    fn restore(&mut self)
        ensures
            final(self)@ == restore(old(self)@),
    {
        self.current = self.last;
        self.last = None;
    }

    /// Idles, unless crouching; faces the current side.
    pub fn idle(&mut self)
        ensures
            final(self)@ == spec_idle(old(self)@),
    {
        if self.current != Some(ANIM_CROUCH) {
            self.switch_to(ANIM_IDLE);
        }
        self.face();
    }

    fn walk(&mut self)
        ensures
            final(self)@ == spec_walk(old(self)@),
    {
        if self.current != Some(ANIM_CROUCH) && self.current != Some(ANIM_STANDUP) {
            self.switch_to(ANIM_WALK);
            self.face();
        }
    }

    pub fn walk_left(&mut self)
        ensures
            final(self)@ == spec_walk(PoseView { front: 0, ..old(self)@ }),
    {
        self.front = 0;
        self.walk();
    }

    pub fn walk_right(&mut self)
        ensures
            final(self)@ == spec_walk(PoseView { front: 1, ..old(self)@ }),
    {
        self.front = 1;
        self.walk();
    }

    pub fn walk_up(&mut self)
        ensures
            final(self)@ == spec_walk(old(self)@),
    {
        self.walk();
    }

    pub fn walk_down(&mut self)
        ensures
            final(self)@ == spec_walk(old(self)@),
    {
        self.walk();
    }

    fn throw(&mut self, front: i32) -> (restart: Option<usize>)
        ensures
            (final(self)@, restart) == spec_throw(old(self)@, front),
    {
        if self.current != Some(ANIM_CROUCH) && self.current != Some(ANIM_THROW_LEFT)
            && self.current != Some(ANIM_THROW_RIGHT) {
            self.front = front;
            let a = if front == 0 {
                ANIM_THROW_LEFT
            } else {
                ANIM_THROW_RIGHT
            };
            if self.switch_to(a) {
                Some(a)
            } else {
                None
            }
        } else {
            None
        }
    }

    /// Throws to the left; the result is the animation to restart, if any.
    pub fn throw_left(&mut self) -> (restart: Option<usize>)
        ensures
            (final(self)@, restart) == spec_throw(old(self)@, 0),
    {
        self.throw(0)
    }

    /// Throws to the right; the result is the animation to restart, if any.
    pub fn throw_right(&mut self) -> (restart: Option<usize>)
        ensures
            (final(self)@, restart) == spec_throw(old(self)@, 1),
    {
        self.throw(1)
    }

    fn posture(&mut self, a: usize) -> (restart: Option<usize>)
        ensures
            (final(self)@, restart) == spec_posture(old(self)@, a),
    {
        if self.current != Some(ANIM_JUMP) {
            let changed = self.switch_to(a);
            self.face();
            if changed {
                Some(a)
            } else {
                None
            }
        } else {
            None
        }
    }

    pub fn standup(&mut self) -> (restart: Option<usize>)
        ensures
            (final(self)@, restart) == spec_posture(old(self)@, ANIM_STANDUP),
    {
        self.posture(ANIM_STANDUP)
    }

    pub fn crouch(&mut self) -> (restart: Option<usize>)
        ensures
            (final(self)@, restart) == spec_posture(old(self)@, ANIM_CROUCH),
    {
        self.posture(ANIM_CROUCH)
    }

    pub fn hit(&mut self) -> (restart: Option<usize>)
        ensures
            (final(self)@, restart) == spec_hit(old(self)@),
    {
        if self.current == Some(ANIM_IDLE) {
            self.switch_to(ANIM_HIT);
            self.face();
            Some(ANIM_HIT)
        } else {
            None
        }
    }

    pub fn jump(&mut self) -> (restart: Option<usize>)
        ensures
            (final(self)@, restart) == spec_jump(old(self)@),
    {
        if self.switch_to(ANIM_JUMP) {
            self.face();
            Some(ANIM_JUMP)
        } else {
            None
        }
    }

    fn ended(&self, ended: &Vec<bool>) -> (b: bool)
        ensures
            b == ended_at(ended@, self.current),
    {
        match self.current {
            Some(i) => i < ended.len() && ended[i],
            None => false,
        }
    }

    /// Moves on after a frame in which the animations listed in `ended`
    /// reached their end.
    pub fn after_frame(&mut self, ended: &Vec<bool>)
        ensures
            final(self)@ == spec_after_frame(old(self)@, ended@),
    {
        if self.current == Some(ANIM_STANDUP) && self.ended(ended) {
            self.switch_to(ANIM_IDLE);
            self.face();
        }
        if (self.current == Some(ANIM_THROW_LEFT) || self.current == Some(ANIM_THROW_RIGHT)
            || self.current == Some(ANIM_HIT)) && self.ended(ended) {
            self.restore();
            self.face();
        }
        if self.current == Some(ANIM_JUMP) && self.ended(ended) {
            self.restore();
        }
    }
}

/// A crouching fighter neither walks nor throws; it leaves the crouch only by
/// standing up (or jumping).
pub proof fn lemma_crouch_holds(p: PoseView, front: i32)
    requires
        p.current == Some(ANIM_CROUCH),
    ensures
        spec_walk(p) == p,
        spec_throw(p, front) == (p, None::<usize>),
        spec_idle(p).current == Some(ANIM_CROUCH),
        spec_posture(p, ANIM_STANDUP).0.current == Some(ANIM_STANDUP),
{
}

/// A throw that is taken (the fighter neither crouches nor already throws)
/// turns the fighter to the side thrown to and shows that side's throw; a
/// throw that is not taken changes nothing.
pub proof fn lemma_throw_faces_the_side(p: PoseView, front: i32)
    ensures
        ({
            let taken = p.current != Some(ANIM_CROUCH) && p.current != Some(ANIM_THROW_LEFT)
                && p.current != Some(ANIM_THROW_RIGHT);
            let r = spec_throw(p, front).0;
            &&& taken ==> r.front == front
            &&& taken && front == 0 ==> r.current == Some(ANIM_THROW_LEFT)
            &&& taken && front != 0 ==> r.current == Some(ANIM_THROW_RIGHT)
            &&& taken ==> r.last == p.current
            &&& !taken ==> r == p
        }),
{
}

/// A throw or a hit, once finished, gives back the animation shown before it.
pub proof fn lemma_finished_throw_restores(p: PoseView, ended: Seq<bool>)
    requires
        p.current == Some(ANIM_THROW_LEFT) || p.current == Some(ANIM_THROW_RIGHT) || p.current
            == Some(ANIM_HIT),
        ended_at(ended, p.current),
        p.last != Some(ANIM_JUMP),
    ensures
        spec_after_frame(p, ended).current == p.last,
        spec_after_frame(p, ended).last is None,
{
}

} // verus!
