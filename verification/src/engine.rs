use crate::geometry::{spec_overlaps, Rect};
use crate::sprite::{
    calls_view, draw_fits, replay, sprite_calls, update_fits, update_result, CanvasContext,
    DrawCall, DrawCallView, Sprite, SA_KILL,
};
use crate::utils::Counter;
use vstd::prelude::*;

verus! {

/// What an engine holds, as the contracts see it: its sprites in drawing
/// order and the last sprite id it handed out.
pub struct EngineView {
    pub sprites: Seq<Sprite>,
    pub count: u32,
}

/// Keeps the sprites ordered by z-order, updates them, detects collisions and
/// reports deaths and collisions to the game.
pub struct GameEngine {
    pub sprites: Vec<Sprite>,
    pub counter: Counter,
}

impl View for GameEngine {
    type V = EngineView;

    open spec fn view(&self) -> EngineView {
        EngineView { sprites: self.sprites@, count: self.counter.count }
    }
}

/// What the game does when the engine reports a dying sprite or a collision.
/// Each implementation describes, with spec functions over its own view and the
/// engine's view, exactly what its two reactions do, and when they may be called.
pub trait UpdateCallback: View + Sized {
    spec fn dying_ok(cb: Self::V, e: EngineView, idx: int) -> bool;

    spec fn dying_effect(cb: Self::V, e: EngineView, idx: int) -> (Self::V, EngineView);

    spec fn collision_ok(cb: Self::V, e: EngineView, hitter: int, hittee: int) -> bool;

    spec fn collision_effect(cb: Self::V, e: EngineView, hitter: int, hittee: int) -> (
        Self::V,
        EngineView,
        bool,
    );

    /// Called when the sprite at `idx_sprite_dying` asked to be removed.
    fn on_sprite_dying(&mut self, engine: &mut GameEngine, idx_sprite_dying: usize)
        requires
            idx_sprite_dying < old(engine)@.sprites.len(),
            Self::dying_ok(old(self)@, old(engine)@, idx_sprite_dying as int),
        ensures
            (final(self)@, final(engine)@) == Self::dying_effect(
                old(self)@,
                old(engine)@,
                idx_sprite_dying as int,
            ),
    ;

    /// Called when the sprite at `idx_sprite_hittee`, just moved, overlaps the
    /// sprite at `idx_sprite_hitter`. Returning `true` puts the moved sprite back.
    fn on_sprite_collision(
        &mut self,
        engine: &mut GameEngine,
        idx_sprite_hitter: usize,
        idx_sprite_hittee: usize,
    ) -> (hit: bool)
        requires
            idx_sprite_hitter < old(engine)@.sprites.len(),
            idx_sprite_hittee < old(engine)@.sprites.len(),
            Self::collision_ok(
                old(self)@,
                old(engine)@,
                idx_sprite_hitter as int,
                idx_sprite_hittee as int,
            ),
        ensures
            (final(self)@, final(engine)@, hit) == Self::collision_effect(
                old(self)@,
                old(engine)@,
                idx_sprite_hitter as int,
                idx_sprite_hittee as int,
            ),
    ;
}

// ------------------------------------------------------------------
// Searching the sprite list
// ------------------------------------------------------------------
/// The index at which a sprite of z-order `z` is inserted: before the first
/// sprite, from index `k` on, with a strictly greater z-order, else at the end.
pub open spec fn insert_index(s: Seq<Sprite>, z: int, k: int) -> int
    decreases s.len() - k,
{
    if k >= s.len() {
        s.len() as int
    } else if z < s[k].z_order {
        k
    } else {
        insert_index(s, z, k + 1)
    }
}

/// The index of the first sprite, from index `k` on, whose id is `id`.
pub open spec fn find_id(s: Seq<Sprite>, id: u32, k: int) -> Option<int>
    decreases s.len() - k,
{
    if k >= s.len() {
        None
    } else if s[k].id == id {
        Some(k)
    } else {
        find_id(s, id, k + 1)
    }
}

/// The first sprite, from index `k` on and other than `t`, whose position
/// overlaps the collision box of sprite `t`.
pub open spec fn first_collider(s: Seq<Sprite>, t: int, k: int) -> Option<int>
    decreases s.len() - k,
{
    if k >= s.len() {
        None
    } else if k != t && spec_overlaps(s[t].collision, s[k].position) {
        Some(k)
    } else {
        first_collider(s, t, k + 1)
    }
}

/// Sorted by z-order, lowest first.
pub open spec fn sorted_by_z(s: Seq<Sprite>) -> bool {
    forall|a: int, b: int| 0 <= a <= b < s.len() ==> s[a].z_order <= s[b].z_order
}

/// The sprites whose ids are not among `killed`, in their order.
pub open spec fn without_killed(s: Seq<Sprite>, killed: Seq<u32>) -> Seq<Sprite>
    decreases s.len(),
{
    if s.len() == 0 {
        s
    } else {
        let rest = without_killed(s.drop_last(), killed);
        if killed.contains(s.last().id) {
            rest
        } else {
            rest.push(s.last())
        }
    }
}

// ------------------------------------------------------------------
// One engine update, step by step
// ------------------------------------------------------------------
pub open spec fn with_sprite(e: EngineView, i: int, s: Sprite) -> EngineView {
    EngineView { sprites: e.sprites.update(i, s), ..e }
}

/// The collision check for the sprite at `t`: the game is told about the first
/// overlapping sprite, if there is one.
pub open spec fn collision_check<C: UpdateCallback>(cb: C::V, e: EngineView, t: int) -> (
    C::V,
    EngineView,
    bool,
) {
    match first_collider(e.sprites, t, 0) {
        None => (cb, e, false),
        Some(j) => C::collision_effect(cb, e, j, t),
    }
}

pub open spec fn collision_check_ok<C: UpdateCallback>(cb: C::V, e: EngineView, t: int) -> bool {
    match first_collider(e.sprites, t, 0) {
        None => true,
        Some(j) => C::collision_ok(cb, e, j, t),
    }
}

/// The game's view, the engine and the ids to remove after the sprite at `i`
/// has been updated.
pub open spec fn update_step<C: UpdateCallback>(
    cb: C::V,
    e: EngineView,
    i: int,
    killed: Seq<u32>,
) -> (C::V, EngineView, Seq<u32>) {
    let s = e.sprites[i];
    let r = update_result(s);
    let e1 = with_sprite(e, i, r.0);
    if r.1 == SA_KILL {
        let d = C::dying_effect(cb, e1, i);
        (d.0, d.1, killed.push(d.1.sprites[i].id))
    } else {
        let c = collision_check::<C>(cb, e1, i);
        if c.2 {
            (c.0, with_sprite(c.1, i, Sprite { position: s.position, ..c.1.sprites[i] }), killed)
        } else {
            (c.0, c.1, killed)
        }
    }
}

/// True when updating the sprite at `i` stays within `i32` arithmetic, within
/// the list, and within what the game's reactions accept.
pub open spec fn update_step_ok<C: UpdateCallback>(cb: C::V, e: EngineView, i: int) -> bool {
    &&& 0 <= i < e.sprites.len()
    &&& update_fits(e.sprites[i])
    &&& {
        let s = e.sprites[i];
        let r = update_result(s);
        let e1 = with_sprite(e, i, r.0);
        if r.1 == SA_KILL {
            &&& C::dying_ok(cb, e1, i)
            &&& i < C::dying_effect(cb, e1, i).1.sprites.len()
        } else {
            &&& collision_check_ok::<C>(cb, e1, i)
            &&& collision_check::<C>(cb, e1, i).2 ==> i < collision_check::<C>(
                cb,
                e1,
                i,
            ).1.sprites.len()
        }
    }
}

/// The state after the first `n` sprites have been updated.
pub open spec fn run_prefix<C: UpdateCallback>(cb: C::V, e: EngineView, n: nat) -> (
    C::V,
    EngineView,
    Seq<u32>,
)
    decreases n,
{
    if n == 0 {
        (cb, e, Seq::empty())
    } else {
        let r = run_prefix::<C>(cb, e, (n - 1) as nat);
        update_step::<C>(r.0, r.1, n - 1, r.2)
    }
}

pub open spec fn run_prefix_ok<C: UpdateCallback>(cb: C::V, e: EngineView, n: nat) -> bool
    decreases n,
{
    n == 0 || {
        &&& run_prefix_ok::<C>(cb, e, (n - 1) as nat)
        &&& {
            let r = run_prefix::<C>(cb, e, (n - 1) as nat);
            update_step_ok::<C>(r.0, r.1, n - 1)
        }
    }
}

/// True when a whole engine update, with these reactions of the game, can run.
pub open spec fn update_sprites_ok<C: UpdateCallback>(cb: C::V, e: EngineView) -> bool {
    run_prefix_ok::<C>(cb, e, e.sprites.len())
}

/// The game's view and the engine after a whole update: every sprite updated
/// once, in order, with the game told of deaths and collisions, and then the
/// dead sprites removed.
pub open spec fn update_sprites_result<C: UpdateCallback>(cb: C::V, e: EngineView) -> (
    C::V,
    EngineView,
) {
    let r = run_prefix::<C>(cb, e, e.sprites.len());
    (r.0, EngineView { sprites: without_killed(r.1.sprites, r.2), ..r.1 })
}

/// An update that can run over `n` sprites can run over the first `m`.
pub proof fn lemma_run_prefix_ok_smaller<C: UpdateCallback>(cb: C::V, e: EngineView, m: nat, n: nat)
    requires
        run_prefix_ok::<C>(cb, e, n),
        m <= n,
    ensures
        run_prefix_ok::<C>(cb, e, m),
    decreases n,
{
    if m < n {
        lemma_run_prefix_ok_smaller::<C>(cb, e, m, (n - 1) as nat);
    }
}

/// Where a sprite of z-order `z` goes when the search starts at `k`: after
/// the sprites of lower or equal z-order, before the first higher one.
pub proof fn lemma_insert_index_bounds(s: Seq<Sprite>, z: int, k: int)
    requires
        0 <= k <= s.len(),
    ensures
        k <= insert_index(s, z, k) <= s.len(),
        forall|j: int| k <= j < insert_index(s, z, k) ==> s[j].z_order <= z,
        insert_index(s, z, k) < s.len() ==> z < s[insert_index(s, z, k)].z_order,
    decreases s.len() - k,
{
    if k < s.len() && !(z < s[k].z_order) {
        lemma_insert_index_bounds(s, z, k + 1);
    }
}

/// Adding a sprite keeps the list ordered by z-order: the sprite goes after
/// every sprite of lower or equal z-order and before every higher one.
pub proof fn lemma_add_sprite_keeps_z_order(s: Seq<Sprite>, sprite: Sprite)
    requires
        sorted_by_z(s),
    ensures
        sorted_by_z(s.insert(insert_index(s, sprite.z_order as int, 0), sprite)),
{
    let z = sprite.z_order as int;
    let idx = insert_index(s, z, 0);
    lemma_insert_index_bounds(s, z, 0);
    let t = s.insert(idx, sprite);
    assert forall|a: int, b: int| 0 <= a <= b < t.len() implies t[a].z_order <= t[b].z_order by {
        if a < idx && b < idx {
            assert(t[a] == s[a] && t[b] == s[b]);
        } else if a < idx && b == idx {
            assert(t[a] == s[a]);
        } else if a < idx {
            assert(t[a] == s[a] && t[b] == s[b - 1]);
        } else if a == idx && b > idx {
            assert(t[b] == s[b - 1]);
            assert(s[idx].z_order <= s[b - 1].z_order);
        } else if a > idx {
            assert(t[a] == s[a - 1] && t[b] == s[b - 1]);
        }
    }
}

proof fn lemma_kept_sprites_come_from(s: Seq<Sprite>, killed: Seq<u32>)
    ensures
        forall|i: int|
            0 <= i < without_killed(s, killed).len() ==> s.contains(
                #[trigger] without_killed(s, killed)[i],
            ),
    decreases s.len(),
{
    if s.len() > 0 {
        let p = s.drop_last();
        lemma_kept_sprites_come_from(p, killed);
        let r = without_killed(p, killed);
        assert forall|i: int| 0 <= i < r.len() implies s.contains(r[i]) by {
            let m = choose|m: int| 0 <= m < p.len() && p[m] == r[i];
            assert(s[m] == p[m]);
        }
        if !killed.contains(s.last().id) {
            let w = r.push(s.last());
            assert forall|i: int| 0 <= i < w.len() implies s.contains(w[i]) by {
                if i < r.len() {
                    assert(w[i] == r[i]);
                } else {
                    assert(s[s.len() - 1] == w[i]);
                }
            }
        }
    }
}

/// After removal, no sprite with a listed id is left, every other sprite
/// is kept, and the order is kept.
pub proof fn lemma_removed_sprites_are_gone(s: Seq<Sprite>, killed: Seq<u32>)
    ensures
        forall|i: int|
            0 <= i < without_killed(s, killed).len() ==> !killed.contains(
                #[trigger] without_killed(s, killed)[i].id,
            ),
        forall|j: int|
            0 <= j < s.len() && !killed.contains(s[j].id) ==> without_killed(s, killed).contains(
                #[trigger] s[j],
            ),
        without_killed(s, killed).len() <= s.len(),
        sorted_by_z(s) ==> sorted_by_z(without_killed(s, killed)),
    decreases s.len(),
{
    if s.len() > 0 {
        let p = s.drop_last();
        lemma_removed_sprites_are_gone(p, killed);
        let r = without_killed(p, killed);
        if !killed.contains(s.last().id) {
            let w = r.push(s.last());
            assert forall|j: int| 0 <= j < s.len() && !killed.contains(s[j].id) implies w.contains(
                #[trigger] s[j],
            ) by {
                if j < s.len() - 1 {
                    assert(p[j] == s[j]);
                    assert(r.contains(p[j]));
                    let m = choose|m: int| 0 <= m < r.len() && r[m] == p[j];
                    assert(w[m] == s[j]);
                } else {
                    assert(w[r.len() as int] == s[j]);
                }
            }
            if sorted_by_z(s) {
                assert(sorted_by_z(p));
                lemma_kept_sprites_come_from(p, killed);
                assert forall|a: int, b: int| 0 <= a <= b < w.len() implies w[a].z_order
                    <= w[b].z_order by {
                    if b == w.len() - 1 && a < b {
                        assert(w[a] == r[a]);
                        assert(p.contains(r[a]));
                        let m = choose|m: int| 0 <= m < p.len() && p[m] == r[a];
                        assert(p[m] == s[m]);
                    } else if b < w.len() - 1 {
                        assert(w[a] == r[a] && w[b] == r[b]);
                    }
                }
            }
        } else {
            assert forall|j: int| 0 <= j < s.len() && !killed.contains(s[j].id) implies r.contains(
                #[trigger] s[j],
            ) by {
                assert(j < s.len() - 1);
                assert(p[j] == s[j]);
            }
        }
    }
}

/// The search for an id from `k` finds its first sprite, or tells that there
/// is none from there on.
pub proof fn lemma_find_id_bounds(s: Seq<Sprite>, id: u32, k: int)
    requires
        0 <= k,
    ensures
        find_id(s, id, k) matches Some(j) ==> k <= j < s.len() && s[j].id == id && forall|m: int|
            k <= m < j ==> s[m].id != id,
        find_id(s, id, k) is None ==> forall|m: int| k <= m < s.len() ==> s[m].id != id,
    decreases s.len() - k,
{
    if k < s.len() && s[k].id != id {
        lemma_find_id_bounds(s, id, k + 1);
    }
}

/// The collider found for sprite `t` is another sprite of the list.
pub proof fn lemma_first_collider_bounds(s: Seq<Sprite>, t: int, k: int)
    requires
        0 <= k,
        0 <= t < s.len(),
    ensures
        first_collider(s, t, k) matches Some(j) ==> k <= j < s.len() && j != t,
    decreases s.len() - k,
{
    if k < s.len() && !(k != t && spec_overlaps(s[t].collision, s[k].position)) {
        lemma_first_collider_bounds(s, t, k + 1);
    }
}

impl GameEngine {
    pub fn new() -> (e: GameEngine)
        ensures
            e@.sprites.len() == 0,
            e@.count == 0,
    {
        GameEngine { sprites: Vec::new(), counter: Counter::new() }
    }

    /// Inserts the sprite before the first sprite with a higher z-order (at the
    /// end when there is none) and returns the index it now has.
    pub fn add_sprite(&mut self, sprite: Sprite) -> (idx: usize)
        ensures
            idx == insert_index(old(self)@.sprites, sprite.z_order as int, 0),
            idx <= old(self)@.sprites.len(),
            final(self)@.sprites == old(self)@.sprites.insert(idx as int, sprite),
            final(self)@.count == old(self)@.count,
    {
        let ghost s0 = self.sprites@;
        let ghost z = sprite.z_order as int;
        proof {
            lemma_insert_index_bounds(s0, z, 0);
        }
        let n = self.sprites.len();
        let mut i: usize = 0;
        while i < n
            invariant
                0 <= i <= n,
                n == s0.len(),
                self.sprites@ == s0,
                s0 == old(self)@.sprites,
                self.counter == old(self).counter,
                z == sprite.z_order,
                insert_index(s0, z, 0) == insert_index(s0, z, i as int),
            decreases n - i,
        {
            if sprite.z_order < self.sprites[i].z_order {
                assert(insert_index(s0, z, i as int) == i as int);
                self.sprites.insert(i, sprite);
                return i;
            }
            i = i + 1;
        }
        assert(insert_index(s0, z, n as int) == n as int);
        self.sprites.push(sprite);
        n
    }

    /// Finds the index of the first sprite with the given id.
    pub fn query_sprite_idx(&self, id: u32) -> (r: Option<usize>)
        ensures
            match r {
                Some(i) => find_id(self@.sprites, id, 0) == Some(i as int),
                None => find_id(self@.sprites, id, 0) is None,
            },
    {
        proof {
            lemma_find_id_bounds(self@.sprites, id, 0);
        }
        let n = self.sprites.len();
        let mut i: usize = 0;
        while i < n
            invariant
                0 <= i <= n,
                n == self@.sprites.len(),
                find_id(self@.sprites, id, 0) == find_id(self@.sprites, id, i as int),
            decreases n - i,
        {
            if self.sprites[i].id == id {
                assert(find_id(self@.sprites, id, i as int) == Some(i as int));
                return Some(i);
            }
            i = i + 1;
        }
        None
    }

    /// The first sprite with the given id, to be changed in place.
    pub fn query_sprite(&mut self, id: u32) -> (r: Option<&mut Sprite>)
        ensures
            find_id(old(self)@.sprites, id, 0) is None ==> r is None && final(self)@ == old(self)@,
            find_id(old(self)@.sprites, id, 0) matches Some(j) ==> r is Some,
            find_id(old(self)@.sprites, id, 0) matches Some(j) ==> r matches Some(s) && *s == old(self)@.sprites[j],
            find_id(old(self)@.sprites, id, 0) matches Some(j) ==> r matches Some(s) && final(self)@.sprites == old(self)@.sprites.update(j, *final(s)),
            final(self)@.count == old(self)@.count,
    {
        proof {
            lemma_find_id_bounds(self@.sprites, id, 0);
        }
        match self.query_sprite_idx(id) {
            Some(i) => {
                assert(find_id(old(self)@.sprites, id, 0) is Some);
                let ghost j = find_id(old(self)@.sprites, id, 0)->0;
                assert(0 <= j < self.sprites.len());
                assert(j == i as int);
                let r = &mut self.sprites[i];
                assert(*r == old(self)@.sprites[j]);
                Some(r)
            },
            None => None,
        }
    }

    pub fn sprites(&self) -> (s: &Vec<Sprite>)
        ensures
            s@ == self@.sprites,
    {
        &self.sprites
    }

    /// Removes every sprite.
    pub fn clean_up_sprites(&mut self)
        ensures
            final(self)@.sprites.len() == 0,
            final(self)@.count == old(self)@.count,
    {
        self.sprites.clear();
    }

    /// Marks the sprite at `idx` as dying.
    pub fn kill_sprite(&mut self, idx: usize)
        requires
            idx < old(self)@.sprites.len(),
        ensures
            final(self)@ == with_sprite(
                old(self)@,
                idx as int,
                Sprite { dying: true, ..old(self)@.sprites[idx as int] },
            ),
    {
        self.sprites[idx].kill();
    }

    /// A fresh sprite id: one more than the last.
    pub fn next_sprite_id(&mut self) -> (id: u32)
        requires
            old(self)@.count < u32::MAX,
        ensures
            id == old(self)@.count + 1,
            final(self)@ == (EngineView { count: id, ..old(self)@ }),
            id_step(old(self)@, final(self)@, id),
    {
        match self.counter.next() {
            Some(id) => id,
            None => 0,
        }
    }

    /// Tells the game about the first sprite whose position overlaps the
    /// collision box of the sprite at `test_sprite_id`, and returns its answer.
    pub fn check_sprite_collision<C: UpdateCallback>(
        &mut self,
        test_sprite_id: usize,
        callback: &mut C,
    ) -> (hit: bool)
        requires
            test_sprite_id < old(self)@.sprites.len(),
            collision_check_ok::<C>(old(callback)@, old(self)@, test_sprite_id as int),
        ensures
            (final(callback)@, final(self)@, hit) == collision_check::<C>(
                old(callback)@,
                old(self)@,
                test_sprite_id as int,
            ),
    {
        let ghost s0 = self@.sprites;
        proof {
            lemma_first_collider_bounds(s0, test_sprite_id as int, 0);
        }
        let n = self.sprites.len();
        let mut i: usize = 0;
        while i < n
            invariant
                0 <= i <= n,
                n == s0.len(),
                test_sprite_id < n,
                self@ == old(self)@,
                s0 == old(self)@.sprites,
                callback@ == old(callback)@,
                collision_check_ok::<C>(old(callback)@, old(self)@, test_sprite_id as int),
                first_collider(s0, test_sprite_id as int, 0) == first_collider(
                    s0,
                    test_sprite_id as int,
                    i as int,
                ),
            decreases n - i,
        {
            if i != test_sprite_id {
                let other: Rect = self.sprites[i].position;
                if self.sprites[test_sprite_id].test_collison(&other) {
                    assert(first_collider(s0, test_sprite_id as int, i as int) == Some(i as int));
                    assert(collision_check_ok::<C>(callback@, self@, test_sprite_id as int));
                    assert(C::collision_ok(callback@, self@, i as int, test_sprite_id as int));
                    return callback.on_sprite_collision(self, i, test_sprite_id);
                }
            }
            i = i + 1;
        }
        false
    }

    /// Updates every sprite once, in order. A sprite that asks to die is reported
    /// to the game and removed at the end; a sprite that collides is reported,
    /// and put back where it was when the game says so.
    pub fn update_sprites<C: UpdateCallback>(&mut self, callback: &mut C)
        requires
            update_sprites_ok::<C>(old(callback)@, old(self)@),
        ensures
            (final(callback)@, final(self)@) == update_sprites_result::<C>(
                old(callback)@,
                old(self)@,
            ),
    {
        let ghost cb0 = callback@;
        let ghost e0 = self@;
        let n = self.sprites.len();
        let mut sprites_to_kill: Vec<u32> = Vec::new();
        let mut i: usize = 0;
        while i < n
            invariant
                0 <= i <= n,
                n == e0.sprites.len(),
                run_prefix_ok::<C>(cb0, e0, n as nat),
                (callback@, self@, sprites_to_kill@) == run_prefix::<C>(cb0, e0, i as nat),
            decreases n - i,
        {
            proof {
                lemma_run_prefix_ok_smaller::<C>(cb0, e0, (i + 1) as nat, n as nat);
            }
            self.update_sprite_at(callback, i, &mut sprites_to_kill);
            i = i + 1;
        }
        self.remove_killed(&sprites_to_kill);
    }

    /// One step of [`GameEngine::update_sprites`]: updates the sprite at `i`,
    /// tells the game of its death or of its first collision, and lists its id
    /// in `killed` when it dies.
    pub fn update_sprite_at<C: UpdateCallback>(
        &mut self,
        callback: &mut C,
        i: usize,
        killed: &mut Vec<u32>,
    )
        requires
            update_step_ok::<C>(old(callback)@, old(self)@, i as int),
        ensures
            (final(callback)@, final(self)@, final(killed)@) == update_step::<C>(
                old(callback)@,
                old(self)@,
                i as int,
                old(killed)@,
            ),
    {
        let old_sprite_pos: Rect = self.sprites[i].position;
        let sprite_action = self.sprites[i].update();
        if sprite_action == SA_KILL {
            callback.on_sprite_dying(self, i);
            let id = self.sprites[i].id;
            killed.push(id);
        } else {
            if self.check_sprite_collision(i, callback) {
                self.sprites[i].set_position_rect(old_sprite_pos);
            }
        }
    }

    /// Removes the sprites whose ids are listed.
    fn remove_killed(&mut self, killed: &Vec<u32>)
        ensures
            final(self)@ == (EngineView {
                sprites: without_killed(old(self)@.sprites, killed@),
                ..old(self)@
            }),
    {
        let ghost s0 = self@.sprites;
        let mut kept: Vec<Sprite> = Vec::new();
        let mut rest = Vec::new();
        std::mem::swap(&mut rest, &mut self.sprites);
        let n = rest.len();
        let mut i: usize = 0;
        while i < n
            invariant
                0 <= i <= n,
                n == s0.len(),
                rest@ == s0.skip(i as int),
                kept@ == without_killed(s0.take(i as int), killed@),
                self.counter == old(self).counter,
            decreases n - i,
        {
            assert(s0.take(i as int + 1).drop_last() == s0.take(i as int));
            assert(s0.take(i as int + 1).last() == s0[i as int]);
            let s = rest.remove(0);
            assert(rest@ == s0.skip(i as int + 1));
            if !contains_id(killed, s.id) {
                kept.push(s);
            }
            i = i + 1;
        }
        assert(s0.take(n as int) == s0);
        self.sprites = kept;
    }
}

impl GameEngine {
    /// What drawing every sprite calls for: the calls of each sprite, lowest
    /// z-order first (see [`sprites_calls`]).
    pub fn draw_calls(&self) -> (r: Vec<DrawCall>)
        requires
            forall|i: int| 0 <= i < self@.sprites.len() ==> draw_fits(#[trigger] self@.sprites[i]),
        ensures
            calls_view(r@) == sprites_calls(self@.sprites),
    {
        let mut calls: Vec<DrawCall> = Vec::new();
        let mut i: usize = 0;
        while i < self.sprites.len()
            invariant
                0 <= i <= self.sprites.len(),
                forall|j: int| 0 <= j < self@.sprites.len() ==> draw_fits(#[trigger] self@.sprites[j]),
                calls_view(calls@) == sprites_calls(self@.sprites.take(i as int)),
            decreases self.sprites.len() - i,
        {
            assert(draw_fits(self@.sprites[i as int]));
            let mut more = self.sprites[i].draw_calls();
            let ghost before = calls@;
            calls.append(&mut more);
            proof {
                let t = self@.sprites.take(i as int + 1);
                assert(t.drop_last() =~= self@.sprites.take(i as int));
                assert(t.last() == self@.sprites[i as int]);
                assert(calls_view(calls@) =~= calls_view(before) + sprite_calls(self@.sprites[i as int]));
            }
            i = i + 1;
        }
        assert(self@.sprites.take(self.sprites.len() as int) =~= self@.sprites);
        calls
    }

    /// Draws every sprite: makes the calls of [`GameEngine::draw_calls`] on the
    /// canvas.
    pub fn draw_sprites<C: CanvasContext>(&self, context: &C)
        requires
            forall|i: int| 0 <= i < self@.sprites.len() ==> draw_fits(#[trigger] self@.sprites[i]),
    {
        replay(&self.draw_calls(), context);
    }
}

/// One call of [`GameEngine::next_sprite_id`]: it hands out `id` and takes the
/// engine from `before` to `after`.
pub open spec fn id_step(before: EngineView, after: EngineView, id: u32) -> bool {
    &&& before.count < u32::MAX
    &&& id == before.count + 1
    &&& after == (EngineView { count: id, ..before })
}

proof fn lemma_counts_after_steps(views: Seq<EngineView>, ids: Seq<u32>, j: int)
    requires
        views.len() == ids.len() + 1,
        forall|k: int| 0 <= k < ids.len() ==> id_step(views[k], #[trigger] views[k + 1], ids[k]),
        0 <= j <= ids.len(),
    ensures
        views[j].count == views[0].count + j,
    decreases j,
{
    if j > 0 {
        lemma_counts_after_steps(views, ids, j - 1);
        assert(id_step(views[j - 1], views[j - 1 + 1], ids[j - 1]));
    }
}

/// Successive ids count up one by one from the engine's count, so no id is
/// handed out twice and none is 0; a new engine hands out 1, 2, 3, ...
pub proof fn lemma_ids_count_up(views: Seq<EngineView>, ids: Seq<u32>)
    requires
        views.len() == ids.len() + 1,
        forall|k: int| 0 <= k < ids.len() ==> id_step(views[k], #[trigger] views[k + 1], ids[k]),
    ensures
        forall|j: int| 0 <= j < ids.len() ==> #[trigger] ids[j] == views[0].count + j + 1,
        forall|i: int, j: int| 0 <= i < j < ids.len() ==> ids[i] < ids[j],
        forall|j: int| 0 <= j < ids.len() ==> #[trigger] ids[j] != 0,
        views[0].count == 0 ==> forall|j: int| 0 <= j < ids.len() ==> #[trigger] ids[j] == j + 1,
{
    assert forall|j: int| 0 <= j < ids.len() implies #[trigger] ids[j] == views[0].count + j + 1 by {
        lemma_counts_after_steps(views, ids, j);
        assert(id_step(views[j], views[j + 1], ids[j]));
    }
}

/// The calls of each sprite, one sprite after the other.
pub open spec fn sprites_calls(ss: Seq<Sprite>) -> Seq<DrawCallView>
    decreases ss.len(),
{
    if ss.len() == 0 {
        Seq::empty()
    } else {
        sprites_calls(ss.drop_last()) + sprite_calls(ss.last())
    }
}

/// The reactions of a game that ignores deaths and collisions: the snowball
/// fight.
pub struct SnowballFightUpdateCallback {}

/// The reactions of a game that ignores deaths and collisions: the wanderer.
pub struct WandererUpdateCallback {}

impl View for SnowballFightUpdateCallback {
    type V = ();

    open spec fn view(&self) -> () {
        ()
    }
}

impl View for WandererUpdateCallback {
    type V = ();

    open spec fn view(&self) -> () {
        ()
    }
}

impl UpdateCallback for SnowballFightUpdateCallback {
    open spec fn dying_ok(cb: (), e: EngineView, idx: int) -> bool {
        true
    }

    open spec fn dying_effect(cb: (), e: EngineView, idx: int) -> ((), EngineView) {
        (cb, e)
    }

    open spec fn collision_ok(cb: (), e: EngineView, hitter: int, hittee: int) -> bool {
        true
    }

    open spec fn collision_effect(cb: (), e: EngineView, hitter: int, hittee: int) -> (
        (),
        EngineView,
        bool,
    ) {
        (cb, e, false)
    }

    fn on_sprite_dying(&mut self, engine: &mut GameEngine, idx_sprite_dying: usize) {
    }

    fn on_sprite_collision(
        &mut self,
        engine: &mut GameEngine,
        idx_sprite_hitter: usize,
        idx_sprite_hittee: usize,
    ) -> (hit: bool) {
        false
    }
}

impl UpdateCallback for WandererUpdateCallback {
    open spec fn dying_ok(cb: (), e: EngineView, idx: int) -> bool {
        true
    }

    open spec fn dying_effect(cb: (), e: EngineView, idx: int) -> ((), EngineView) {
        (cb, e)
    }

    open spec fn collision_ok(cb: (), e: EngineView, hitter: int, hittee: int) -> bool {
        true
    }

    open spec fn collision_effect(cb: (), e: EngineView, hitter: int, hittee: int) -> (
        (),
        EngineView,
        bool,
    ) {
        (cb, e, false)
    }

    fn on_sprite_dying(&mut self, engine: &mut GameEngine, idx_sprite_dying: usize) {
    }

    fn on_sprite_collision(
        &mut self,
        engine: &mut GameEngine,
        idx_sprite_hitter: usize,
        idx_sprite_hittee: usize,
    ) -> (hit: bool) {
        false
    }
}

/// Whether `id` is in the list.
fn contains_id(ids: &Vec<u32>, id: u32) -> (b: bool)
    ensures
        b == ids@.contains(id),
{
    let n = ids.len();
    let mut i: usize = 0;
    while i < n
        invariant
            0 <= i <= n,
            n == ids@.len(),
            forall|k: int| 0 <= k < i ==> ids@[k] != id,
        decreases n - i,
    {
        if ids[i] == id {
            return true;
        }
        i = i + 1;
    }
    false
}

} // verus!
