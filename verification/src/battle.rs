use crate::game::KeyEvent;
use crate::text::text_eq;
use vstd::prelude::*;

verus! {

// ------------------------------------------------------------------
// Keys
// ------------------------------------------------------------------
pub const VK_SPACE: i32 = 32;
pub const VK_LEFT: i32 = 37;
pub const VK_UP: i32 = 38;
pub const VK_RIGHT: i32 = 39;
pub const VK_DOWN: i32 = 40;

/// The screen is taller than wide; the field is shown turned by a quarter.
pub const PORTRAIT: i32 = 0;

/// The screen is wider than tall.
pub const LANDSCAPE: i32 = 1;

pub open spec fn is_arrow(key: i32) -> bool {
    key == VK_LEFT || key == VK_UP || key == VK_RIGHT || key == VK_DOWN
}

/// The key meant when `key` is pressed on a screen in portrait: the field is
/// turned, so up means left, down right, left down and right up.
pub open spec fn spec_portrait_key(key: i32) -> i32 {
    if key == VK_UP {
        VK_LEFT
    } else if key == VK_DOWN {
        VK_RIGHT
    } else if key == VK_LEFT {
        VK_DOWN
    } else if key == VK_RIGHT {
        VK_UP
    } else {
        key
    }
}

pub fn portrait_key(key: i32) -> (k: i32)
    ensures
        k == spec_portrait_key(key),
{
    match key {
        VK_UP => VK_LEFT,
        VK_DOWN => VK_RIGHT,
        VK_LEFT => VK_DOWN,
        VK_RIGHT => VK_UP,
        _ => key,
    }
}

/// Turns the keys of the events for a screen in the given orientation; only a
/// portrait screen changes them.
pub fn orient_key_events(events: &mut Vec<(KeyEvent, i32)>, orientation: i32)
    ensures
        final(events)@.len() == old(events)@.len(),
        forall|i: int|
            0 <= i < old(events)@.len() ==> (#[trigger] final(events)@[i]).0 == old(events)@[i].0
                && final(events)@[i].1 == if orientation == PORTRAIT {
                spec_portrait_key(old(events)@[i].1)
            } else {
                old(events)@[i].1
            },
{
    if orientation == PORTRAIT {
        let mut i: usize = 0;
        while i < events.len()
            invariant
                0 <= i <= events.len(),
                events@.len() == old(events)@.len(),
                orientation == PORTRAIT,
                forall|j: int|
                    0 <= j < i ==> (#[trigger] events@[j]).0 == old(events)@[j].0 && events@[j].1
                        == spec_portrait_key(old(events)@[j].1),
                forall|j: int| i <= j < events@.len() ==> #[trigger] events@[j] == old(events)@[j],
            decreases events.len() - i,
        {
            let (event, key) = events[i];
            events.set(i, (event, portrait_key(key)));
            i = i + 1;
        }
    }
}

/// Turning a portrait screen's keys four times gives the keys back: each arrow
/// goes round all four directions.
pub proof fn lemma_portrait_turn_has_order_four(key: i32)
    ensures
        spec_portrait_key(spec_portrait_key(spec_portrait_key(spec_portrait_key(key)))) == key,
        is_arrow(key) ==> spec_portrait_key(key) != key && is_arrow(spec_portrait_key(key)),
        !is_arrow(key) ==> spec_portrait_key(key) == key,
{
}

/// Where a pressed arrow key sends a tank: the direction of its velocity along
/// x and y, and the frame that shows the tank facing that way (0 up, 1 down,
/// 2 left, 3 right). Other keys do not move it.
pub open spec fn spec_key_motion(key: i32) -> Option<(i32, i32, i32)> {
    if key == VK_LEFT {
        Some((-1i32, 0i32, 2i32))
    } else if key == VK_RIGHT {
        Some((1i32, 0i32, 3i32))
    } else if key == VK_UP {
        Some((0i32, -1i32, 0i32))
    } else if key == VK_DOWN {
        Some((0i32, 1i32, 1i32))
    } else {
        None
    }
}

pub fn key_motion(key: i32) -> (m: Option<(i32, i32, i32)>)
    ensures
        m == spec_key_motion(key),
{
    match key {
        VK_LEFT => Some((-1, 0, 2)),
        VK_RIGHT => Some((1, 0, 3)),
        VK_UP => Some((0, -1, 0)),
        VK_DOWN => Some((0, 1, 1)),
        _ => None,
    }
}

/// What a key event does to the player's tank.
#[derive(Clone, Copy, Debug, PartialEq, Eq, Structural)]
pub enum TankCommand {
    /// Drive in the direction `(dx, dy)`, showing `frame`.
    Drive { dx: i32, dy: i32, frame: i32 },
    /// Fire a missile.
    Fire,
    /// Stand still.
    Stop,
    /// Nothing.
    Ignore,
}

/// The server's reading of a key event: a pressed arrow drives, a pressed space
/// fires, a released arrow stops; anything else is ignored.
pub open spec fn spec_key_command(event: KeyEvent, key: i32) -> TankCommand {
    match event {
        KeyEvent::KeyDown => if key == VK_SPACE {
            TankCommand::Fire
        } else {
            match spec_key_motion(key) {
                Some(m) => TankCommand::Drive { dx: m.0, dy: m.1, frame: m.2 },
                None => TankCommand::Ignore,
            }
        },
        KeyEvent::KeyUp => if is_arrow(key) {
            TankCommand::Stop
        } else {
            TankCommand::Ignore
        },
    }
}

pub fn key_command(event: KeyEvent, key: i32) -> (c: TankCommand)
    ensures
        c == spec_key_command(event, key),
{
    match event {
        KeyEvent::KeyDown => {
            if key == VK_SPACE {
                TankCommand::Fire
            } else {
                match key_motion(key) {
                    Some((dx, dy, frame)) => TankCommand::Drive { dx, dy, frame },
                    None => TankCommand::Ignore,
                }
            }
        },
        KeyEvent::KeyUp => {
            if key == VK_LEFT || key == VK_RIGHT || key == VK_UP || key == VK_DOWN {
                TankCommand::Stop
            } else {
                TankCommand::Ignore
            }
        },
    }
}

/// On a client only arrows count: a space bar is the server's business.
pub fn client_key_command(event: KeyEvent, key: i32) -> (c: TankCommand)
    ensures
        c == (if spec_key_command(event, key) == TankCommand::Fire {
            TankCommand::Ignore
        } else {
            spec_key_command(event, key)
        }),
{
    match key_command(event, key) {
        TankCommand::Fire => TankCommand::Ignore,
        c => c,
    }
}

// ------------------------------------------------------------------
// Deaths and collisions
// ------------------------------------------------------------------
pub const SPRITE_TANK: i32 = 0;
pub const SPRITE_MISSILE: i32 = 1;
pub const SPRITE_LG_EXPLOSION: i32 = 2;
pub const SPRITE_SM_EXPLOSION: i32 = 3;
pub const SPRITE_SM_GUN: i32 = 4;
pub const SPRITE_NURSE: i32 = 5;

/// The lives a tank starts with, and the most it can have.
pub const PLAYER_LIVES: u32 = 6;

/// What the rules read of a sprite in a collision: its kind, its id, the id of
/// the tank that fired it (for a missile) and its lives.
#[derive(Clone, Copy, Debug, PartialEq, Eq, Structural)]
pub struct Fighter {
    pub class: i32,
    pub id: u32,
    pub parent: u32,
    pub lives: u32,
}

/// What a collision does to the two sprites.
#[derive(Clone, Copy, Debug, PartialEq, Eq, Structural)]
pub struct Collision {
    pub kill_hitter: bool,
    pub kill_hittee: bool,
    /// The lives the hittee keeps.
    pub hittee_lives: u32,
    /// The tank credited with the hittee, if it is destroyed by a missile.
    pub killer: Option<u32>,
    /// The hittee stops moving.
    pub stop_hittee: bool,
    /// The engine puts the hitter back where it was before this update.
    pub restore: bool,
}

/// A collision that changes nothing.
pub open spec fn no_effect(hittee: Fighter) -> Collision {
    Collision {
        kill_hitter: false,
        kill_hittee: false,
        hittee_lives: hittee.lives,
        killer: None,
        stop_hittee: false,
        restore: false,
    }
}

/// The server's rules. A missile does not hurt the tank that fired it; another
/// tank loses a life, and at its last life it is destroyed with the missile and
/// the missile's tank is credited. A missile that hits a nurse destroys both and
/// credits its tank. Missiles of different tanks destroy each other. A tank that
/// runs into another stops it.
pub open spec fn spec_server_collision(hitter: Fighter, hittee: Fighter) -> Collision {
    if hitter.class == SPRITE_MISSILE && hittee.class == SPRITE_TANK {
        if hitter.parent == hittee.id {
            no_effect(hittee)
        } else if hittee.lives > 1 {
            Collision {
                kill_hitter: true,
                hittee_lives: (hittee.lives - 1) as u32,
                ..no_effect(hittee)
            }
        } else {
            Collision {
                kill_hitter: true,
                kill_hittee: true,
                killer: Some(hitter.parent),
                restore: true,
                ..no_effect(hittee)
            }
        }
    } else if hitter.class == SPRITE_MISSILE && hittee.class == SPRITE_NURSE {
        Collision {
            kill_hitter: true,
            kill_hittee: true,
            killer: Some(hitter.parent),
            restore: true,
            ..no_effect(hittee)
        }
    } else if hitter.class == SPRITE_MISSILE && hittee.class == SPRITE_MISSILE {
        if hitter.parent != hittee.parent {
            Collision { kill_hitter: true, kill_hittee: true, restore: true, ..no_effect(hittee) }
        } else {
            no_effect(hittee)
        }
    } else if hitter.class == SPRITE_TANK && hittee.class == SPRITE_TANK {
        Collision { stop_hittee: true, restore: true, ..no_effect(hittee) }
    } else {
        no_effect(hittee)
    }
}

/// The client's rules: tanks do not drive through each other, and only the
/// player's own tank is stopped here; everything else is the server's.
pub open spec fn spec_client_collision(player_id: u32, hitter: Fighter, hittee: Fighter) -> Collision {
    if hitter.class == SPRITE_TANK && hittee.class == SPRITE_TANK {
        Collision { stop_hittee: hittee.id == player_id, restore: true, ..no_effect(hittee) }
    } else {
        no_effect(hittee)
    }
}

/// What happens when a sprite has died.
#[derive(Clone, Copy, Debug, PartialEq, Eq, Structural)]
pub enum DyingAction {
    /// A small explosion where the missile was.
    SmallExplosion,
    /// A large explosion where the tank was; its killer scores a point.
    LargeExplosion { killer: u32 },
    /// The tank that shot the nurse gains a life.
    Heal { killer: u32 },
    Nothing,
}

pub open spec fn spec_dying_action(class: i32, killer: u32) -> DyingAction {
    if class == SPRITE_MISSILE {
        DyingAction::SmallExplosion
    } else if class == SPRITE_TANK {
        DyingAction::LargeExplosion { killer }
    } else if class == SPRITE_NURSE {
        DyingAction::Heal { killer }
    } else {
        DyingAction::Nothing
    }
}

/// The lives of a tank healed by a nurse: one more, up to six.
pub open spec fn spec_healed_lives(lives: u32) -> u32 {
    if lives < 6 {
        (lives + 1) as u32
    } else {
        lives
    }
}

pub fn healed_lives(lives: u32) -> (l: u32)
    ensures
        l == spec_healed_lives(lives),
{
    if lives < 6 {
        lives + 1
    } else {
        lives
    }
}

/// Something the server tells every client.
pub enum ServerEvent {
    /// A player died: its id, its name and its killer's name.
    PlayerDying(u32, String, String),
    /// A player joined: its address, id and name.
    PlayerJoin(String, u32, String),
}

/// A dying sprite as the server's rules see it.
pub struct DyingSprite {
    pub class: i32,
    pub id: u32,
    pub name: String,
    pub killer: u32,
    pub killer_name: String,
}

/// Whether the event reports the death of this sprite's player.
pub open spec fn reports_death(e: ServerEvent, dying: DyingSprite) -> bool {
    match e {
        ServerEvent::PlayerDying(id, name, killer_name) => id == dying.id && name@ == dying.name@
            && killer_name@ == dying.killer_name@,
        _ => false,
    }
}

/// The server's reactions to collisions and deaths; the deaths of players are
/// collected as events for the clients.
pub struct ServerUpdateCallback {
    pub events: Vec<ServerEvent>,
}

impl ServerUpdateCallback {
    pub fn new() -> (c: ServerUpdateCallback)
        ensures
            c.events@.len() == 0,
    {
        ServerUpdateCallback { events: Vec::new() }
    }

    /// What a death leads to; the death of a tank is recorded as a
    /// `PlayerDying` event with the names of the player and of the killer.
    pub fn on_sprite_dying(&mut self, dying: DyingSprite) -> (a: DyingAction)
        ensures
            a == spec_dying_action(dying.class, dying.killer),
            dying.class == SPRITE_TANK ==> final(self).events@.len() == old(self).events@.len() + 1
                && final(self).events@.drop_last() == old(self).events@ && reports_death(
                final(self).events@.last(),
                dying,
            ),
            dying.class != SPRITE_TANK ==> final(self).events@ == old(self).events@,
    {
        if dying.class == SPRITE_MISSILE {
            DyingAction::SmallExplosion
        } else if dying.class == SPRITE_TANK {
            let killer = dying.killer;
            self.events.push(ServerEvent::PlayerDying(dying.id, dying.name, dying.killer_name));
            proof {
                assert(self.events@.drop_last() =~= old(self).events@);
            }
            DyingAction::LargeExplosion { killer }
        } else if dying.class == SPRITE_NURSE {
            DyingAction::Heal { killer: dying.killer }
        } else {
            DyingAction::Nothing
        }
    }

    /// What a collision does, by the server's rules.
    pub fn on_sprite_collision(&self, hitter: Fighter, hittee: Fighter) -> (c: Collision)
        ensures
            c == spec_server_collision(hitter, hittee),
    {
        let keep = Collision {
            kill_hitter: false,
            kill_hittee: false,
            hittee_lives: hittee.lives,
            killer: None,
            stop_hittee: false,
            restore: false,
        };
        if hitter.class == SPRITE_MISSILE && hittee.class == SPRITE_TANK {
            if hitter.parent == hittee.id {
                keep
            } else if hittee.lives > 1 {
                Collision { kill_hitter: true, hittee_lives: hittee.lives - 1, ..keep }
            } else {
                Collision {
                    kill_hitter: true,
                    kill_hittee: true,
                    killer: Some(hitter.parent),
                    restore: true,
                    ..keep
                }
            }
        } else if hitter.class == SPRITE_MISSILE && hittee.class == SPRITE_NURSE {
            Collision {
                kill_hitter: true,
                kill_hittee: true,
                killer: Some(hitter.parent),
                restore: true,
                ..keep
            }
        } else if hitter.class == SPRITE_MISSILE && hittee.class == SPRITE_MISSILE {
            if hitter.parent != hittee.parent {
                Collision { kill_hitter: true, kill_hittee: true, restore: true, ..keep }
            } else {
                keep
            }
        } else if hitter.class == SPRITE_TANK && hittee.class == SPRITE_TANK {
            Collision { stop_hittee: true, restore: true, ..keep }
        } else {
            keep
        }
    }

    /// Hands out the recorded events, oldest first, and forgets them.
    pub fn take_events(&mut self) -> (r: Vec<ServerEvent>)
        ensures
            r@ == old(self).events@,
            final(self).events@.len() == 0,
    {
        let mut events: Vec<ServerEvent> = Vec::new();
        events.append(&mut self.events);
        events
    }
}

/// A client's reactions: it only keeps its own tank from driving through
/// others; deaths are the server's business.
pub struct ClientUpdateCallback {
    pub player_id: u32,
}

impl ClientUpdateCallback {
    pub fn new(player_id: u32) -> (c: ClientUpdateCallback)
        ensures
            c.player_id == player_id,
    {
        ClientUpdateCallback { player_id }
    }

    pub fn on_sprite_dying(&self, dying: &DyingSprite) -> (a: DyingAction)
        ensures
            a == DyingAction::Nothing,
    {
        DyingAction::Nothing
    }

    pub fn on_sprite_collision(&self, hitter: Fighter, hittee: Fighter) -> (c: Collision)
        ensures
            c == spec_client_collision(self.player_id, hitter, hittee),
    {
        let keep = Collision {
            kill_hitter: false,
            kill_hittee: false,
            hittee_lives: hittee.lives,
            killer: None,
            stop_hittee: false,
            restore: false,
        };
        if hitter.class == SPRITE_TANK && hittee.class == SPRITE_TANK {
            Collision { stop_hittee: hittee.id == self.player_id, restore: true, ..keep }
        } else {
            keep
        }
    }
}

/// A missile never hurts the tank that fired it.
pub proof fn lemma_own_missile_is_harmless(hitter: Fighter, hittee: Fighter)
    requires
        hitter.class == SPRITE_MISSILE,
        hittee.class == SPRITE_TANK,
        hitter.parent == hittee.id,
    ensures
        spec_server_collision(hitter, hittee) == no_effect(hittee),
{
}

/// A hit costs a tank one life at most, and the tank is destroyed only when the
/// hit takes its last life; whoever fired is then credited with it.
pub proof fn lemma_tank_dies_at_last_life(hitter: Fighter, hittee: Fighter)
    requires
        hittee.class == SPRITE_TANK,
    ensures
        ({
            let c = spec_server_collision(hitter, hittee);
            &&& c.hittee_lives == hittee.lives || c.hittee_lives == hittee.lives - 1
            &&& c.kill_hittee <==> (hitter.class == SPRITE_MISSILE && hitter.parent != hittee.id
                && hittee.lives <= 1)
            &&& c.kill_hittee ==> c.killer == Some(hitter.parent)
        }),
{
}

/// A nurse never heals a tank beyond the lives it starts with.
pub proof fn lemma_healing_is_capped(lives: u32)
    requires
        lives <= PLAYER_LIVES,
    ensures
        lives <= spec_healed_lives(lives) <= PLAYER_LIVES,
        lives < PLAYER_LIVES ==> spec_healed_lives(lives) == lives + 1,
{
}

/// The extra data the server sends along with a sprite: a tank's score and
/// lives, each cut to 16 bits.
pub struct ExtraData {
    pub score: u16,
    pub lives: u16,
}

pub const RES_TANK_BITMAP: u8 = 0;

/// The extra data for a sprite with this resource: only tanks carry one.
pub fn extra_data_for(res: u8, score: i32, lives: u32) -> (e: Option<ExtraData>)
    ensures
        res == RES_TANK_BITMAP ==> (e matches Some(d) && d.score == score as u16 && d.lives
            == lives as u16),
        res != RES_TANK_BITMAP ==> e is None,
{
    if res == RES_TANK_BITMAP {
        Some(ExtraData { score: score as u16, lives: lives as u16 })
    } else {
        None
    }
}

// ------------------------------------------------------------------
// The scoreboard
// ------------------------------------------------------------------
/// `t` with `x` placed after every leading entry that scores at least as much.
pub open spec fn insert_by_score(t: Seq<(u32, i32)>, x: (u32, i32)) -> Seq<(u32, i32)>
    decreases t.len(),
{
    if t.len() == 0 {
        seq![x]
    } else if t[0].1 >= x.1 {
        seq![t[0]] + insert_by_score(t.drop_first(), x)
    } else {
        seq![x] + t
    }
}

/// The players ordered by score, highest first; players with equal scores keep
/// their order.
pub open spec fn sorted_by_score(s: Seq<(u32, i32)>) -> Seq<(u32, i32)>
    decreases s.len(),
{
    if s.len() == 0 {
        Seq::empty()
    } else {
        insert_by_score(sorted_by_score(s.drop_last()), s.last())
    }
}

/// The three best players, best first (fewer when fewer play).
pub open spec fn spec_leaders(s: Seq<(u32, i32)>) -> Seq<(u32, i32)> {
    let t = sorted_by_score(s);
    if t.len() <= 3 {
        t
    } else {
        t.take(3)
    }
}

pub open spec fn descending(t: Seq<(u32, i32)>) -> bool {
    forall|i: int, j: int| 0 <= i < j < t.len() ==> t[i].1 >= t[j].1
}

proof fn lemma_insert_at_first_lower(t: Seq<(u32, i32)>, x: (u32, i32), k: int)
    requires
        0 <= k <= t.len(),
        forall|j: int| 0 <= j < k ==> t[j].1 >= x.1,
        k < t.len() ==> t[k].1 < x.1,
    ensures
        insert_by_score(t, x) == t.insert(k, x),
    decreases t.len(),
{
    if t.len() == 0 {
        assert(t.insert(k, x) =~= seq![x]);
    } else if k == 0 {
        assert(t.insert(0, x) =~= seq![x] + t);
    } else {
        let u = t.drop_first();
        assert forall|j: int| 0 <= j < k - 1 implies u[j].1 >= x.1 by {
            assert(u[j] == t[j + 1]);
        }
        lemma_insert_at_first_lower(u, x, k - 1);
        assert(seq![t[0]] + u.insert(k - 1, x) =~= t.insert(k, x));
    }
}

proof fn lemma_insert_keeps_descending(t: Seq<(u32, i32)>, x: (u32, i32))
    requires
        descending(t),
    ensures
        descending(insert_by_score(t, x)),
        insert_by_score(t, x).len() == t.len() + 1,
        insert_by_score(t, x).to_multiset() == t.to_multiset().insert(x),
    decreases t.len(),
{
    broadcast use vstd::seq_lib::group_to_multiset_ensures;
    if t.len() == 0 {
        assert(seq![x] =~= Seq::<(u32, i32)>::empty().push(x));
    } else if t[0].1 >= x.1 {
        let u = t.drop_first();
        lemma_insert_keeps_descending(u, x);
        let r = insert_by_score(u, x);
        assert(t =~= seq![t[0]] + u);
        assert forall|j: int| 0 <= j < r.len() implies t[0].1 >= r[j].1 by {
            assert(r.to_multiset().count(r[j]) > 0);
            assert(u.to_multiset().insert(x).count(r[j]) > 0);
            if r[j] != x {
                assert(u.to_multiset().count(r[j]) > 0);
                assert(u.contains(r[j]));
                let m = choose|m: int| 0 <= m < u.len() && u[m] == r[j];
                assert(u[m] == t[m + 1]);
            }
        }
        let v = seq![t[0]] + r;
        assert forall|i: int, j: int| 0 <= i < j < v.len() implies v[i].1 >= v[j].1 by {
            if i == 0 {
                assert(v[j] == r[j - 1]);
            } else {
                assert(v[i] == r[i - 1] && v[j] == r[j - 1]);
            }
        }
        vstd::seq_lib::lemma_multiset_commutative(seq![t[0]], r);
        vstd::seq_lib::lemma_multiset_commutative(seq![t[0]], u);
    } else {
        let v = seq![x] + t;
        assert forall|i: int, j: int| 0 <= i < j < v.len() implies v[i].1 >= v[j].1 by {
            if i == 0 {
                assert(v[j] == t[j - 1]);
                assert(t[0].1 >= t[j - 1].1 || j - 1 == 0);
            } else {
                assert(v[i] == t[i - 1] && v[j] == t[j - 1]);
            }
        }
        vstd::seq_lib::lemma_multiset_commutative(seq![x], t);
    }
}

/// The scoreboard is ordered: a player listed before another has at least as
/// high a score. It lists every player once, as a reordering of the input.
pub proof fn lemma_sorted_by_score_is_ordered(s: Seq<(u32, i32)>)
    ensures
        descending(sorted_by_score(s)),
        sorted_by_score(s).len() == s.len(),
        sorted_by_score(s).to_multiset() == s.to_multiset(),
    decreases s.len(),
{
    broadcast use vstd::seq_lib::group_to_multiset_ensures;
    if s.len() > 0 {
        lemma_sorted_by_score_is_ordered(s.drop_last());
        lemma_insert_keeps_descending(sorted_by_score(s.drop_last()), s.last());
        assert(s =~= s.drop_last().push(s.last()));
    }
}

/// The three best players, best first: the players ordered by score, highest
/// first, with equal scores in the order given.
pub fn leaders(scores: &Vec<(u32, i32)>) -> (r: Vec<(u32, i32)>)
    ensures
        r@ == spec_leaders(scores@),
{
    let mut sorted: Vec<(u32, i32)> = Vec::new();
    let mut i: usize = 0;
    while i < scores.len()
        invariant
            0 <= i <= scores.len(),
            sorted@ == sorted_by_score(scores@.take(i as int)),
        decreases scores.len() - i,
    {
        let x = scores[i];
        let mut k: usize = 0;
        while k < sorted.len() && sorted[k].1 >= x.1
            invariant
                0 <= k <= sorted.len(),
                forall|j: int| 0 <= j < k ==> sorted@[j].1 >= x.1,
            decreases sorted.len() - k,
        {
            k = k + 1;
        }
        proof {
            lemma_insert_at_first_lower(sorted@, x, k as int);
            assert(scores@.take(i as int + 1).drop_last() =~= scores@.take(i as int));
            assert(scores@.take(i as int + 1).last() == x);
        }
        sorted.insert(k, x);
        i = i + 1;
    }
    assert(scores@.take(scores.len() as int) =~= scores@);
    if sorted.len() > 3 {
        sorted.truncate(3);
    }
    sorted
}

/// The entries of `s` that are not about the player `id`, in order.
pub open spec fn without_player(s: Seq<(u32, i32)>, id: u32) -> Seq<(u32, i32)>
    decreases s.len(),
{
    if s.len() == 0 {
        Seq::empty()
    } else if s.last().0 != id {
        without_player(s.drop_last(), id).push(s.last())
    } else {
        without_player(s.drop_last(), id)
    }
}

/// The scoreboard without the player `id`, who died.
pub fn remove_leader(leaders: &mut Vec<(u32, i32)>, id: u32)
    ensures
        final(leaders)@ == without_player(old(leaders)@, id),
{
    let mut kept: Vec<(u32, i32)> = Vec::new();
    let mut i: usize = 0;
    while i < leaders.len()
        invariant
            0 <= i <= leaders.len(),
            kept@ == without_player(leaders@.take(i as int), id),
        decreases leaders.len() - i,
    {
        let p = leaders[i];
        proof {
            assert(leaders@.take(i as int + 1).drop_last() =~= leaders@.take(i as int));
            assert(leaders@.take(i as int + 1).last() == p);
        }
        if p.0 != id {
            kept.push(p);
        }
        i = i + 1;
    }
    assert(leaders@.take(leaders.len() as int) =~= leaders@);
    *leaders = kept;
}

// ------------------------------------------------------------------
// The list of recent deaths
// ------------------------------------------------------------------
/// How many frames a death stays on the screen.
pub const DYING_FRAMES: i32 = 150;

/// The deaths still shown after one more frame: each is a frame older, and
/// those shown for 150 frames are dropped.
pub open spec fn aged(s: Seq<(i32, String, String)>) -> Seq<(i32, String, String)>
    decreases s.len(),
{
    if s.len() == 0 {
        Seq::empty()
    } else {
        let rest = aged(s.drop_last());
        let e = s.last();
        if e.0 + 1 < DYING_FRAMES {
            rest.push(((e.0 + 1) as i32, e.1, e.2))
        } else {
            rest
        }
    }
}

/// Ages the shown deaths (frames shown, killer's name, victim's name) by one
/// frame.
pub fn age_dying_players(list: &mut Vec<(i32, String, String)>)
    requires
        forall|i: int| 0 <= i < old(list)@.len() ==> (#[trigger] old(list)@[i]).0 < i32::MAX,
    ensures
        final(list)@ == aged(old(list)@),
{
    let mut kept: Vec<(i32, String, String)> = Vec::new();
    let mut i: usize = 0;
    while i < list.len()
        invariant
            0 <= i <= list.len(),
            forall|j: int| 0 <= j < list@.len() ==> (#[trigger] list@[j]).0 < i32::MAX,
            kept@ == aged(list@.take(i as int)),
        decreases list.len() - i,
    {
        let frames = list[i].0;
        proof {
            assert(list@.take(i as int + 1).drop_last() =~= list@.take(i as int));
            assert(list@.take(i as int + 1).last() == list@[i as int]);
        }
        if frames + 1 < DYING_FRAMES {
            kept.push((frames + 1, list[i].1.clone(), list[i].2.clone()));
        }
        i = i + 1;
    }
    assert(list@.take(list.len() as int) =~= list@);
    *list = kept;
}

/// What a client shows besides the field: the three best players and the
/// recent deaths (frames shown, killer's name, victim's name).
pub struct Scoreboard {
    pub leaders: Vec<(u32, i32)>,
    pub dying_players: Vec<(i32, String, String)>,
}

impl Scoreboard {
    pub fn new() -> (b: Scoreboard)
        ensures
            b.leaders@.len() == 0,
            b.dying_players@.len() == 0,
    {
        Scoreboard { leaders: Vec::new(), dying_players: Vec::new() }
    }

    /// A player died: it leaves the leaders and its death is shown, new. The
    /// result tells whether it was the client's own player.
    pub fn on_player_dying(
        &mut self,
        uid: u32,
        name: String,
        killer_name: String,
        current_player: Option<u32>,
    ) -> (mine: bool)
        ensures
            final(self).leaders@ == without_player(old(self).leaders@, uid),
            final(self).dying_players@ == old(self).dying_players@.push((0i32, killer_name, name)),
            mine == (current_player == Some(uid)),
    {
        remove_leader(&mut self.leaders, uid);
        self.dying_players.push((0, killer_name, name));
        match current_player {
            Some(id) => id == uid,
            None => false,
        }
    }

    /// Ranks the players anew from their scores.
    pub fn update_leaders(&mut self, scores: &Vec<(u32, i32)>)
        ensures
            final(self).leaders@ == spec_leaders(scores@),
            final(self).dying_players@ == old(self).dying_players@,
    {
        self.leaders = leaders(scores);
    }

    /// One more frame has been shown.
    pub fn age(&mut self)
        requires
            forall|i: int|
                0 <= i < old(self).dying_players@.len() ==> (#[trigger] old(
                    self,
                ).dying_players@[i]).0 < i32::MAX,
        ensures
            final(self).dying_players@ == aged(old(self).dying_players@),
            final(self).leaders@ == old(self).leaders@,
    {
        age_dying_players(&mut self.dying_players);
    }
}

/// The id the server gave the player at this address: the last listed one,
/// when it is listed more than once.
pub open spec fn player_at(players: Seq<(u32, Seq<char>)>, ip: Seq<char>) -> Option<u32>
    decreases players.len(),
{
    if players.len() == 0 {
        None
    } else if players.last().1 == ip {
        Some(players.last().0)
    } else {
        player_at(players.drop_last(), ip)
    }
}

pub open spec fn addresses(players: Seq<(u32, String, String)>) -> Seq<(u32, Seq<char>)> {
    players.map_values(|p: (u32, String, String)| (p.0, p.1@))
}

/// Finds the client's own player in the list of players (id, address, name)
/// that the server sends.
pub fn find_current_player(players: &Vec<(u32, String, String)>, ip: &str) -> (r: Option<u32>)
    ensures
        r == player_at(addresses(players@), ip@),
{
    let mut found: Option<u32> = None;
    let mut i: usize = 0;
    while i < players.len()
        invariant
            0 <= i <= players.len(),
            found == player_at(addresses(players@.take(i as int)), ip@),
        decreases players.len() - i,
    {
        proof {
            assert(addresses(players@.take(i as int + 1)).drop_last() =~= addresses(
                players@.take(i as int),
            ));
            assert(addresses(players@.take(i as int + 1)).last() == (
                players@[i as int].0,
                players@[i as int].1@,
            ));
        }
        if text_eq(players[i].1.as_str(), ip) {
            found = Some(players[i].0);
        }
        i = i + 1;
    }
    assert(players@.take(players.len() as int) =~= players@);
    found
}

} // verus!
