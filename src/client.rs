use vstd::prelude::*;
use crate::direction::{ordinal, unit_vector, Direction, StepPoint, FRAMES_PER_DIRECTION};
use crate::protocol::{MoveInput, MoveUpdate, PlayerId, PlayerLeft, Position, Welcome};
use crate::resolver::{resolve_move, resolved};
use crate::walk_animation::{
    stage_sprite_index, stage_steps, ticked, WalkAnimation, WalkStage, WalkState, STEPS_PER_TILE,
};

verus! {

/// What a client shows of one player.
#[derive(Clone, Copy, Debug)]
pub struct PlayerView {
    pub id: PlayerId,
    pub direction: Direction,
    pub position: Position,
    pub animation: WalkAnimation,
}

/// Abstract state of a shown player: facing, tile, and walk.
pub type PlayerState = (Direction, Position, WalkState);

pub open spec fn state_of(v: PlayerView) -> PlayerState {
    (v.direction, v.position, v.animation@)
}

pub open spec fn unique_ids(s: Seq<PlayerView>) -> bool {
    forall|i: int, j: int|
        0 <= i < s.len() && 0 <= j < s.len() && i != j ==> #[trigger] s[i].id != #[trigger] s[j].id
}

pub open spec fn shows(s: Seq<PlayerView>, id: PlayerId) -> bool {
    exists|i: int| 0 <= i < s.len() && #[trigger] s[i].id == id
}

/// The shown players as a map from player id to state.
pub open spec fn views_map(s: Seq<PlayerView>) -> Map<PlayerId, PlayerState> {
    Map::new(
        |id: PlayerId| shows(s, id),
        |id: PlayerId| state_of(s[choose|i: int| 0 <= i < s.len() && #[trigger] s[i].id == id]),
    )
}

proof fn lemma_views_map(s: Seq<PlayerView>)
    requires
        unique_ids(s),
    ensures
        forall|i: int|
            0 <= i < s.len() ==> views_map(s).contains_key(#[trigger] s[i].id) && views_map(s)[s[i].id]
                == state_of(s[i]),
{
    assert forall|i: int| 0 <= i < s.len() implies views_map(s).contains_key(#[trigger] s[i].id)
        && views_map(s)[s[i].id] == state_of(s[i]) by {
        assert(shows(s, s[i].id));
        let j = choose|j: int| 0 <= j < s.len() && #[trigger] s[j].id == s[i].id;
        assert(j == i);
    }
}

proof fn lemma_views_update(s: Seq<PlayerView>, i: int, v: PlayerView)
    requires
        unique_ids(s),
        0 <= i < s.len(),
        v.id == s[i].id,
    ensures
        unique_ids(s.update(i, v)),
        views_map(s.update(i, v)) == views_map(s).insert(v.id, state_of(v)),
{
    let t = s.update(i, v);
    assert forall|a: int, b: int| 0 <= a < t.len() && 0 <= b < t.len() && a != b implies #[trigger] t[a].id
        != #[trigger] t[b].id by {
        assert(t[a].id == s[a].id && t[b].id == s[b].id);
    }
    lemma_views_map(s);
    lemma_views_map(t);
    let m = views_map(s).insert(v.id, state_of(v));
    assert forall|k: PlayerId| #[trigger] views_map(t).contains_key(k) <==> m.contains_key(k) by {
        if views_map(t).contains_key(k) {
            let j = choose|j: int| 0 <= j < t.len() && #[trigger] t[j].id == k;
            assert(s[j].id == k);
        }
        if views_map(s).contains_key(k) {
            let j = choose|j: int| 0 <= j < s.len() && #[trigger] s[j].id == k;
            assert(t[j].id == k);
        }
    }
    assert forall|k: PlayerId| #[trigger] views_map(t).contains_key(k) implies views_map(t)[k] == m[k] by {
        let j = choose|j: int| 0 <= j < t.len() && #[trigger] t[j].id == k;
        assert(t[j].id == k);
        if j != i {
            assert(s[j] == t[j]);
        }
    }
    assert(views_map(t) =~= m);
}

proof fn lemma_views_push(s: Seq<PlayerView>, v: PlayerView)
    requires
        unique_ids(s),
        !shows(s, v.id),
    ensures
        unique_ids(s.push(v)),
        views_map(s.push(v)) == views_map(s).insert(v.id, state_of(v)),
{
    let t = s.push(v);
    assert forall|a: int, b: int| 0 <= a < t.len() && 0 <= b < t.len() && a != b implies #[trigger] t[a].id
        != #[trigger] t[b].id by {
        if a < s.len() && b < s.len() {
            assert(t[a] == s[a] && t[b] == s[b]);
        } else if a < s.len() {
            assert(t[a] == s[a]);
        } else {
            assert(t[b] == s[b]);
        }
    }
    lemma_views_map(s);
    lemma_views_map(t);
    let m = views_map(s).insert(v.id, state_of(v));
    assert forall|k: PlayerId| #[trigger] views_map(t).contains_key(k) <==> m.contains_key(k) by {
        if views_map(t).contains_key(k) && k != v.id {
            let j = choose|j: int| 0 <= j < t.len() && #[trigger] t[j].id == k;
            assert(s[j].id == k);
        }
        if views_map(s).contains_key(k) {
            let j = choose|j: int| 0 <= j < s.len() && #[trigger] s[j].id == k;
            assert(t[j].id == k);
        }
        if k == v.id {
            assert(t[s.len() as int].id == k);
        }
    }
    assert forall|k: PlayerId| #[trigger] views_map(t).contains_key(k) implies views_map(t)[k] == m[k] by {
        let j = choose|j: int| 0 <= j < t.len() && #[trigger] t[j].id == k;
        assert(t[j].id == k);
        if j < s.len() {
            assert(s[j] == t[j]);
        }
    }
    assert(views_map(t) =~= m);
}

proof fn lemma_views_remove(s: Seq<PlayerView>, i: int)
    requires
        unique_ids(s),
        0 <= i < s.len(),
    ensures
        unique_ids(s.remove(i)),
        views_map(s.remove(i)) == views_map(s).remove(s[i].id),
{
    let t = s.remove(i);
    assert forall|a: int, b: int| 0 <= a < t.len() && 0 <= b < t.len() && a != b implies #[trigger] t[a].id
        != #[trigger] t[b].id by {
        let a0 = if a < i { a } else { a + 1 };
        let b0 = if b < i { b } else { b + 1 };
        assert(t[a] == s[a0] && t[b] == s[b0]);
        assert(s[a0].id != s[b0].id);
    }
    lemma_views_map(s);
    lemma_views_map(t);
    let m = views_map(s).remove(s[i].id);
    assert forall|k: PlayerId| #[trigger] views_map(t).contains_key(k) <==> m.contains_key(k) by {
        if views_map(t).contains_key(k) {
            let j = choose|j: int| 0 <= j < t.len() && #[trigger] t[j].id == k;
            let j0 = if j < i { j } else { j + 1 };
            assert(s[j0] == t[j]);
            assert(s[j0].id != s[i].id);
        }
        if views_map(s).contains_key(k) && k != s[i].id {
            let j = choose|j: int| 0 <= j < s.len() && #[trigger] s[j].id == k;
            let j1 = if j < i { j } else { j - 1 };
            assert(t[j1] == s[j]);
        }
    }
    assert forall|k: PlayerId| #[trigger] views_map(t).contains_key(k) implies views_map(t)[k] == m[k] by {
        let j = choose|j: int| 0 <= j < t.len() && #[trigger] t[j].id == k;
        let j0 = if j < i { j } else { j + 1 };
        assert(s[j0] == t[j]);
        assert(s[j0].id != s[i].id);
    }
    assert(views_map(t) =~= m);
}

/// The shown players, by id.
pub type Shown = Map<PlayerId, PlayerState>;

/// A walk that has just begun.
pub open spec fn started() -> WalkState {
    (WalkStage::Step1, 0nat)
}

/// No walk.
pub open spec fn idle() -> WalkState {
    (WalkStage::Stop, 0nat)
}

/// The shown players after a server update. Updates about the local player
/// are skipped, as it already moved on its own prediction. Any other player
/// takes the update's facing and tile, first shown without a walk if it was
/// unknown; a positive distance starts its walk afresh.
pub open spec fn after_update(m: Shown, me: Option<PlayerId>, u: MoveUpdate) -> Shown {
    if me == Some(u.player_id) {
        m
    } else {
        let prior = if m.contains_key(u.player_id) {
            m[u.player_id].2
        } else {
            idle()
        };
        m.insert(
            u.player_id,
            (u.direction, u.position, if u.distance > 0 {
                started()
            } else {
                prior
            }),
        )
    }
}

/// The shown players after the welcome: the local player stands on its
/// spawn tile, facing south unless it was already shown.
pub open spec fn after_welcome(m: Shown, w: Welcome) -> Shown {
    if m.contains_key(w.0) {
        m.insert(w.0, (m[w.0].0, w.1, m[w.0].2))
    } else {
        m.insert(w.0, (Direction::South, w.1, idle()))
    }
}

pub open spec fn tick_state(st: PlayerState, delta: nat) -> PlayerState {
    (st.0, st.1, ticked(st.2, delta))
}

/// Every shown walk `delta` nanoseconds later.
pub open spec fn after_tick(m: Shown, delta: nat) -> Shown {
    Map::new(|id: PlayerId| m.contains_key(id), |id: PlayerId| tick_state(m[id], delta))
}

/// Whether a player other than `me` is shown on tile `p`.
pub open spec fn occupied_by_other(m: Shown, me: PlayerId, p: Position) -> bool {
    exists|id: PlayerId| id != me && m.contains_key(id) && (#[trigger] m[id]).1 == p
}

/// The outcome of a directional intent of the local player on a grid of
/// `width` by `height` tiles: the new shown players and the intent to send.
/// Before the welcome nothing happens. While a walk runs, a request along
/// the current facing is ignored, but a turn is still taken. A step onto a
/// tile where another player stands is ignored. A turn keeps the tile and
/// the walk; a step starts a new walk on the next tile.
pub open spec fn intent_outcome(
    m: Shown,
    me: Option<PlayerId>,
    requested: Direction,
    width: nat,
    height: nat,
) -> (Shown, Option<MoveInput>) {
    match me {
        None => (m, None),
        Some(id) => if !m.contains_key(id) {
            (m, None)
        } else {
            let st = m[id];
            if requested == st.0 && st.2.0 != WalkStage::Stop {
                (m, None)
            } else {
                let o = resolved(st.0, st.1, requested, width, height);
                if o.distance > 0 {
                    if occupied_by_other(m, id, o.position) {
                        (m, None)
                    } else {
                        (m.insert(id, (st.0, o.position, started())), Some(MoveInput(st.0, o.position)))
                    }
                } else {
                    (m.insert(id, (o.direction, st.1, st.2)), Some(MoveInput(o.direction, st.1)))
                }
            }
        },
    }
}

/// The frame of a shown player's sprite sheet: the direction's bank plus
/// the stage's frame within it.
pub open spec fn sprite_of(st: PlayerState) -> nat {
    ordinal(st.0) * (FRAMES_PER_DIRECTION as nat) + stage_sprite_index(st.2.0)
}

/// Where a shown player is drawn, in steps: its tile, pulled back against
/// its facing by the stage's offset.
pub open spec fn point_of(st: PlayerState) -> (int, int) {
    (
        STEPS_PER_TILE * st.1.x - unit_vector(st.0).0 * stage_steps(st.2.0),
        STEPS_PER_TILE * st.1.y - unit_vector(st.0).1 * stage_steps(st.2.0),
    )
}

/// What to draw of one player.
#[derive(Clone, Copy, Debug, PartialEq, Eq, Structural)]
pub struct Frame {
    pub player_id: PlayerId,
    pub sprite_index: u32,
    pub point: StepPoint,
}

pub open spec fn frame_matches(f: Frame, st: PlayerState) -> bool {
    &&& f.sprite_index == sprite_of(st)
    &&& f.point.x == point_of(st).0
    &&& f.point.y == point_of(st).1
}

/// Lets `delta` nanoseconds pass for one shown player and tells which
/// frame to draw where.
pub fn walk_animation(view: &mut PlayerView, delta: u64) -> (r: (u32, StepPoint))
    requires
        old(view).animation.wf(),
    ensures
        final(view).animation.wf(),
        final(view).id == old(view).id,
        state_of(*final(view)) == tick_state(state_of(*old(view)), delta as nat),
        frame_matches(Frame { player_id: final(view).id, sprite_index: r.0, point: r.1 }, state_of(*final(view))),
{
    view.animation.tick(delta);
    let sprite = view.animation.sprite_index_offset() + view.direction.sprite_index_offset();
    let point = view.animation.translate(&view.position, &view.direction);
    (sprite, point)
}

/// Shows a player first seen facing `direction` on `position`, without a
/// walk. A player already shown is left as it is.
pub fn insert_player(world: &mut ClientWorld, player_id: PlayerId, direction: Direction, position: Position)
    requires
        old(world).wf(),
    ensures
        final(world).wf(),
        final(world).me_id() == old(world).me_id(),
        final(world).grid_width() == old(world).grid_width(),
        final(world).grid_height() == old(world).grid_height(),
        final(world)@ == if old(world)@.contains_key(player_id) {
            old(world)@
        } else {
            old(world)@.insert(player_id, (direction, position, idle()))
        },
{
    if let None = world.find(player_id) {
        let view = PlayerView { id: player_id, direction, position, animation: WalkAnimation::default() };
        proof {
            lemma_views_push(world.players@, view);
        }
        world.players.push(view);
    }
}

proof fn lemma_views_ticked(s: Seq<PlayerView>, t: Seq<PlayerView>, delta: nat)
    requires
        unique_ids(s),
        t.len() == s.len(),
        forall|k: int| 0 <= k < s.len() ==> (#[trigger] t[k]).id == s[k].id && state_of(t[k]) == tick_state(state_of(s[k]), delta),
    ensures
        unique_ids(t),
        views_map(t) == after_tick(views_map(s), delta),
{
    assert forall|a: int, b: int| 0 <= a < t.len() && 0 <= b < t.len() && a != b implies #[trigger] t[a].id
        != #[trigger] t[b].id by {
        assert(s[a].id != s[b].id);
    }
    lemma_views_map(s);
    lemma_views_map(t);
    let m = after_tick(views_map(s), delta);
    assert forall|k: PlayerId| #[trigger] views_map(t).contains_key(k) <==> m.contains_key(k) by {
        if views_map(t).contains_key(k) {
            let j = choose|j: int| 0 <= j < t.len() && #[trigger] t[j].id == k;
            assert(s[j].id == k);
        }
        if views_map(s).contains_key(k) {
            let j = choose|j: int| 0 <= j < s.len() && #[trigger] s[j].id == k;
            assert(t[j].id == k);
        }
    }
    assert forall|k: PlayerId| #[trigger] views_map(t).contains_key(k) implies views_map(t)[k] == m[k] by {
        let j = choose|j: int| 0 <= j < t.len() && #[trigger] t[j].id == k;
        assert(t[j].id == k);
        assert(s[j].id == k);
    }
    assert(views_map(t) =~= m);
}

/// A client's projection of the world: every player it knows of, the
/// local one among them once the server has welcomed it.
pub struct ClientWorld {
    me: Option<PlayerId>,
    players: Vec<PlayerView>,
    width: u16,
    height: u16,
}

impl View for ClientWorld {
    type V = Shown;

    closed spec fn view(&self) -> Shown {
        views_map(self.players@)
    }
}

impl ClientWorld {
    /// The local player's id, once welcomed.
    pub closed spec fn me_id(&self) -> Option<PlayerId> {
        self.me
    }

    pub closed spec fn grid_width(&self) -> nat {
        self.width as nat
    }

    pub closed spec fn grid_height(&self) -> nat {
        self.height as nat
    }

    /// Each player is shown once and every walk is well formed.
    pub closed spec fn wf(&self) -> bool {
        &&& unique_ids(self.players@)
        &&& forall|i: int| 0 <= i < self.players@.len() ==> (#[trigger] self.players@[i]).animation.wf()
    }

    /// A client that knows of no player yet, on a grid of `width` by
    /// `height` tiles.
    pub fn new(width: u16, height: u16) -> (r: ClientWorld)
        ensures
            r.wf(),
            r@ == Map::<PlayerId, PlayerState>::empty(),
            r.me_id() == None::<PlayerId>,
            r.grid_width() == width,
            r.grid_height() == height,
    {
        let r = ClientWorld { me: None, players: Vec::new(), width, height };
        assert(r@ =~= Map::<PlayerId, PlayerState>::empty());
        r
    }

    pub fn me(&self) -> (r: Option<PlayerId>)
        ensures
            r == self.me_id(),
    {
        self.me
    }

    /// Every shown player, each once.
    pub fn views(&self) -> (r: &Vec<PlayerView>)
        requires
            self.wf(),
        ensures
            unique_ids(r@),
            views_map(r@) == self@,
    {
        &self.players
    }

    fn find(&self, id: PlayerId) -> (r: Option<usize>)
        ensures
            match r {
                Some(i) => i < self.players@.len() && self.players@[i as int].id == id,
                None => !shows(self.players@, id),
            },
    {
        let mut i: usize = 0;
        while i < self.players.len()
            invariant
                i <= self.players@.len(),
                forall|k: int| 0 <= k < i ==> self.players@[k].id != id,
            decreases self.players@.len() - i,
        {
            if self.players[i].id == id {
                return Some(i);
            }
            i = i + 1;
        }
        None
    }

    /// The shown state of player `id`.
    pub fn get(&self, id: PlayerId) -> (r: Option<PlayerView>)
        requires
            self.wf(),
        ensures
            match r {
                Some(v) => self@.contains_key(id) && v.id == id && state_of(v) == self@[id],
                None => !self@.contains_key(id),
            },
    {
        proof {
            lemma_views_map(self.players@);
        }
        match self.find(id) {
            Some(i) => Some(self.players[i]),
            None => None,
        }
    }
    /// Replaces the view at index `i` by one of the same player.
    fn set_view(&mut self, i: usize, v: PlayerView)
        requires
            old(self).wf(),
            i < old(self).players@.len(),
            v.id == old(self).players@[i as int].id,
            v.animation.wf(),
        ensures
            final(self).wf(),
            final(self).me == old(self).me,
            final(self).width == old(self).width,
            final(self).height == old(self).height,
            final(self).players@ == old(self).players@.update(i as int, v),
            final(self)@ == old(self)@.insert(v.id, state_of(v)),
    {
        proof {
            lemma_views_update(self.players@, i as int, v);
        }
        self.players.set(i, v);
        assert forall|k: int| 0 <= k < self.players@.len() implies (#[trigger] self.players@[k]).animation.wf() by {
            if k != i {
                assert(self.players@[k] == old(self).players@[k]);
            }
        }
    }

    /// Shows a player not shown so far.
    fn push_view(&mut self, v: PlayerView)
        requires
            old(self).wf(),
            !shows(old(self).players@, v.id),
            v.animation.wf(),
        ensures
            final(self).wf(),
            final(self).me == old(self).me,
            final(self).width == old(self).width,
            final(self).height == old(self).height,
            final(self)@ == old(self)@.insert(v.id, state_of(v)),
    {
        proof {
            lemma_views_push(self.players@, v);
        }
        self.players.push(v);
        assert forall|k: int| 0 <= k < self.players@.len() implies (#[trigger] self.players@[k]).animation.wf() by {
            if k < old(self).players@.len() {
                assert(self.players@[k] == old(self).players@[k]);
            }
        }
    }

    /// Takes the server's welcome: the local player gets its id and stands
    /// on its spawn tile.
    pub fn apply_welcome(&mut self, w: Welcome)
        requires
            old(self).wf(),
        ensures
            final(self).wf(),
            final(self).me_id() == Some(w.0),
            final(self).grid_width() == old(self).grid_width(),
            final(self).grid_height() == old(self).grid_height(),
            final(self)@ == after_welcome(old(self)@, w),
    {
        proof {
            lemma_views_map(self.players@);
        }
        self.me = Some(w.0);
        match self.find(w.0) {
            Some(i) => {
                let mut v = self.players[i];
                assert(self.players@[i as int].animation.wf());
                v.position = w.1;
                self.set_view(i, v);
            },
            None => {
                let v = PlayerView {
                    id: w.0,
                    direction: Direction::default(),
                    position: w.1,
                    animation: WalkAnimation::default(),
                };
                self.push_view(v);
            },
        }
    }

    /// Takes a server update about a player: see `after_update`.
    pub fn apply_move_update(&mut self, u: MoveUpdate)
        requires
            old(self).wf(),
        ensures
            final(self).wf(),
            final(self).me_id() == old(self).me_id(),
            final(self).grid_width() == old(self).grid_width(),
            final(self).grid_height() == old(self).grid_height(),
            final(self)@ == after_update(old(self)@, old(self).me_id(), u),
    {
        if let Some(me) = self.me {
            if me == u.player_id {
                return;
            }
        }
        proof {
            lemma_views_map(self.players@);
        }
        match self.find(u.player_id) {
            Some(i) => {
                let mut v = self.players[i];
                assert(self.players@[i as int].animation.wf());
                v.direction = u.direction;
                v.position = u.position;
                if u.distance > 0 {
                    v.animation = WalkAnimation::new();
                }
                self.set_view(i, v);
            },
            None => {
                insert_player(self, u.player_id, u.direction, u.position);
                if u.distance > 0 {
                    proof {
                        lemma_views_map(self.players@);
                    }
                    match self.find(u.player_id) {
                        Some(i) => {
                            let mut v = self.players[i];
                            v.animation = WalkAnimation::new();
                            self.set_view(i, v);
                        },
                        None => {},
                    }
                }
            },
        }
    }

    /// Takes the server's notice that a player left: it is no longer shown.
    pub fn apply_player_left(&mut self, l: PlayerLeft)
        requires
            old(self).wf(),
        ensures
            final(self).wf(),
            final(self).me_id() == old(self).me_id(),
            final(self).grid_width() == old(self).grid_width(),
            final(self).grid_height() == old(self).grid_height(),
            final(self)@ == old(self)@.remove(l.0),
    {
        proof {
            lemma_views_map(self.players@);
        }
        match self.find(l.0) {
            Some(i) => {
                proof {
                    lemma_views_remove(self.players@, i as int);
                }
                self.players.remove(i);
                assert forall|k: int| 0 <= k < self.players@.len() implies (#[trigger] self.players@[k]).animation.wf() by {
                    let k0 = if k < i { k } else { k + 1 };
                    assert(self.players@[k] == old(self).players@[k0]);
                }
            },
            None => {
                assert(self@ =~= old(self)@.remove(l.0));
            },
        }
    }

    /// Whether a player other than `me` is shown on tile `p`.
    fn occupied(&self, me: PlayerId, p: Position) -> (r: bool)
        requires
            self.wf(),
        ensures
            r == occupied_by_other(self@, me, p),
    {
        proof {
            lemma_views_map(self.players@);
        }
        let mut i: usize = 0;
        while i < self.players.len()
            invariant
                i <= self.players@.len(),
                self.wf(),
                forall|k: int| 0 <= k < i ==> self.players@[k].id == me || self.players@[k].position != p,
            decreases self.players@.len() - i,
        {
            let v = self.players[i];
            if v.id != me && v.position == p {
                proof {
                    lemma_views_map(self.players@);
                }
                assert(self@[v.id] == state_of(self.players@[i as int]));
                return true;
            }
            i = i + 1;
        }
        assert forall|id: PlayerId| id != me && self@.contains_key(id) implies (#[trigger] self@[id]).1 != p by {
            let j = choose|j: int| 0 <= j < self.players@.len() && #[trigger] self.players@[j].id == id;
            assert(self@[self.players@[j].id] == state_of(self.players@[j]));
        }
        false
    }

    /// Handles a directional key of the local player: see `intent_outcome`.
    /// Returns the intent to send to the server, if any.
    pub fn walk_intent(&mut self, requested: Direction) -> (r: Option<MoveInput>)
        requires
            old(self).wf(),
        ensures
            final(self).wf(),
            final(self).me_id() == old(self).me_id(),
            final(self).grid_width() == old(self).grid_width(),
            final(self).grid_height() == old(self).grid_height(),
            (final(self)@, r) == intent_outcome(
                old(self)@,
                old(self).me_id(),
                requested,
                old(self).grid_width(),
                old(self).grid_height(),
            ),
    {
        proof {
            lemma_views_map(self.players@);
        }
        let id = match self.me {
            None => return None,
            Some(id) => id,
        };
        let i = match self.find(id) {
            None => return None,
            Some(i) => i,
        };
        let v = self.players[i];
        assert(self.players@[i as int].animation.wf());
        assert(self@[id] == state_of(v));
        if requested == v.direction && v.animation.running() {
            return None;
        }
        let o = resolve_move(v.direction, v.position, requested, self.width, self.height);
        if o.distance > 0 {
            if self.occupied(id, o.position) {
                return None;
            }
            let moved = PlayerView {
                id,
                direction: v.direction,
                position: o.position,
                animation: WalkAnimation::new(),
            };
            self.set_view(i, moved);
            Some(MoveInput(v.direction, o.position))
        } else {
            let turned = PlayerView {
                id,
                direction: o.direction,
                position: v.position,
                animation: v.animation,
            };
            self.set_view(i, turned);
            Some(MoveInput(o.direction, v.position))
        }
    }
    /// Lets `delta` nanoseconds pass for every shown player and tells, for
    /// each of them once, which frame to draw where.
    pub fn animate(&mut self, delta: u64) -> (r: Vec<Frame>)
        requires
            old(self).wf(),
        ensures
            final(self).wf(),
            final(self).me_id() == old(self).me_id(),
            final(self).grid_width() == old(self).grid_width(),
            final(self).grid_height() == old(self).grid_height(),
            final(self)@ == after_tick(old(self)@, delta as nat),
            forall|k: int| 0 <= k < r@.len() ==> {
                &&& final(self)@.contains_key((#[trigger] r@[k]).player_id)
                &&& frame_matches(r@[k], final(self)@[r@[k].player_id])
            },
            forall|a: int, b: int|
                0 <= a < r@.len() && 0 <= b < r@.len() && a != b ==> (#[trigger] r@[a]).player_id != (#[trigger] r@[b]).player_id,
            forall|id: PlayerId| #[trigger] final(self)@.contains_key(id) ==> exists|k: int| 0 <= k < r@.len() && (#[trigger] r@[k]).player_id == id,
    {
        let ghost start = self.players@;
        let mut frames: Vec<Frame> = Vec::new();
        let mut i: usize = 0;
        while i < self.players.len()
            invariant
                i <= self.players@.len(),
                self.players@.len() == start.len(),
                unique_ids(start),
                self.me == old(self).me,
                self.width == old(self).width,
                self.height == old(self).height,
                start == old(self).players@,
                forall|k: int| 0 <= k < start.len() ==> (#[trigger] start[k]).animation.wf(),
                forall|k: int| 0 <= k < self.players@.len() ==> (#[trigger] self.players@[k]).animation.wf(),
                forall|k: int| 0 <= k < self.players@.len() ==> (#[trigger] self.players@[k]).id == start[k].id,
                forall|k: int| 0 <= k < i ==> state_of(#[trigger] self.players@[k]) == tick_state(state_of(start[k]), delta as nat),
                forall|k: int| i <= k < self.players@.len() ==> #[trigger] self.players@[k] == start[k],
                frames@.len() == i,
                forall|k: int| 0 <= k < i ==> {
                    &&& (#[trigger] frames@[k]).player_id == self.players@[k].id
                    &&& frame_matches(frames@[k], state_of(self.players@[k]))
                },
            decreases self.players@.len() - i,
        {
            let mut v = self.players[i];
            let (sprite_index, point) = walk_animation(&mut v, delta);
            frames.push(Frame { player_id: v.id, sprite_index, point });
            self.players.set(i, v);
            i = i + 1;
        }
        proof {
            lemma_views_ticked(start, self.players@, delta as nat);
            lemma_views_map(self.players@);
            assert forall|k: int| 0 <= k < frames@.len() implies {
                &&& self@.contains_key((#[trigger] frames@[k]).player_id)
                &&& frame_matches(frames@[k], self@[frames@[k].player_id])
            } by {
                assert(frames@[k].player_id == self.players@[k].id);
            }
            assert forall|a: int, b: int|
                0 <= a < frames@.len() && 0 <= b < frames@.len() && a != b implies (#[trigger] frames@[a]).player_id
                    != (#[trigger] frames@[b]).player_id by {
                assert(self.players@[a].id != self.players@[b].id);
            }
            assert forall|id: PlayerId| #[trigger] self@.contains_key(id) implies exists|k: int|
                0 <= k < frames@.len() && (#[trigger] frames@[k]).player_id == id by {
                let j = choose|j: int| 0 <= j < self.players@.len() && #[trigger] self.players@[j].id == id;
                assert(frames@[j].player_id == id);
            }
        }
        frames
    }
}

/// Receiving the same update twice leaves every shown facing and tile as
/// after the first time; only a positive distance may restart the walk,
/// and an update without distance is then a no-op.
pub proof fn lemma_update_idempotent(m: Shown, me: Option<PlayerId>, u: MoveUpdate)
    ensures
        ({
            let once = after_update(m, me, u);
            let twice = after_update(once, me, u);
            &&& twice.dom() == once.dom()
            &&& forall|id: PlayerId| #[trigger] once.contains_key(id) ==> twice[id].0 == once[id].0 && twice[id].1 == once[id].1
            &&& forall|id: PlayerId| id != u.player_id && #[trigger] once.contains_key(id) ==> twice[id] == once[id]
            &&& u.distance == 0 ==> twice == once
        }),
{
    let once = after_update(m, me, u);
    let twice = after_update(once, me, u);
    assert(twice.dom() =~= once.dom());
    if u.distance == 0 && me != Some(u.player_id) {
        assert(twice =~= once);
    }
}

/// Once a player has left, a later update about its id shows it afresh:
/// the walk depends on the update alone, never on the state before it left.
pub proof fn lemma_leave_then_update(m: Shown, me: Option<PlayerId>, u: MoveUpdate)
    requires
        me != Some(u.player_id),
    ensures
        !m.remove(u.player_id).contains_key(u.player_id),
        after_update(m.remove(u.player_id), me, u) == m.remove(u.player_id).insert(
            u.player_id,
            (u.direction, u.position, if u.distance > 0 {
                started()
            } else {
                idle()
            }),
        ),
{
}

} // verus!
