use vstd::prelude::*;
use crate::direction::Direction;
use crate::protocol::{MoveUpdate, PlayerId, PlayerLeft, Position, ServerMessage, Welcome};
use crate::resolver::{on_grid, resolve_move, resolved};

verus! {

/// Side length of the square grid players spawn on.
pub const WORLD_SIZE: u16 = 16;

/// The server's record of one connected player.
#[derive(Clone, Copy, Debug, PartialEq, Eq, Structural)]
pub struct PlayerRecord {
    pub id: PlayerId,
    /// The transport's handle of the player's connection.
    pub connection: u64,
    pub direction: Direction,
    pub position: Position,
}

/// A message and the connection it is to be sent to.
#[derive(Clone, Copy, Debug, PartialEq, Eq, Structural)]
pub struct Outgoing {
    pub connection: u64,
    pub message: ServerMessage,
}

/// The update that shows player `p` where it stands, without animation.
pub open spec fn teleport(p: PlayerRecord) -> MoveUpdate {
    MoveUpdate { player_id: p.id, direction: p.direction, position: p.position, distance: 0 }
}

/// `m` sent once to each of `players`, in order.
pub open spec fn broadcast_to(players: Seq<PlayerRecord>, m: ServerMessage) -> Seq<Outgoing> {
    Seq::new(players.len(), |i: int| Outgoing { connection: players[i].connection, message: m })
}

/// The state of each of `players`, sent to connection `c`, in order.
pub open spec fn replay_to(c: u64, players: Seq<PlayerRecord>) -> Seq<Outgoing> {
    Seq::new(
        players.len(),
        |i: int| Outgoing { connection: c, message: ServerMessage::MoveUpdate(teleport(players[i])) },
    )
}

/// What a join sends: the welcome to the newcomer, the state of every
/// earlier player to the newcomer, and the newcomer's state to each of them.
pub open spec fn join_messages(players: Seq<PlayerRecord>, rec: PlayerRecord) -> Seq<Outgoing> {
    seq![Outgoing { connection: rec.connection, message: ServerMessage::Welcome(Welcome(rec.id, rec.position)) }]
        + replay_to(rec.connection, players)
        + broadcast_to(players, ServerMessage::MoveUpdate(teleport(rec)))
}

/// No two records share a player id or a connection.
pub open spec fn distinct_records(players: Seq<PlayerRecord>) -> bool {
    forall|i: int, j: int|
        0 <= i < players.len() && 0 <= j < players.len() && i != j ==> {
            &&& #[trigger] players[i].id != #[trigger] players[j].id
            &&& players[i].connection != players[j].connection
        }
}

pub open spec fn has_connection(players: Seq<PlayerRecord>, c: u64) -> bool {
    exists|i: int| 0 <= i < players.len() && #[trigger] players[i].connection == c
}

/// The outcome of a connection whose player spawns on `spawn`, from
/// `before` with ids handed out up to `last_id`, to `after` with ids up to
/// `after_last`, sending `out`.
pub open spec fn joined(
    before: Seq<PlayerRecord>,
    last_id: nat,
    connection: u64,
    spawn: Position,
    after: Seq<PlayerRecord>,
    after_last: nat,
    out: Seq<Outgoing>,
) -> bool {
    if has_connection(before, connection) || last_id == u32::MAX {
        &&& after == before
        &&& after_last == last_id
        &&& out == Seq::<Outgoing>::empty()
    } else {
        let rec = PlayerRecord {
            id: PlayerId((last_id + 1) as u32),
            connection,
            direction: Direction::South,
            position: spawn,
        };
        &&& after == before.push(rec)
        &&& after_last == last_id + 1
        &&& out == join_messages(before, rec)
    }
}

/// A joining player is welcomed, then receives exactly one update without
/// animation per player already connected, each describing that player;
/// every player already connected receives exactly one message, an update
/// without animation describing the newcomer.
pub proof fn lemma_join_replay(players: Seq<PlayerRecord>, rec: PlayerRecord)
    requires
        distinct_records(players),
        !has_connection(players, rec.connection),
    ensures
        ({
            let m = join_messages(players, rec);
            let n = players.len();
            &&& m.len() == 1 + 2 * n
            &&& m[0] == Outgoing { connection: rec.connection, message: ServerMessage::Welcome(Welcome(rec.id, rec.position)) }
            &&& forall|k: int| 0 <= k < m.len() ==> ((#[trigger] m[k]).connection == rec.connection <==> k <= n)
            &&& forall|i: int| 0 <= i < n ==> #[trigger] m[1 + i] == Outgoing {
                connection: rec.connection,
                message: ServerMessage::MoveUpdate(teleport(players[i])),
            }
            &&& forall|i: int| 0 <= i < n ==> #[trigger] m[1 + n + i] == Outgoing {
                connection: players[i].connection,
                message: ServerMessage::MoveUpdate(teleport(rec)),
            }
            &&& forall|i: int, k: int|
                0 <= i < n && 0 <= k < m.len() && (#[trigger] m[k]).connection == (#[trigger] players[i]).connection
                    ==> k == 1 + n + i
        }),
{
    let m = join_messages(players, rec);
    let n = players.len();
    assert forall|k: int| 0 <= k < m.len() implies ((#[trigger] m[k]).connection == rec.connection <==> k <= n) by {
        if k > n {
            assert(players[k - 1 - n].connection == m[k].connection);
        }
    }
    assert forall|i: int, k: int|
        0 <= i < n && 0 <= k < m.len() && (#[trigger] m[k]).connection == (#[trigger] players[i]).connection
            implies k == 1 + n + i by {
        if k == 0 || k <= n {
            assert(m[k].connection == rec.connection);
        } else {
            let j = k - 1 - n;
            if j != i {
                assert(players[j].id != players[i].id);
            }
        }
    }
}

/// Relies on rand::Rng::gen_range over rand::thread_rng: a value drawn
/// from `0..bound`; it panics on an empty range, which `requires` leaves out.
#[verifier::external_body]
fn random_below(bound: u16) -> (r: u16)
    requires
        bound > 0,
    ensures
        r < bound,
{
    rand::Rng::gen_range(&mut rand::thread_rng(), 0..bound)
}

/// A spawn tile drawn from a grid of `width` by `height` tiles.
pub fn random_position(width: u16, height: u16) -> (r: Position)
    requires
        width > 0,
        height > 0,
    ensures
        r.x < width,
        r.y < height,
{
    let x = random_below(width);
    let y = random_below(height);
    Position { x, y }
}

/// The authoritative world: every connected player, keyed by connection
/// and by player id.
pub struct Server {
    players: Vec<PlayerRecord>,
    last_id: u32,
    width: u16,
    height: u16,
}

impl View for Server {
    type V = Seq<PlayerRecord>;

    closed spec fn view(&self) -> Seq<PlayerRecord> {
        self.players@
    }
}

impl Server {
    /// The last player id handed out; ids are handed out in increasing order.
    pub closed spec fn last_id(&self) -> nat {
        self.last_id as nat
    }

    pub closed spec fn grid_width(&self) -> nat {
        self.width as nat
    }

    pub closed spec fn grid_height(&self) -> nat {
        self.height as nat
    }

    /// Records are distinct, on the grid, and carry ids already handed out.
    pub open spec fn wf(&self) -> bool {
        &&& self.grid_width() > 0
        &&& self.grid_height() > 0
        &&& self.grid_width() <= u16::MAX
        &&& self.grid_height() <= u16::MAX
        &&& distinct_records(self@)
        &&& forall|i: int|
            0 <= i < self@.len() ==> {
                &&& #[trigger] self@[i].id.0 <= self.last_id()
                &&& on_grid(self@[i].position.x as int, self@[i].position.y as int, self.grid_width(), self.grid_height())
            }
    }

    /// An empty world of `width` by `height` tiles.
    pub fn new(width: u16, height: u16) -> (r: Server)
        requires
            width > 0,
            height > 0,
        ensures
            r.wf(),
            r@ == Seq::<PlayerRecord>::empty(),
            r.last_id() == 0,
            r.grid_width() == width,
            r.grid_height() == height,
    {
        Server { players: Vec::new(), last_id: 0, width, height }
    }

    pub fn width(&self) -> (r: u16)
        ensures
            r == self.grid_width(),
    {
        self.width
    }

    pub fn height(&self) -> (r: u16)
        ensures
            r == self.grid_height(),
    {
        self.height
    }

    pub fn players(&self) -> (r: &Vec<PlayerRecord>)
        ensures
            r@ == self@,
    {
        &self.players
    }

    /// Index of the record of connection `c`.
    pub fn find_connection(&self, c: u64) -> (r: Option<usize>)
        ensures
            match r {
                Some(i) => i < self@.len() && self@[i as int].connection == c,
                None => !has_connection(self@, c),
            },
    {
        let mut i: usize = 0;
        while i < self.players.len()
            invariant
                i <= self.players@.len(),
                forall|k: int| 0 <= k < i ==> self.players@[k].connection != c,
            decreases self.players@.len() - i,
        {
            if self.players[i].connection == c {
                return Some(i);
            }
            i = i + 1;
        }
        None
    }

    /// Appends `m` for every connected player to `out`.
    fn broadcast(&self, m: ServerMessage, out: &mut Vec<Outgoing>)
        ensures
            final(out)@ == old(out)@ + broadcast_to(self@, m),
    {
        let ghost start = out@;
        let mut i: usize = 0;
        while i < self.players.len()
            invariant
                i <= self.players@.len(),
                out@ == start + broadcast_to(self@.subrange(0, i as int), m),
            decreases self.players@.len() - i,
        {
            out.push(Outgoing { connection: self.players[i].connection, message: m });
            assert(broadcast_to(self@.subrange(0, i + 1), m) =~= broadcast_to(
                self@.subrange(0, i as int),
                m,
            ).push(Outgoing { connection: self@[i as int].connection, message: m }));
            i = i + 1;
        }
        assert(self@.subrange(0, i as int) =~= self@);
    }

    /// Appends the state of every connected player, addressed to `c`, to `out`.
    fn replay(&self, c: u64, out: &mut Vec<Outgoing>)
        ensures
            final(out)@ == old(out)@ + replay_to(c, self@),
    {
        let ghost start = out@;
        let mut i: usize = 0;
        while i < self.players.len()
            invariant
                i <= self.players@.len(),
                out@ == start + replay_to(c, self@.subrange(0, i as int)),
            decreases self.players@.len() - i,
        {
            let p = self.players[i];
            let update = MoveUpdate {
                player_id: p.id,
                direction: p.direction,
                position: p.position,
                distance: 0,
            };
            out.push(Outgoing { connection: c, message: ServerMessage::MoveUpdate(update) });
            assert(replay_to(c, self@.subrange(0, i + 1)) =~= replay_to(
                c,
                self@.subrange(0, i as int),
            ).push(Outgoing { connection: c, message: ServerMessage::MoveUpdate(teleport(p)) }));
            i = i + 1;
        }
        assert(self@.subrange(0, i as int) =~= self@);
    }
    /// Registers a new connection whose player spawns on `spawn`: the
    /// player gets the next id and faces the default direction. The
    /// newcomer is welcomed and shown every earlier player, and every
    /// earlier player is shown the newcomer, without animation. A
    /// connection that is already registered, or one that arrives after the
    /// last id has been handed out, is ignored.
    pub fn connect(&mut self, connection: u64, spawn: Position) -> (r: Vec<Outgoing>)
        requires
            old(self).wf(),
            spawn.x < old(self).grid_width(),
            spawn.y < old(self).grid_height(),
        ensures
            final(self).wf(),
            final(self).grid_width() == old(self).grid_width(),
            final(self).grid_height() == old(self).grid_height(),
            joined(old(self)@, old(self).last_id(), connection, spawn, final(self)@, final(self).last_id(), r@),
    {
        if self.last_id == u32::MAX {
            return Vec::new();
        }
        if let Some(_) = self.find_connection(connection) {
            return Vec::new();
        }
        let id = PlayerId(self.last_id + 1);
        let rec = PlayerRecord { id, connection, direction: Direction::default(), position: spawn };
        let mut out: Vec<Outgoing> = Vec::new();
        out.push(Outgoing { connection, message: ServerMessage::Welcome(Welcome(id, spawn)) });
        self.replay(connection, &mut out);
        let shown = MoveUpdate {
            player_id: id,
            direction: rec.direction,
            position: spawn,
            distance: 0,
        };
        self.broadcast(ServerMessage::MoveUpdate(shown), &mut out);
        let ghost before = self@;
        self.players.push(rec);
        self.last_id = self.last_id + 1;
        assert forall|i: int, j: int|
            0 <= i < self@.len() && 0 <= j < self@.len() && i != j implies {
                &&& #[trigger] self@[i].id != #[trigger] self@[j].id
                &&& self@[i].connection != self@[j].connection
            } by {
            if i < before.len() && j < before.len() {
                assert(before[i] == self@[i] && before[j] == self@[j]);
            } else if i < before.len() {
                assert(before[i].id.0 <= old(self).last_id());
            } else {
                assert(before[j].id.0 <= old(self).last_id());
            }
        }
        assert forall|a: int| 0 <= a < self@.len() implies {
            &&& #[trigger] self@[a].id.0 <= self.last_id()
            &&& on_grid(self@[a].position.x as int, self@[a].position.y as int, self.grid_width(), self.grid_height())
        } by {
            if a < before.len() {
                assert(self@[a] == before[a]);
                assert(before[a].id.0 <= old(self).last_id());
            }
        }
        out
    }

    /// Registers a new connection whose player spawns on a tile drawn at
    /// random from the grid; otherwise as `connect`.
    pub fn handle_connect(&mut self, connection: u64) -> (r: Vec<Outgoing>)
        requires
            old(self).wf(),
        ensures
            final(self).wf(),
            final(self).grid_width() == old(self).grid_width(),
            final(self).grid_height() == old(self).grid_height(),
            exists|spawn: Position|
                spawn.x < old(self).grid_width() && spawn.y < old(self).grid_height()
                    && #[trigger] joined(old(self)@, old(self).last_id(), connection, spawn, final(self)@, final(self).last_id(), r@),
    {
        let spawn = random_position(self.width, self.height);
        self.connect(connection, spawn)
    }

    /// Removes the player of a closed connection and tells every remaining
    /// connection that it left. An unknown connection changes nothing.
    pub fn disconnect(&mut self, connection: u64) -> (r: Vec<Outgoing>)
        requires
            old(self).wf(),
        ensures
            final(self).wf(),
            final(self).grid_width() == old(self).grid_width(),
            final(self).grid_height() == old(self).grid_height(),
            final(self).last_id() == old(self).last_id(),
            !has_connection(old(self)@, connection) ==> {
                &&& final(self)@ == old(self)@
                &&& r@ == Seq::<Outgoing>::empty()
            },
            forall|i: int|
                0 <= i < old(self)@.len() && #[trigger] old(self)@[i].connection == connection ==> {
                    &&& final(self)@ == old(self)@.remove(i)
                    &&& r@ == broadcast_to(
                        final(self)@,
                        ServerMessage::PlayerLeft(PlayerLeft(old(self)@[i].id)),
                    )
                },
    {
        match self.find_connection(connection) {
            None => Vec::new(),
            Some(i) => {
                let ghost before = self@;
                proof {
                    assert forall|k: int|
                        0 <= k < before.len() && #[trigger] before[k].connection == connection implies k == i by {
                        if k != i {
                            assert(before[k].id != before[i as int].id);
                        }
                    }
                }
                let rec = self.players.remove(i);
                assert forall|a: int, b: int|
                    0 <= a < self@.len() && 0 <= b < self@.len() && a != b implies {
                        &&& #[trigger] self@[a].id != #[trigger] self@[b].id
                        &&& self@[a].connection != self@[b].connection
                    } by {
                    let a0 = if a < i { a } else { a + 1 };
                    let b0 = if b < i { b } else { b + 1 };
                    assert(self@[a] == before[a0] && self@[b] == before[b0]);
                    assert(before[a0].id != before[b0].id);
                }
                assert forall|a: int| 0 <= a < self@.len() implies {
                    &&& #[trigger] self@[a].id.0 <= self.last_id()
                    &&& on_grid(self@[a].position.x as int, self@[a].position.y as int, self.grid_width(), self.grid_height())
                } by {
                    let a0 = if a < i { a } else { a + 1 };
                    assert(self@[a] == before[a0]);
                    assert(before[a0].id.0 <= old(self).last_id());
                }
                let mut out: Vec<Outgoing> = Vec::new();
                self.broadcast(ServerMessage::PlayerLeft(PlayerLeft(rec.id)), &mut out);
                assert(Seq::<Outgoing>::empty() + broadcast_to(self@, ServerMessage::PlayerLeft(PlayerLeft(rec.id)))
                    =~= broadcast_to(self@, ServerMessage::PlayerLeft(PlayerLeft(rec.id))));
                out
            },
        }
    }

    /// Applies a movement intent from `connection` through the resolver and
    /// tells every connection, the mover's included, the player's new
    /// state. An intent from an unknown connection is dropped.
    pub fn handle_move(&mut self, connection: u64, requested: Direction) -> (r: Vec<Outgoing>)
        requires
            old(self).wf(),
        ensures
            final(self).wf(),
            final(self).grid_width() == old(self).grid_width(),
            final(self).grid_height() == old(self).grid_height(),
            final(self).last_id() == old(self).last_id(),
            !has_connection(old(self)@, connection) ==> {
                &&& final(self)@ == old(self)@
                &&& r@ == Seq::<Outgoing>::empty()
            },
            forall|i: int|
                0 <= i < old(self)@.len() && #[trigger] old(self)@[i].connection == connection ==> ({
                    let p = old(self)@[i];
                    let o = resolved(p.direction, p.position, requested, old(self).grid_width(), old(self).grid_height());
                    &&& final(self)@ == old(self)@.update(
                        i,
                        PlayerRecord {
                            id: p.id,
                            connection: p.connection,
                            direction: o.direction,
                            position: o.position,
                        },
                    )
                    &&& r@ == broadcast_to(
                        final(self)@,
                        ServerMessage::MoveUpdate(
                            MoveUpdate {
                                player_id: p.id,
                                direction: o.direction,
                                position: o.position,
                                distance: o.distance,
                            },
                        ),
                    )
                }),
    {
        match self.find_connection(connection) {
            None => Vec::new(),
            Some(i) => {
                let ghost before = self@;
                proof {
                    assert forall|k: int|
                        0 <= k < before.len() && #[trigger] before[k].connection == connection implies k == i by {
                        if k != i {
                            assert(before[k].id != before[i as int].id);
                        }
                    }
                }
                let p = self.players[i];
                let o = resolve_move(p.direction, p.position, requested, self.width, self.height);
                proof {
                    crate::resolver::lemma_turn_or_step(p.direction, p.position, requested, self.width, self.height);
                }
                let moved = PlayerRecord {
                    id: p.id,
                    connection: p.connection,
                    direction: o.direction,
                    position: o.position,
                };
                self.players.set(i, moved);
                assert forall|a: int, b: int|
                    0 <= a < self@.len() && 0 <= b < self@.len() && a != b implies {
                        &&& #[trigger] self@[a].id != #[trigger] self@[b].id
                        &&& self@[a].connection != self@[b].connection
                    } by {
                    assert(self@[a].id == before[a].id && self@[a].connection == before[a].connection);
                    assert(self@[b].id == before[b].id && self@[b].connection == before[b].connection);
                }
                assert forall|a: int| 0 <= a < self@.len() implies {
                    &&& #[trigger] self@[a].id.0 <= self.last_id()
                    &&& on_grid(self@[a].position.x as int, self@[a].position.y as int, self.grid_width(), self.grid_height())
                } by {
                    assert(before[a].id.0 <= old(self).last_id());
                    if a != i {
                        assert(self@[a] == before[a]);
                    }
                }
                let update = MoveUpdate {
                    player_id: p.id,
                    direction: o.direction,
                    position: o.position,
                    distance: o.distance,
                };
                let mut out: Vec<Outgoing> = Vec::new();
                self.broadcast(ServerMessage::MoveUpdate(update), &mut out);
                assert(Seq::<Outgoing>::empty() + broadcast_to(self@, ServerMessage::MoveUpdate(update))
                    =~= broadcast_to(self@, ServerMessage::MoveUpdate(update)));
                out
            },
        }
    }
}

} // verus!
