//! The authoritative server: world state, the ownership and acknowledgment
//! ledger, the visibility gate and the fixed-tick loop.
//!
//! Entities are plain records keyed by ids drawn from one counter; sessions
//! bind a connection to the one movement entity it controls and to its
//! per-client configuration record; visibility is an explicit per-connection
//! allow-list mutated only by connection and spawn events.

use vstd::prelude::*;
use crate::Tick;
use crate::ack::AckComponent;
use crate::movement::{
    Movement, MovementConfig, MovementInput, Velocity, config_wf, movement_wf, vel_wf,
    entity_tick_model, advance_pending_tick, grounded_from_hits, grounded_spec,
    default_player_config, DT_LIMIT,
};

verus! {

/// The authoritative tick period in milliseconds (about 30 steps a second).
pub const SERVER_TICK_MS: i64 = 33;

/// A transform's translation in milli-units.
#[derive(Clone, Copy, PartialEq, Eq, Structural, Debug)]
pub struct Position {
    pub x: i64,
    pub y: i64,
}

/// A controlled player entity with its movement state, its ownership link and
/// its per-component acknowledgment records.
pub struct PlayerEntity {
    pub id: u64,
    pub owner_client: u64,
    pub player_id: u64,
    pub movement: Movement,
    pub config: MovementConfig,
    pub vel: Velocity,
    pub ang_vel: i64,
    pub pos: Position,
    pub grounded: bool,
    pub ack_vel: AckComponent<Velocity>,
    pub ack_ang: AckComponent<i64>,
    pub ack_pos: AckComponent<Position>,
    pub ack_grounded: AckComponent<bool>,
}

/// A static terrain entity, visible to every connection.
pub struct TerrainEntity {
    pub id: u64,
    pub width: i64,
    pub height: i64,
    pub x: i64,
    pub y: i64,
}

/// The per-client configuration record replicated to its owner: the identity
/// it belongs to and the tick period the client must simulate with.
pub struct IndividualServerConfig {
    pub id: u64,
    pub player_id: u64,
    pub tick_ms: i64,
}

/// The session record binding a connection to the entities it owns.
pub struct Session {
    pub client_id: u64,
    pub player_entity: u64,
    pub config_entity: u64,
    pub player_id: u64,
}

/// One connection's explicit allow-list of replicated entities.
pub struct VisibilityRecord {
    pub client_id: u64,
    pub visible: Vec<u64>,
}

/// A login message received from a connection.
#[derive(Clone, Copy, PartialEq, Eq, Structural, Debug)]
pub struct LoginMsg {
    pub client_id: u64,
    pub player_id: u64,
}

/// A movement input message received from a connection.
#[derive(Clone, Copy, PartialEq, Eq, Structural, Debug)]
pub struct MoveMsg {
    pub client_id: u64,
    pub input: MovementInput,
}

/// The authoritative world.
pub struct ServerWorld {
    pub tick: Tick,
    pub next_id: u64,
    pub players: Vec<PlayerEntity>,
    pub terrain: Vec<TerrainEntity>,
    pub configs: Vec<IndividualServerConfig>,
    pub sessions: Vec<Session>,
    pub visibility: Vec<VisibilityRecord>,
}

/// A player entity's own invariant.
pub open spec fn player_wf(p: PlayerEntity) -> bool {
    &&& movement_wf(p.movement@)
    &&& config_wf(p.config@)
    &&& vel_wf(p.vel@)
}

/// The ids of a player list, in order.
pub open spec fn player_ids(s: Seq<PlayerEntity>) -> Seq<u64> {
    s.map_values(|p: PlayerEntity| p.id)
}

/// The ids of a terrain list, in order.
pub open spec fn terrain_ids(s: Seq<TerrainEntity>) -> Seq<u64> {
    s.map_values(|t: TerrainEntity| t.id)
}

impl ServerWorld {
    /// Whether `eid` is the per-client configuration entity of a session other
    /// than `client_id`'s.
    pub open spec fn foreign_config(&self, client_id: u64, eid: u64) -> bool {
        exists|s: int|
            0 <= s < self.sessions@.len() && self.sessions@[s].client_id != client_id
                && self.sessions@[s].config_entity == eid
    }

    /// Whether `client_id` has an established session.
    pub open spec fn has_session(&self, client_id: u64) -> bool {
        seq_has_session(self.sessions@, client_id)
    }

    /// The world invariant: ids are unique and below the allocation counter,
    /// sessions are one per connection and link to an existing player, no
    /// player or terrain id collides with a configuration entity, and no
    /// connection's allow-list holds another client's configuration entity.
    pub open spec fn wf(&self) -> bool {
        &&& forall|i: int| 0 <= i < self.players@.len() ==> player_wf(#[trigger] self.players@[i])
        &&& forall|i: int, j: int|
            0 <= i < j < self.players@.len() ==> self.players@[i].id < self.players@[j].id
        &&& forall|i: int|
            0 <= i < self.players@.len() ==> (#[trigger] self.players@[i]).id < self.next_id
        &&& forall|i: int|
            0 <= i < self.terrain@.len() ==> (#[trigger] self.terrain@[i]).id < self.next_id
        &&& forall|i: int|
            0 <= i < self.configs@.len() ==> (#[trigger] self.configs@[i]).id < self.next_id
        &&& forall|i: int|
            0 <= i < self.sessions@.len() ==> (#[trigger] self.sessions@[i]).config_entity
                < self.next_id
        &&& forall|i: int|
            0 <= i < self.sessions@.len() ==> (#[trigger] self.sessions@[i]).player_entity
                < self.next_id
        &&& forall|i: int, j: int|
            0 <= i < j < self.sessions@.len() ==> self.sessions@[i].client_id
                != self.sessions@[j].client_id
        &&& forall|i: int, j: int|
            0 <= i < j < self.sessions@.len() ==> self.sessions@[i].config_entity
                != self.sessions@[j].config_entity
        &&& forall|i: int, j: int|
            0 <= i < self.players@.len() && 0 <= j < self.sessions@.len()
                ==> (#[trigger] self.players@[i]).id != (#[trigger] self.sessions@[j]).config_entity
        &&& forall|i: int, j: int|
            0 <= i < self.terrain@.len() && 0 <= j < self.sessions@.len()
                ==> (#[trigger] self.terrain@[i]).id != (#[trigger] self.sessions@[j]).config_entity
        &&& forall|i: int, j: int|
            0 <= i < self.visibility@.len() && 0 <= j < self.visibility@[i].visible@.len()
                ==> #[trigger] self.visibility@[i].visible@[j] < self.next_id
        &&& forall|i: int, j: int|
            0 <= i < self.visibility@.len() && 0 <= j < self.visibility@[i].visible@.len()
                ==> !self.foreign_config(
                self.visibility@[i].client_id,
                #[trigger] self.visibility@[i].visible@[j],
            )
    }

    /// An empty world before any entity spawns.
    pub fn new() -> (w: ServerWorld)
        ensures
            w.wf(),
            w.tick == 0,
            w.next_id == 0,
            w.players@.len() == 0,
            w.terrain@.len() == 0,
            w.configs@.len() == 0,
            w.sessions@.len() == 0,
            w.visibility@.len() == 0,
    {
        ServerWorld {
            tick: 0,
            next_id: 0,
            players: Vec::new(),
            terrain: Vec::new(),
            configs: Vec::new(),
            sessions: Vec::new(),
            visibility: Vec::new(),
        }
    }
}

/// Visibility isolation: under the world invariant, no connection's allow-list
/// holds the per-client configuration entity of any other client; a client is
/// ever shown foreign players and terrain, never foreign configuration.
pub proof fn lemma_visibility_isolation(w: ServerWorld)
    requires
        w.wf(),
    ensures
        forall|i: int, j: int, s: int|
            0 <= i < w.visibility@.len() && 0 <= j < w.visibility@[i].visible@.len() && 0 <= s
                < w.sessions@.len() && w.sessions@[s].client_id != w.visibility@[i].client_id
                ==> #[trigger] w.visibility@[i].visible@[j] != (
            #[trigger] w.sessions@[s]).config_entity,
{
    assert forall|i: int, j: int, s: int|
        0 <= i < w.visibility@.len() && 0 <= j < w.visibility@[i].visible@.len() && 0 <= s
            < w.sessions@.len() && w.sessions@[s].client_id != w.visibility@[i].client_id
            implies #[trigger] w.visibility@[i].visible@[j] != (
        #[trigger] w.sessions@[s]).config_entity by {
        if w.visibility@[i].visible@[j] == w.sessions@[s].config_entity {
            assert(w.foreign_config(w.visibility@[i].client_id, w.visibility@[i].visible@[j]));
        }
    }
}

/// A step that touches neither the sessions nor the allow-lists nor the id
/// counter keeps the visibility clauses of the world invariant.
proof fn lemma_vis_preserved(w0: ServerWorld, w1: ServerWorld)
    requires
        w0.wf(),
        w1.sessions@ == w0.sessions@,
        w1.visibility@ == w0.visibility@,
        w1.next_id == w0.next_id,
    ensures
        forall|i: int, j: int|
            0 <= i < w1.visibility@.len() && 0 <= j < w1.visibility@[i].visible@.len()
                ==> #[trigger] w1.visibility@[i].visible@[j] < w1.next_id,
        forall|i: int, j: int|
            0 <= i < w1.visibility@.len() && 0 <= j < w1.visibility@[i].visible@.len()
                ==> !w1.foreign_config(
                w1.visibility@[i].client_id,
                #[trigger] w1.visibility@[i].visible@[j],
            ),
{
    assert forall|i: int, j: int|
        0 <= i < w1.visibility@.len() && 0 <= j < w1.visibility@[i].visible@.len()
            implies !w1.foreign_config(
        w1.visibility@[i].client_id,
        #[trigger] w1.visibility@[i].visible@[j],
    ) by {
        if w1.foreign_config(w1.visibility@[i].client_id, w1.visibility@[i].visible@[j]) {
            let s = choose|s: int|
                0 <= s < w1.sessions@.len() && w1.sessions@[s].client_id
                    != w1.visibility@[i].client_id && w1.sessions@[s].config_entity
                    == w1.visibility@[i].visible@[j];
            assert(w0.foreign_config(w0.visibility@[i].client_id, w0.visibility@[i].visible@[j]));
        }
    }
}

/// Finds the session of `client_id`, if one is established.
fn find_session(sessions: &Vec<Session>, client_id: u64) -> (r: Option<usize>)
    ensures
        match r {
            Some(i) => i < sessions@.len() && sessions@[i as int].client_id == client_id,
            None => forall|i: int|
                0 <= i < sessions@.len() ==> (#[trigger] sessions@[i]).client_id != client_id,
        },
{
    let mut i: usize = 0;
    while i < sessions.len()
        invariant
            0 <= i <= sessions@.len(),
            forall|j: int| 0 <= j < i ==> (#[trigger] sessions@[j]).client_id != client_id,
        decreases sessions@.len() - i,
    {
        if sessions[i].client_id == client_id {
            return Some(i);
        }
        i = i + 1;
    }
    None
}

/// Finds the player entity with id `id`.
fn find_player(players: &Vec<PlayerEntity>, id: u64) -> (r: Option<usize>)
    ensures
        match r {
            Some(i) => i < players@.len() && players@[i as int].id == id,
            None => forall|i: int| 0 <= i < players@.len() ==> (#[trigger] players@[i]).id != id,
        },
{
    let mut i: usize = 0;
    while i < players.len()
        invariant
            0 <= i <= players@.len(),
            forall|j: int| 0 <= j < i ==> (#[trigger] players@[j]).id != id,
        decreases players@.len() - i,
    {
        if players[i].id == id {
            return Some(i);
        }
        i = i + 1;
    }
    None
}

fn vec_index_mut<T>(v: &mut Vec<T>, i: usize) -> (element: &mut T)
    requires
        i < old(v).len(),
    ensures
        *element == old(v)@[i as int],
        final(v)@ == old(v)@.update(i as int, *final(element)),
{
    &mut v[i]
}

/// The controlled entity a successful login spawns: default configuration, at
/// rest above the terrain, nothing pending, every acknowledgment at tick zero.
pub open spec fn spawned_player(id: u64, client_id: u64, player_id: u64) -> PlayerEntity {
    PlayerEntity {
        id,
        owner_client: client_id,
        player_id,
        movement: Movement { input: None, uses: 0 },
        config: crate::movement::default_config_value(),
        vel: Velocity { x: 0, y: 0 },
        ang_vel: 0,
        pos: Position { x: 0, y: 100000 },
        grounded: false,
        ack_vel: AckComponent { ack_tick: 0, value: Velocity { x: 0, y: 0 } },
        ack_ang: AckComponent { ack_tick: 0, value: 0 },
        ack_pos: AckComponent { ack_tick: 0, value: Position { x: 0, y: 100000 } },
        ack_grounded: AckComponent { ack_tick: 0, value: false },
    }
}

/// Processes one buffered login request: spawns the controlled entity with the
/// default configuration and its ownership link, spawns the per-client
/// configuration record, makes the new player visible to every established
/// connection, and grants the new connection visibility of every player, all
/// terrain and its own configuration record — never another client's.  A
/// second login from a connection whose session already exists is dropped.
#[verifier::loop_isolation(false)]
pub fn login(w: &mut ServerWorld, client_id: u64, player_id: u64) -> (ok: bool)
    requires
        old(w).wf(),
        old(w).next_id + 2 <= u64::MAX,
    ensures
        final(w).wf(),
        ok == !old(w).has_session(client_id),
        final(w).tick == old(w).tick,
        final(w).terrain@ == old(w).terrain@,
        !ok ==> final(w).players@ == old(w).players@ && final(w).configs@ == old(w).configs@
            && final(w).sessions@ == old(w).sessions@ && final(w).visibility@ == old(
        w,
        ).visibility@ && final(w).next_id == old(w).next_id,
        ok ==> final(w).players@ == old(w).players@.push(
            spawned_player(old(w).next_id, client_id, player_id),
        ),
        ok ==> final(w).configs@ == old(w).configs@.push(
            IndividualServerConfig {
                id: (old(w).next_id + 1) as u64,
                player_id,
                tick_ms: SERVER_TICK_MS,
            },
        ),
        ok ==> final(w).sessions@ == old(w).sessions@.push(
            Session {
                client_id,
                player_entity: old(w).next_id,
                config_entity: (old(w).next_id + 1) as u64,
                player_id,
            },
        ),
        ok ==> final(w).next_id == old(w).next_id + 2,
        ok ==> final(w).visibility@.len() == old(w).visibility@.len() + 1,
        ok ==> forall|i: int|
            0 <= i < old(w).visibility@.len() ==> (#[trigger] final(w).visibility@[i]).client_id
                == old(w).visibility@[i].client_id && final(w).visibility@[i].visible@ == old(
            w,
            ).visibility@[i].visible@.push(old(w).next_id),
        ok ==> final(w).visibility@.last().client_id == client_id,
        ok ==> final(w).visibility@.last().visible@ == player_ids(final(w).players@)
            + terrain_ids(old(w).terrain@) + seq![(old(w).next_id + 1) as u64],
{
    match find_session(&w.sessions, client_id) {
        Some(_) => {
            return false;
        },
        None => {},
    }
    let new_pid = w.next_id;
    let new_cid = w.next_id + 1;
    let config = default_player_config();
    w.players.push(
        PlayerEntity {
            id: new_pid,
            owner_client: client_id,
            player_id,
            movement: Movement { input: None, uses: 0 },
            config,
            vel: Velocity { x: 0, y: 0 },
            ang_vel: 0,
            pos: Position { x: 0, y: 100000 },
            grounded: false,
            ack_vel: AckComponent { ack_tick: 0, value: Velocity { x: 0, y: 0 } },
            ack_ang: AckComponent { ack_tick: 0, value: 0 },
            ack_pos: AckComponent { ack_tick: 0, value: Position { x: 0, y: 100000 } },
            ack_grounded: AckComponent { ack_tick: 0, value: false },
        },
    );
    w.configs.push(IndividualServerConfig { id: new_cid, player_id, tick_ms: SERVER_TICK_MS });
    w.sessions.push(
        Session { client_id, player_entity: new_pid, config_entity: new_cid, player_id },
    );
    w.next_id = w.next_id + 2;

    // The freshly spawned player becomes visible to every established client.
    let mut i: usize = 0;
    while i < w.visibility.len()
        invariant
            0 <= i <= w.visibility@.len(),
            w.visibility@.len() == old(w).visibility@.len(),
            w.players@ == old(w).players@.push(
                spawned_player(old(w).next_id, client_id, player_id),
            ),
            w.configs@ == old(w).configs@.push(
                IndividualServerConfig { id: new_cid, player_id, tick_ms: SERVER_TICK_MS },
            ),
            w.sessions@ == old(w).sessions@.push(
                Session { client_id, player_entity: new_pid, config_entity: new_cid, player_id },
            ),
            w.terrain@ == old(w).terrain@,
            w.next_id == old(w).next_id + 2,
            w.tick == old(w).tick,
            forall|k: int|
                0 <= k < i ==> (#[trigger] w.visibility@[k]).client_id == old(
                    w,
                ).visibility@[k].client_id && w.visibility@[k].visible@ == old(
                    w,
                ).visibility@[k].visible@.push(new_pid),
            forall|k: int|
                i <= k < w.visibility@.len() ==> #[trigger] w.visibility@[k] == old(
                    w,
                ).visibility@[k],
        decreases w.visibility@.len() - i,
    {
        let rec = vec_index_mut(&mut w.visibility, i);
        rec.visible.push(new_pid);
        i = i + 1;
    }

    // The new connection sees every player, all terrain, and its own
    // configuration record.
    let mut visible: Vec<u64> = Vec::new();
    let mut p: usize = 0;
    while p < w.players.len()
        invariant
            0 <= p <= w.players@.len(),
            visible@.len() == p,
            forall|k: int| 0 <= k < p ==> visible@[k] == (#[trigger] w.players@[k]).id,
        decreases w.players@.len() - p,
    {
        let pid = w.players[p].id;
        visible.push(pid);
        p = p + 1;
    }
    let np = w.players.len();
    let mut t: usize = 0;
    while t < w.terrain.len()
        invariant
            0 <= t <= w.terrain@.len(),
            visible@.len() == np + t,
            np == w.players@.len(),
            forall|k: int| 0 <= k < np ==> visible@[k] == (#[trigger] w.players@[k]).id,
            forall|k: int|
                np <= k < np + t ==> visible@[k] == (#[trigger] w.terrain@[k - np]).id,
        decreases w.terrain@.len() - t,
    {
        let tid = w.terrain[t].id;
        visible.push(tid);
        t = t + 1;
    }
    visible.push(new_cid);
    proof {
        assert(visible@ =~= player_ids(w.players@) + terrain_ids(w.terrain@) + seq![new_cid]);
    }
    w.visibility.push(VisibilityRecord { client_id, visible });

    proof {
        let wn = *w;
        let ghost nv = wn.visibility@.len() - 1;
        assert forall|a: int, b: int|
            0 <= a < b < wn.players@.len() implies wn.players@[a].id < wn.players@[b].id by {
            if b < wn.players@.len() - 1 {
                assert(old(w).players@[a].id < old(w).players@[b].id);
            } else if a < wn.players@.len() - 1 {
                assert(old(w).players@[a].id < old(w).next_id);
            }
        }
        assert forall|a: int, b: int|
            0 <= a < b < wn.sessions@.len() implies wn.sessions@[a].client_id
                != wn.sessions@[b].client_id by {
            if b == wn.sessions@.len() - 1 {
                assert(old(w).sessions@[a].client_id != client_id);
            }
        }
        assert forall|a: int, b: int|
            0 <= a < wn.visibility@.len() && 0 <= b < wn.visibility@[a].visible@.len()
                implies #[trigger] wn.visibility@[a].visible@[b] < wn.next_id by {
            if a < nv {
                if b < wn.visibility@[a].visible@.len() - 1 {
                    assert(old(w).visibility@[a].visible@[b] < old(w).next_id);
                }
            }
        }
        assert forall|a: int, b: int|
            0 <= a < wn.visibility@.len() && 0 <= b < wn.visibility@[a].visible@.len()
                implies !wn.foreign_config(
            wn.visibility@[a].client_id,
            #[trigger] wn.visibility@[a].visible@[b],
        ) by {
            let v = wn.visibility@[a].visible@[b];
            if wn.foreign_config(wn.visibility@[a].client_id, v) {
                let s = choose|s: int|
                    0 <= s < wn.sessions@.len() && wn.sessions@[s].client_id
                        != wn.visibility@[a].client_id && wn.sessions@[s].config_entity == v;
                if a < nv {
                    // an established client's list: old entries were clean, the
                    // appended id is the new player, never a configuration
                    if b < wn.visibility@[a].visible@.len() - 1 {
                        assert(old(w).visibility@[a].visible@[b] < old(w).next_id);
                        if s < wn.sessions@.len() - 1 {
                            assert(!old(w).foreign_config(
                                old(w).visibility@[a].client_id,
                                old(w).visibility@[a].visible@[b],
                            ));
                        }
                    }
                } else {
                    // the new client's list: players and terrain are not
                    // configuration entities, and its own configuration is its
                    // own session's
                    if b < np {
                        assert(v == wn.players@[b].id);
                        if s < wn.sessions@.len() - 1 {
                            if b < np - 1 {
                                assert(old(w).players@[b].id != old(w).sessions@[s].config_entity);
                            }
                        }
                    } else if b < visible@.len() - 1 {
                        assert(v == wn.terrain@[b - np].id);
                        if s < wn.sessions@.len() - 1 {
                            assert(old(w).terrain@[b - np].id != old(
                                w,
                            ).sessions@[s].config_entity);
                        }
                    } else {
                        assert(v == new_cid);
                        if s < wn.sessions@.len() - 1 {
                            assert(old(w).sessions@[s].config_entity < old(w).next_id);
                        } else {
                            assert(wn.sessions@[s].client_id == client_id);
                        }
                    }
                }
            }
        }
    }
    true
}

/// A player record with its pending input replaced (latest wins) and its use
/// counter reset.
pub open spec fn with_msg_input(p: PlayerEntity, input: MovementInput) -> PlayerEntity {
    PlayerEntity {
        id: p.id,
        owner_client: p.owner_client,
        player_id: p.player_id,
        movement: Movement { input: Some(input), uses: 0 },
        config: p.config,
        vel: p.vel,
        ang_vel: p.ang_vel,
        pos: p.pos,
        grounded: p.grounded,
        ack_vel: p.ack_vel,
        ack_ang: p.ack_ang,
        ack_pos: p.ack_pos,
        ack_grounded: p.ack_grounded,
    }
}

impl ServerWorld {
    /// Whether a player entity with id `id` exists.
    pub open spec fn has_player(&self, id: u64) -> bool {
        exists|i: int| 0 <= i < self.players@.len() && (#[trigger] self.players@[i]).id == id
    }

    /// The controlled entity of `client_id`'s session (meaningful only when
    /// the session exists; sessions are unique per connection).
    pub open spec fn session_player_entity(&self, client_id: u64) -> u64 {
        seq_session_player(self.sessions@, client_id)
    }
}

/// Whether `client_id` has a session in the given session table.
pub open spec fn seq_has_session(ss: Seq<Session>, client_id: u64) -> bool {
    exists|s: int| 0 <= s < ss.len() && (#[trigger] ss[s]).client_id == client_id
}

/// The controlled entity of `client_id`'s session in the given table.
pub open spec fn seq_session_player(ss: Seq<Session>, client_id: u64) -> u64 {
    let s = choose|s: int| 0 <= s < ss.len() && (#[trigger] ss[s]).client_id == client_id;
    ss[s].player_entity
}

/// The player record after a batch of buffered movement messages, applied in
/// arrival order against the given session table: each message whose sender's
/// session controls this player replaces the pending input (latest wins); all
/// others leave it alone.
pub open spec fn apply_moves_to(p: PlayerEntity, ss: Seq<Session>, moves: Seq<MoveMsg>)
    -> PlayerEntity
    decreases moves.len(),
{
    if moves.len() == 0 {
        p
    } else {
        let prev = apply_moves_to(p, ss, moves.drop_last());
        let m = moves.last();
        if seq_has_session(ss, m.client_id) && seq_session_player(ss, m.client_id) == p.id {
            with_msg_input(prev, m.input)
        } else {
            prev
        }
    }
}

/// Applies one buffered movement message: the owning session's entity gets the
/// input as its pending input, superseding any unconsumed one, with the use
/// counter reset.  A message from a connection with no established session (or
/// a dangling session) is dropped and changes nothing.
pub fn apply_movement(w: &mut ServerWorld, client_id: u64, input: MovementInput) -> (ok: bool)
    requires
        old(w).wf(),
    ensures
        final(w).wf(),
        ok == (old(w).has_session(client_id) && old(w).has_player(
            old(w).session_player_entity(client_id),
        )),
        final(w).tick == old(w).tick,
        final(w).next_id == old(w).next_id,
        final(w).terrain@ == old(w).terrain@,
        final(w).configs@ == old(w).configs@,
        final(w).sessions@ == old(w).sessions@,
        final(w).visibility@ == old(w).visibility@,
        final(w).players@.len() == old(w).players@.len(),
        !ok ==> final(w).players@ == old(w).players@,
        ok ==> forall|k: int|
            0 <= k < old(w).players@.len() ==> #[trigger] final(w).players@[k] == (if old(
                w,
            ).players@[k].id == old(w).session_player_entity(client_id) {
                with_msg_input(old(w).players@[k], input)
            } else {
                old(w).players@[k]
            }),
{
    let si = match find_session(&w.sessions, client_id) {
        None => {
            return false;
        },
        Some(si) => si,
    };
    let target = w.sessions[si].player_entity;
    proof {
        let s = choose|s: int|
            0 <= s < w.sessions@.len() && (#[trigger] w.sessions@[s]).client_id == client_id;
        if s != si as int {
            assert(w.sessions@[s].client_id != w.sessions@[si as int].client_id);
        }
        assert(target == old(w).session_player_entity(client_id));
    }
    let pi = match find_player(&w.players, target) {
        None => {
            return false;
        },
        Some(pi) => pi,
    };
    let ghost w0 = *w;
    let p = vec_index_mut(&mut w.players, pi);
    crate::movement::apply_input(&mut p.movement, &input);
    proof {
        assert(w.players@[pi as int] == with_msg_input(w0.players@[pi as int], input));
        assert forall|k: int|
            0 <= k < w.players@.len() implies #[trigger] w.players@[k] == (if w0.players@[k].id
            == target {
            with_msg_input(w0.players@[k], input)
        } else {
            w0.players@[k]
        }) by {
            if k != pi as int {
                if k < pi as int {
                    assert(w0.players@[k].id < w0.players@[pi as int].id);
                } else {
                    assert(w0.players@[pi as int].id < w0.players@[k].id);
                }
            }
        }
        lemma_vis_preserved(w0, *w);
    }
    true
}

/// The larger of two tick values.
pub open spec fn max_tick(a: int, b: int) -> int {
    if b > a {
        b
    } else {
        a
    }
}

/// How one authoritative step transforms a player record: the movement rule
/// engine runs once; when a pending input survives the step, every
/// per-component acknowledgment is stamped with `max(previous ack tick,
/// pending input's tick)` and the current component value, and the input's
/// tick bookkeeping then advances by one, so a stale input consumed again next
/// tick counts as a later tick's input.  With no surviving input the ledger is
/// left alone.
pub open spec fn stepped_rel(p0: PlayerEntity, p1: PlayerEntity, dt: int) -> bool {
    let r = entity_tick_model(p0.movement@, p0.config@, p0.vel@, p0.grounded, dt);
    &&& p1.movement@ == crate::movement::advance_pending(r.0)
    &&& p1.vel@ == r.1
    &&& p1.id == p0.id
    &&& p1.owner_client == p0.owner_client
    &&& p1.player_id == p0.player_id
    &&& p1.config == p0.config
    &&& p1.ang_vel == p0.ang_vel
    &&& p1.pos == p0.pos
    &&& p1.grounded == p0.grounded
    &&& match r.0.input {
        Some(inp) => {
            &&& p1.ack_vel.ack_tick as int == max_tick(p0.ack_vel.ack_tick as int, inp.tick)
            &&& p1.ack_vel.value == p1.vel
            &&& p1.ack_ang.ack_tick as int == max_tick(p0.ack_ang.ack_tick as int, inp.tick)
            &&& p1.ack_ang.value == p0.ang_vel
            &&& p1.ack_pos.ack_tick as int == max_tick(p0.ack_pos.ack_tick as int, inp.tick)
            &&& p1.ack_pos.value == p0.pos
            &&& p1.ack_grounded.ack_tick as int == max_tick(
                p0.ack_grounded.ack_tick as int,
                inp.tick,
            )
            &&& p1.ack_grounded.value == p0.grounded
        },
        None => {
            &&& p1.ack_vel == p0.ack_vel
            &&& p1.ack_ang == p0.ack_ang
            &&& p1.ack_pos == p0.ack_pos
            &&& p1.ack_grounded == p0.ack_grounded
        },
    }
}

/// Runs one authoritative step for one player and stamps its acknowledgment
/// ledger.  Every ack tick is monotone: it never decreases.
pub fn step_player(p: &mut PlayerEntity, dt_ms: i64)
    requires
        player_wf(*old(p)),
        0 <= dt_ms <= DT_LIMIT,
    ensures
        stepped_rel(*old(p), *final(p), dt_ms as int),
        player_wf(*final(p)),
        final(p).ack_vel.ack_tick >= old(p).ack_vel.ack_tick,
        final(p).ack_ang.ack_tick >= old(p).ack_ang.ack_tick,
        final(p).ack_pos.ack_tick >= old(p).ack_pos.ack_tick,
        final(p).ack_grounded.ack_tick >= old(p).ack_grounded.ack_tick,
{
    crate::movement::entity_tick(&mut p.movement, &p.config, &mut p.vel, p.grounded, dt_ms);
    let pending = match &p.movement.input {
        Some(inp) => Some(*inp),
        None => None,
    };
    match pending {
        Some(inp) => {
            let vel_now = p.vel;
            p.ack_vel.update(vel_now, inp.tick);
            let ang_now = p.ang_vel;
            p.ack_ang.update(ang_now, inp.tick);
            let pos_now = p.pos;
            p.ack_pos.update(pos_now, inp.tick);
            let grounded_now = p.grounded;
            p.ack_grounded.update(grounded_now, inp.tick);
        },
        None => {},
    }
    advance_pending_tick(&mut p.movement);
}

/// Runs one authoritative step for every controlled entity and stamps every
/// acknowledgment ledger.
#[verifier::loop_isolation(false)]
pub fn step_all_players(w: &mut ServerWorld, dt_ms: i64)
    requires
        old(w).wf(),
        0 <= dt_ms <= DT_LIMIT,
    ensures
        final(w).wf(),
        final(w).tick == old(w).tick,
        final(w).next_id == old(w).next_id,
        final(w).terrain@ == old(w).terrain@,
        final(w).configs@ == old(w).configs@,
        final(w).sessions@ == old(w).sessions@,
        final(w).visibility@ == old(w).visibility@,
        final(w).players@.len() == old(w).players@.len(),
        forall|k: int|
            0 <= k < old(w).players@.len() ==> stepped_rel(
                old(w).players@[k],
                #[trigger] final(w).players@[k],
                dt_ms as int,
            ),
{
    let mut i: usize = 0;
    let n = w.players.len();
    while i < n
        invariant
            0 <= i <= n,
            n == w.players@.len(),
            w.players@.len() == old(w).players@.len(),
            w.tick == old(w).tick,
            w.next_id == old(w).next_id,
            w.terrain@ == old(w).terrain@,
            w.configs@ == old(w).configs@,
            w.sessions@ == old(w).sessions@,
            w.visibility@ == old(w).visibility@,
            forall|k: int|
                0 <= k < i ==> stepped_rel(
                    old(w).players@[k],
                    #[trigger] w.players@[k],
                    dt_ms as int,
                ),
            forall|k: int| 0 <= k < i ==> player_wf(#[trigger] w.players@[k]),
            forall|k: int| i <= k < n ==> #[trigger] w.players@[k] == old(w).players@[k],
        decreases n - i,
    {
        let p = vec_index_mut(&mut w.players, i);
        step_player(p, dt_ms);
        i = i + 1;
    }
    proof {
        assert forall|k: int|
            0 <= k < w.players@.len() implies player_wf(#[trigger] w.players@[k])
            && w.players@[k].id == old(w).players@[k].id by {
            assert(stepped_rel(old(w).players@[k], w.players@[k], dt_ms as int));
        }
        assert forall|a: int, b: int|
            0 <= a < b < w.players@.len() implies w.players@[a].id < w.players@[b].id by {
            assert(old(w).players@[a].id < old(w).players@[b].id);
        }
        assert forall|a: int, b: int|
            0 <= a < w.players@.len() && 0 <= b < w.sessions@.len()
                implies (#[trigger] w.players@[a]).id != (
            #[trigger] w.sessions@[b]).config_entity by {
            assert(old(w).players@[a].id != old(w).sessions@[b].config_entity);
        }
        lemma_vis_preserved(*old(w), *w);
    }
}

/// One full authoritative tick, in the fixed order: advance the global tick
/// counter, establish sessions for buffered login requests, apply buffered
/// movement inputs (latest wins), then run one simulation step per controlled
/// entity and stamp its acknowledgment ledger.  Every ack tick is monotone
/// across the tick, and pre-existing players keep their identity.
#[verifier::loop_isolation(false)]
pub fn authoritative_tick(
    w: &mut ServerWorld,
    logins: &Vec<LoginMsg>,
    moves: &Vec<MoveMsg>,
    dt_ms: i64,
)
    requires
        old(w).wf(),
        old(w).tick < u32::MAX,
        old(w).next_id + 2 * logins@.len() <= u64::MAX,
        0 <= dt_ms <= DT_LIMIT,
    ensures
        final(w).wf(),
        final(w).tick == old(w).tick + 1,
        final(w).terrain@ == old(w).terrain@,
        final(w).players@.len() >= old(w).players@.len(),
        forall|k: int|
            0 <= k < old(w).players@.len() ==> (#[trigger] final(w).players@[k]).id == old(
                w,
            ).players@[k].id && final(w).players@[k].owner_client == old(
                w,
            ).players@[k].owner_client && final(w).players@[k].player_id == old(
                w,
            ).players@[k].player_id,
        forall|k: int|
            0 <= k < old(w).players@.len() ==> (#[trigger] final(w).players@[k]).ack_vel.ack_tick
                >= old(w).players@[k].ack_vel.ack_tick && final(w).players@[k].ack_ang.ack_tick
                >= old(w).players@[k].ack_ang.ack_tick && final(w).players@[k].ack_pos.ack_tick
                >= old(w).players@[k].ack_pos.ack_tick
                && final(w).players@[k].ack_grounded.ack_tick
                >= old(w).players@[k].ack_grounded.ack_tick,
        forall|k: int|
            0 <= k < old(w).players@.len() ==> stepped_rel(
                apply_moves_to(old(w).players@[k], old(w).sessions@, moves@),
                #[trigger] final(w).players@[k],
                dt_ms as int,
            ),
{
    w.tick = w.tick + 1;

    let mut li: usize = 0;
    while li < logins.len()
        invariant
            0 <= li <= logins@.len(),
            w.wf(),
            w.tick == old(w).tick + 1,
            w.terrain@ == old(w).terrain@,
            w.next_id <= old(w).next_id + 2 * li,
            w.next_id >= old(w).next_id,
            w.players@.len() >= old(w).players@.len(),
            forall|k: int|
                0 <= k < old(w).players@.len() ==> #[trigger] w.players@[k] == old(w).players@[k],
            w.sessions@.len() >= old(w).sessions@.len(),
            w.sessions@.subrange(0, old(w).sessions@.len() as int) == old(w).sessions@,
            forall|j: int|
                old(w).sessions@.len() <= j < w.sessions@.len()
                    ==> (#[trigger] w.sessions@[j]).player_entity >= old(w).next_id,
        decreases logins@.len() - li,
    {
        let msg = logins[li];
        login(w, msg.client_id, msg.player_id);
        proof {
            assert(w.sessions@.subrange(0, old(w).sessions@.len() as int) =~= old(w).sessions@);
        }
        li = li + 1;
    }

    let ghost wl = *w;
    proof {
        assert(moves@.take(0) =~= Seq::<MoveMsg>::empty());
    }
    let mut mi: usize = 0;
    while mi < moves.len()
        invariant
            0 <= mi <= moves@.len(),
            w.wf(),
            w.tick == wl.tick,
            w.terrain@ == wl.terrain@,
            w.sessions@ == wl.sessions@,
            w.players@.len() == wl.players@.len(),
            forall|k: int|
                0 <= k < wl.players@.len() ==> (#[trigger] w.players@[k]).id == wl.players@[k].id
                    && w.players@[k].owner_client == wl.players@[k].owner_client
                    && w.players@[k].player_id == wl.players@[k].player_id && w.players@[k].ack_vel
                    == wl.players@[k].ack_vel && w.players@[k].ack_ang == wl.players@[k].ack_ang
                    && w.players@[k].ack_pos == wl.players@[k].ack_pos
                    && w.players@[k].ack_grounded == wl.players@[k].ack_grounded,
            forall|k: int|
                0 <= k < old(w).players@.len() ==> #[trigger] w.players@[k] == apply_moves_to(
                    old(w).players@[k],
                    old(w).sessions@,
                    moves@.take(mi as int),
                ),
        decreases moves@.len() - mi,
    {
        let msg = moves[mi];
        let ghost wb = *w;
        apply_movement(w, msg.client_id, msg.input);
        proof {
            let ms = moves@;
            let oldss = old(w).sessions@;
            let c = msg.client_id;
            assert(ms.take(mi as int + 1).drop_last() =~= ms.take(mi as int));
            assert(ms.take(mi as int + 1).last() == ms[mi as int]);
            assert forall|k: int|
                0 <= k < wl.players@.len() implies (#[trigger] w.players@[k]).id
                == wl.players@[k].id && w.players@[k].owner_client == wl.players@[k].owner_client
                && w.players@[k].player_id == wl.players@[k].player_id && w.players@[k].ack_vel
                == wl.players@[k].ack_vel && w.players@[k].ack_ang == wl.players@[k].ack_ang
                && w.players@[k].ack_pos == wl.players@[k].ack_pos && w.players@[k].ack_grounded
                == wl.players@[k].ack_grounded by {
                assert(w.players@[k] == wb.players@[k] || w.players@[k] == with_msg_input(
                    wb.players@[k],
                    msg.input,
                ));
            }
            assert forall|k: int|
                0 <= k < old(w).players@.len() implies #[trigger] w.players@[k] == apply_moves_to(
                old(w).players@[k],
                oldss,
                ms.take(mi as int + 1),
            ) by {
                let p0 = old(w).players@[k];
                let prev = apply_moves_to(p0, oldss, ms.take(mi as int));
                assert(wb.players@[k] == prev);
                assert(wb.players@[k].id == p0.id);
                if seq_has_session(oldss, c) {
                    let i0 = choose|i: int|
                        0 <= i < oldss.len() && (#[trigger] oldss[i]).client_id == c;
                    assert(wb.sessions@[i0] == oldss[i0]);
                    assert(seq_has_session(wb.sessions@, c));
                    let j = choose|i: int|
                        0 <= i < wb.sessions@.len() && (#[trigger] wb.sessions@[i]).client_id == c;
                    if j != i0 {
                        assert(wb.sessions@[j].client_id != wb.sessions@[i0].client_id);
                    }
                    assert(seq_session_player(wb.sessions@, c) == oldss[i0].player_entity);
                    let j0 = choose|i: int|
                        0 <= i < oldss.len() && (#[trigger] oldss[i]).client_id == c;
                    if j0 != i0 {
                        assert(old(w).sessions@[j0].client_id != old(w).sessions@[i0].client_id);
                    }
                    assert(seq_session_player(oldss, c) == oldss[i0].player_entity);
                    if wb.has_player(seq_session_player(wb.sessions@, c)) {
                        assert(w.players@[k] == (if wb.players@[k].id
                            == wb.session_player_entity(c) {
                            with_msg_input(wb.players@[k], msg.input)
                        } else {
                            wb.players@[k]
                        }));
                    } else {
                        assert(w.players@[k] == wb.players@[k]);
                        if p0.id == seq_session_player(oldss, c) {
                            assert(wb.players@[k].id == p0.id);
                            assert(wb.has_player(p0.id));
                        }
                    }
                } else {
                    if seq_has_session(wb.sessions@, c) {
                        let j = choose|i: int|
                            0 <= i < wb.sessions@.len() && (#[trigger] wb.sessions@[i]).client_id
                                == c;
                        if j < oldss.len() {
                            assert(wb.sessions@[j] == oldss[j]);
                        }
                        assert(j >= oldss.len());
                        assert(wb.sessions@[j].player_entity >= old(w).next_id);
                        assert(p0.id < old(w).next_id);
                        let j2 = choose|i: int|
                            0 <= i < wb.sessions@.len() && (#[trigger] wb.sessions@[i]).client_id
                                == c;
                        if j2 != j {
                            assert(wb.sessions@[j2].client_id != wb.sessions@[j].client_id);
                        }
                        if wb.has_player(wb.session_player_entity(c)) {
                            assert(w.players@[k] == (if wb.players@[k].id
                                == wb.session_player_entity(c) {
                                with_msg_input(wb.players@[k], msg.input)
                            } else {
                                wb.players@[k]
                            }));
                            assert(wb.players@[k].id != wb.session_player_entity(c));
                        } else {
                            assert(w.players@[k] == wb.players@[k]);
                        }
                    } else {
                        assert(w.players@[k] == wb.players@[k]);
                    }
                }
            }
        }
        mi = mi + 1;
    }
    proof {
        assert(moves@.take(moves@.len() as int) =~= moves@);
    }

    step_all_players(w, dt_ms);
}

/// The connection-timeout watchdog's check: whether the connection has an
/// established session.  The watchdog only observes; a connection that never
/// logged in is merely reported, never torn down.
pub fn session_established(w: &ServerWorld, client_id: u64) -> (r: bool)
    ensures
        r == w.has_session(client_id),
{
    match find_session(&w.sessions, client_id) {
        Some(_) => true,
        None => false,
    }
}

/// Recomputes a player's ground flag from the contact angles the physics
/// collaborator's shape cast reported (milliradian deviations from up).
pub fn set_player_grounded(p: &mut PlayerEntity, hits: &Vec<i64>)
    requires
        player_wf(*old(p)),
    ensures
        player_wf(*final(p)),
        final(p).grounded == grounded_spec(hits@, old(p).config@.max_slope_angle),
        final(p).id == old(p).id,
        final(p).owner_client == old(p).owner_client,
        final(p).player_id == old(p).player_id,
        final(p).movement == old(p).movement,
        final(p).config == old(p).config,
        final(p).vel == old(p).vel,
        final(p).ang_vel == old(p).ang_vel,
        final(p).pos == old(p).pos,
        final(p).ack_vel == old(p).ack_vel,
        final(p).ack_ang == old(p).ack_ang,
        final(p).ack_pos == old(p).ack_pos,
        final(p).ack_grounded == old(p).ack_grounded,
{
    p.grounded = grounded_from_hits(hits, p.config.max_slope_angle);
}

/// Spawns a static terrain entity (milli-scaled extents and translation).
pub fn spawn_terrain(w: &mut ServerWorld, width: i64, height: i64, x: i64, y: i64) -> (id: u64)
    requires
        old(w).wf(),
        old(w).next_id < u64::MAX,
    ensures
        final(w).wf(),
        id == old(w).next_id,
        final(w).next_id == old(w).next_id + 1,
        final(w).terrain@ == old(w).terrain@.push(
            TerrainEntity { id: old(w).next_id, width, height, x, y },
        ),
        final(w).tick == old(w).tick,
        final(w).players@ == old(w).players@,
        final(w).configs@ == old(w).configs@,
        final(w).sessions@ == old(w).sessions@,
        final(w).visibility@ == old(w).visibility@,
{
    let id = w.next_id;
    w.terrain.push(TerrainEntity { id, width, height, x, y });
    w.next_id = w.next_id + 1;
    proof {
        assert forall|i: int, j: int|
            0 <= i < w.visibility@.len() && 0 <= j < w.visibility@[i].visible@.len()
                implies !w.foreign_config(
            w.visibility@[i].client_id,
            #[trigger] w.visibility@[i].visible@[j],
        ) by {
            if w.foreign_config(w.visibility@[i].client_id, w.visibility@[i].visible@[j]) {
                let s = choose|s: int|
                    0 <= s < w.sessions@.len() && w.sessions@[s].client_id
                        != w.visibility@[i].client_id && w.sessions@[s].config_entity
                        == w.visibility@[i].visible@[j];
                assert(old(w).foreign_config(
                    old(w).visibility@[i].client_id,
                    old(w).visibility@[i].visible@[j],
                ));
            }
        }
    }
    id
}

} // verus!
