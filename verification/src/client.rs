//! The client side: the session context, the buffer of inputs the server has
//! not yet acknowledged, the candidate minimum-ack tracking across predicted
//! components, and the rollback pass that trims the buffer and deterministically
//! replays what remains.

use vstd::prelude::*;
use crate::Tick;
use crate::history::PredictedMemory;
use crate::movement::{
    Movement, MovementConfig, MovementInput, Velocity, InputModel, config_wf, movement_wf, vel_wf,
    replay_model, apply_input, entity_tick, DIR_UNIT, DT_LIMIT,
};

verus! {

/// The login event a client sends once its connection is established: the
/// client-chosen random 64-bit session identity.
#[derive(Clone, Copy, PartialEq, Eq, Structural, Debug)]
pub struct Login {
    pub player_id: u64,
}

/// Transient per-session client state: the handles learnt from replication and
/// the local tick counter.
#[derive(Clone, Copy, Debug)]
pub struct ClientContext {
    pub individual_config: Option<u64>,
    pub player_entity: Option<u64>,
    pub player_id: Option<u64>,
    pub tick: Tick,
}

/// The client input memory: the binding minimum ack, the candidate new
/// minimum ack, and the tick-stamped inputs not yet acknowledged.
pub struct InputMemory {
    pub current_min_ack: Tick,
    pub new_min_ack: Option<Tick>,
    pub inputs: Vec<(Tick, MovementInput)>,
}

/// What remains of the buffer once every input acknowledged by `t` (tick at
/// most `t`) is dropped from the front.
pub open spec fn drop_acked(s: Seq<(Tick, MovementInput)>, t: Tick) -> Seq<(Tick, MovementInput)>
    decreases s.len(),
{
    if s.len() == 0 {
        s
    } else if s[0].0 <= t {
        drop_acked(s.drop_first(), t)
    } else {
        s
    }
}

/// The buffered inputs as their mathematical models, in buffer order.
pub open spec fn input_models(s: Seq<(Tick, MovementInput)>) -> Seq<InputModel> {
    s.map_values(|p: (Tick, MovementInput)| p.1@)
}

impl InputMemory {
    /// Buffered inputs are strictly increasing by tick, each stamped later
    /// than the binding minimum ack, each keyed by its own tick; a candidate
    /// minimum ack never lies before the binding one.
    pub open spec fn wf(&self) -> bool {
        &&& forall|i: int, j: int|
            0 <= i < j < self.inputs@.len() ==> self.inputs@[i].0 < self.inputs@[j].0
        &&& forall|i: int| 0 <= i < self.inputs@.len() ==> self.inputs@[i].0 > self.current_min_ack
        &&& forall|i: int| 0 <= i < self.inputs@.len() ==> self.inputs@[i].1.tick == self.inputs@[i].0
        &&& match self.new_min_ack {
            Some(t) => t >= self.current_min_ack,
            None => true,
        }
    }

    /// An empty memory at the start of a session.
    pub fn new() -> (r: InputMemory)
        ensures
            r.wf(),
            r.current_min_ack == 0,
            r.new_min_ack is None,
            r.inputs@.len() == 0,
    {
        InputMemory { current_min_ack: 0, new_min_ack: None, inputs: Vec::new() }
    }
}

impl ClientContext {
    /// A fresh context at connect time: nothing learnt yet.
    pub fn new() -> (r: ClientContext)
        ensures
            r.individual_config is None,
            r.player_entity is None,
            r.player_id is None,
            r.tick == 0,
    {
        ClientContext { individual_config: None, player_entity: None, player_id: None, tick: 0 }
    }
}

/// Relies on rand::random: draws the client-chosen random 64-bit session
/// identity presented at login.  Nothing can be promised of the value.
#[verifier::external_body]
fn random_session_id() -> u64 {
    rand::random::<u64>()
}

/// Adopts `player_id` as this session's identity and builds the login event
/// that announces it.
pub fn begin_session(ctx: &mut ClientContext, player_id: u64) -> (l: Login)
    ensures
        l.player_id == player_id,
        final(ctx).player_id == Some(player_id),
        final(ctx).individual_config == old(ctx).individual_config,
        final(ctx).player_entity == old(ctx).player_entity,
        final(ctx).tick == old(ctx).tick,
{
    ctx.player_id = Some(player_id);
    Login { player_id }
}

/// On an established connection: draw a random session identity, adopt it and
/// build the login event.  Whatever value the generator returns, the context
/// and the event agree on it.
pub fn handle_connection_established(ctx: &mut ClientContext) -> (l: Login)
    ensures
        final(ctx).player_id == Some(l.player_id),
        final(ctx).individual_config == old(ctx).individual_config,
        final(ctx).player_entity == old(ctx).player_entity,
        final(ctx).tick == old(ctx).tick,
{
    let id = random_session_id();
    begin_session(ctx, id)
}

/// When a per-client configuration record arrives: remember its entity handle
/// iff it announces this session's identity.
pub fn note_config(ctx: &mut ClientContext, config_entity: u64, config_player_id: u64)
    ensures
        final(ctx).individual_config == (if old(ctx).player_id == Some(config_player_id) {
            Some(config_entity)
        } else {
            old(ctx).individual_config
        }),
        final(ctx).player_entity == old(ctx).player_entity,
        final(ctx).player_id == old(ctx).player_id,
        final(ctx).tick == old(ctx).tick,
{
    let mine = match ctx.player_id {
        Some(id) => id == config_player_id,
        None => false,
    };
    if mine {
        ctx.individual_config = Some(config_entity);
    }
}

/// When a replicated player entity arrives: remember it as the locally
/// controlled entity iff it carries this session's identity.  Returns whether
/// it is ours (the caller then attaches the movement controller; a foreign
/// player is displayed only).
pub fn note_player(ctx: &mut ClientContext, player_entity: u64, player_id: u64) -> (own: bool)
    ensures
        own == (old(ctx).player_id == Some(player_id)),
        final(ctx).player_entity == (if own {
            Some(player_entity)
        } else {
            old(ctx).player_entity
        }),
        final(ctx).individual_config == old(ctx).individual_config,
        final(ctx).player_id == old(ctx).player_id,
        final(ctx).tick == old(ctx).tick,
{
    let own = match ctx.player_id {
        Some(id) => id == player_id,
        None => false,
    };
    if own {
        ctx.player_entity = Some(player_entity);
    }
    own
}

/// Whether an entity owned by `owner_player_id` is this session's own and so
/// must be marked predicted.
pub fn should_predict(ctx: &ClientContext, owner_player_id: u64) -> (r: bool)
    ensures
        r == (ctx.player_id == Some(owner_player_id)),
{
    match ctx.player_id {
        Some(id) => id == owner_player_id,
        None => false,
    }
}

/// The horizontal intent two opposing keys produce, in milli scale.
pub open spec fn key_direction(left: bool, right: bool) -> int {
    (if right {
        DIR_UNIT as int
    } else {
        0
    }) - (if left {
        DIR_UNIT as int
    } else {
        0
    })
}

/// Samples exactly one input for this local tick: advances the local tick
/// counter and stamps the input with it.
pub fn sample_input(ctx: &mut ClientContext, left: bool, right: bool, jump: bool) -> (inp:
    MovementInput)
    requires
        old(ctx).tick < u32::MAX,
    ensures
        final(ctx).tick == old(ctx).tick + 1,
        final(ctx).individual_config == old(ctx).individual_config,
        final(ctx).player_entity == old(ctx).player_entity,
        final(ctx).player_id == old(ctx).player_id,
        inp.tick == final(ctx).tick,
        inp.jump == jump,
        inp.direction as int == key_direction(left, right),
{
    ctx.tick = ctx.tick + 1;
    let mut direction: i64 = 0;
    if left {
        direction = direction - DIR_UNIT;
    }
    if right {
        direction = direction + DIR_UNIT;
    }
    MovementInput { direction, jump, tick: ctx.tick }
}

/// Appends a freshly sampled input to the buffer.  Inputs arrive in strictly
/// increasing tick order and always after the binding minimum ack.
pub fn push_input(mem: &mut InputMemory, inp: MovementInput)
    requires
        old(mem).wf(),
        inp.tick > old(mem).current_min_ack,
        old(mem).inputs@.len() == 0 || old(mem).inputs@.last().0 < inp.tick,
    ensures
        final(mem).wf(),
        final(mem).inputs@ == old(mem).inputs@.push((inp.tick, inp)),
        final(mem).current_min_ack == old(mem).current_min_ack,
        final(mem).new_min_ack == old(mem).new_min_ack,
{
    mem.inputs.push((inp.tick, inp));
    assert forall|i: int, j: int|
        0 <= i < j < mem.inputs@.len() implies mem.inputs@[i].0 < mem.inputs@[j].0 by {
        if j == mem.inputs@.len() - 1 && i < j - 1 {
            assert(old(mem).inputs@[i].0 < old(mem).inputs@[j - 1].0);
        }
    }
}

/// Whether a rollback is due: a candidate minimum ack exists and strictly
/// exceeds the binding minimum ack.
pub open spec fn rollback_due(mem: InputMemory) -> bool {
    match mem.new_min_ack {
        Some(t) => t > mem.current_min_ack,
        None => false,
    }
}

/// Returns whether the next rollback pass must run.
pub fn predicted_tick_changed(mem: &InputMemory) -> (r: bool)
    ensures
        r == rollback_due(*mem),
{
    match mem.new_min_ack {
        Some(t) => t > mem.current_min_ack,
        None => false,
    }
}

/// Folds one predicted component's newest acknowledged tick into the candidate
/// minimum ack: the candidate is the minimum across components of the newest
/// ack each component has seen.  A tick older than the binding minimum ack is
/// stale and silently ignored.
pub fn observe_ack(mem: &mut InputMemory, tail_tick: Tick)
    requires
        old(mem).wf(),
    ensures
        final(mem).wf(),
        final(mem).new_min_ack == (if tail_tick >= old(mem).current_min_ack && (match old(
            mem,
        ).new_min_ack {
            Some(t) => t,
            None => u32::MAX,
        }) > tail_tick {
            Some(tail_tick)
        } else {
            old(mem).new_min_ack
        }),
        final(mem).current_min_ack == old(mem).current_min_ack,
        final(mem).inputs@ == old(mem).inputs@,
{
    if tail_tick < mem.current_min_ack {
        return ;
    }
    let candidate = match mem.new_min_ack {
        Some(t) => t,
        None => u32::MAX,
    };
    if candidate > tail_tick {
        mem.new_min_ack = Some(tail_tick);
    }
}

/// Folds one predicted component's history into the candidate minimum ack; a
/// component with no observed value yet contributes nothing.
pub fn observe_history<V>(mem: &mut InputMemory, h: &PredictedMemory<V>)
    requires
        old(mem).wf(),
    ensures
        final(mem).wf(),
        final(mem).new_min_ack == (if h.values@.len() > 0 && h.values@.last().1 >= old(
            mem,
        ).current_min_ack && (match old(mem).new_min_ack {
            Some(t) => t,
            None => u32::MAX,
        }) > h.values@.last().1 {
            Some(h.values@.last().1)
        } else {
            old(mem).new_min_ack
        }),
        final(mem).current_min_ack == old(mem).current_min_ack,
        final(mem).inputs@ == old(mem).inputs@,
{
    match h.last_tick() {
        Some(t) => observe_ack(mem, t),
        None => {},
    }
}

/// The rollback pass.  With a candidate minimum ack strictly beyond the
/// binding one: drop every buffered input the candidate acknowledges, replay
/// every remaining input in tick order through the authoritative-equivalent
/// step (with the caller-supplied per-step ground flags and tick period), and
/// commit the candidate as the binding minimum ack.
pub fn rollback_pass(
    mem: &mut InputMemory,
    m: &mut Movement,
    c: &MovementConfig,
    v: &mut Velocity,
    grounded: &Vec<bool>,
    dt_ms: i64,
)
    requires
        old(mem).wf(),
        rollback_due(*old(mem)),
        movement_wf(old(m)@),
        config_wf(c@),
        vel_wf(old(v)@),
        0 <= dt_ms <= DT_LIMIT,
        grounded@.len() >= old(mem).inputs@.len(),
    ensures
        final(mem).wf(),
        final(mem).current_min_ack == old(mem).new_min_ack.unwrap(),
        final(mem).new_min_ack is None,
        final(mem).inputs@ == drop_acked(old(mem).inputs@, old(mem).new_min_ack.unwrap()),
        forall|i: int|
            0 <= i < final(mem).inputs@.len() ==> final(mem).inputs@[i].0 > old(
                mem,
            ).new_min_ack.unwrap(),
        (final(m)@, final(v)@) == replay_model(
            old(m)@,
            old(v)@,
            input_models(final(mem).inputs@),
            grounded@,
            c@,
            dt_ms as int,
        ),
        movement_wf(final(m)@),
        vel_wf(final(v)@),
{
    let target = match mem.new_min_ack {
        Some(t) => t,
        None => 0,
    };

    // Step 1: drop every buffered input the new minimum ack covers.
    loop
        invariant
            mem.wf(),
            drop_acked(mem.inputs@, target) == drop_acked(old(mem).inputs@, target),
            mem.current_min_ack == old(mem).current_min_ack,
            mem.new_min_ack == old(mem).new_min_ack,
            grounded@.len() >= mem.inputs@.len(),
        ensures
            mem.wf(),
            drop_acked(mem.inputs@, target) == drop_acked(old(mem).inputs@, target),
            mem.inputs@.len() == 0 || mem.inputs@[0].0 > target,
            mem.current_min_ack == old(mem).current_min_ack,
            mem.new_min_ack == old(mem).new_min_ack,
            grounded@.len() >= mem.inputs@.len(),
        decreases mem.inputs@.len(),
    {
        let len = mem.inputs.len();
        if len == 0 {
            break ;
        }
        if mem.inputs[0].0 > target {
            break ;
        }
        let ghost before = mem.inputs@;
        let _ = mem.inputs.remove(0);
        proof {
            assert(mem.inputs@ =~= before.drop_first());
            assert forall|i: int, j: int|
                0 <= i < j < mem.inputs@.len() implies mem.inputs@[i].0 < mem.inputs@[j].0 by {
                assert(before[i + 1].0 < before[j + 1].0);
            }
        }
    }
    proof {
        if mem.inputs@.len() > 0 {
            assert(drop_acked(mem.inputs@, target) == mem.inputs@);
        }
        assert(mem.inputs@ == drop_acked(old(mem).inputs@, target));
    }

    // Steps 2 and 3: replay the remaining inputs in tick order through the
    // shared authoritative-equivalent step.
    let ghost trimmed = mem.inputs@;
    let ghost m_start = m@;
    let ghost v_start = v@;
    proof {
        assert(trimmed.skip(0) =~= trimmed);
        assert(grounded@.skip(0) =~= grounded@);
    }
    let mut i: usize = 0;
    while i < mem.inputs.len()
        invariant
            0 <= i <= mem.inputs@.len(),
            mem.inputs@ == trimmed,
            grounded@.len() >= mem.inputs@.len(),
            movement_wf(m@),
            vel_wf(v@),
            config_wf(c@),
            0 <= dt_ms <= DT_LIMIT,
            replay_model(
                m@,
                v@,
                input_models(trimmed.skip(i as int)),
                grounded@.skip(i as int),
                c@,
                dt_ms as int,
            ) == replay_model(
                m_start,
                v_start,
                input_models(trimmed),
                grounded@,
                c@,
                dt_ms as int,
            ),
        decreases mem.inputs@.len() - i,
    {
        let inp = mem.inputs[i].1;
        apply_input(m, &inp);
        entity_tick(m, c, v, grounded[i], dt_ms);
        proof {
            let rest = input_models(trimmed.skip(i as int));
            assert(rest[0] == inp@);
            assert(rest.drop_first() =~= input_models(trimmed.skip(i as int + 1)));
            assert(grounded@.skip(i as int).drop_first() =~= grounded@.skip(i as int + 1));
            assert(grounded@.skip(i as int)[0] == grounded@[i as int]);
        }
        i = i + 1;
    }
    proof {
        assert(trimmed.skip(trimmed.len() as int) =~= Seq::<(Tick, MovementInput)>::empty());
        assert(input_models(trimmed.skip(trimmed.len() as int)).len() == 0);
    }

    // Step 4: the candidate becomes the binding minimum ack.
    mem.current_min_ack = target;
    mem.new_min_ack = None;
}

} // verus!
