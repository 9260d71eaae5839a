//! The movement rule engine: the pure per-tick state transition shared by the
//! authoritative server loop and the client rollback replay.
//!
//! Both sides must produce bit-identical results from identical inputs, so the
//! whole engine works on milli-scaled fixed-point integers (see `fixed`).
//! One step, in order: ground detection from contact angles, horizontal
//! acceleration scaled by an aerial factor, a hard clamp to the configured
//! maximum speed, an instantaneous jump impulse when grounded, a constant
//! light drag, and a stronger ground-only damping factor.

use vstd::prelude::*;
use crate::fixed::{milli, clamp_spec, scale_milli, clamp_i64, lemma_milli_bound};
use crate::Tick;

verus! {

/// Full input intent (one unit) in milli scale.
pub const DIR_UNIT: i64 = 1000;

/// Light drag applied to horizontal velocity every step (0.995).
pub const DRAG_FACTOR: i64 = 995;

/// Acceleration factor while airborne (0.5); grounded entities use 1.
pub const AIR_ACCEL_FACTOR: i64 = 500;

/// Acceleration factor while grounded (1).
pub const GROUND_ACCEL_FACTOR: i64 = 1000;

/// How many steps may consume the same pending input before it is cleared.
pub const MAX_INPUT_USES: u32 = 3;

/// Hard magnitude bound on any velocity component or jump impulse.
pub const VEL_LIMIT: i64 = 1_000_000_000;

/// Hard bound on the configured acceleration.
pub const ACCEL_LIMIT: i64 = 1_000_000_000;

/// Hard bound on a tick period in milliseconds.
pub const DT_LIMIT: i64 = 1_000_000;

/// Hard bound on a slope angle in milliradians (a little over pi).
pub const SLOPE_LIMIT: i64 = 3_142;

/// One sampled input: a horizontal intent in `[-DIR_UNIT, DIR_UNIT]`, a jump
/// request, and the tick it was sampled at.
#[derive(Clone, Copy, PartialEq, Eq, Structural, Debug)]
pub struct MovementInput {
    pub direction: i64,
    pub jump: bool,
    pub tick: Tick,
}

/// The movement record of a controlled entity: the pending input, if any, and
/// how many steps have consumed it.
#[derive(Clone, Copy, Debug)]
pub struct Movement {
    pub input: Option<MovementInput>,
    pub uses: u32,
}

/// Immutable per-entity tunables, milli-scaled.
#[derive(Clone, Copy, Debug)]
pub struct MovementConfig {
    pub acceleration: i64,
    pub damping: i64,
    pub jump_impulse: i64,
    pub max_slope_angle: Option<i64>,
    pub max_velocity: i64,
}

/// A linear velocity in milli-units per second.
#[derive(Clone, Copy, PartialEq, Eq, Structural, Debug)]
pub struct Velocity {
    pub x: i64,
    pub y: i64,
}

/// Mathematical model of an input.
pub ghost struct InputModel {
    pub direction: int,
    pub jump: bool,
    pub tick: int,
}

/// Mathematical model of a movement record.
pub ghost struct MovementModel {
    pub input: Option<InputModel>,
    pub uses: int,
}

/// Mathematical model of a configuration.
pub ghost struct ConfigModel {
    pub acceleration: int,
    pub damping: int,
    pub jump_impulse: int,
    pub max_slope_angle: Option<int>,
    pub max_velocity: int,
}

/// Mathematical model of a velocity.
pub ghost struct VelModel {
    pub x: int,
    pub y: int,
}

impl View for MovementInput {
    type V = InputModel;

    open spec fn view(&self) -> InputModel {
        InputModel { direction: self.direction as int, jump: self.jump, tick: self.tick as int }
    }
}

impl View for Movement {
    type V = MovementModel;

    open spec fn view(&self) -> MovementModel {
        MovementModel {
            input: match self.input {
                Some(i) => Some(i@),
                None => None,
            },
            uses: self.uses as int,
        }
    }
}

impl View for MovementConfig {
    type V = ConfigModel;

    open spec fn view(&self) -> ConfigModel {
        ConfigModel {
            acceleration: self.acceleration as int,
            damping: self.damping as int,
            jump_impulse: self.jump_impulse as int,
            max_slope_angle: match self.max_slope_angle {
                Some(a) => Some(a as int),
                None => None,
            },
            max_velocity: self.max_velocity as int,
        }
    }
}

impl View for Velocity {
    type V = VelModel;

    open spec fn view(&self) -> VelModel {
        VelModel { x: self.x as int, y: self.y as int }
    }
}

/// A configuration is well formed when every tunable sits inside the hard
/// bounds that keep the fixed-point arithmetic overflow-free.
pub open spec fn config_wf(c: ConfigModel) -> bool {
    &&& 0 <= c.acceleration <= ACCEL_LIMIT as int
    &&& 0 <= c.damping <= 1000
    &&& 0 <= c.jump_impulse <= VEL_LIMIT as int
    &&& 0 < c.max_velocity <= VEL_LIMIT as int
    &&& match c.max_slope_angle {
        Some(a) => 0 <= a <= SLOPE_LIMIT as int,
        None => true,
    }
}

/// A velocity is well formed when both components sit inside the hard bound.
pub open spec fn vel_wf(v: VelModel) -> bool {
    &&& -(VEL_LIMIT as int) <= v.x <= VEL_LIMIT as int
    &&& -(VEL_LIMIT as int) <= v.y <= VEL_LIMIT as int
}

/// A movement record is well formed when a pending input has been consumed at
/// most `MAX_INPUT_USES` times; a fourth consumption clears it.
pub open spec fn movement_wf(m: MovementModel) -> bool {
    match m.input {
        Some(_) => 0 <= m.uses <= MAX_INPUT_USES as int,
        None => 0 <= m.uses,
    }
}

/// Whether one contact, given as the deviation angle of its normal from up in
/// milliradians, counts as ground contact.
pub open spec fn hit_is_ground(angle: int, max_slope_angle: Option<int>) -> bool {
    match max_slope_angle {
        Some(a) => -a <= angle <= a,
        None => true,
    }
}

/// The ground flag is true iff any contact normal's deviation from up is
/// within the configured slope bound (or any contact at all when unset).
pub open spec fn grounded_spec(hits: Seq<i64>, max_slope_angle: Option<int>) -> bool {
    exists|i: int| 0 <= i < hits.len() && hit_is_ground(hits[i] as int, max_slope_angle)
}

/// Computes the ground flag from the contact angles a shape cast reported.
pub fn grounded_from_hits(hits: &Vec<i64>, max_slope_angle: Option<i64>) -> (r: bool)
    requires
        match max_slope_angle {
            Some(a) => 0 <= a <= SLOPE_LIMIT,
            None => true,
        },
    ensures
        r == grounded_spec(
            hits@,
            match max_slope_angle {
                Some(a) => Some(a as int),
                None => None,
            },
        ),
{
    let ghost slope: Option<int> = match max_slope_angle {
        Some(a) => Some(a as int),
        None => None,
    };
    let mut i: usize = 0;
    while i < hits.len()
        invariant
            0 <= i <= hits.len(),
            forall|j: int| 0 <= j < i ==> !hit_is_ground(hits@[j] as int, slope),
            slope == (match max_slope_angle {
                Some(a) => Some(a as int),
                None => None,
            }),
            match max_slope_angle {
                Some(a) => 0 <= a <= SLOPE_LIMIT,
                None => true,
            },
        decreases hits.len() - i,
    {
        let angle = hits[i];
        let ground = match max_slope_angle {
            Some(a) => -a <= angle && angle <= a,
            None => true,
        };
        if ground {
            assert(hit_is_ground(hits@[i as int] as int, slope));
            return true;
        }
        i = i + 1;
    }
    false
}

/// The horizontal velocity after acceleration and the hard speed clamp.
pub open spec fn accel_x(vx: int, direction: int, grounded: bool, c: ConfigModel, dt: int) -> int {
    let factor = if grounded {
        GROUND_ACCEL_FACTOR as int
    } else {
        AIR_ACCEL_FACTOR as int
    };
    let dv = milli(
        milli(milli(clamp_spec(direction, -(DIR_UNIT as int), DIR_UNIT as int), factor), c.acceleration),
        dt,
    );
    clamp_spec(vx + dv, -c.max_velocity, c.max_velocity)
}

/// The horizontal velocity after the constant drag and, when grounded, the
/// configured damping factor.
pub open spec fn damp_x(vx: int, grounded: bool, c: ConfigModel) -> int {
    let dragged = milli(vx, DRAG_FACTOR as int);
    if grounded {
        milli(dragged, c.damping)
    } else {
        dragged
    }
}

/// One consumption of the pending input: acceleration, speed clamp, jump,
/// use-count bookkeeping.  Without a pending input nothing changes.
pub open spec fn consume_input(
    m: MovementModel,
    c: ConfigModel,
    v: VelModel,
    grounded: bool,
    dt: int,
) -> (MovementModel, VelModel) {
    match m.input {
        None => (m, v),
        Some(inp) => {
            let vx = accel_x(v.x, inp.direction, grounded, c, dt);
            let vy = if grounded && inp.jump {
                c.jump_impulse
            } else {
                v.y
            };
            let uses = m.uses + 1;
            let pending = if uses > MAX_INPUT_USES as int {
                None
            } else {
                Some(inp)
            };
            (MovementModel { input: pending, uses }, VelModel { x: vx, y: vy })
        },
    }
}

/// The damping pass applied to every entity after the consumption pass.
pub open spec fn damp(v: VelModel, grounded: bool, c: ConfigModel) -> VelModel {
    VelModel { x: damp_x(v.x, grounded, c), y: v.y }
}

/// The pending input's per-step tick bookkeeping: while an input stays
/// pending, its tick advances by one each authoritative step (it stops at the
/// type's maximum rather than wrap).
pub open spec fn advance_pending(m: MovementModel) -> MovementModel {
    match m.input {
        Some(inp) => MovementModel {
            input: Some(
                InputModel {
                    direction: inp.direction,
                    jump: inp.jump,
                    tick: if inp.tick < u32::MAX as int {
                        inp.tick + 1
                    } else {
                        inp.tick
                    },
                },
            ),
            uses: m.uses,
        },
        None => m,
    }
}

/// One simulation step of the movement rule engine for one entity: consume
/// the pending input, then damp.  This is the code path the authoritative
/// loop and the rollback replay share.
pub open spec fn entity_tick_model(
    m: MovementModel,
    c: ConfigModel,
    v: VelModel,
    grounded: bool,
    dt: int,
) -> (MovementModel, VelModel) {
    let (m2, v2) = consume_input(m, c, v, grounded, dt);
    (m2, damp(v2, grounded, c))
}

/// One full authoritative step: the engine runs (the acknowledgment ledger is
/// stamped from the surviving input before its bookkeeping moves), then the
/// surviving input's tick advances, so that a stale input consumed again next
/// tick counts as a later tick's input.
pub open spec fn server_step_model(
    m: MovementModel,
    c: ConfigModel,
    v: VelModel,
    grounded: bool,
    dt: int,
) -> (MovementModel, VelModel) {
    let r = entity_tick_model(m, c, v, grounded, dt);
    (advance_pending(r.0), r.1)
}

/// A freshly received or freshly sampled input replaces any pending one and
/// resets the use counter (latest input wins).
pub open spec fn with_input_model(inp: InputModel) -> MovementModel {
    MovementModel { input: Some(inp), uses: 0 }
}

/// Replaces the pending input with `inp` and resets the use counter.
pub fn apply_input(m: &mut Movement, inp: &MovementInput)
    ensures
        final(m)@ == with_input_model(inp@),
        final(m).input == Some(*inp),
        final(m).uses == 0,
{
    m.input = Some(*inp);
    m.uses = 0;
}

/// Advances the pending input's tick bookkeeping by one step.
pub fn advance_pending_tick(m: &mut Movement)
    ensures
        final(m)@ == advance_pending(old(m)@),
{
    match &mut m.input {
        Some(inp) => {
            if inp.tick < u32::MAX {
                inp.tick = inp.tick + 1;
            }
        },
        None => {},
    }
}

/// The engine transitions preserve well-formedness and never let a clamped
/// horizontal velocity escape the configured bound.
pub proof fn lemma_consume_input_wf(
    m: MovementModel,
    c: ConfigModel,
    v: VelModel,
    grounded: bool,
    dt: int,
)
    requires
        movement_wf(m),
        config_wf(c),
        vel_wf(v),
        0 <= dt <= DT_LIMIT as int,
    ensures
        movement_wf(consume_input(m, c, v, grounded, dt).0),
        vel_wf(consume_input(m, c, v, grounded, dt).1),
        m.input is Some ==> -c.max_velocity <= consume_input(m, c, v, grounded, dt).1.x
            <= c.max_velocity,
{
    match m.input {
        None => {},
        Some(inp) => {
            let factor = if grounded {
                GROUND_ACCEL_FACTOR as int
            } else {
                AIR_ACCEL_FACTOR as int
            };
            let d1 = milli(clamp_spec(inp.direction, -(DIR_UNIT as int), DIR_UNIT as int), factor);
            lemma_milli_bound(
                clamp_spec(inp.direction, -(DIR_UNIT as int), DIR_UNIT as int),
                factor,
                1000,
            );
            let d2 = milli(d1, c.acceleration);
            crate::fixed::lemma_milli_bound_general(d1, c.acceleration, 1000, ACCEL_LIMIT as int);
            let d3 = milli(d2, dt);
            crate::fixed::lemma_milli_bound_general(d2, dt, ACCEL_LIMIT as int, DT_LIMIT as int);
        },
    }
}

/// Drag and damping only shrink the horizontal magnitude.
pub proof fn lemma_damp_bound(v: VelModel, grounded: bool, c: ConfigModel, m: int)
    requires
        config_wf(c),
        0 <= m,
        -m <= v.x <= m,
    ensures
        -m <= damp(v, grounded, c).x <= m,
        damp(v, grounded, c).y == v.y,
{
    lemma_milli_bound(v.x, DRAG_FACTOR as int, m);
    if grounded {
        lemma_milli_bound(milli(v.x, DRAG_FACTOR as int), c.damping, m);
    }
}

/// One full entity step preserves well-formedness.
pub proof fn lemma_entity_tick_wf(
    m: MovementModel,
    c: ConfigModel,
    v: VelModel,
    grounded: bool,
    dt: int,
)
    requires
        movement_wf(m),
        config_wf(c),
        vel_wf(v),
        0 <= dt <= DT_LIMIT as int,
    ensures
        movement_wf(entity_tick_model(m, c, v, grounded, dt).0),
        vel_wf(entity_tick_model(m, c, v, grounded, dt).1),
        movement_wf(server_step_model(m, c, v, grounded, dt).0),
        vel_wf(server_step_model(m, c, v, grounded, dt).1),
{
    lemma_consume_input_wf(m, c, v, grounded, dt);
    let (m2, v2) = consume_input(m, c, v, grounded, dt);
    lemma_damp_bound(v2, grounded, c, VEL_LIMIT as int);
}

/// Consumes the pending input, if any: acceleration, clamp, jump, use count.
/// The caller passes the ground flag the physics collaborator computed and
/// the tick period in milliseconds.
pub fn movement_step(
    m: &mut Movement,
    c: &MovementConfig,
    v: &mut Velocity,
    grounded: bool,
    dt_ms: i64,
)
    requires
        movement_wf(old(m)@),
        config_wf(c@),
        vel_wf(old(v)@),
        0 <= dt_ms <= DT_LIMIT,
    ensures
        (final(m)@, final(v)@) == consume_input(old(m)@, c@, old(v)@, grounded, dt_ms as int),
        movement_wf(final(m)@),
        vel_wf(final(v)@),
{
    proof {
        lemma_consume_input_wf(old(m)@, c@, old(v)@, grounded, dt_ms as int);
    }
    let pending = match &m.input {
        Some(inp) => Some(*inp),
        None => None,
    };
    match pending {
        None => {},
        Some(inp) => {
            let factor: i64 = if grounded {
                GROUND_ACCEL_FACTOR
            } else {
                AIR_ACCEL_FACTOR
            };
            let dir = clamp_i64(inp.direction, -DIR_UNIT, DIR_UNIT);
            proof {
                crate::fixed::lemma_mul_bound(dir as int, factor as int, 1000, 1000);
            }
            let d1 = scale_milli(dir, factor);
            proof {
                lemma_milli_bound(dir as int, factor as int, 1000);
                crate::fixed::lemma_mul_bound(
                    d1 as int,
                    c.acceleration as int,
                    1000,
                    ACCEL_LIMIT as int,
                );
            }
            let d2 = scale_milli(d1, c.acceleration);
            proof {
                crate::fixed::lemma_milli_bound_general(
                    d1 as int,
                    c.acceleration as int,
                    1000,
                    ACCEL_LIMIT as int,
                );
                crate::fixed::lemma_mul_bound(
                    d2 as int,
                    dt_ms as int,
                    ACCEL_LIMIT as int,
                    DT_LIMIT as int,
                );
            }
            let d3 = scale_milli(d2, dt_ms);
            proof {
                crate::fixed::lemma_milli_bound_general(
                    d2 as int,
                    dt_ms as int,
                    ACCEL_LIMIT as int,
                    DT_LIMIT as int,
                );
            }
            v.x = clamp_i64(v.x + d3, -c.max_velocity, c.max_velocity);
            if grounded && inp.jump {
                v.y = c.jump_impulse;
            }
            m.uses = m.uses + 1;
            if m.uses > MAX_INPUT_USES {
                m.input = None;
            }
        },
    }
}

/// Applies the constant drag and, when grounded, the configured damping.
pub fn damping_step(c: &MovementConfig, v: &mut Velocity, grounded: bool)
    requires
        config_wf(c@),
        vel_wf(old(v)@),
    ensures
        final(v)@ == damp(old(v)@, grounded, c@),
        vel_wf(final(v)@),
{
    proof {
        lemma_damp_bound(old(v)@, grounded, c@, VEL_LIMIT as int);
        crate::fixed::lemma_mul_bound(old(v)@.x, DRAG_FACTOR as int, VEL_LIMIT as int, 1000);
    }
    v.x = scale_milli(v.x, DRAG_FACTOR);
    proof {
        lemma_milli_bound(old(v)@.x, DRAG_FACTOR as int, VEL_LIMIT as int);
        crate::fixed::lemma_mul_bound(v@.x, c@.damping, VEL_LIMIT as int, 1000);
    }
    if grounded {
        v.x = scale_milli(v.x, c.damping);
    }
}

/// One simulation step of the movement rule engine for one entity.  The
/// authoritative loop runs this once per tick for every controlled entity;
/// the rollback replay runs the same code path for the single predicted
/// entity — the correctness linchpin.
pub fn entity_tick(
    m: &mut Movement,
    c: &MovementConfig,
    v: &mut Velocity,
    grounded: bool,
    dt_ms: i64,
)
    requires
        movement_wf(old(m)@),
        config_wf(c@),
        vel_wf(old(v)@),
        0 <= dt_ms <= DT_LIMIT,
    ensures
        (final(m)@, final(v)@) == entity_tick_model(old(m)@, c@, old(v)@, grounded, dt_ms as int),
        movement_wf(final(m)@),
        vel_wf(final(v)@),
{
    movement_step(m, c, v, grounded, dt_ms);
    damping_step(c, v, grounded);
}

/// A batch replay over buffered inputs, as the rollback engine runs it: each
/// buffered input in turn becomes the pending input (use counter reset), then
/// one authoritative-equivalent step runs with that step's ground flag.
pub open spec fn replay_model(
    m: MovementModel,
    v: VelModel,
    inputs: Seq<InputModel>,
    gr: Seq<bool>,
    c: ConfigModel,
    dt: int,
) -> (MovementModel, VelModel)
    decreases inputs.len(),
{
    if inputs.len() == 0 {
        (m, v)
    } else {
        let stepped = entity_tick_model(with_input_model(inputs[0]), c, v, gr[0], dt);
        replay_model(stepped.0, stepped.1, inputs.drop_first(), gr.drop_first(), c, dt)
    }
}

/// A live authoritative run over the same inputs: each tick one freshly
/// arrived input replaces the pending one (latest wins, use counter reset),
/// then the full authoritative step runs.
pub open spec fn live_run_model(
    m: MovementModel,
    v: VelModel,
    inputs: Seq<InputModel>,
    gr: Seq<bool>,
    c: ConfigModel,
    dt: int,
) -> (MovementModel, VelModel)
    decreases inputs.len(),
{
    if inputs.len() == 0 {
        (m, v)
    } else {
        let received = with_input_model(inputs[0]);
        let stepped = server_step_model(received, c, v, gr[0], dt);
        live_run_model(stepped.0, stepped.1, inputs.drop_first(), gr.drop_first(), c, dt)
    }
}

/// A run of authoritative steps during which no fresh input arrives.
pub open spec fn idle_run_model(
    m: MovementModel,
    v: VelModel,
    gr: Seq<bool>,
    c: ConfigModel,
    dt: int,
) -> (MovementModel, VelModel)
    decreases gr.len(),
{
    if gr.len() == 0 {
        (m, v)
    } else {
        let stepped = server_step_model(m, c, v, gr[0], dt);
        idle_run_model(stepped.0, stepped.1, gr.drop_first(), c, dt)
    }
}

proof fn lemma_replay_live_vel(
    m1: MovementModel,
    m2: MovementModel,
    v: VelModel,
    inputs: Seq<InputModel>,
    gr: Seq<bool>,
    c: ConfigModel,
    dt: int,
)
    ensures
        replay_model(m1, v, inputs, gr, c, dt).1 == live_run_model(m2, v, inputs, gr, c, dt).1,
    decreases inputs.len(),
{
    if inputs.len() > 0 {
        let received = with_input_model(inputs[0]);
        let stepped = entity_tick_model(received, c, v, gr[0], dt);
        let stepped_live = server_step_model(received, c, v, gr[0], dt);
        lemma_replay_live_vel(
            stepped.0,
            stepped_live.0,
            stepped.1,
            inputs.drop_first(),
            gr.drop_first(),
            c,
            dt,
        );
    }
}

/// Determinism: for a fixed input sequence, fixed ground flags, a fixed tick
/// period and a fixed starting state, replaying the inputs as one rollback
/// batch reconstructs exactly the kinematic state the live authoritative loop
/// produces when the same inputs arrive one per tick.
pub proof fn lemma_replay_matches_live(
    m: MovementModel,
    v: VelModel,
    inputs: Seq<InputModel>,
    gr: Seq<bool>,
    c: ConfigModel,
    dt: int,
)
    ensures
        replay_model(m, v, inputs, gr, c, dt).1 == live_run_model(m, v, inputs, gr, c, dt).1,
{
    lemma_replay_live_vel(m, m, v, inputs, gr, c, dt);
}

/// An entity without a pending input keeps none through an idle run.
proof fn lemma_idle_keeps_none(
    m: MovementModel,
    v: VelModel,
    gr: Seq<bool>,
    c: ConfigModel,
    dt: int,
)
    requires
        m.input is None,
    ensures
        idle_run_model(m, v, gr, c, dt).0 == m,
    decreases gr.len(),
{
    if gr.len() > 0 {
        let stepped = server_step_model(m, c, v, gr[0], dt);
        lemma_idle_keeps_none(stepped.0, stepped.1, gr.drop_first(), c, dt);
    }
}

proof fn lemma_idle_expires_input(
    m: MovementModel,
    v: VelModel,
    gr: Seq<bool>,
    c: ConfigModel,
    dt: int,
)
    requires
        m.input is Some,
        m.uses + gr.len() > MAX_INPUT_USES as int,
        gr.len() >= 1,
    ensures
        idle_run_model(m, v, gr, c, dt).0.input is None,
    decreases gr.len(),
{
    let stepped = server_step_model(m, c, v, gr[0], dt);
    match stepped.0.input {
        None => {
            lemma_idle_keeps_none(stepped.0, stepped.1, gr.drop_first(), c, dt);
        },
        Some(_) => {
            lemma_idle_expires_input(stepped.0, stepped.1, gr.drop_first(), c, dt);
        },
    }
}

/// Use-count expiry: a pending input that no fresh input replaces is cleared
/// after more than `MAX_INPUT_USES` authoritative steps have consumed it.
pub proof fn lemma_input_expiry(
    m: MovementModel,
    v: VelModel,
    gr: Seq<bool>,
    c: ConfigModel,
    dt: int,
)
    requires
        movement_wf(m),
        gr.len() > MAX_INPUT_USES as int,
    ensures
        idle_run_model(m, v, gr, c, dt).0.input is None,
{
    match m.input {
        None => {
            lemma_idle_keeps_none(m, v, gr, c, dt);
        },
        Some(_) => {
            lemma_idle_expires_input(m, v, gr, c, dt);
        },
    }
}

/// One authoritative step keeps a horizontal speed that respects the
/// configured maximum inside that maximum.
pub proof fn lemma_entity_tick_speed(
    m: MovementModel,
    c: ConfigModel,
    v: VelModel,
    grounded: bool,
    dt: int,
)
    requires
        movement_wf(m),
        config_wf(c),
        vel_wf(v),
        0 <= dt <= DT_LIMIT as int,
        -c.max_velocity <= v.x <= c.max_velocity,
    ensures
        -c.max_velocity <= entity_tick_model(m, c, v, grounded, dt).1.x <= c.max_velocity,
        movement_wf(entity_tick_model(m, c, v, grounded, dt).0),
        vel_wf(entity_tick_model(m, c, v, grounded, dt).1),
{
    let m1 = advance_pending(m);
    lemma_consume_input_wf(m1, c, v, grounded, dt);
    let (m2, v2) = consume_input(m1, c, v, grounded, dt);
    lemma_damp_bound(v2, grounded, c, VEL_LIMIT as int);
    lemma_damp_bound(v2, grounded, c, c.max_velocity);
}

/// Maximum-speed safety: however many consecutive inputs drive an entity, a
/// replay batch never pushes the horizontal speed beyond the configured
/// maximum once it starts inside it.
pub proof fn lemma_replay_speed_clamped(
    m: MovementModel,
    v: VelModel,
    inputs: Seq<InputModel>,
    gr: Seq<bool>,
    c: ConfigModel,
    dt: int,
)
    requires
        movement_wf(m),
        config_wf(c),
        vel_wf(v),
        0 <= dt <= DT_LIMIT as int,
        -c.max_velocity <= v.x <= c.max_velocity,
    ensures
        -c.max_velocity <= replay_model(m, v, inputs, gr, c, dt).1.x <= c.max_velocity,
        vel_wf(replay_model(m, v, inputs, gr, c, dt).1),
        movement_wf(replay_model(m, v, inputs, gr, c, dt).0),
    decreases inputs.len(),
{
    if inputs.len() > 0 {
        let received = with_input_model(inputs[0]);
        lemma_entity_tick_speed(received, c, v, gr[0], dt);
        let stepped = entity_tick_model(received, c, v, gr[0], dt);
        lemma_replay_speed_clamped(
            stepped.0,
            stepped.1,
            inputs.drop_first(),
            gr.drop_first(),
            c,
            dt,
        );
    }
}

/// The configuration the server attaches to a freshly spawned player.
pub open spec fn default_config_model() -> ConfigModel {
    ConfigModel {
        acceleration: 2250000,
        damping: 920,
        jump_impulse: 300000,
        max_slope_angle: Some(524),
        max_velocity: 250000,
    }
}

/// The default configuration as a concrete value.
pub open spec fn default_config_value() -> MovementConfig {
    MovementConfig {
        acceleration: 2250000,
        damping: 920,
        jump_impulse: 300000,
        max_slope_angle: Some(524),
        max_velocity: 250000,
    }
}

/// Builds the default player configuration: acceleration 2250, damping 0.92,
/// jump impulse 300, slope bound about 30 degrees, maximum speed 250.
pub fn default_player_config() -> (c: MovementConfig)
    ensures
        c == default_config_value(),
        c@ == default_config_model(),
        config_wf(c@),
{
    MovementConfig {
        acceleration: 2250000,
        damping: 920,
        jump_impulse: 300000,
        max_slope_angle: Some(524),
        max_velocity: 250000,
    }
}

} // verus!
