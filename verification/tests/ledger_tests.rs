//! The acknowledgment ledger, the fixed-point primitives and the pending
//! input's tick bookkeeping on concrete values.

use netpredict::ack::AckComponent;
use netpredict::fixed::{clamp_i64, scale_milli};
use netpredict::history::PredictedMemory;
use netpredict::movement::{advance_pending_tick, Movement, MovementInput, Velocity};
use netpredict::server::{login, step_player, ServerWorld, SERVER_TICK_MS};

#[test]
fn ack_starts_at_tick_zero() {
    let a: AckComponent<i64> = AckComponent::new(5);
    assert_eq!(a.ack_tick, 0);
    assert_eq!(a.value, 5);
}

#[test]
fn ack_update_is_monotonic() {
    let mut a: AckComponent<i64> = AckComponent::new(0);
    a.update(10, 5);
    assert_eq!(a.ack_tick, 5);
    assert_eq!(a.value, 10);
    a.update(20, 3);
    assert_eq!(a.ack_tick, 5);
    assert_eq!(a.value, 20);
    a.update(30, 7);
    assert_eq!(a.ack_tick, 7);
    assert_eq!(a.value, 30);
}

#[test]
fn scale_milli_truncates_toward_zero() {
    assert_eq!(scale_milli(74250, 995), 73878);
    assert_eq!(scale_milli(-74250, 995), -73878);
    assert_eq!(scale_milli(999, 1), 0);
    assert_eq!(scale_milli(-999, 1), 0);
    assert_eq!(scale_milli(1000, 1000), 1000);
}

#[test]
fn clamp_forces_into_interval() {
    assert_eq!(clamp_i64(5, -3, 3), 3);
    assert_eq!(clamp_i64(-5, -3, 3), -3);
    assert_eq!(clamp_i64(2, -3, 3), 2);
}

#[test]
fn pending_tick_bookkeeping_advances_and_saturates() {
    let mut m = Movement {
        input: Some(MovementInput { direction: 0, jump: false, tick: 5 }),
        uses: 1,
    };
    advance_pending_tick(&mut m);
    assert_eq!(m.input.as_ref().unwrap().tick, 6);
    assert_eq!(m.uses, 1);
    let mut capped = Movement {
        input: Some(MovementInput { direction: 0, jump: false, tick: u32::MAX }),
        uses: 0,
    };
    advance_pending_tick(&mut capped);
    assert_eq!(capped.input.as_ref().unwrap().tick, u32::MAX);
    let mut empty = Movement { input: None, uses: 3 };
    advance_pending_tick(&mut empty);
    assert!(empty.input.is_none());
}

#[test]
fn step_player_snapshots_current_component_values() {
    let mut w = ServerWorld::new();
    assert!(login(&mut w, 1, 77));
    let p = &mut w.players[0];
    p.movement = Movement {
        input: Some(MovementInput { direction: 0, jump: true, tick: 8 }),
        uses: 0,
    };
    p.grounded = true;
    p.ang_vel = 42;
    step_player(p, SERVER_TICK_MS);
    // jump fired: the stamped velocity snapshot is the post-step value
    assert_eq!(p.vel.y, 300000);
    assert_eq!(p.ack_vel.ack_tick, 8);
    assert_eq!(p.ack_vel.value, p.vel);
    assert_eq!(p.ack_ang.value, 42);
    assert!(p.ack_grounded.value);
    // the surviving input's bookkeeping advanced after the stamp
    assert_eq!(p.movement.input.as_ref().unwrap().tick, 9);
}

#[test]
fn history_last_tick_reports_tail() {
    let mut h: PredictedMemory<Velocity> = PredictedMemory::new();
    assert_eq!(h.last_tick(), None);
    h.record(Velocity { x: 0, y: 0 }, 4);
    h.record(Velocity { x: 1, y: 0 }, 6);
    assert_eq!(h.last_tick(), Some(6));
}
