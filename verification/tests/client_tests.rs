//! Client-side behaviour: session identity, input buffering, candidate
//! minimum-ack tracking, history pruning and the rollback pass.

use netpredict::client::{
    begin_session, handle_connection_established, note_config, note_player, observe_ack,
    observe_history, predicted_tick_changed, push_input, rollback_pass, sample_input,
    should_predict, ClientContext, InputMemory,
};
use netpredict::history::PredictedMemory;
use netpredict::movement::{
    apply_input, default_player_config, entity_tick, Movement, MovementInput, Velocity,
};

fn input(direction: i64, jump: bool, tick: u32) -> MovementInput {
    MovementInput { direction, jump, tick }
}

#[test]
fn sample_input_direction_from_keys() {
    let mut ctx = ClientContext::new();
    let right = sample_input(&mut ctx, false, true, false);
    assert_eq!(right.direction, 1000);
    assert_eq!(right.tick, 1);
    assert!(!right.jump);
    let left = sample_input(&mut ctx, true, false, false);
    assert_eq!(left.direction, -1000);
    assert_eq!(left.tick, 2);
    let both = sample_input(&mut ctx, true, true, true);
    assert_eq!(both.direction, 0);
    assert!(both.jump);
    assert_eq!(ctx.tick, 3);
}

#[test]
fn begin_session_adopts_identity() {
    let mut ctx = ClientContext::new();
    let login = begin_session(&mut ctx, 42);
    assert_eq!(login.player_id, 42);
    assert_eq!(ctx.player_id, Some(42));
}

#[test]
fn connection_established_identity_consistent() {
    let mut ctx = ClientContext::new();
    let login = handle_connection_established(&mut ctx);
    assert_eq!(ctx.player_id, Some(login.player_id));
}

#[test]
fn note_config_only_own() {
    let mut ctx = ClientContext::new();
    begin_session(&mut ctx, 7);
    note_config(&mut ctx, 100, 7);
    assert_eq!(ctx.individual_config, Some(100));
    note_config(&mut ctx, 200, 8);
    assert_eq!(ctx.individual_config, Some(100));
}

#[test]
fn note_config_without_identity_is_ignored() {
    let mut ctx = ClientContext::new();
    note_config(&mut ctx, 100, 7);
    assert_eq!(ctx.individual_config, None);
}

#[test]
fn note_player_marks_own_entity() {
    let mut ctx = ClientContext::new();
    begin_session(&mut ctx, 7);
    assert!(!note_player(&mut ctx, 55, 9));
    assert_eq!(ctx.player_entity, None);
    assert!(note_player(&mut ctx, 66, 7));
    assert_eq!(ctx.player_entity, Some(66));
}

#[test]
fn should_predict_only_own() {
    let mut ctx = ClientContext::new();
    begin_session(&mut ctx, 7);
    assert!(should_predict(&ctx, 7));
    assert!(!should_predict(&ctx, 8));
}

#[test]
fn candidate_ack_is_minimum_across_components() {
    let mut mem = InputMemory::new();
    observe_ack(&mut mem, 10);
    assert_eq!(mem.new_min_ack, Some(10));
    observe_ack(&mut mem, 7);
    assert_eq!(mem.new_min_ack, Some(7));
    observe_ack(&mut mem, 9);
    assert_eq!(mem.new_min_ack, Some(7));
}

#[test]
fn stale_ack_is_ignored() {
    let mut mem = InputMemory {
        current_min_ack: 5,
        new_min_ack: None,
        inputs: Vec::new(),
    };
    observe_ack(&mut mem, 3);
    assert_eq!(mem.new_min_ack, None);
    observe_ack(&mut mem, 5);
    assert_eq!(mem.new_min_ack, Some(5));
}

#[test]
fn observe_history_uses_newest_entry() {
    let mut mem = InputMemory::new();
    let mut h: PredictedMemory<Velocity> = PredictedMemory::new();
    observe_history(&mut mem, &h);
    assert_eq!(mem.new_min_ack, None);
    h.record(Velocity { x: 1, y: 0 }, 4);
    h.record(Velocity { x: 2, y: 0 }, 9);
    observe_history(&mut mem, &h);
    assert_eq!(mem.new_min_ack, Some(9));
}

#[test]
fn rollback_due_only_when_candidate_advances() {
    let mut mem = InputMemory::new();
    assert!(!predicted_tick_changed(&mem));
    observe_ack(&mut mem, 0);
    assert!(!predicted_tick_changed(&mem));
    observe_ack(&mut mem, 3);
    // the candidate is the minimum: zero stays binding
    assert!(!predicted_tick_changed(&mem));
    let mut mem2 = InputMemory::new();
    observe_ack(&mut mem2, 3);
    assert!(predicted_tick_changed(&mem2));
}

#[test]
fn history_append_only_newer() {
    let mut h: PredictedMemory<i64> = PredictedMemory::new();
    h.record(10, 1);
    h.record(30, 3);
    h.record(20, 2);
    h.record(31, 3);
    assert_eq!(h.values.len(), 2);
    assert_eq!(h.values[0], (10, 1));
    assert_eq!(h.values[1], (30, 3));
}

#[test]
fn history_prune_keeps_only_at_or_after_min_ack() {
    let mut h: PredictedMemory<i64> = PredictedMemory::new();
    h.record(10, 1);
    h.record(30, 3);
    h.record(50, 5);
    h.prune(3);
    assert_eq!(h.values.len(), 2);
    assert!(h.values.iter().all(|e| e.1 >= 3));
    assert_eq!(h.values[0], (30, 3));
    h.prune(4);
    assert_eq!(h.values.len(), 1);
    assert_eq!(h.values[0], (50, 5));
    h.prune(10);
    assert_eq!(h.values.len(), 0);
}

#[test]
fn history_snapshot_lookup() {
    let mut h: PredictedMemory<i64> = PredictedMemory::new();
    h.record(10, 2);
    h.record(30, 6);
    assert_eq!(h.newest_index_at_or_before(1), None);
    assert_eq!(h.newest_index_at_or_before(2), Some(0));
    assert_eq!(h.newest_index_at_or_before(5), Some(0));
    assert_eq!(h.newest_index_at_or_before(6), Some(1));
    assert_eq!(h.newest_index_at_or_before(100), Some(1));
}

#[test]
fn rollback_trims_acknowledged_inputs() {
    let mut mem = InputMemory::new();
    for t in 1..=5u32 {
        push_input(&mut mem, input(1000, false, t));
    }
    observe_ack(&mut mem, 3);
    assert!(predicted_tick_changed(&mem));
    let config = default_player_config();
    let mut m = Movement { input: None, uses: 0 };
    let mut v = Velocity { x: 0, y: 0 };
    let grounded = vec![false; 5];
    rollback_pass(&mut mem, &mut m, &config, &mut v, &grounded, 33);
    assert_eq!(mem.current_min_ack, 3);
    assert_eq!(mem.new_min_ack, None);
    assert_eq!(mem.inputs.len(), 2);
    assert!(mem.inputs.iter().all(|(t, _)| *t > 3));
    assert_eq!(mem.inputs[0].0, 4);
    assert_eq!(mem.inputs[1].0, 5);
}

#[test]
fn replay_batch_matches_live_run() {
    // Determinism: feeding the inputs one per tick gives exactly the state a
    // single rollback batch reconstructs.
    let config = default_player_config();

    let mut live_m = Movement { input: None, uses: 0 };
    let mut live_v = Velocity { x: 0, y: 0 };
    for t in 2..=9u32 {
        let dir = if t % 2 == 0 { 1000 } else { -400 };
        apply_input(&mut live_m, &input(dir, t % 3 == 0, t));
        entity_tick(&mut live_m, &config, &mut live_v, t % 2 == 0, 33);
    }

    let mut mem = InputMemory::new();
    for t in 2..=9u32 {
        let dir = if t % 2 == 0 { 1000 } else { -400 };
        push_input(&mut mem, input(dir, t % 3 == 0, t));
    }
    observe_ack(&mut mem, 1);
    assert!(predicted_tick_changed(&mem));
    let mut replay_m = Movement { input: None, uses: 0 };
    let mut replay_v = Velocity { x: 0, y: 0 };
    let grounded: Vec<bool> = (2..=9u32).map(|t| t % 2 == 0).collect();
    rollback_pass(&mut mem, &mut replay_m, &config, &mut replay_v, &grounded, 33);

    assert_eq!(replay_v, live_v);
}
