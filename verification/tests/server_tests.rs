//! Authoritative server behaviour: login, visibility isolation, message
//! application, the tick loop and the acknowledgment ledger.

use netpredict::client::{observe_ack, predicted_tick_changed, push_input, rollback_pass,
    InputMemory};
use netpredict::history::PredictedMemory;
use netpredict::movement::{apply_input, entity_tick, Movement, MovementInput, Velocity};
use netpredict::server::{
    apply_movement, authoritative_tick, login, set_player_grounded, spawn_terrain, LoginMsg,
    MoveMsg, ServerWorld, SERVER_TICK_MS,
};

fn input(direction: i64, jump: bool, tick: u32) -> MovementInput {
    MovementInput { direction, jump, tick }
}

#[test]
fn login_spawns_player_config_and_session() {
    let mut w = ServerWorld::new();
    assert!(login(&mut w, 1, 77));
    assert_eq!(w.players.len(), 1);
    assert_eq!(w.configs.len(), 1);
    assert_eq!(w.sessions.len(), 1);
    assert_eq!(w.players[0].owner_client, 1);
    assert_eq!(w.players[0].player_id, 77);
    assert_eq!(w.players[0].pos.y, 100000);
    assert_eq!(w.players[0].ack_vel.ack_tick, 0);
    assert_eq!(w.configs[0].player_id, 77);
    assert_eq!(w.configs[0].tick_ms, SERVER_TICK_MS);
    assert_eq!(w.sessions[0].client_id, 1);
    assert_eq!(w.sessions[0].player_entity, w.players[0].id);
    assert_eq!(w.sessions[0].config_entity, w.configs[0].id);
}

#[test]
fn second_login_from_same_connection_is_dropped() {
    let mut w = ServerWorld::new();
    assert!(login(&mut w, 1, 77));
    assert!(!login(&mut w, 1, 99));
    assert_eq!(w.players.len(), 1);
    assert_eq!(w.sessions.len(), 1);
}

#[test]
fn visibility_isolation_between_clients() {
    // Client B sees A's player and the terrain, never A's per-client
    // configuration entity; and symmetrically.
    let mut w = ServerWorld::new();
    let terrain_id = spawn_terrain(&mut w, 500000, 20000, 100000, -100000);
    assert!(login(&mut w, 1, 77));
    let a_player = w.players[0].id;
    let a_config = w.sessions[0].config_entity;
    assert!(login(&mut w, 2, 88));
    let b_player = w.players[1].id;
    let b_config = w.sessions[1].config_entity;

    assert_eq!(w.visibility.len(), 2);
    let a_list = &w.visibility[0];
    let b_list = &w.visibility[1];
    assert_eq!(a_list.client_id, 1);
    assert_eq!(b_list.client_id, 2);

    assert!(b_list.visible.contains(&a_player));
    assert!(b_list.visible.contains(&b_player));
    assert!(b_list.visible.contains(&terrain_id));
    assert!(b_list.visible.contains(&b_config));
    assert!(!b_list.visible.contains(&a_config));

    assert!(a_list.visible.contains(&a_player));
    assert!(a_list.visible.contains(&b_player));
    assert!(a_list.visible.contains(&terrain_id));
    assert!(a_list.visible.contains(&a_config));
    assert!(!a_list.visible.contains(&b_config));
}

#[test]
fn movement_from_unknown_connection_is_dropped() {
    let mut w = ServerWorld::new();
    assert!(login(&mut w, 1, 77));
    assert!(!apply_movement(&mut w, 9, input(1000, false, 1)));
    assert!(w.players[0].movement.input.is_none());
}

#[test]
fn latest_movement_input_wins() {
    let mut w = ServerWorld::new();
    assert!(login(&mut w, 1, 77));
    assert!(apply_movement(&mut w, 1, input(1000, false, 4)));
    assert!(apply_movement(&mut w, 1, input(-400, true, 5)));
    let pending = w.players[0].movement.input.as_ref().unwrap();
    assert_eq!(pending.direction, -400);
    assert_eq!(pending.tick, 5);
    assert_eq!(w.players[0].movement.uses, 0);
}

#[test]
fn tick_counter_advances_once_per_step() {
    let mut w = ServerWorld::new();
    let logins: Vec<LoginMsg> = Vec::new();
    let moves: Vec<MoveMsg> = Vec::new();
    authoritative_tick(&mut w, &logins, &moves, SERVER_TICK_MS);
    assert_eq!(w.tick, 1);
    authoritative_tick(&mut w, &logins, &moves, SERVER_TICK_MS);
    assert_eq!(w.tick, 2);
}

#[test]
fn ack_tick_stamps_the_consumed_input() {
    let mut w = ServerWorld::new();
    assert!(login(&mut w, 1, 77));
    let logins: Vec<LoginMsg> = Vec::new();
    let moves = vec![MoveMsg { client_id: 1, input: input(1000, false, 10) }];
    authoritative_tick(&mut w, &logins, &moves, SERVER_TICK_MS);
    // the freshly applied input is stamped with its own tick
    assert_eq!(w.players[0].ack_vel.ack_tick, 10);
    assert_eq!(w.players[0].ack_grounded.ack_tick, 10);
    // spawned airborne: aerial acceleration factor, then drag
    assert_eq!(w.players[0].vel.x, 36939);
    assert_eq!(w.players[0].ack_vel.value, w.players[0].vel);

    // with no fresh input the stale one drives later ticks and acks advance
    let no_moves: Vec<MoveMsg> = Vec::new();
    authoritative_tick(&mut w, &logins, &no_moves, SERVER_TICK_MS);
    assert_eq!(w.players[0].ack_vel.ack_tick, 11);
    authoritative_tick(&mut w, &logins, &no_moves, SERVER_TICK_MS);
    assert_eq!(w.players[0].ack_vel.ack_tick, 12);
    // the fourth consumption clears the input; the ledger stops advancing
    authoritative_tick(&mut w, &logins, &no_moves, SERVER_TICK_MS);
    assert!(w.players[0].movement.input.is_none());
    assert_eq!(w.players[0].ack_vel.ack_tick, 12);
    authoritative_tick(&mut w, &logins, &no_moves, SERVER_TICK_MS);
    assert_eq!(w.players[0].ack_vel.ack_tick, 12);
}

#[test]
fn ack_never_regresses_on_stale_input() {
    let mut w = ServerWorld::new();
    assert!(login(&mut w, 1, 77));
    let logins: Vec<LoginMsg> = Vec::new();
    let moves = vec![MoveMsg { client_id: 1, input: input(1000, false, 10) }];
    authoritative_tick(&mut w, &logins, &moves, SERVER_TICK_MS);
    assert_eq!(w.players[0].ack_vel.ack_tick, 10);
    // an older-stamped input arriving late is applied but cannot move the
    // ledger backwards
    let stale = vec![MoveMsg { client_id: 1, input: input(-1000, false, 4) }];
    authoritative_tick(&mut w, &logins, &stale, SERVER_TICK_MS);
    assert_eq!(w.players[0].ack_vel.ack_tick, 10);
}

#[test]
fn login_inside_tick_loop() {
    let mut w = ServerWorld::new();
    let logins = vec![LoginMsg { client_id: 1, player_id: 77 }];
    let moves: Vec<MoveMsg> = Vec::new();
    authoritative_tick(&mut w, &logins, &moves, SERVER_TICK_MS);
    assert_eq!(w.tick, 1);
    assert_eq!(w.players.len(), 1);
    assert_eq!(w.sessions.len(), 1);
}

#[test]
fn watchdog_sees_session_only_after_login() {
    let mut w = ServerWorld::new();
    assert!(!netpredict::server::session_established(&w, 1));
    assert!(login(&mut w, 1, 77));
    assert!(netpredict::server::session_established(&w, 1));
    assert!(!netpredict::server::session_established(&w, 2));
}

#[test]
fn grounded_flag_follows_shape_cast() {
    let mut w = ServerWorld::new();
    assert!(login(&mut w, 1, 77));
    let flat = vec![10i64];
    set_player_grounded(&mut w.players[0], &flat);
    assert!(w.players[0].grounded);
    let steep = vec![900i64];
    set_player_grounded(&mut w.players[0], &steep);
    assert!(!w.players[0].grounded);
}

#[test]
fn clean_round_trip_reconciliation() {
    // The client at tick 10 sends one full-right input, predicts ticks 11-13
    // with empty inputs, receives the ack for tick 10, restores the
    // authoritative snapshot and replays 11-13: the horizontal velocity is
    // identical to the uninterrupted prediction.
    let mut w = ServerWorld::new();
    assert!(login(&mut w, 1, 77));
    let config = netpredict::movement::default_player_config();

    // client side: optimistic prediction of ticks 10..=13
    let mut mem = InputMemory::new();
    let mut cm = Movement { input: None, uses: 0 };
    let mut cv = Velocity { x: 0, y: 0 };
    let mut predicted = Vec::new();
    for t in 10..=13u32 {
        let inp = input(if t == 10 { 1000 } else { 0 }, false, t);
        push_input(&mut mem, inp);
        apply_input(&mut cm, &inp);
        entity_tick(&mut cm, &config, &mut cv, false, SERVER_TICK_MS);
        predicted.push(cv);
    }
    let predicted_present = cv;

    // server side: the tick-10 input arrives and is applied once
    let logins: Vec<LoginMsg> = Vec::new();
    let moves = vec![MoveMsg { client_id: 1, input: input(1000, false, 10) }];
    authoritative_tick(&mut w, &logins, &moves, SERVER_TICK_MS);
    assert_eq!(w.players[0].ack_vel.ack_tick, 10);
    // determinism: the authoritative state equals the client's tick-10
    // prediction
    assert_eq!(w.players[0].vel, predicted[0]);

    // client side: the acknowledgment replicates back
    let mut h: PredictedMemory<Velocity> = PredictedMemory::new();
    h.record(w.players[0].ack_vel.value, w.players[0].ack_vel.ack_tick);
    observe_ack(&mut mem, h.values[h.values.len() - 1].1);
    assert!(predicted_tick_changed(&mem));

    // restore the authoritative snapshot for the ack tick, prune, replay
    let snapshot = h.newest_index_at_or_before(10).unwrap();
    cv = h.values[snapshot].0;
    h.prune(10);
    assert!(h.values.iter().all(|e| e.1 >= 10));
    let grounded = vec![false; mem.inputs.len()];
    rollback_pass(&mut mem, &mut cm, &config, &mut cv, &grounded, SERVER_TICK_MS);

    assert_eq!(mem.current_min_ack, 10);
    assert!(mem.inputs.iter().all(|(t, _)| *t > 10));
    assert_eq!(mem.inputs.len(), 3);
    // the reconciled present equals the uninterrupted prediction
    assert_eq!(cv, predicted_present);
}
