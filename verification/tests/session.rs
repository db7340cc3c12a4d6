use reconciler::clock::ClientTick;
use reconciler::dispatch::{apply_snapshots, handle_event, handle_message, handle_server, Event};
use reconciler::dots::{touches, Dots};
use reconciler::input::PlayerInput;
use reconciler::messages::{
    ClientMessage, Damage, NetworkMessage, NewGame, NewPos, ObjectMsg, PlayerState, Score,
    SyncMessage,
};
use reconciler::movement::{MovementRule, PLAYER_SPEED, TOLERANCE};
use reconciler::name::PlayerName;
use reconciler::player::Enemy;
use reconciler::point::{Point, UNIT};
use reconciler::session::{game_loop, Session};

const LOCAL: u128 = 0x1111_2222_3333_4444_5555_6666_7777_8888;
const X: u128 = 0xAAAA_BBBB_CCCC_DDDD_EEEE_FFFF_0000_1111;
const Y: u128 = 3;

fn wide_world() -> MovementRule {
    MovementRule::new(PLAYER_SPEED, 100 * UNIT, TOLERANCE)
}

fn snapshot(id: u128, tick: u64, x: i32, target_x: i32) -> NewPos {
    NewPos { input: Point::new(target_x, 0), tick, id, pos: Point::new(x, 0) }
}

fn new_game(id: u128, server_tick: u64) -> NewGame {
    NewGame {
        id,
        server_tick,
        rng_seed: 99,
        high_scores: vec![("ada".to_string(), 61)],
        objects: ObjectMsg { rain_pos: vec![(4, Point::new(1, 2))], bolt_pos: Vec::new() },
    }
}

fn remote_ids(session: &Session) -> Vec<u128> {
    let mut out = Vec::new();
    let mut i = 0;
    while let Some(enemy) = session.remote(i) {
        out.push(enemy.id);
        i += 1;
    }
    out
}

#[test]
fn a_new_session_holds_one_actor_at_the_origin() {
    let session = Session::new(LOCAL, wide_world());
    assert_eq!(session.clock(), ClientTick { tick: 0, pause_count: 0 });
    assert_eq!(session.rule(), wide_world());
    assert_eq!(session.local().id, LOCAL);
    assert_eq!(session.remote_count(), 0);
    assert_eq!(session.remote(0), None);
    assert_eq!(session.rng_seed(), None);
    assert_eq!(session.dot_count(), 0);
    assert_eq!(session.current_position(LOCAL), Some(Point::origin()));
    assert_eq!(session.current_position(X), None);
}

#[test]
fn a_snapshot_for_an_unknown_actor_creates_it() {
    let mut session = Session::new(LOCAL, wide_world());
    session.apply_snapshot(&NewPos {
        input: Point::new(7 * UNIT, 70),
        tick: 12,
        id: X,
        pos: Point::new(3 * UNIT, 30),
    });
    assert_eq!(session.remote_count(), 1);
    assert_eq!(
        session.remote(0),
        Some(Enemy {
            position: Point::new(3 * UNIT, 30),
            target: Point::new(7 * UNIT, 70),
            id: X,
            score: 0,
            time_alive: 0,
            alive: true,
        })
    );
    assert_eq!(session.current_position(X), Some(Point::new(3 * UNIT, 30)));
    assert_eq!(session.current_position(LOCAL), Some(Point::origin()));
}

#[test]
fn a_snapshot_for_a_known_remote_actor_is_copied() {
    let mut session = Session::new(LOCAL, wide_world());
    session.apply_snapshot(&snapshot(X, 1, 1000, 9000));
    session.apply_snapshot(&snapshot(Y, 1, -1000, -9000));
    session.apply_score(X, 4);
    session.apply_snapshot(&snapshot(X, 2, 2000, 8000));
    assert_eq!(remote_ids(&session), vec![X, Y]);
    let enemy = session.remote(0).unwrap();
    assert_eq!(enemy.position, Point::new(2000, 0));
    assert_eq!(enemy.target, Point::new(8000, 0));
    assert_eq!(enemy.score, 4);
    assert_eq!(session.current_position(Y), Some(Point::new(-1000, 0)));
}

#[test]
fn remote_actors_do_not_move_between_snapshots() {
    let mut session = Session::new(LOCAL, wide_world());
    session.apply_snapshot(&snapshot(X, 0, 1000, 9000));
    for _ in 0..5 {
        session.advance_tick();
    }
    assert_eq!(session.current_position(X), Some(Point::new(1000, 0)));
    assert_eq!(session.clock().tick, 5);
}

#[test]
fn a_snapshot_for_the_local_actor_is_a_reconciliation() {
    let mut session = Session::new(LOCAL, wide_world());
    session.synchronize(5);
    for _ in 0..2 {
        session.record_intent(Point::new(10 * UNIT, 0));
        session.advance_tick();
    }
    session.record_intent(Point::new(10 * UNIT, 0));
    assert_eq!(session.clock().tick, 7);
    assert_eq!(session.current_position(LOCAL), Some(Point::new(2 * UNIT, 0)));
    session.apply_snapshot(&snapshot(LOCAL, 5, 4 * UNIT, 0));
    assert_eq!(session.current_position(LOCAL), Some(Point::new(7 * UNIT, 0)));
    assert_eq!(session.remote_count(), 0);
    assert_eq!(session.local().pending_inputs.len(), 3);
}

#[test]
fn record_intent_uses_the_clock_and_returns_what_to_send() {
    let mut session = Session::new(LOCAL, wide_world());
    session.synchronize(30);
    let sent = session.record_intent(Point::new(-2 * UNIT, 5));
    assert_eq!(sent, PlayerInput::new(Point::new(-2 * UNIT, 5), LOCAL, 30, true));
    assert_eq!(session.local().target, Point::new(-2 * UNIT, 5));
    assert_eq!(session.local().pending_inputs.get(0), Some(sent));
    assert_eq!(session.clock().tick, 30);
}

#[test]
fn advance_tick_moves_then_steps_the_clock() {
    let mut session = Session::new(LOCAL, wide_world());
    session.record_intent(Point::new(10 * UNIT, 0));
    session.advance_tick();
    assert_eq!(session.clock().tick, 1);
    assert_eq!(session.current_position(LOCAL), Some(Point::new(UNIT, 0)));
}

#[test]
fn tick_steps_the_clock_and_moves_nobody() {
    let mut session = Session::new(LOCAL, wide_world());
    session.record_intent(Point::new(10 * UNIT, 0));
    session.tick();
    assert_eq!(session.clock().tick, 1);
    assert_eq!(session.current_position(LOCAL), Some(Point::origin()));
    session.pause(1);
    session.tick();
    assert_eq!(session.clock(), ClientTick { tick: 1, pause_count: 0 });
}

#[test]
fn a_held_session_neither_moves_nor_counts() {
    let mut session = Session::new(LOCAL, wide_world());
    session.record_intent(Point::new(10 * UNIT, 0));
    session.pause(3);
    for _ in 0..3 {
        session.advance_tick();
        assert_eq!(session.clock().tick, 0);
        assert_eq!(session.current_position(LOCAL), Some(Point::origin()));
    }
    session.advance_tick();
    assert_eq!(session.clock().tick, 1);
    assert_eq!(session.current_position(LOCAL), Some(Point::new(UNIT, 0)));
}

#[test]
fn the_local_actor_stays_inside_the_world() {
    let rule = MovementRule::new(1000, 3 * UNIT, 500);
    let mut session = Session::new(LOCAL, rule);
    let targets = [50 * UNIT, -50 * UNIT, 2 * UNIT, 50 * UNIT];
    for (round, target) in targets.iter().enumerate() {
        session.record_intent(Point::new(*target, 0));
        for _ in 0..10 {
            session.advance_tick();
            let position = session.current_position(LOCAL).unwrap();
            assert!(position.x.abs() <= 3 * UNIT, "round {}", round);
        }
        session.apply_snapshot(&snapshot(LOCAL, session.clock().tick - 4, 3 * UNIT, 0));
        let position = session.current_position(LOCAL).unwrap();
        assert!(position.x.abs() <= 3 * UNIT);
    }
}

#[test]
fn disconnect_forgets_the_remote_actor() {
    let mut session = Session::new(LOCAL, wide_world());
    session.apply_snapshot(&snapshot(X, 1, 1000, 0));
    session.apply_snapshot(&snapshot(Y, 1, 2000, 0));
    assert!(session.disconnect(X));
    assert_eq!(remote_ids(&session), vec![Y]);
    assert_eq!(session.current_position(X), None);
    assert!(!session.disconnect(X));
    assert!(!session.disconnect(LOCAL));
    assert_eq!(session.current_position(LOCAL), Some(Point::origin()));
    session.apply_snapshot(&snapshot(X, 2, 3000, 0));
    assert_eq!(remote_ids(&session), vec![Y, X]);
}

#[test]
fn scores_change_scores_and_move_nobody() {
    let mut session = Session::new(LOCAL, wide_world());
    session.apply_snapshot(&snapshot(X, 1, 1000, 0));
    session.apply_score(LOCAL, 7);
    session.apply_score(X, 9);
    session.apply_score(Y, 11);
    assert_eq!(session.local().score, 7);
    assert_eq!(session.remote(0).unwrap().score, 9);
    assert_eq!(session.remote_count(), 1);
    assert_eq!(session.current_position(LOCAL), Some(Point::origin()));
    assert_eq!(session.current_position(X), Some(Point::new(1000, 0)));
}

#[test]
fn a_hit_records_score_and_lifetime_and_moves_nobody() {
    let mut session = Session::new(LOCAL, wide_world());
    session.apply_snapshot(&snapshot(X, 1, 1000, 0));
    session.apply_damage(LOCAL, 83, 5);
    assert_eq!(session.local().score, 5);
    assert_eq!(session.local().death_time, Some(83));
    session.apply_damage(X, 40, 2);
    let enemy = session.remote(0).unwrap();
    assert_eq!(enemy.score, 2);
    assert_eq!(enemy.time_alive, 40);
    assert!(!enemy.alive);
    assert_eq!(enemy.position, Point::new(1000, 0));
    session.apply_damage(Y, 1, 1);
    assert_eq!(session.remote_count(), 1);
}

#[test]
fn synchronize_moves_the_tick_or_drops_the_request() {
    let mut session = Session::new(LOCAL, wide_world());
    assert!(session.synchronize(12));
    assert_eq!(session.clock().tick, 12);
    assert!(session.synchronize(-2));
    assert_eq!(session.clock().tick, 10);
    assert!(!session.synchronize(-11));
    assert_eq!(session.clock().tick, 10);
}

#[test]
fn restart_resets_the_clock_and_the_local_actor() {
    let mut session = Session::new(LOCAL, wide_world());
    session.apply_snapshot(&snapshot(X, 1, 1000, 0));
    session.apply_snapshot(&snapshot(Y, 1, 2000, 0));
    session.record_intent(Point::new(9 * UNIT, 0));
    session.advance_tick();
    session.apply_score(LOCAL, 3);
    session.pause(4);
    session.add_dot(Point::new(1, 1));
    session.restart(X, 500, 42);
    assert_eq!(session.clock(), ClientTick { tick: 500, pause_count: 0 });
    assert_eq!(session.local().id, X);
    assert_eq!(session.local().position, Point::origin());
    assert_eq!(session.local().target, Point::origin());
    assert_eq!(session.local().score, 0);
    assert!(session.local().pending_inputs.is_empty());
    assert_eq!(session.rng_seed(), Some(42));
    assert_eq!(session.dot_count(), 0);
    assert_eq!(remote_ids(&session), vec![Y]);
    assert_eq!(session.current_position(LOCAL), None);
}

#[test]
fn park_keeps_the_score_and_revive_clears_it() {
    let mut session = Session::new(LOCAL, wide_world());
    session.record_intent(Point::new(9 * UNIT, 0));
    session.advance_tick();
    session.apply_damage(LOCAL, 61, 21);
    session.park(Point::new(0, -150 * UNIT));
    assert_eq!(session.local().position, Point::new(0, -150 * UNIT));
    assert_eq!(session.local().target, Point::origin());
    assert_eq!(session.local().pending_inputs.len(), 1);
    assert_eq!(
        session.local().pending_inputs.get(0),
        Some(PlayerInput::new(Point::new(9 * UNIT, 0), LOCAL, 0, true))
    );
    assert_eq!(session.local().score, 21);
    assert_eq!(session.local().death_time, Some(61));
    assert_eq!(session.clock().tick, 1);
    session.revive();
    assert_eq!(session.local().score, 0);
    assert_eq!(session.local().death_time, None);
    assert_eq!(session.local().position, Point::new(0, -150 * UNIT));
    assert_eq!(session.local().pending_inputs.len(), 1);
}

#[test]
fn heartbeat_is_due_every_so_many_ticks() {
    let mut session = Session::new(LOCAL, wide_world());
    session.record_intent(Point::new(4 * UNIT, 0));
    let mut due = Vec::new();
    for _ in 0..7 {
        if let Some(input) = session.heartbeat(3, true) {
            assert_eq!(input.id, LOCAL);
            assert_eq!(input.target, Point::new(4 * UNIT, 0));
            assert!(input.in_game);
            due.push(input.tick);
        }
        session.advance_tick();
    }
    assert_eq!(due, vec![0, 3, 6]);
    assert_eq!(session.heartbeat(0, true), None);
    assert_eq!(session.heartbeat(1, true).map(|input| input.tick), Some(7));
    assert_eq!(
        session.heartbeat(7, false),
        Some(PlayerInput::new(Point::origin(), LOCAL, 7, false))
    );
    assert_eq!(session.heartbeat(30, false), None);
}

#[test]
fn dots_are_picked_up_by_whoever_touches_them() {
    let mut session = Session::new(LOCAL, wide_world());
    session.apply_snapshot(&snapshot(X, 0, 20 * UNIT, 20 * UNIT));
    session.add_dot(Point::new(UNIT + 999, 0));
    session.add_dot(Point::new(2 * UNIT, 0));
    session.add_dot(Point::new(20 * UNIT - 999, 999));
    session.add_dot(Point::new(20 * UNIT, UNIT));
    session.add_dot(Point::new(-5 * UNIT, 0));
    session.record_intent(Point::new(10 * UNIT, 0));
    game_loop(&mut session);
    assert_eq!(session.clock().tick, 0);
    assert_eq!(session.current_position(LOCAL), Some(Point::new(UNIT, 0)));
    assert_eq!(session.dot_count(), 3);
    assert_eq!(session.dot(0), Some(Point::new(2 * UNIT, 0)));
    assert_eq!(session.dot(1), Some(Point::new(20 * UNIT, UNIT)));
    assert_eq!(session.dot(2), Some(Point::new(-5 * UNIT, 0)));
    assert_eq!(session.dot(3), None);
    session.advance_tick();
    assert_eq!(session.current_position(LOCAL), Some(Point::new(2 * UNIT, 0)));
    assert_eq!(session.dot_count(), 2);
    assert_eq!(session.dot(0), Some(Point::new(20 * UNIT, UNIT)));
}

#[test]
fn collect_takes_what_is_within_one_unit_on_both_axes() {
    let mut dots = Dots::new();
    assert_eq!(dots.rng_seed, None);
    dots.rng_seed = Some(5);
    dots.pos = vec![
        Point::new(999, -999),
        Point::new(1000, 0),
        Point::new(0, 0),
        Point::new(0, -1000),
        Point::new(-999, 999),
    ];
    let taken = dots.collect(Point::new(0, 0));
    assert_eq!(taken, 3);
    assert_eq!(dots.pos, vec![Point::new(1000, 0), Point::new(0, -1000)]);
    assert_eq!(dots.rng_seed, Some(5));
    assert_eq!(dots.collect(Point::new(50_000, 0)), 0);
    assert!(touches(Point::new(i32::MAX, 0), Point::new(i32::MAX - 999, 0)));
    assert!(!touches(Point::new(i32::MAX, 0), Point::new(i32::MIN, 0)));
}

#[test]
fn handle_message_routes_each_kind() {
    let mut session = Session::new(LOCAL, wide_world());
    handle_message(&mut session, &NetworkMessage::NewGame(new_game(LOCAL, 100)));
    assert_eq!(session.clock().tick, 100);
    assert_eq!(session.rng_seed(), Some(99));
    handle_message(
        &mut session,
        &NetworkMessage::GameUpdate(vec![snapshot(X, 100, 1000, 2000), snapshot(Y, 100, 5, 6)]),
    );
    assert_eq!(remote_ids(&session), vec![X, Y]);
    handle_message(
        &mut session,
        &NetworkMessage::ScoreUpdate(Score { id: X, score: 3, tick: 100 }),
    );
    assert_eq!(session.remote(0).unwrap().score, 3);
    handle_message(
        &mut session,
        &NetworkMessage::DamagePlayer(Damage {
            id: LOCAL,
            tick: Some(101),
            secs_alive: 12,
            high_scores: None,
            pos: Point::new(77, 77),
            score: 8,
        }),
    );
    assert_eq!(session.local().death_time, Some(12));
    assert_eq!(session.local().score, 8);
    assert_eq!(session.current_position(LOCAL), Some(Point::origin()));
    handle_message(
        &mut session,
        &NetworkMessage::SyncClient(SyncMessage { tick_adjustment: -10, server_tick: 90 }),
    );
    assert_eq!(session.clock().tick, 90);
    handle_message(&mut session, &NetworkMessage::Ping);
    handle_message(
        &mut session,
        &NetworkMessage::GameState(vec![PlayerState {
            pos: Point::new(1, 1),
            target: Point::new(2, 2),
            score: 50,
            name: Some("bob".to_string()),
            id: 1234,
            time_alive: 9,
            alive: true,
        }]),
    );
    assert_eq!(session.clock().tick, 90);
    assert_eq!(remote_ids(&session), vec![X, Y]);
    assert_eq!(session.local().score, 8);
}

#[test]
fn a_synchronisation_out_of_range_is_dropped() {
    let mut session = Session::new(LOCAL, wide_world());
    handle_message(
        &mut session,
        &NetworkMessage::SyncClient(SyncMessage { tick_adjustment: -1, server_tick: 0 }),
    );
    assert_eq!(session.clock().tick, 0);
}

#[test]
fn handle_server_takes_a_batch_in_order() {
    let mut session = Session::new(LOCAL, wide_world());
    let inbox = vec![
        NetworkMessage::GameUpdate(vec![snapshot(X, 0, 1000, 0)]),
        NetworkMessage::NewGame(new_game(X, 40)),
        NetworkMessage::GameUpdate(vec![snapshot(LOCAL, 40, 2000, 0), snapshot(X, 40, 3000, 0)]),
        NetworkMessage::SyncClient(SyncMessage { tick_adjustment: 2, server_tick: 40 }),
    ];
    handle_server(&mut session, &inbox);
    assert_eq!(session.local().id, X);
    assert_eq!(session.clock().tick, 42);
    assert_eq!(remote_ids(&session), vec![LOCAL]);
    assert_eq!(session.current_position(LOCAL), Some(Point::new(2000, 0)));
    assert_eq!(session.current_position(X), Some(Point::new(2000, 0)));
    assert_eq!(session.local().target, Point::origin());
    handle_server(&mut session, &Vec::new());
    assert_eq!(session.clock().tick, 42);
}

#[test]
fn apply_snapshots_takes_the_later_word_for_an_actor() {
    let mut session = Session::new(LOCAL, wide_world());
    apply_snapshots(
        &mut session,
        &vec![snapshot(X, 1, 1000, 0), snapshot(Y, 1, 2000, 0), snapshot(X, 2, 3000, 0)],
    );
    assert_eq!(remote_ids(&session), vec![X, Y]);
    assert_eq!(session.current_position(X), Some(Point::new(3000, 0)));
}

#[test]
fn a_name_is_handed_in_only_if_there_is_one() {
    let mut name = PlayerName::new();
    assert_eq!(name.name, "");
    assert!(!name.submitted);
    assert!(name.submit().is_none());
    assert!(!name.submitted);
    name.name = "grace".to_string();
    match name.submit() {
        Some(ClientMessage::PlayerName(sent)) => assert_eq!(sent, "grace"),
        _ => panic!("the name was not handed in"),
    }
    assert!(name.submitted);
    assert_eq!(name.name, "grace");
}

#[test]
fn handle_event_takes_each_kind_of_event() {
    let mut session = Session::new(LOCAL, wide_world());
    let sent = handle_event(&mut session, &Event::Command(Point::new(10 * UNIT, 0)));
    assert_eq!(sent, Some(PlayerInput::new(Point::new(10 * UNIT, 0), LOCAL, 0, true)));
    assert_eq!(handle_event(&mut session, &Event::Dot(Point::new(UNIT, 0))), None);
    assert_eq!(handle_event(&mut session, &Event::Play), None);
    assert_eq!(session.current_position(LOCAL), Some(Point::new(UNIT, 0)));
    assert_eq!(session.dot_count(), 0);
    assert_eq!(session.clock().tick, 0);
    handle_event(&mut session, &Event::Tick);
    assert_eq!(session.clock().tick, 1);
    handle_event(&mut session, &Event::Step);
    assert_eq!(session.clock().tick, 2);
    assert_eq!(session.current_position(LOCAL), Some(Point::new(2 * UNIT, 0)));
    handle_event(&mut session, &Event::Pause(2));
    handle_event(&mut session, &Event::Step);
    assert_eq!(session.clock(), ClientTick { tick: 2, pause_count: 1 });
    assert_eq!(session.current_position(LOCAL), Some(Point::new(2 * UNIT, 0)));
    let update = NetworkMessage::GameUpdate(vec![snapshot(X, 2, 500, 600)]);
    handle_event(&mut session, &Event::Message(update));
    assert_eq!(remote_ids(&session), vec![X]);
    handle_event(&mut session, &Event::Disconnect(X));
    assert_eq!(session.remote_count(), 0);
    session.apply_score(LOCAL, 4);
    let logged = session.local().pending_inputs.len();
    handle_event(&mut session, &Event::Park(Point::new(0, -150 * UNIT)));
    assert_eq!(session.local().position, Point::new(0, -150 * UNIT));
    assert_eq!(session.local().score, 4);
    assert_eq!(session.local().pending_inputs.len(), logged);
    assert_eq!(logged, 1);
    handle_event(&mut session, &Event::Revive);
    assert_eq!(session.local().score, 0);
}
