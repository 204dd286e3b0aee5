use nostr_arena::rooms::{select_rooms, FetchedRoom};
use nostr_arena::{
    Arena, ArenaConfig, ArenaError, ArenaEvent, EventContent, GameStartEventContent,
    HeartbeatEventContent, JoinEventContent, PlayerPresence, RematchAction, RoomEventContent,
    RoomStatus, StartMode,
};

type Game = Arena<u32>;

fn key(s: &str) -> String {
    s.to_string()
}

/// A creates room "ra" with seed 42 at t=1000; B joins it at t=1000 and A
/// receives B's Join at t=1000. Returns both arenas and the events A reported
/// on receiving the Join and B reported on completing it.
fn two_players(config: ArenaConfig) -> (Game, Game, Vec<ArenaEvent<u32>>, Vec<ArenaEvent<u32>>) {
    let mut a: Game = Arena::new(config.clone(), key("A"));
    let mut b: Game = Arena::new(config, key("B"));
    let snapshot = a.create(key("ra"), 42, 1000);
    a.room_published();
    let join = b.join("ra", Some(Ok(snapshot)), 1, 1000).unwrap();
    let b_events = b.join_published();
    let a_events = a.handle_event(&key("B"), join, 1000);
    (a, b, a_events, b_events)
}

fn ready_of(arena: &Game) -> Vec<bool> {
    arena.players().iter().map(|p| p.ready).collect()
}

#[test]
fn auto_mode_starts_when_the_room_fills() {
    let (a, b, a_events, b_events) = two_players(ArenaConfig::new("game"));
    assert_eq!(a_events.len(), 2);
    assert!(matches!(&a_events[0], ArenaEvent::PlayerJoin(p) if p.pubkey == "B"));
    assert!(matches!(a_events[1], ArenaEvent::GameStart));
    assert_eq!(a.room_state().status, RoomStatus::Playing);
    assert_eq!(a.room_state().seed, 42);
    assert_eq!(b_events.len(), 1);
    assert!(matches!(b_events[0], ArenaEvent::GameStart));
    assert_eq!(b.room_state().status, RoomStatus::Playing);
    assert_eq!(b.room_state().seed, 42);
}

#[test]
fn auto_mode_starts_once_despite_repeated_joins() {
    let (mut a, _b, _, _) = two_players(ArenaConfig::new("game"));
    let again = EventContent::Join(JoinEventContent { player_pubkey: key("B") });
    let events = a.handle_event(&key("B"), again, 1500);
    assert_eq!(events.len(), 1);
    assert!(matches!(events[0], ArenaEvent::PlayerJoin(_)));
    assert_eq!(a.player_count(), 2);
}

#[test]
fn ready_mode_starts_when_everyone_is_ready() {
    let config = ArenaConfig::new("game").start_mode(StartMode::Ready);
    let (mut a, mut b, a_events, b_events) = two_players(config);
    assert_eq!(a_events.len(), 1);
    assert!(b_events.is_empty());
    assert_eq!(a.room_state().status, RoomStatus::Waiting);
    assert_eq!(b.room_state().status, RoomStatus::Ready);

    let (ready_a, events) = a.send_ready(true).unwrap();
    assert!(events.is_empty());
    assert!(b.handle_event(&key("A"), ready_a, 1100).is_empty());

    let (ready_b, events) = b.send_ready(true).unwrap();
    assert_eq!(events.len(), 2);
    assert!(matches!(events[0], ArenaEvent::AllReady));
    assert!(matches!(events[1], ArenaEvent::GameStart));
    let events = a.handle_event(&key("B"), ready_b, 1200);
    assert_eq!(events.len(), 2);
    assert!(matches!(events[0], ArenaEvent::AllReady));
    assert!(matches!(events[1], ArenaEvent::GameStart));
    assert_eq!(a.room_state().status, RoomStatus::Playing);
    assert_eq!(b.room_state().status, RoomStatus::Playing);
}

#[test]
fn ready_mode_waits_for_a_player_who_withdraws() {
    let config = ArenaConfig::new("game").start_mode(StartMode::Ready);
    let (mut a, _b, _, _) = two_players(config);
    let (_, events) = a.send_ready(true).unwrap();
    assert!(events.is_empty());
    let not_ready = EventContent::Ready(nostr_arena::ReadyEventContent { ready: false });
    assert!(a.handle_event(&key("B"), not_ready, 1100).is_empty());
    assert_ne!(a.room_state().status, RoomStatus::Playing);
}

fn countdown_events(arena: &mut Game) -> Vec<u32> {
    let mut ticks = Vec::new();
    while arena.countdown_active() {
        for e in arena.countdown_tick() {
            match e {
                ArenaEvent::CountdownTick(n) => ticks.push(n),
                ArenaEvent::GameStart => ticks.push(u32::MAX),
                _ => panic!("unexpected event during the countdown"),
            }
        }
    }
    ticks
}

#[test]
fn countdown_mode_counts_down_then_starts() {
    let config = ArenaConfig::new("game").start_mode(StartMode::Countdown).countdown_seconds(3);
    let (mut a, mut b, _, _) = two_players(config);
    let (ready_a, _) = a.send_ready(true).unwrap();
    b.handle_event(&key("A"), ready_a, 1100);
    let (ready_b, events) = b.send_ready(true).unwrap();
    assert_eq!(events.len(), 2);
    assert!(matches!(events[0], ArenaEvent::AllReady));
    assert!(matches!(events[1], ArenaEvent::CountdownStart(3)));
    let events = a.handle_event(&key("B"), ready_b, 1200);
    assert_eq!(events.len(), 2);
    assert!(matches!(events[0], ArenaEvent::AllReady));
    assert!(matches!(events[1], ArenaEvent::CountdownStart(3)));
    assert_ne!(a.room_state().status, RoomStatus::Playing);

    assert_eq!(countdown_events(&mut a), vec![2, 1, 0, u32::MAX]);
    assert_eq!(countdown_events(&mut b), vec![2, 1, 0, u32::MAX]);
    assert_eq!(a.room_state().status, RoomStatus::Playing);
    assert_eq!(b.room_state().status, RoomStatus::Playing);
    assert!(a.countdown_tick().is_empty());
}

#[test]
fn countdown_of_zero_starts_at_once() {
    let config = ArenaConfig::new("game").start_mode(StartMode::Countdown).countdown_seconds(0);
    let (mut a, mut b, _, _) = two_players(config);
    let (ready_a, _) = a.send_ready(true).unwrap();
    b.handle_event(&key("A"), ready_a, 1100);
    let (_, events) = b.send_ready(true).unwrap();
    assert_eq!(events.len(), 3);
    assert!(matches!(events[1], ArenaEvent::CountdownStart(0)));
    assert!(matches!(events[2], ArenaEvent::GameStart));
    assert!(!b.countdown_active());
}

#[test]
fn host_mode_only_the_host_starts() {
    let config = ArenaConfig::new("game").start_mode(StartMode::Host);
    let (mut a, mut b, a_events, b_events) = two_players(config);
    assert_eq!(a_events.len(), 1);
    assert!(b_events.is_empty());
    match b.start_game() {
        Err(ArenaError::NotAuthorized(m)) => assert_eq!(m, "Only host can start game"),
        _ => panic!("a joiner must not start the game"),
    }
    assert_eq!(b.room_state().status, RoomStatus::Ready);
    let (start, events) = a.start_game().unwrap();
    assert!(matches!(start, EventContent::GameStart(_)));
    assert_eq!(events.len(), 1);
    assert!(matches!(events[0], ArenaEvent::GameStart));
    let events = b.handle_event(&key("A"), start, 1100);
    assert_eq!(events.len(), 1);
    assert_eq!(a.room_state().status, RoomStatus::Playing);
    assert_eq!(b.room_state().status, RoomStatus::Playing);
    let again = EventContent::GameStart(GameStartEventContent {});
    assert!(b.handle_event(&key("A"), again, 1200).is_empty());
}

#[test]
fn host_drops_a_silent_player() {
    let (mut a, _b, _, _) = two_players(ArenaConfig::new("game"));
    let (snapshot, events) = a.reconcile_presence(1000 + 11000).unwrap();
    assert_eq!(events.len(), 1);
    assert!(matches!(&events[0], ArenaEvent::PlayerLeave(k) if k == "B"));
    assert_eq!(snapshot.players.len(), 1);
    assert_eq!(snapshot.players[0].pubkey, "A");
    assert_eq!(snapshot.status, RoomStatus::Playing);
    assert_eq!(snapshot.seed, 42);
    assert_eq!(snapshot.host_pubkey, "A");
    assert_eq!(a.player_count(), 1);
}

#[test]
fn heartbeats_keep_a_player_in_the_room() {
    let (mut a, b, _, _) = two_players(ArenaConfig::new("game"));
    let beat = b.heartbeat(9000).unwrap();
    assert!(matches!(beat, EventContent::Heartbeat(HeartbeatEventContent { timestamp: 9000 })));
    assert!(a.handle_event(&key("B"), beat, 9000).is_empty());
    let (snapshot, events) = a.reconcile_presence(12000).unwrap();
    assert!(events.is_empty());
    assert_eq!(snapshot.players.len(), 2);
    let old_beat = EventContent::Heartbeat(HeartbeatEventContent { timestamp: 5000 });
    a.handle_event(&key("B"), old_beat, 12000);
    let b_seen: Vec<u64> =
        a.players().iter().filter(|p| p.pubkey == "B").map(|p| p.last_seen).collect();
    assert_eq!(b_seen, vec![9000]);
}

#[test]
fn only_the_host_sweeps() {
    let (_a, mut b, _, _) = two_players(ArenaConfig::new("game"));
    assert!(b.reconcile_presence(1_000_000).is_none());
    assert_eq!(b.player_count(), 2);
}

#[test]
fn rematch_resets_seed_and_ready_flags() {
    let (mut a, mut b, _, _) = two_players(ArenaConfig::new("game"));
    let (ready, _) = a.send_ready(true).unwrap();
    b.handle_event(&key("A"), ready, 1100);
    assert!(ready_of(&b).contains(&true));

    let over = a.send_game_over(key("win"), Some(10)).unwrap();
    assert_eq!(a.room_state().status, RoomStatus::Finished);
    let events = b.handle_event(&key("A"), over, 1200);
    assert!(matches!(
        &events[0],
        ArenaEvent::PlayerGameOver { pubkey, reason, final_score: Some(10) }
            if pubkey == "A" && reason == "win"
    ));
    assert_eq!(b.room_state().status, RoomStatus::Finished);

    let request = a.request_rematch().unwrap().unwrap();
    assert!(a.room_state().rematch_requested);
    let events = b.handle_event(&key("A"), request, 1300);
    assert!(matches!(&events[0], ArenaEvent::RematchRequested(k) if k == "A"));

    let (accept, events) = b.accept_rematch(99).unwrap();
    assert!(matches!(
        accept,
        EventContent::Rematch(nostr_arena::RematchEventContent {
            action: RematchAction::Accept,
            new_seed: Some(99)
        })
    ));
    assert!(matches!(events[0], ArenaEvent::RematchStart(99)));
    let events = a.handle_event(&key("B"), accept, 1400);
    assert_eq!(events.len(), 1);
    assert!(matches!(events[0], ArenaEvent::RematchStart(99)));

    for arena in [&a, &b] {
        let state = arena.room_state();
        assert_eq!(state.seed, 99);
        assert_eq!(state.status, RoomStatus::Ready);
        assert!(!state.rematch_requested);
        assert!(ready_of(arena).iter().all(|r| !r));
    }
}

#[test]
fn rematch_is_asked_only_after_the_game() {
    let (mut a, _b, _, _) = two_players(ArenaConfig::new("game"));
    assert!(a.request_rematch().unwrap().is_none());
    assert!(!a.room_state().rematch_requested);
}

#[test]
fn state_updates_are_throttled() {
    let (mut a, _b, _, _) = two_players(ArenaConfig::new("game"));
    assert_eq!(a.send_state(1000), Ok(true));
    assert_eq!(a.send_state(1050), Ok(false));
    assert_eq!(a.send_state(1099), Ok(false));
    assert_eq!(a.send_state(1100), Ok(true));
    assert_eq!(a.send_state(1100), Ok(false));
}

#[test]
fn state_outside_a_room_is_refused() {
    let mut a: Game = Arena::new(ArenaConfig::new("game"), key("A"));
    assert_eq!(a.send_state(5000), Err(ArenaError::NotInRoom));
    assert_eq!(a.send_game_over(key("x"), None).err(), Some(ArenaError::NotInRoom));
    assert_eq!(a.send_ready(true).err(), Some(ArenaError::NotInRoom));
    assert_eq!(a.accept_rematch(1).err(), Some(ArenaError::NotInRoom));
    assert!(a.heartbeat(1).is_none());
    assert!(a.get_room_url().is_none());
}

#[test]
fn received_states_are_reported() {
    let (mut a, _b, _, _) = two_players(ArenaConfig::new("game"));
    let events = a.handle_state(&key("B"), Some(7), 1500);
    assert_eq!(events.len(), 1);
    assert!(matches!(&events[0], ArenaEvent::PlayerState { pubkey, state: 7 } if pubkey == "B"));
    assert!(a.handle_state(&key("B"), None, 1600).is_empty());
    assert!(a.handle_state(&key("A"), Some(1), 1700).is_empty());
}

#[test]
fn own_events_are_ignored() {
    let (mut a, _b, _, _) = two_players(ArenaConfig::new("game"));
    let echo = EventContent::Join(JoinEventContent { player_pubkey: key("Z") });
    assert!(a.handle_event(&key("A"), echo, 2000).is_empty());
    assert_eq!(a.player_count(), 2);
}

#[test]
fn leaving_clears_the_room() {
    let (mut a, _b, _, _) = two_players(ArenaConfig::new("game"));
    assert!(a.leave().is_ok());
    let state = a.room_state();
    assert!(state.room_id.is_none());
    assert_eq!(state.status, RoomStatus::Idle);
    assert!(!state.is_host);
    assert_eq!(a.player_count(), 0);
    let late = EventContent::Join(JoinEventContent { player_pubkey: key("C") });
    assert!(a.handle_event(&key("C"), late, 3000).is_empty());
    assert_eq!(a.player_count(), 0);
}

#[test]
fn only_the_host_deletes() {
    let (mut a, b, _, _) = two_players(ArenaConfig::new("game"));
    match b.delete_room() {
        Err(ArenaError::NotAuthorized(m)) => assert_eq!(m, "Only host can delete room"),
        _ => panic!("a joiner must not delete the room"),
    }
    let deleted = a.delete_room().unwrap();
    assert_eq!(deleted.status, RoomStatus::Deleted);
    assert!(deleted.players.is_empty());
    assert_eq!(deleted.seed, 42);
    a.leave().unwrap();
    assert_eq!(a.room_state().status, RoomStatus::Idle);
    assert_eq!(a.delete_room().err(), Some(ArenaError::NotAuthorized("Only host can delete room".to_string())));
}

#[test]
fn room_url_uses_the_base_url() {
    let mut a: Game = Arena::new(ArenaConfig::new("game"), key("A"));
    a.create(key("ab12cd"), 1, 0);
    assert_eq!(a.get_room_url(), Some("/battle/ab12cd".to_string()));
    let mut b: Game = Arena::new(ArenaConfig::new("game").base_url("https://x.io"), key("B"));
    b.create(key("ab12cd"), 1, 0);
    assert_eq!(b.get_room_url(), Some("https://x.io/battle/ab12cd".to_string()));
}

#[test]
fn created_room_snapshot() {
    let mut a: Game = Arena::new(ArenaConfig::new("game").room_expiry(60000), key("A"));
    let snapshot = a.create(key("r1"), 7, 5000);
    assert_eq!(snapshot.status, RoomStatus::Waiting);
    assert_eq!(snapshot.expires_at, Some(65000));
    assert_eq!(snapshot.players.len(), 1);
    assert_eq!(a.room_state().status, RoomStatus::Creating);
    assert!(a.room_state().is_host);
    a.room_published();
    assert_eq!(a.room_state().status, RoomStatus::Waiting);
    let mut c: Game = Arena::new(ArenaConfig::new("game").room_expiry(10), key("C"));
    assert_eq!(c.create(key("r2"), 7, u64::MAX - 1).expires_at, Some(u64::MAX));
}

fn snapshot(status: RoomStatus, expires_at: Option<u64>, players: usize) -> RoomEventContent {
    RoomEventContent {
        status,
        seed: 5,
        host_pubkey: key("H"),
        max_players: 2,
        expires_at,
        players: (0..players)
            .map(|i| PlayerPresence {
                pubkey: format!("p{i}"),
                joined_at: 0,
                last_seen: 0,
                ready: false,
            })
            .collect(),
    }
}

#[test]
fn join_failures() {
    let mut a: Game = Arena::new(ArenaConfig::new("game"), key("A"));
    assert_eq!(a.join("r", None, 0, 100).err(), Some(ArenaError::RoomNotFound));
    assert_eq!(
        a.join("r", Some(Err(key("bad"))), 0, 100).err(),
        Some(ArenaError::InvalidRoomData(key("bad")))
    );
    let deleted = snapshot(RoomStatus::Deleted, None, 0);
    assert_eq!(a.join("r", Some(Ok(deleted)), 0, 100).err(), Some(ArenaError::RoomDeleted));
    let expired = snapshot(RoomStatus::Waiting, Some(99), 1);
    assert_eq!(a.join("r", Some(Ok(expired)), 0, 100).err(), Some(ArenaError::RoomExpired));
    let full = snapshot(RoomStatus::Waiting, None, 2);
    assert_eq!(a.join("r", Some(Ok(full)), 0, 100).err(), Some(ArenaError::RoomFull));
    assert_eq!(a.room_state().status, RoomStatus::Idle);
    assert_eq!(a.player_count(), 0);
    let open = snapshot(RoomStatus::Waiting, Some(100), 1);
    assert!(a.join("r", Some(Ok(open)), 3, 100).is_ok());
    let state = a.room_state();
    assert_eq!(state.status, RoomStatus::Joining);
    assert_eq!(state.room_id, Some(key("r")));
    assert_eq!(state.seed, 5);
    assert_eq!(state.created_at, Some(3000));
    assert_eq!(a.player_count(), 2);
}

#[test]
fn reconnect_rejoins_from_scratch() {
    let (_a, mut b, _, _) = two_players(ArenaConfig::new("game"));
    let again = snapshot(RoomStatus::Waiting, None, 1);
    let join = b.reconnect("other", Some(Ok(again)), 0, 2000).unwrap();
    assert!(matches!(join, EventContent::Join(j) if j.player_pubkey == "B"));
    assert_eq!(b.room_state().room_id, Some(key("other")));
    assert_eq!(b.player_count(), 2);
    assert!(b.reconnect("gone", None, 0, 2000).is_err());
    assert_eq!(b.room_state().status, RoomStatus::Idle);
}

fn fetched(tag: Option<&str>, content: Option<RoomEventContent>) -> FetchedRoom {
    FetchedRoom { d_tag: tag.map(|t| t.to_string()), created_at_secs: 2, content }
}

#[test]
fn discovery_lists_open_rooms() {
    let events = vec![
        fetched(Some("game-aaa"), Some(snapshot(RoomStatus::Waiting, None, 1))),
        fetched(Some("game-bbb"), Some(snapshot(RoomStatus::Deleted, None, 1))),
        fetched(Some("game-ccc"), Some(snapshot(RoomStatus::Playing, Some(10), 2))),
        fetched(Some("game-ddd"), None),
        fetched(Some("legacy"), Some(snapshot(RoomStatus::Playing, Some(5000), 2))),
        fetched(None, Some(snapshot(RoomStatus::Waiting, None, 0))),
    ];
    let rooms = select_rooms("game", &events, 1000, None, 10);
    let ids: Vec<&str> = rooms.iter().map(|r| r.room_id.as_str()).collect();
    assert_eq!(ids, vec!["aaa", "legacy", ""]);
    assert_eq!(rooms[0].game_id, "game");
    assert_eq!(rooms[0].created_at, 2000);
    assert_eq!(rooms[0].player_count, 1);
    assert_eq!(rooms[1].expires_at, Some(5000));

    let playing = select_rooms("game", &events, 1000, Some(RoomStatus::Playing), 10);
    assert_eq!(playing.len(), 1);
    assert_eq!(playing[0].room_id, "legacy");

    let first = select_rooms("game", &events, 1000, None, 1);
    assert_eq!(first.len(), 1);
    assert_eq!(first[0].room_id, "aaa");
    assert!(select_rooms("game", &events, 1000, None, 0).is_empty());
}

#[test]
fn each_instance_is_on_its_own_roster() {
    let (a, b, _, _) = two_players(ArenaConfig::new("game").start_mode(StartMode::Ready));
    assert!(a.players().iter().any(|p| p.pubkey == "A"));
    assert!(b.players().iter().any(|p| p.pubkey == "B"));
    assert!(b.players().iter().any(|p| p.pubkey == "A"));
}

#[test]
fn sweep_reports_each_drop_once() {
    let config = ArenaConfig::new("game").max_players(4);
    let (mut a, _b, _, _) = two_players(config);
    let join_c = EventContent::Join(JoinEventContent { player_pubkey: key("C") });
    a.handle_event(&key("C"), join_c, 5000);
    let join_d = EventContent::Join(JoinEventContent { player_pubkey: key("D") });
    a.handle_event(&key("D"), join_d, 500);
    let (snapshot, events) = a.reconcile_presence(11_000).unwrap();
    let left: Vec<String> = events
        .iter()
        .map(|e| match e {
            ArenaEvent::PlayerLeave(k) => k.clone(),
            _ => panic!("only departures are reported"),
        })
        .collect();
    assert_eq!(left, vec![key("D")]);
    let kept: Vec<&str> = snapshot.players.iter().map(|p| p.pubkey.as_str()).collect();
    assert_eq!(kept, vec!["A", "B", "C"]);
    let (_, events) = a.reconcile_presence(11_000).unwrap();
    assert!(events.is_empty());
}

#[test]
fn event_kinds() {
    assert_eq!(nostr_arena::kinds::ROOM, 30078);
    assert_eq!(nostr_arena::kinds::EPHEMERAL, 25000);
}

#[test]
fn state_outside_a_room_fails_even_within_the_window() {
    let mut a: Game = Arena::new(ArenaConfig::new("game"), key("A"));
    assert_eq!(a.send_state(50), Err(ArenaError::NotInRoom));
    a.create(key("r"), 1, 0);
    assert_eq!(a.send_state(60), Ok(false));
    assert_eq!(a.send_state(100), Ok(true));
}

#[test]
fn joining_another_room_starts_a_fresh_roster() {
    let config = ArenaConfig::new("game").max_players(3);
    let mut c: Game = Arena::new(config.clone(), key("C"));
    c.create(key("first"), 1, 0);
    let join_x = EventContent::Join(JoinEventContent { player_pubkey: key("X") });
    c.handle_event(&key("X"), join_x, 10);
    c.handle_state(&key("X"), Some(5), 20);
    assert_eq!(c.player_count(), 2);
    let mut other = snapshot(RoomStatus::Waiting, None, 0);
    other.max_players = 3;
    other.players.push(PlayerPresence { pubkey: key("A"), joined_at: 0, last_seen: 0, ready: false });
    c.join("second", Some(Ok(other)), 0, 100).unwrap();
    let keys: Vec<String> = c.players().iter().map(|p| p.pubkey.clone()).collect();
    assert_eq!(keys, vec![key("A"), key("C")]);
    assert!(c.join_published().is_empty());
    assert_eq!(c.room_state().status, RoomStatus::Ready);
}

#[test]
fn creating_a_room_starts_a_fresh_roster() {
    let (_a, mut b, _, _) = two_players(ArenaConfig::new("game"));
    let snapshot = b.create(key("mine"), 3, 2000);
    assert_eq!(snapshot.players.len(), 1);
    assert_eq!(snapshot.players[0].pubkey, "B");
    assert_eq!(b.player_count(), 1);
}

#[test]
fn a_new_arena_is_idle() {
    let a: Game = Arena::new(ArenaConfig::new("game"), key("A"));
    let state = a.room_state();
    assert!(state.room_id.is_none());
    assert_eq!(state.status, RoomStatus::Idle);
    assert!(!state.is_host && !state.rematch_requested);
    assert_eq!(state.seed, 0);
    assert!(state.created_at.is_none() && state.expires_at.is_none());
    assert_eq!(a.player_count(), 0);
    assert!(!a.countdown_active());
}
