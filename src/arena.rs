//! The arena state machine: one room per instance, its roster, the start modes,
//! rematch and throttled state broadcast.
//!
//! Every operation is a transition on the arena's state that returns what must be
//! published to the room and the events the application is to receive, in order.
//! The caller publishes, runs the timers and delivers the events.

use crate::error::ArenaError;
use crate::types::{
    ArenaConfig, EventContent, GameOverEventContent, GameStartEventContent, HeartbeatEventContent,
    JoinEventContent, PlayerPresence, ReadyEventContent, RematchAction, RematchEventContent,
    RoomEventContent, RoomState, RoomStatus, StartMode,
};
use vstd::prelude::*;
use vstd::string::*;

verus! {

/// What the arena reports to the application.
#[derive(Debug, Clone)]
pub enum ArenaEvent<T> {
    /// A player joined the room.
    PlayerJoin(PlayerPresence),
    /// A player left the room (dropped by the host after a silence).
    PlayerLeave(String),
    /// A player's game state arrived.
    PlayerState { pubkey: String, state: T },
    /// A player stopped sending heartbeats.
    PlayerDisconnect(String),
    /// A player's game ended.
    PlayerGameOver { pubkey: String, reason: String, final_score: Option<i64> },
    /// A player asks for a rematch.
    RematchRequested(String),
    /// A rematch was accepted with this seed.
    RematchStart(u64),
    /// Every player is ready.
    AllReady,
    /// The countdown begins, from this many seconds.
    CountdownStart(u32),
    /// Seconds left in the countdown.
    CountdownTick(u32),
    /// The game starts.
    GameStart,
    /// An asynchronous failure the application should learn of.
    Error(String),
}

/// Abstract state of an arena.
pub struct ArenaView<T> {
    pub config: ArenaConfig,
    pub public_key: String,
    pub room: RoomState,
    pub players: Seq<PlayerPresence>,
    pub states: Seq<(String, T)>,
    pub last_state_update: u64,
    pub countdown: Option<u32>,
}

/// A game arena: the room this instance takes part in, seen from this instance.
pub struct Arena<T> {
    config: ArenaConfig,
    public_key: String,
    room_state: RoomState,
    players: Vec<PlayerPresence>,
    player_states: Vec<(String, T)>,
    last_state_update: u64,
    countdown: Option<u32>,
}

impl<T> View for Arena<T> {
    type V = ArenaView<T>;

    closed spec fn view(&self) -> ArenaView<T> {
        ArenaView {
            config: self.config,
            public_key: self.public_key,
            room: self.room_state,
            players: self.players@,
            states: self.player_states@,
            last_state_update: self.last_state_update,
            countdown: self.countdown,
        }
    }
}

// ---------------------------------------------------------------------------
// The roster
// ---------------------------------------------------------------------------

/// No two players share a public key.
pub open spec fn unique_keys(ps: Seq<PlayerPresence>) -> bool {
    forall|i: int, j: int|
        0 <= i < ps.len() && 0 <= j < ps.len() && i != j ==> ps[i].pubkey@ != ps[j].pubkey@
}

/// No two stored game states share a public key.
pub open spec fn unique_state_keys<T>(ss: Seq<(String, T)>) -> bool {
    forall|i: int, j: int| 0 <= i < ss.len() && 0 <= j < ss.len() && i != j ==> ss[i].0@ != ss[j].0@
}

pub open spec fn has_player(ps: Seq<PlayerPresence>, key: Seq<char>) -> bool {
    exists|i: int| 0 <= i < ps.len() && ps[i].pubkey@ == key
}

/// The position of the player with this key (meaningful when `has_player`).
pub open spec fn player_index(ps: Seq<PlayerPresence>, key: Seq<char>) -> int {
    choose|i: int| 0 <= i < ps.len() && ps[i].pubkey@ == key
}

/// The roster with `p` recorded: it replaces the entry with the same key, or is appended.
pub open spec fn upsert(ps: Seq<PlayerPresence>, p: PlayerPresence) -> Seq<PlayerPresence> {
    if has_player(ps, p.pubkey@) {
        ps.update(player_index(ps, p.pubkey@), p)
    } else {
        ps.push(p)
    }
}

/// The roster with each of `qs` recorded in turn.
pub open spec fn upsert_all(ps: Seq<PlayerPresence>, qs: Seq<PlayerPresence>) -> Seq<
    PlayerPresence,
>
    decreases qs.len(),
{
    if qs.len() == 0 {
        ps
    } else {
        upsert(upsert_all(ps, qs.drop_last()), qs.last())
    }
}

/// The roster with the player `key` last seen at `t` at the latest; others unchanged.
pub open spec fn touch(ps: Seq<PlayerPresence>, key: Seq<char>, t: u64) -> Seq<PlayerPresence> {
    if has_player(ps, key) {
        let i = player_index(ps, key);
        let p = ps[i];
        ps.update(i, PlayerPresence { last_seen: if p.last_seen < t { t } else { p.last_seen }, ..p })
    } else {
        ps
    }
}

/// The roster with the ready flag of player `key` set to `ready`.
pub open spec fn with_ready(ps: Seq<PlayerPresence>, key: Seq<char>, ready: bool) -> Seq<
    PlayerPresence,
> {
    if has_player(ps, key) {
        let i = player_index(ps, key);
        ps.update(i, PlayerPresence { ready, ..ps[i] })
    } else {
        ps
    }
}

/// The roster with every ready flag cleared.
pub open spec fn unready(ps: Seq<PlayerPresence>) -> Seq<PlayerPresence> {
    ps.map_values(|p: PlayerPresence| PlayerPresence { ready: false, ..p })
}

pub open spec fn all_ready(ps: Seq<PlayerPresence>) -> bool {
    forall|i: int| 0 <= i < ps.len() ==> #[trigger] ps[i].ready
}

proof fn lemma_index_unique(ps: Seq<PlayerPresence>, i: int)
    requires
        unique_keys(ps),
        0 <= i < ps.len(),
    ensures
        has_player(ps, ps[i].pubkey@),
        player_index(ps, ps[i].pubkey@) == i,
{
    let key = ps[i].pubkey@;
    assert(has_player(ps, key));
    let j = player_index(ps, key);
    assert(ps[j].pubkey@ == key);
}

proof fn lemma_upsert_unique(ps: Seq<PlayerPresence>, p: PlayerPresence)
    requires
        unique_keys(ps),
    ensures
        unique_keys(upsert(ps, p)),
        has_player(upsert(ps, p), p.pubkey@),
        forall|k: Seq<char>| has_player(ps, k) ==> has_player(upsert(ps, p), k),
{
    let r = upsert(ps, p);
    if has_player(ps, p.pubkey@) {
        let i = player_index(ps, p.pubkey@);
        assert(r[i] == p);
        assert forall|k: Seq<char>| has_player(ps, k) implies has_player(r, k) by {
            let j = choose|j: int| 0 <= j < ps.len() && ps[j].pubkey@ == k;
            assert(r[j].pubkey@ == k);
        }
    } else {
        assert(r[ps.len() as int] == p);
        assert forall|k: Seq<char>| has_player(ps, k) implies has_player(r, k) by {
            let j = choose|j: int| 0 <= j < ps.len() && ps[j].pubkey@ == k;
            assert(r[j].pubkey@ == k);
        }
    }
}

proof fn lemma_touch_keys(ps: Seq<PlayerPresence>, key: Seq<char>, t: u64)
    requires
        unique_keys(ps),
    ensures
        unique_keys(touch(ps, key, t)),
        touch(ps, key, t).len() == ps.len(),
        forall|i: int| 0 <= i < ps.len() ==> #[trigger] touch(ps, key, t)[i].pubkey@ == ps[i].pubkey@,
{
}

proof fn lemma_with_ready_keys(ps: Seq<PlayerPresence>, key: Seq<char>, ready: bool)
    requires
        unique_keys(ps),
    ensures
        unique_keys(with_ready(ps, key, ready)),
        with_ready(ps, key, ready).len() == ps.len(),
        forall|i: int|
            0 <= i < ps.len() ==> #[trigger] with_ready(ps, key, ready)[i].pubkey@ == ps[i].pubkey@,
{
}

proof fn lemma_same_keys_has_player(ps: Seq<PlayerPresence>, qs: Seq<PlayerPresence>, k: Seq<char>)
    requires
        ps.len() == qs.len(),
        forall|i: int| 0 <= i < ps.len() ==> #[trigger] qs[i].pubkey@ == ps[i].pubkey@,
        has_player(ps, k),
    ensures
        has_player(qs, k),
{
    let j = choose|j: int| 0 <= j < ps.len() && ps[j].pubkey@ == k;
    assert(qs[j].pubkey@ == k);
}

/// Position of the player with this key, if any.
fn find_player(ps: &Vec<PlayerPresence>, key: &String) -> (r: Option<usize>)
    requires
        unique_keys(ps@),
    ensures
        r is None <==> !has_player(ps@, key@),
        r matches Some(i) ==> i < ps@.len() && i == player_index(ps@, key@),
{
    let mut i: usize = 0;
    while i < ps.len()
        invariant
            i <= ps@.len(),
            unique_keys(ps@),
            forall|j: int| 0 <= j < i ==> ps@[j].pubkey@ != key@,
        decreases ps@.len() - i,
    {
        if ps[i].pubkey == *key {
            proof {
                lemma_index_unique(ps@, i as int);
            }
            return Some(i);
        }
        i = i + 1;
    }
    None
}

fn copy_presence(p: &PlayerPresence) -> (r: PlayerPresence)
    ensures
        r == *p,
{
    PlayerPresence {
        pubkey: p.pubkey.clone(),
        joined_at: p.joined_at,
        last_seen: p.last_seen,
        ready: p.ready,
    }
}

fn copy_players(ps: &Vec<PlayerPresence>) -> (r: Vec<PlayerPresence>)
    ensures
        r@ == ps@,
{
    let mut r: Vec<PlayerPresence> = Vec::new();
    let mut i: usize = 0;
    while i < ps.len()
        invariant
            i <= ps@.len(),
            r@ == ps@.subrange(0, i as int),
        decreases ps@.len() - i,
    {
        r.push(copy_presence(&ps[i]));
        i = i + 1;
    }
    assert(r@ =~= ps@);
    r
}

fn upsert_player(ps: &mut Vec<PlayerPresence>, p: PlayerPresence)
    requires
        unique_keys(old(ps)@),
    ensures
        final(ps)@ == upsert(old(ps)@, p),
        unique_keys(final(ps)@),
{
    proof {
        lemma_upsert_unique(ps@, p);
    }
    match find_player(ps, &p.pubkey) {
        Some(i) => {
            ps.set(i, p);
        },
        None => {
            ps.push(p);
        },
    }
}

fn touch_player(ps: &mut Vec<PlayerPresence>, key: &String, t: u64)
    requires
        unique_keys(old(ps)@),
    ensures
        final(ps)@ == touch(old(ps)@, key@, t),
{
    match find_player(ps, key) {
        Some(i) => {
            let q = PlayerPresence {
                pubkey: ps[i].pubkey.clone(),
                joined_at: ps[i].joined_at,
                last_seen: if ps[i].last_seen < t {
                    t
                } else {
                    ps[i].last_seen
                },
                ready: ps[i].ready,
            };
            ps.set(i, q);
        },
        None => {},
    }
}

fn set_player_ready(ps: &mut Vec<PlayerPresence>, key: &String, ready: bool)
    requires
        unique_keys(old(ps)@),
    ensures
        final(ps)@ == with_ready(old(ps)@, key@, ready),
{
    match find_player(ps, key) {
        Some(i) => {
            let q = PlayerPresence {
                pubkey: ps[i].pubkey.clone(),
                joined_at: ps[i].joined_at,
                last_seen: ps[i].last_seen,
                ready,
            };
            ps.set(i, q);
        },
        None => {},
    }
}

fn clear_ready(ps: &mut Vec<PlayerPresence>)
    ensures
        final(ps)@ == unready(old(ps)@),
{
    let ghost start = ps@;
    let mut i: usize = 0;
    while i < ps.len()
        invariant
            i <= ps@.len(),
            ps@.len() == start.len(),
            forall|j: int| 0 <= j < i ==> ps@[j] == (PlayerPresence { ready: false, ..start[j] }),
            forall|j: int| i <= j < ps@.len() ==> ps@[j] == start[j],
        decreases ps@.len() - i,
    {
        let q = PlayerPresence {
            pubkey: ps[i].pubkey.clone(),
            joined_at: ps[i].joined_at,
            last_seen: ps[i].last_seen,
            ready: false,
        };
        ps.set(i, q);
        i = i + 1;
    }
    assert(ps@ =~= unready(start));
}

fn players_all_ready(ps: &Vec<PlayerPresence>) -> (r: bool)
    ensures
        r == all_ready(ps@),
{
    let mut i: usize = 0;
    while i < ps.len()
        invariant
            i <= ps@.len(),
            forall|j: int| 0 <= j < i ==> #[trigger] ps@[j].ready,
        decreases ps@.len() - i,
    {
        if !ps[i].ready {
            return false;
        }
        i = i + 1;
    }
    true
}

// ---------------------------------------------------------------------------
// The arena's state and its transitions
// ---------------------------------------------------------------------------

/// Statuses in which this instance takes part in a room.
pub open spec fn is_active(s: RoomStatus) -> bool {
    s != RoomStatus::Idle && s != RoomStatus::Deleted
}

impl<T> ArenaView<T> {
    /// The arena's invariant: one room at a time, an empty roster outside a room,
    /// unique keys, and this instance on its own roster while it takes part in a room.
    pub open spec fn inv(self) -> bool {
        &&& unique_keys(self.players)
        &&& unique_state_keys(self.states)
        &&& (self.room.room_id is None <==> self.room.status == RoomStatus::Idle)
        &&& self.room.status != RoomStatus::Deleted
        &&& (self.room.room_id is None ==> self.players.len() == 0 && self.states.len() == 0
            && self.countdown is None)
        &&& (is_active(self.room.status) ==> has_player(self.players, self.public_key@))
        &&& (self.countdown matches Some(k) ==> k > 0)
    }

    pub open spec fn in_room(self) -> bool {
        self.room.room_id is Some
    }

    pub open spec fn with_status(self, status: RoomStatus) -> ArenaView<T> {
        ArenaView { room: RoomState { status, ..self.room }, ..self }
    }

    pub open spec fn with_players(self, players: Seq<PlayerPresence>) -> ArenaView<T> {
        ArenaView { players, ..self }
    }
}

/// When a room created at `now` expires: never when the lifetime is 0,
/// else `now + room_expiry`, capped at `u64::MAX`.
pub open spec fn expiry(room_expiry: u64, now: u64) -> Option<u64> {
    if room_expiry > 0 {
        Some(
            if now + room_expiry > u64::MAX {
                u64::MAX
            } else {
                (now + room_expiry) as u64
            },
        )
    } else {
        None
    }
}

/// The room URL `"{base_url}/battle/{room_id}"`, with an empty base when none is configured.
pub open spec fn room_url(base_url: Option<String>, room_id: Seq<char>) -> Seq<char> {
    let base = match base_url {
        Some(b) => b@,
        None => Seq::<char>::empty(),
    };
    base + "/battle/"@ + room_id
}

/// Presence of a player first seen at `now`.
pub open spec fn fresh_presence(pubkey: String, now: u64) -> PlayerPresence {
    PlayerPresence { pubkey, joined_at: now, last_seen: now, ready: false }
}

/// The state right after `create`: the new room, with this instance alone on its
/// roster; nothing of a room the instance was in before is kept.
pub open spec fn created<T>(v: ArenaView<T>, room_id: String, seed: u64, now: u64) -> ArenaView<T> {
    ArenaView {
        room: RoomState {
            room_id: Some(room_id),
            status: RoomStatus::Creating,
            is_host: true,
            seed,
            created_at: Some(now),
            expires_at: expiry(v.config.room_expiry, now),
            ..v.room
        },
        players: seq![fresh_presence(v.public_key, now)],
        states: Seq::empty(),
        countdown: None,
        ..v
    }
}

/// The state after leaving the room.
pub open spec fn left<T>(v: ArenaView<T>) -> ArenaView<T> {
    ArenaView {
        room: RoomState { room_id: None, status: RoomStatus::Idle, is_host: false, ..v.room },
        players: Seq::empty(),
        states: Seq::empty(),
        countdown: None,
        ..v
    }
}

/// Whether a state sent at `now` falls within the throttle window of the last one.
pub open spec fn state_throttled<T>(v: ArenaView<T>, now: u64) -> bool {
    (now as int) - (v.last_state_update as int) < v.config.state_throttle as int
}

/// The state after `send_state` at `now`: only a published state is recorded.
pub open spec fn after_send_state<T>(v: ArenaView<T>, now: u64) -> ArenaView<T> {
    if !v.in_room() || state_throttled(v, now) {
        v
    } else {
        ArenaView { last_state_update: now, ..v }
    }
}

/// Whether `send_state` at `now` asks for a State event to be published.
pub open spec fn state_published<T>(v: ArenaView<T>, now: u64) -> bool {
    !state_throttled(v, now) && v.in_room()
}

impl<T: Clone> Arena<T> {
    /// An arena for this instance's public key, in no room.
    pub fn new(config: ArenaConfig, public_key: String) -> (r: Self)
        ensures
            r@.inv(),
            r@.config == config,
            r@.public_key == public_key,
            r@.room == (RoomState {
                room_id: None,
                status: RoomStatus::Idle,
                is_host: false,
                seed: 0,
                created_at: None,
                expires_at: None,
                rematch_requested: false,
            }),
            r@.players.len() == 0,
            r@.states.len() == 0,
            r@.last_state_update == 0,
            r@.countdown is None,
    {
        Arena {
            config,
            public_key,
            room_state: RoomState::default(),
            players: Vec::new(),
            player_states: Vec::new(),
            last_state_update: 0,
            countdown: None,
        }
    }

    pub fn config(&self) -> (r: &ArenaConfig)
        ensures
            *r == self@.config,
    {
        &self.config
    }

    pub fn public_key(&self) -> (r: String)
        ensures
            r == self@.public_key,
    {
        self.public_key.clone()
    }

    pub fn room_state(&self) -> (r: RoomState)
        ensures
            r == self@.room,
    {
        let room_id = match &self.room_state.room_id {
            Some(id) => Some(id.clone()),
            None => None,
        };
        RoomState {
            room_id,
            status: self.room_state.status,
            is_host: self.room_state.is_host,
            seed: self.room_state.seed,
            created_at: self.room_state.created_at,
            expires_at: self.room_state.expires_at,
            rematch_requested: self.room_state.rematch_requested,
        }
    }

    pub fn players(&self) -> (r: Vec<PlayerPresence>)
        ensures
            r@ == self@.players,
    {
        copy_players(&self.players)
    }

    pub fn player_count(&self) -> (r: usize)
        ensures
            r == self@.players.len(),
    {
        self.players.len()
    }

    /// Whether a countdown is running.
    pub fn countdown_active(&self) -> (r: bool)
        ensures
            r == self@.countdown is Some,
    {
        self.countdown.is_some()
    }

    /// The URL of the current room, if any.
    pub fn get_room_url(&self) -> (r: Option<String>)
        ensures
            r is None <==> !self@.in_room(),
            r matches Some(u) ==> u@ == room_url(self@.config.base_url, self@.room.room_id->Some_0@),
    {
        match &self.room_state.room_id {
            Some(id) => {
                let mut u = match &self.config.base_url {
                    Some(b) => b.clone(),
                    None => String::new(),
                };
                u.append("/battle/");
                u.append(id.as_str());
                Some(u)
            },
            None => None,
        }
    }

    /// Opens a new room hosted by this instance: records it as being created,
    /// with this instance on its roster, and returns the snapshot to publish.
    /// Once it is published, `room_published` marks the room as waiting.
    pub fn create(&mut self, room_id: String, seed: u64, now: u64) -> (r: RoomEventContent)
        requires
            old(self)@.inv(),
        ensures
            final(self)@ == created(old(self)@, room_id, seed, now),
            final(self)@.inv(),
            r.status == RoomStatus::Waiting,
            r.seed == seed,
            r.host_pubkey == old(self)@.public_key,
            r.max_players == old(self)@.config.max_players,
            r.expires_at == final(self)@.room.expires_at,
            r.players@ == final(self)@.players,
    {
        let expires_at = if self.config.room_expiry > 0 {
            Some(now.saturating_add(self.config.room_expiry))
        } else {
            None
        };
        self.room_state.room_id = Some(room_id);
        self.room_state.status = RoomStatus::Creating;
        self.room_state.is_host = true;
        self.room_state.seed = seed;
        self.room_state.created_at = Some(now);
        self.room_state.expires_at = expires_at;
        let me = PlayerPresence {
            pubkey: self.public_key.clone(),
            joined_at: now,
            last_seen: now,
            ready: false,
        };
        self.players.clear();
        self.players.push(me);
        self.player_states.clear();
        self.countdown = None;
        proof {
            assert(self.players@ =~= seq![fresh_presence(old(self)@.public_key, now)]);
            assert(self.players@[0].pubkey@ == self.public_key@);
        }
        RoomEventContent {
            status: RoomStatus::Waiting,
            seed,
            host_pubkey: self.public_key.clone(),
            max_players: self.config.max_players,
            expires_at,
            players: copy_players(&self.players),
        }
    }

    /// The snapshot of a new room was published: the room now waits for players.
    pub fn room_published(&mut self)
        requires
            old(self)@.inv(),
        ensures
            final(self)@.inv(),
            final(self)@ == (if old(self)@.room.status == RoomStatus::Creating {
                old(self)@.with_status(RoomStatus::Waiting)
            } else {
                old(self)@
            }),
    {
        if self.room_state.status == RoomStatus::Creating {
            self.room_state.status = RoomStatus::Waiting;
        }
    }

    /// Leaves the room: no room, status Idle, an empty roster and no game states.
    /// Nothing is published; peers notice the departure when heartbeats stop.
    pub fn leave(&mut self) -> (r: Result<(), ArenaError>)
        requires
            old(self)@.inv(),
        ensures
            r is Ok,
            final(self)@ == left(old(self)@),
            final(self)@.inv(),
    {
        self.room_state.room_id = None;
        self.room_state.status = RoomStatus::Idle;
        self.room_state.is_host = false;
        self.players.clear();
        self.player_states.clear();
        self.countdown = None;
        Ok(())
    }

    /// The snapshot that marks the room deleted; only the host may delete it.
    /// Once it is published, the caller leaves the room.
    pub fn delete_room(&self) -> (r: Result<RoomEventContent, ArenaError>)
        ensures
            !self@.room.is_host ==> (r matches Err(ArenaError::NotAuthorized(m))
                && m@ == "Only host can delete room"@),
            self@.room.is_host && !self@.in_room() ==> r == Err::<RoomEventContent, ArenaError>(
                ArenaError::NotInRoom,
            ),
            self@.room.is_host && self@.in_room() ==> (r matches Ok(c) && c.status
                == RoomStatus::Deleted && c.seed == self@.room.seed && c.host_pubkey
                == self@.public_key && c.max_players == self@.config.max_players && c.expires_at
                == self@.room.expires_at && c.players@.len() == 0),
    {
        if !self.room_state.is_host {
            return Err(ArenaError::NotAuthorized(String::from_str("Only host can delete room")));
        }
        if self.room_state.room_id.is_none() {
            return Err(ArenaError::NotInRoom);
        }
        Ok(RoomEventContent {
            status: RoomStatus::Deleted,
            seed: self.room_state.seed,
            host_pubkey: self.public_key.clone(),
            max_players: self.config.max_players,
            expires_at: self.room_state.expires_at,
            players: Vec::new(),
        })
    }

    /// Decides whether a game state sent at `now` is published. Outside a room
    /// it fails `NotInRoom`; within `state_throttle` ms of the last published
    /// state it returns `Ok(false)`; in both cases nothing changes. Otherwise the
    /// send time is recorded and `Ok(true)` asks the caller to publish.
    pub fn send_state(&mut self, now: u64) -> (r: Result<bool, ArenaError>)
        requires
            old(self)@.inv(),
        ensures
            final(self)@ == after_send_state(old(self)@, now),
            final(self)@.inv(),
            !old(self)@.in_room() ==> r == Err::<bool, ArenaError>(ArenaError::NotInRoom)
                && final(self)@ == old(self)@,
            old(self)@.in_room() && state_throttled(old(self)@, now) ==> r == Ok::<
                bool,
                ArenaError,
            >(false) && final(self)@ == old(self)@,
            old(self)@.in_room() && !state_throttled(old(self)@, now) ==> r == Ok::<
                bool,
                ArenaError,
            >(true) && final(self)@.last_state_update == now,
    {
        if self.room_state.room_id.is_none() {
            return Err(ArenaError::NotInRoom);
        }
        if (now as i128) - (self.last_state_update as i128) < self.config.state_throttle as i128 {
            return Ok(false);
        }
        self.last_state_update = now;
        Ok(true)
    }

    /// Ends the game on this side: the status becomes Finished and the GameOver
    /// event to publish is returned; `NotInRoom` outside a room.
    pub fn send_game_over(&mut self, reason: String, final_score: Option<i64>) -> (r: Result<
        EventContent,
        ArenaError,
    >)
        requires
            old(self)@.inv(),
        ensures
            final(self)@.inv(),
            !old(self)@.in_room() ==> r == Err::<EventContent, ArenaError>(ArenaError::NotInRoom)
                && final(self)@ == old(self)@,
            old(self)@.in_room() ==> final(self)@ == old(self)@.with_status(RoomStatus::Finished)
                && r == Ok::<EventContent, ArenaError>(
                EventContent::GameOver(GameOverEventContent { reason, final_score, winner: None }),
            ),
    {
        if self.room_state.room_id.is_none() {
            return Err(ArenaError::NotInRoom);
        }
        self.room_state.status = RoomStatus::Finished;
        Ok(EventContent::GameOver(GameOverEventContent { reason, final_score, winner: None }))
    }

    /// Asks for a rematch once the game is finished (otherwise does nothing):
    /// marks the request and returns the Rematch request to publish.
    pub fn request_rematch(&mut self) -> (r: Result<Option<EventContent>, ArenaError>)
        requires
            old(self)@.inv(),
        ensures
            final(self)@.inv(),
            old(self)@.room.status != RoomStatus::Finished ==> r == Ok::<
                Option<EventContent>,
                ArenaError,
            >(None) && final(self)@ == old(self)@,
            old(self)@.room.status == RoomStatus::Finished ==> final(self)@ == (ArenaView {
                room: RoomState { rematch_requested: true, ..old(self)@.room },
                ..old(self)@
            }) && r == Ok::<Option<EventContent>, ArenaError>(
                Some(
                    EventContent::Rematch(
                        RematchEventContent { action: RematchAction::Request, new_seed: None },
                    ),
                ),
            ),
    {
        if self.room_state.status != RoomStatus::Finished {
            return Ok(None);
        }
        if self.room_state.room_id.is_none() {
            return Err(ArenaError::NotInRoom);
        }
        self.room_state.rematch_requested = true;
        Ok(
            Some(
                EventContent::Rematch(
                    RematchEventContent { action: RematchAction::Request, new_seed: None },
                ),
            ),
        )
    }

    /// Starts the game by hand; only the host may. The status becomes Playing, a
    /// GameStart event is returned to publish, and GameStart is reported locally.
    pub fn start_game(&mut self) -> (r: Result<(EventContent, Vec<ArenaEvent<T>>), ArenaError>)
        requires
            old(self)@.inv(),
        ensures
            final(self)@.inv(),
            !old(self)@.room.is_host ==> (r matches Err(ArenaError::NotAuthorized(m))
                && m@ == "Only host can start game"@) && final(self)@ == old(self)@,
            old(self)@.room.is_host && !old(self)@.in_room() ==> (r matches Err(
                ArenaError::NotInRoom,
            )) && final(self)@ == old(self)@,
            old(self)@.room.is_host && old(self)@.in_room() ==> (r matches Ok((c, ev)) && (
            c matches EventContent::GameStart(_)) && ev@ == seq![ArenaEvent::<T>::GameStart])
                && final(self)@ == old(self)@.with_status(RoomStatus::Playing),
    {
        if !self.room_state.is_host {
            return Err(ArenaError::NotAuthorized(String::from_str("Only host can start game")));
        }
        if self.room_state.room_id.is_none() {
            return Err(ArenaError::NotInRoom);
        }
        self.room_state.status = RoomStatus::Playing;
        let mut ev: Vec<ArenaEvent<T>> = Vec::new();
        ev.push(ArenaEvent::GameStart);
        assert(ev@ =~= seq![ArenaEvent::<T>::GameStart]);
        Ok((EventContent::GameStart(GameStartEventContent {  }), ev))
    }

    /// The heartbeat to publish at `now`, while in a room.
    pub fn heartbeat(&self, now: u64) -> (r: Option<EventContent>)
        ensures
            r is None <==> !self@.in_room(),
            r matches Some(c) ==> (c matches EventContent::Heartbeat(h) && h.timestamp == now),
    {
        if self.room_state.room_id.is_some() {
            Some(EventContent::Heartbeat(HeartbeatEventContent { timestamp: now }))
        } else {
            None
        }
    }

    fn run_auto_start(&mut self) -> (r: Vec<ArenaEvent<T>>)
        requires
            old(self)@.inv(),
        ensures
            final(self)@.inv(),
            (final(self)@, r@) == auto_start(old(self)@),
    {
        let mut ev: Vec<ArenaEvent<T>> = Vec::new();
        if self.room_state.room_id.is_some() && self.config.start_mode == StartMode::Auto
            && self.players.len() >= self.config.max_players && self.room_state.status
            != RoomStatus::Playing {
            self.room_state.status = RoomStatus::Playing;
            ev.push(ArenaEvent::GameStart);
        }
        assert(ev@ =~= auto_start(old(self)@).1);
        ev
    }

    fn run_ready_start(&mut self) -> (r: Vec<ArenaEvent<T>>)
        requires
            old(self)@.inv(),
        ensures
            final(self)@.inv(),
            (final(self)@, r@) == ready_start(old(self)@),
    {
        let mut ev: Vec<ArenaEvent<T>> = Vec::new();
        let mode = self.config.start_mode;
        if self.room_state.room_id.is_none() || !(mode == StartMode::Ready || mode
            == StartMode::Countdown) || self.room_state.status == RoomStatus::Playing
            || self.countdown.is_some() || !players_all_ready(&self.players) {
            assert(ev@ =~= ready_start(old(self)@).1);
            return ev;
        }
        ev.push(ArenaEvent::AllReady);
        if mode == StartMode::Ready {
            self.room_state.status = RoomStatus::Playing;
            ev.push(ArenaEvent::GameStart);
        } else {
            let n = self.config.countdown_seconds;
            ev.push(ArenaEvent::CountdownStart(n));
            if n == 0 {
                self.room_state.status = RoomStatus::Playing;
                ev.push(ArenaEvent::GameStart);
            } else {
                self.countdown = Some(n);
            }
        }
        assert(ev@ =~= ready_start(old(self)@).1);
        ev
    }

    fn reset_for_rematch(&mut self, new_seed: u64) -> (r: Vec<ArenaEvent<T>>)
        requires
            old(self)@.inv(),
            old(self)@.in_room(),
        ensures
            final(self)@.inv(),
            final(self)@ == rematch_reset(old(self)@, new_seed),
            r@ == seq![ArenaEvent::<T>::RematchStart(new_seed)],
    {
        self.room_state.seed = new_seed;
        self.room_state.status = RoomStatus::Ready;
        self.room_state.rematch_requested = false;
        clear_ready(&mut self.players);
        self.player_states.clear();
        self.countdown = None;
        proof {
            let v = old(self)@;
            let ps = unready(v.players);
            assert forall|i: int| 0 <= i < ps.len() implies #[trigger] ps[i].pubkey@
                == v.players[i].pubkey@ by {}
            lemma_same_keys_has_player(v.players, ps, v.public_key@);
        }
        let mut ev: Vec<ArenaEvent<T>> = Vec::new();
        ev.push(ArenaEvent::RematchStart(new_seed));
        assert(ev@ =~= seq![ArenaEvent::<T>::RematchStart(new_seed)]);
        ev
    }

    /// Takes part in the room `room_id`, given its snapshot as fetched from the
    /// relays: `None` when no snapshot was found, `Err` with the decoder's message
    /// when it could not be read. Fails `RoomNotFound`, `InvalidRoomData`,
    /// `RoomDeleted`, `RoomExpired` (expiry before `now`) or `RoomFull` (as many
    /// players as places), in that order, changing nothing. Otherwise the room is
    /// recorded as being joined, its players and this instance are put on the
    /// roster, and the Join event to publish is returned. Once it is published,
    /// `join_published` completes the join.
    pub fn join(
        &mut self,
        room_id: &str,
        fetched: Option<Result<RoomEventContent, String>>,
        created_at_secs: u64,
        now: u64,
    ) -> (r: Result<EventContent, ArenaError>)
        requires
            old(self)@.inv(),
        ensures
            final(self)@.inv(),
            join_outcome(old(self)@, final(self)@, room_id@, fetched, created_at_secs, now, r),
    {
        let c = match fetched {
            None => {
                return Err(ArenaError::RoomNotFound);
            },
            Some(Err(msg)) => {
                return Err(ArenaError::InvalidRoomData(msg));
            },
            Some(Ok(c)) => c,
        };
        if c.status == RoomStatus::Deleted {
            return Err(ArenaError::RoomDeleted);
        }
        match c.expires_at {
            Some(e) => {
                if now > e {
                    return Err(ArenaError::RoomExpired);
                }
            },
            None => {},
        }
        if c.players.len() >= c.max_players {
            return Err(ArenaError::RoomFull);
        }
        let ghost v = self@;
        self.room_state.room_id = Some(String::from_str(room_id));
        self.room_state.status = RoomStatus::Joining;
        self.room_state.is_host = false;
        self.room_state.seed = c.seed;
        let created_at = if created_at_secs > u64::MAX / 1000 {
            u64::MAX
        } else {
            created_at_secs * 1000
        };
        self.room_state.created_at = Some(created_at);
        self.room_state.expires_at = c.expires_at;
        self.players.clear();
        self.player_states.clear();
        self.countdown = None;
        let ghost before = self@;
        let mut i: usize = 0;
        assert(upsert_all(Seq::<PlayerPresence>::empty(), c.players@.subrange(0, 0)) =~= self.players@);
        while i < c.players.len()
            invariant
                i <= c.players@.len(),
                self@ == before.with_players(self.players@),
                unique_keys(self.players@),
                self.players@ == upsert_all(Seq::empty(), c.players@.subrange(0, i as int)),
            decreases c.players@.len() - i,
        {
            let p = copy_presence(&c.players[i]);
            proof {
                let qs = c.players@.subrange(0, i as int + 1);
                assert(qs.drop_last() =~= c.players@.subrange(0, i as int));
                lemma_upsert_unique(self.players@, p);
            }
            upsert_player(&mut self.players, p);
            i = i + 1;
        }
        assert(c.players@.subrange(0, c.players@.len() as int) =~= c.players@);
        let me = PlayerPresence {
            pubkey: self.public_key.clone(),
            joined_at: now,
            last_seen: now,
            ready: false,
        };
        proof {
            lemma_upsert_unique(self.players@, me);
        }
        upsert_player(&mut self.players, me);
        Ok(EventContent::Join(JoinEventContent { player_pubkey: self.public_key.clone() }))
    }

    /// The Join event was published: the room is joined (status Ready), and in
    /// Auto mode a full room starts the game.
    pub fn join_published(&mut self) -> (r: Vec<ArenaEvent<T>>)
        requires
            old(self)@.inv(),
        ensures
            final(self)@.inv(),
            (final(self)@, r@) == auto_start(
                if old(self)@.room.status == RoomStatus::Joining {
                    old(self)@.with_status(RoomStatus::Ready)
                } else {
                    old(self)@
                },
            ),
    {
        if self.room_state.status == RoomStatus::Joining {
            self.room_state.status = RoomStatus::Ready;
        }
        self.run_auto_start()
    }

    /// Leaves the current room, then joins `room_id` as `join` does.
    pub fn reconnect(
        &mut self,
        room_id: &str,
        fetched: Option<Result<RoomEventContent, String>>,
        created_at_secs: u64,
        now: u64,
    ) -> (r: Result<EventContent, ArenaError>)
        requires
            old(self)@.inv(),
        ensures
            final(self)@.inv(),
            join_outcome(left(old(self)@), final(self)@, room_id@, fetched, created_at_secs, now, r),
    {
        let _ = self.leave();
        self.join(room_id, fetched, created_at_secs, now)
    }

    /// Accepts a rematch with `new_seed`: the seed is replaced, the status is
    /// Ready again, every ready flag is cleared and game states are dropped; the
    /// Rematch acceptance to publish and a RematchStart event are returned.
    pub fn accept_rematch(&mut self, new_seed: u64) -> (r: Result<
        (EventContent, Vec<ArenaEvent<T>>),
        ArenaError,
    >)
        requires
            old(self)@.inv(),
        ensures
            final(self)@.inv(),
            !old(self)@.in_room() ==> (r matches Err(ArenaError::NotInRoom)) && final(self)@
                == old(self)@,
            old(self)@.in_room() ==> final(self)@ == rematch_reset(old(self)@, new_seed) && (
            r matches Ok((c, ev)) && c == EventContent::Rematch(
                RematchEventContent { action: RematchAction::Accept, new_seed: Some(new_seed) },
            ) && ev@ == seq![ArenaEvent::<T>::RematchStart(new_seed)]),
    {
        if self.room_state.room_id.is_none() {
            return Err(ArenaError::NotInRoom);
        }
        let ev = self.reset_for_rematch(new_seed);
        Ok(
            (
                EventContent::Rematch(
                    RematchEventContent { action: RematchAction::Accept, new_seed: Some(new_seed) },
                ),
                ev,
            ),
        )
    }

    /// Signals this instance ready or not: its ready flag is set, the Ready event
    /// to publish is returned, and the start sequence runs if every player is ready.
    pub fn send_ready(&mut self, ready: bool) -> (r: Result<
        (EventContent, Vec<ArenaEvent<T>>),
        ArenaError,
    >)
        requires
            old(self)@.inv(),
        ensures
            final(self)@.inv(),
            !old(self)@.in_room() ==> (r matches Err(ArenaError::NotInRoom)) && final(self)@
                == old(self)@,
            old(self)@.in_room() ==> (r matches Ok((c, ev)) && c == EventContent::Ready(
                ReadyEventContent { ready },
            ) && (final(self)@, ev@) == ready_start(
                old(self)@.with_players(with_ready(old(self)@.players, old(self)@.public_key@, ready)),
            )),
    {
        if self.room_state.room_id.is_none() {
            return Err(ArenaError::NotInRoom);
        }
        proof {
            let v = old(self)@;
            lemma_with_ready_keys(v.players, v.public_key@, ready);
            lemma_same_keys_has_player(
                v.players,
                with_ready(v.players, v.public_key@, ready),
                v.public_key@,
            );
        }
        set_player_ready(&mut self.players, &self.public_key, ready);
        let ev = self.run_ready_start();
        Ok((EventContent::Ready(ReadyEventContent { ready }), ev))
    }

    /// One second of a running countdown has passed: reports the seconds left;
    /// when none are left the game starts.
    pub fn countdown_tick(&mut self) -> (r: Vec<ArenaEvent<T>>)
        requires
            old(self)@.inv(),
        ensures
            final(self)@.inv(),
            (final(self)@, r@) == countdown_step(old(self)@),
    {
        let mut ev: Vec<ArenaEvent<T>> = Vec::new();
        if self.room_state.room_id.is_none() {
            assert(ev@ =~= countdown_step(old(self)@).1);
            return ev;
        }
        match self.countdown {
            Some(k) => {
                if k <= 1 {
                    self.countdown = None;
                    self.room_state.status = RoomStatus::Playing;
                    ev.push(ArenaEvent::CountdownTick(0));
                    ev.push(ArenaEvent::GameStart);
                } else {
                    self.countdown = Some(k - 1);
                    ev.push(ArenaEvent::CountdownTick(k - 1));
                }
            },
            None => {},
        }
        assert(ev@ =~= countdown_step(old(self)@).1);
        ev
    }
}

/// Whether the room should start now in Auto mode: it is full and not yet playing.
pub open spec fn auto_start_due<T>(v: ArenaView<T>) -> bool {
    &&& v.in_room()
    &&& v.config.start_mode == StartMode::Auto
    &&& v.players.len() >= v.config.max_players
    &&& v.room.status != RoomStatus::Playing
}

/// The Auto-mode start: status Playing and one GameStart, when due.
pub open spec fn auto_start<T>(v: ArenaView<T>) -> (ArenaView<T>, Seq<ArenaEvent<T>>) {
    if auto_start_due(v) {
        (v.with_status(RoomStatus::Playing), seq![ArenaEvent::GameStart])
    } else {
        (v, Seq::empty())
    }
}

/// Whether the ready-driven start sequence should run now: Ready or Countdown
/// mode, every player ready, not yet playing and no countdown running.
pub open spec fn ready_start_due<T>(v: ArenaView<T>) -> bool {
    &&& v.in_room()
    &&& (v.config.start_mode == StartMode::Ready || v.config.start_mode == StartMode::Countdown)
    &&& all_ready(v.players)
    &&& v.room.status != RoomStatus::Playing
    &&& v.countdown is None
}

/// The ready-driven start sequence. Ready mode: AllReady, GameStart and status
/// Playing. Countdown mode: AllReady, CountdownStart(N), and the countdown runs
/// (for N = 0 the game starts at once).
pub open spec fn ready_start<T>(v: ArenaView<T>) -> (ArenaView<T>, Seq<ArenaEvent<T>>) {
    let n = v.config.countdown_seconds;
    if !ready_start_due(v) {
        (v, Seq::empty())
    } else if v.config.start_mode == StartMode::Ready {
        (v.with_status(RoomStatus::Playing), seq![ArenaEvent::AllReady, ArenaEvent::GameStart])
    } else if n == 0 {
        (
            v.with_status(RoomStatus::Playing),
            seq![ArenaEvent::AllReady, ArenaEvent::CountdownStart(0), ArenaEvent::GameStart],
        )
    } else {
        (
            ArenaView { countdown: Some(n), ..v },
            seq![ArenaEvent::AllReady, ArenaEvent::CountdownStart(n)],
        )
    }
}

/// One second of the countdown: with k seconds left, CountdownTick(k - 1);
/// the last tick also starts the game.
pub open spec fn countdown_step<T>(v: ArenaView<T>) -> (ArenaView<T>, Seq<ArenaEvent<T>>) {
    if v.in_room() && v.countdown is Some {
        let k = v.countdown->Some_0;
        if k <= 1 {
            (
                ArenaView { countdown: None, ..v.with_status(RoomStatus::Playing) },
                seq![ArenaEvent::CountdownTick(0), ArenaEvent::GameStart],
            )
        } else {
            (
                ArenaView { countdown: Some((k - 1) as u32), ..v },
                seq![ArenaEvent::CountdownTick((k - 1) as u32)],
            )
        }
    } else {
        (v, Seq::empty())
    }
}

/// The state after a rematch is accepted with `seed`.
pub open spec fn rematch_reset<T>(v: ArenaView<T>, seed: u64) -> ArenaView<T> {
    ArenaView {
        room: RoomState {
            seed,
            status: RoomStatus::Ready,
            rematch_requested: false,
            ..v.room
        },
        players: unready(v.players),
        states: Seq::empty(),
        countdown: None,
        ..v
    }
}

/// Why joining with this fetched snapshot fails at `now`, if it does.
pub open spec fn join_error(fetched: Option<Result<RoomEventContent, String>>, now: u64) -> Option<
    ArenaError,
> {
    match fetched {
        None => Some(ArenaError::RoomNotFound),
        Some(Err(msg)) => Some(ArenaError::InvalidRoomData(msg)),
        Some(Ok(c)) => if c.status == RoomStatus::Deleted {
            Some(ArenaError::RoomDeleted)
        } else if c.expires_at matches Some(e) && now > e {
            Some(ArenaError::RoomExpired)
        } else if c.players@.len() >= c.max_players {
            Some(ArenaError::RoomFull)
        } else {
            None
        },
    }
}

/// Milliseconds in `secs` seconds, capped at `u64::MAX`.
pub open spec fn secs_to_millis(secs: u64) -> u64 {
    if secs * 1000 > u64::MAX {
        u64::MAX
    } else {
        (secs * 1000) as u64
    }
}

/// The state right after joining the room `room_id` (recorded as `id`) from snapshot `c`:
/// the roster holds the snapshot's players and this instance, and nothing of a
/// room the instance was in before is kept.
pub open spec fn joined<T>(
    v: ArenaView<T>,
    id: String,
    c: RoomEventContent,
    created_at_secs: u64,
    now: u64,
) -> ArenaView<T> {
    ArenaView {
        room: RoomState {
            room_id: Some(id),
            status: RoomStatus::Joining,
            is_host: false,
            seed: c.seed,
            created_at: Some(secs_to_millis(created_at_secs)),
            expires_at: c.expires_at,
            ..v.room
        },
        players: upsert(upsert_all(Seq::empty(), c.players@), fresh_presence(v.public_key, now)),
        states: Seq::empty(),
        countdown: None,
        ..v
    }
}

/// What `join` does from state `v` to state `w` with result `r`.
pub open spec fn join_outcome<T>(
    v: ArenaView<T>,
    w: ArenaView<T>,
    room_id: Seq<char>,
    fetched: Option<Result<RoomEventContent, String>>,
    created_at_secs: u64,
    now: u64,
    r: Result<EventContent, ArenaError>,
) -> bool {
    match join_error(fetched, now) {
        Some(e) => r == Err::<EventContent, ArenaError>(e) && w == v,
        None => {
            &&& w.room.room_id matches Some(id) && id@ == room_id
            &&& w == joined(v, w.room.room_id->Some_0, fetched->Some_0->Ok_0, created_at_secs, now)
            &&& r matches Ok(EventContent::Join(j)) && j.player_pubkey == v.public_key
        },
    }
}

// ---------------------------------------------------------------------------
// Inbound events, game states and presence reconciliation
// ---------------------------------------------------------------------------

/// Whether an inbound event from `author` is ignored: outside a room, or an
/// echo of this instance's own event.
pub open spec fn ignored<T>(v: ArenaView<T>, author: Seq<char>) -> bool {
    !v.in_room() || author == v.public_key@
}

/// The effect of an event from `author` received at `now`.
pub open spec fn inbound<T>(v: ArenaView<T>, author: String, content: EventContent, now: u64) -> (
    ArenaView<T>,
    Seq<ArenaEvent<T>>,
) {
    if ignored(v, author@) {
        (v, Seq::empty())
    } else {
        match content {
            EventContent::Join(j) => {
                let p = fresh_presence(j.player_pubkey, now);
                let (w, e) = auto_start(v.with_players(upsert(v.players, p)));
                (w, seq![ArenaEvent::PlayerJoin(p)] + e)
            },
            EventContent::State(_) => (v.with_players(touch(v.players, author@, now)), Seq::empty()),
            EventContent::Heartbeat(h) => (
                v.with_players(touch(v.players, author@, h.timestamp)),
                Seq::empty(),
            ),
            EventContent::GameOver(g) => (
                v.with_status(RoomStatus::Finished),
                seq![
                    ArenaEvent::PlayerGameOver {
                        pubkey: author,
                        reason: g.reason,
                        final_score: g.final_score,
                    },
                ],
            ),
            EventContent::Rematch(m) => match m.action {
                RematchAction::Request => (v, seq![ArenaEvent::RematchRequested(author)]),
                RematchAction::Accept => match m.new_seed {
                    Some(seed) => (rematch_reset(v, seed), seq![ArenaEvent::RematchStart(seed)]),
                    None => (v, Seq::empty()),
                },
            },
            EventContent::Ready(r) => ready_start(
                v.with_players(with_ready(v.players, author@, r.ready)),
            ),
            EventContent::GameStart(_) => if v.config.start_mode == StartMode::Host
                && v.room.status != RoomStatus::Playing {
                (v.with_status(RoomStatus::Playing), seq![ArenaEvent::GameStart])
            } else {
                (v, Seq::empty())
            },
            EventContent::Room(_) => (v, Seq::empty()),
        }
    }
}

pub open spec fn has_state<T>(ss: Seq<(String, T)>, key: Seq<char>) -> bool {
    exists|i: int| 0 <= i < ss.len() && ss[i].0@ == key
}

/// The position of the game state stored under this key (meaningful when `has_state`).
pub open spec fn state_index<T>(ss: Seq<(String, T)>, key: Seq<char>) -> int {
    choose|i: int| 0 <= i < ss.len() && ss[i].0@ == key
}

/// The stored game states with `e` recorded: it replaces the entry with the
/// same key, or is appended.
pub open spec fn state_upsert<T>(ss: Seq<(String, T)>, e: (String, T)) -> Seq<(String, T)> {
    if has_state(ss, e.0@) {
        ss.update(state_index(ss, e.0@), e)
    } else {
        ss.push(e)
    }
}

/// A player other than `me` not heard from for more than `threshold` ms at `now`.
pub open spec fn is_stale(p: PlayerPresence, me: Seq<char>, now: u64, threshold: u64) -> bool {
    p.pubkey@ != me && (now as int) - (p.last_seen as int) > threshold as int
}

/// The players that survive a presence sweep, in roster order.
pub open spec fn survivors(ps: Seq<PlayerPresence>, me: Seq<char>, now: u64, threshold: u64) -> Seq<
    PlayerPresence,
>
    decreases ps.len(),
{
    if ps.len() == 0 {
        ps
    } else {
        let rest = survivors(ps.drop_last(), me, now, threshold);
        if is_stale(ps.last(), me, now, threshold) {
            rest
        } else {
            rest.push(ps.last())
        }
    }
}

/// One PlayerLeave per player dropped by a presence sweep, in roster order.
pub open spec fn departures<T>(ps: Seq<PlayerPresence>, me: Seq<char>, now: u64, threshold: u64) -> Seq<
    ArenaEvent<T>,
>
    decreases ps.len(),
{
    if ps.len() == 0 {
        Seq::empty()
    } else {
        let rest = departures(ps.drop_last(), me, now, threshold);
        if is_stale(ps.last(), me, now, threshold) {
            rest.push(ArenaEvent::PlayerLeave(ps.last().pubkey))
        } else {
            rest
        }
    }
}

pub(crate) proof fn lemma_survivors(ps: Seq<PlayerPresence>, me: Seq<char>, now: u64, threshold: u64)
    requires
        unique_keys(ps),
    ensures
        unique_keys(survivors(ps, me, now, threshold)),
        forall|j: int|
            0 <= j < survivors(ps, me, now, threshold).len() ==> !is_stale(
                #[trigger] survivors(ps, me, now, threshold)[j],
                me,
                now,
                threshold,
            ) && ps.contains(survivors(ps, me, now, threshold)[j]),
        forall|i: int|
            0 <= i < ps.len() && !is_stale(ps[i], me, now, threshold) ==> has_player(
                survivors(ps, me, now, threshold),
                #[trigger] ps[i].pubkey@,
            ),
    decreases ps.len(),
{
    if ps.len() > 0 {
        let init = ps.drop_last();
        assert(unique_keys(init));
        lemma_survivors(init, me, now, threshold);
        let rest = survivors(init, me, now, threshold);
        let s = survivors(ps, me, now, threshold);
        assert forall|j: int| 0 <= j < rest.len() implies ps.contains(#[trigger] rest[j]) by {
            let k = choose|k: int| 0 <= k < init.len() && init[k] == rest[j];
            assert(ps[k] == init[k]);
        }
        if !is_stale(ps.last(), me, now, threshold) {
            assert forall|j: int| 0 <= j < rest.len() implies rest[j].pubkey@ != ps.last().pubkey@ by {
                let k = choose|k: int| 0 <= k < init.len() && init[k] == rest[j];
                assert(ps[k] == init[k]);
            }
            assert(s[rest.len() as int] == ps.last());
            assert(ps[ps.len() - 1] == ps.last());
        }
        assert forall|i: int| 0 <= i < ps.len() && !is_stale(ps[i], me, now, threshold) implies has_player(
            s,
            #[trigger] ps[i].pubkey@,
        ) by {
            if i < ps.len() - 1 {
                assert(ps[i] == init[i]);
                let k = choose|k: int| 0 <= k < rest.len() && rest[k].pubkey@ == init[i].pubkey@;
                assert(s[k] == rest[k]);
            } else {
                assert(s[rest.len() as int] == ps.last());
            }
        }
    }
}

impl<T: Clone> Arena<T> {
    /// Applies an event received from `author` at `now` (all but a decoded game
    /// state, see `handle_state`). Events outside a room and echoes of this
    /// instance's own events are ignored.
    pub fn handle_event(&mut self, author: &String, content: EventContent, now: u64) -> (r: Vec<
        ArenaEvent<T>,
    >)
        requires
            old(self)@.inv(),
        ensures
            final(self)@.inv(),
            (final(self)@, r@) == inbound(old(self)@, *author, content, now),
    {
        let ghost v = self@;
        if self.room_state.room_id.is_none() || *author == self.public_key {
            return Vec::new();
        }
        match content {
            EventContent::Join(j) => {
                let p = PlayerPresence {
                    pubkey: j.player_pubkey,
                    joined_at: now,
                    last_seen: now,
                    ready: false,
                };
                let mut ev: Vec<ArenaEvent<T>> = Vec::new();
                ev.push(ArenaEvent::PlayerJoin(copy_presence(&p)));
                proof {
                    lemma_upsert_unique(self.players@, p);
                }
                upsert_player(&mut self.players, p);
                let mut more = self.run_auto_start();
                ev.append(&mut more);
                ev
            },
            EventContent::State(_) => {
                proof {
                    lemma_touch_keys(v.players, author@, now);
                    lemma_same_keys_has_player(v.players, touch(v.players, author@, now), v.public_key@);
                }
                touch_player(&mut self.players, author, now);
                Vec::new()
            },
            EventContent::Heartbeat(h) => {
                proof {
                    lemma_touch_keys(v.players, author@, h.timestamp);
                    lemma_same_keys_has_player(
                        v.players,
                        touch(v.players, author@, h.timestamp),
                        v.public_key@,
                    );
                }
                touch_player(&mut self.players, author, h.timestamp);
                Vec::new()
            },
            EventContent::GameOver(g) => {
                self.room_state.status = RoomStatus::Finished;
                let mut ev: Vec<ArenaEvent<T>> = Vec::new();
                ev.push(
                    ArenaEvent::PlayerGameOver {
                        pubkey: author.clone(),
                        reason: g.reason,
                        final_score: g.final_score,
                    },
                );
                ev
            },
            EventContent::Rematch(m) => match m.action {
                RematchAction::Request => {
                    let mut ev: Vec<ArenaEvent<T>> = Vec::new();
                    ev.push(ArenaEvent::RematchRequested(author.clone()));
                    ev
                },
                RematchAction::Accept => match m.new_seed {
                    Some(seed) => self.reset_for_rematch(seed),
                    None => Vec::new(),
                },
            },
            EventContent::Ready(r) => {
                proof {
                    lemma_with_ready_keys(v.players, author@, r.ready);
                    lemma_same_keys_has_player(
                        v.players,
                        with_ready(v.players, author@, r.ready),
                        v.public_key@,
                    );
                }
                set_player_ready(&mut self.players, author, r.ready);
                self.run_ready_start()
            },
            EventContent::GameStart(_) => {
                let mut ev: Vec<ArenaEvent<T>> = Vec::new();
                if self.config.start_mode == StartMode::Host && self.room_state.status
                    != RoomStatus::Playing {
                    self.room_state.status = RoomStatus::Playing;
                    ev.push(ArenaEvent::GameStart);
                }
                ev
            },
            EventContent::Room(_) => Vec::new(),
        }
    }

    /// Applies a game state received from `author` at `now`, decoded by the
    /// caller (`None` when it could not be decoded): the author's last-seen time
    /// is brought forward, and a decoded state is stored under the author's key
    /// and reported. Ignored outside a room and for this instance's own states.
    pub fn handle_state(&mut self, author: &String, state: Option<T>, now: u64) -> (r: Vec<
        ArenaEvent<T>,
    >)
        requires
            old(self)@.inv(),
        ensures
            final(self)@.inv(),
            ignored(old(self)@, author@) ==> final(self)@ == old(self)@ && r@.len() == 0,
            !ignored(old(self)@, author@) ==> final(self)@ == (ArenaView {
                players: touch(old(self)@.players, author@, now),
                states: final(self)@.states,
                ..old(self)@
            }),
            !ignored(old(self)@, author@) && state is None ==> final(self)@.states == old(
                self,
            )@.states && r@.len() == 0,
            !ignored(old(self)@, author@) && state is Some ==> r@ == seq![
                ArenaEvent::PlayerState { pubkey: *author, state: state->Some_0 },
            ] && (exists|stored: T|
                #[trigger] cloned(state->Some_0, stored) && final(self)@.states == state_upsert(
                    old(self)@.states,
                    (*author, stored),
                )),
    {
        let ghost v = self@;
        if self.room_state.room_id.is_none() || *author == self.public_key {
            return Vec::new();
        }
        proof {
            lemma_touch_keys(v.players, author@, now);
            lemma_same_keys_has_player(v.players, touch(v.players, author@, now), v.public_key@);
        }
        touch_player(&mut self.players, author, now);
        match state {
            Some(s) => {
                let stored = s.clone();
                store_state(&mut self.player_states, author, stored);
                assert(cloned(s, stored));
                let mut ev: Vec<ArenaEvent<T>> = Vec::new();
                ev.push(ArenaEvent::PlayerState { pubkey: author.clone(), state: s });
                assert(ev@ =~= seq![ArenaEvent::PlayerState { pubkey: *author, state: s }]);
                ev
            },
            None => Vec::new(),
        }
    }

    /// The host's presence sweep at `now`: every player other than this instance
    /// not heard from for more than `disconnect_threshold` ms is dropped, with one
    /// PlayerLeave each, and the snapshot to publish lists the survivors.
    /// Does nothing outside a room or on a non-host instance.
    pub fn reconcile_presence(&mut self, now: u64) -> (r: Option<
        (RoomEventContent, Vec<ArenaEvent<T>>),
    >)
        requires
            old(self)@.inv(),
        ensures
            final(self)@.inv(),
            !old(self)@.in_room() || !old(self)@.room.is_host ==> r is None && final(self)@
                == old(self)@,
            old(self)@.in_room() && old(self)@.room.is_host ==> ({
                let v = old(self)@;
                let keep = survivors(v.players, v.public_key@, now, v.config.disconnect_threshold);
                &&& final(self)@ == v.with_players(keep)
                &&& r matches Some((c, ev)) && ev@ == departures::<T>(
                    v.players,
                    v.public_key@,
                    now,
                    v.config.disconnect_threshold,
                ) && c.status == v.room.status && c.seed == v.room.seed && c.host_pubkey
                    == v.public_key && c.max_players == v.config.max_players && c.expires_at
                    == v.room.expires_at && c.players@ == keep
            }),
    {
        if self.room_state.room_id.is_none() || !self.room_state.is_host {
            return None;
        }
        let ghost v = self@;
        let threshold = self.config.disconnect_threshold;
        let mut keep: Vec<PlayerPresence> = Vec::new();
        let mut ev: Vec<ArenaEvent<T>> = Vec::new();
        let mut i: usize = 0;
        while i < self.players.len()
            invariant
                self@ == v,
                i <= v.players.len(),
                threshold == v.config.disconnect_threshold,
                keep@ == survivors(v.players.subrange(0, i as int), v.public_key@, now, threshold),
                ev@ == departures::<T>(
                    v.players.subrange(0, i as int),
                    v.public_key@,
                    now,
                    threshold,
                ),
            decreases v.players.len() - i,
        {
            proof {
                assert(v.players.subrange(0, i as int + 1).drop_last() =~= v.players.subrange(
                    0,
                    i as int,
                ));
            }
            let p = &self.players[i];
            let stale = p.pubkey != self.public_key && (now as i128) - (p.last_seen as i128)
                > threshold as i128;
            if stale {
                ev.push(ArenaEvent::PlayerLeave(p.pubkey.clone()));
            } else {
                keep.push(copy_presence(p));
            }
            i = i + 1;
        }
        proof {
            assert(v.players.subrange(0, v.players.len() as int) =~= v.players);
            lemma_survivors(v.players, v.public_key@, now, threshold);
        }
        let snapshot = RoomEventContent {
            status: self.room_state.status,
            seed: self.room_state.seed,
            host_pubkey: self.public_key.clone(),
            max_players: self.config.max_players,
            expires_at: self.room_state.expires_at,
            players: copy_players(&keep),
        };
        self.players = keep;
        Some((snapshot, ev))
    }
}

fn store_state<T>(ss: &mut Vec<(String, T)>, key: &String, value: T)
    requires
        unique_state_keys(old(ss)@),
    ensures
        unique_state_keys(final(ss)@),
        final(ss)@ == state_upsert(old(ss)@, (*key, value)),
{
    let ghost start = ss@;
    let mut i: usize = 0;
    while i < ss.len()
        invariant
            i <= ss@.len(),
            ss@ == start,
            start == old(ss)@,
            unique_state_keys(start),
            forall|j: int| 0 <= j < i ==> ss@[j].0@ != key@,
        decreases ss@.len() - i,
    {
        if ss[i].0 == *key {
            proof {
                assert(has_state(start, key@));
                let j = state_index(start, key@);
                assert(start[j].0@ == key@);
            }
            ss.set(i, (key.clone(), value));
            return;
        }
        i = i + 1;
    }
    ss.push((key.clone(), value));
    proof {
        assert(!has_state(start, key@));
        let n = ss@;
        assert forall|a: int, b: int| 0 <= a < n.len() && 0 <= b < n.len() && a != b implies n[a].0@
            != n[b].0@ by {
            if a < start.len() && b < start.len() {
                assert(n[a] == start[a] && n[b] == start[b]);
            } else if a < start.len() {
                assert(n[a] == start[a]);
            } else {
                assert(n[b] == start[b]);
            }
        }
    }
}

} // verus!
