//! Data model of the arena: statuses, configuration, room and player records,
//! and the payloads carried by relay events.

use rand::Rng;
use vstd::prelude::*;
use vstd::string::*;

verus! {

/// Lifecycle status of the room this instance takes part in.
#[derive(Debug, Clone, Copy, PartialEq, Eq, Structural)]
pub enum RoomStatus {
    Idle,
    Creating,
    Waiting,
    Joining,
    Ready,
    Playing,
    Finished,
    Deleted,
}

impl Default for RoomStatus {
    fn default() -> (r: Self)
        ensures
            r == RoomStatus::Idle,
    {
        RoomStatus::Idle
    }
}

/// How a room moves from gathering players to playing.
#[derive(Debug, Clone, Copy, PartialEq, Eq, Structural)]
pub enum StartMode {
    /// The game starts as soon as the room is full.
    Auto,
    /// The game starts when every player has signalled ready.
    Ready,
    /// A countdown runs once every player is ready, then the game starts.
    Countdown,
    /// The host starts the game by hand.
    Host,
}

impl Default for StartMode {
    fn default() -> (r: Self)
        ensures
            r == StartMode::Auto,
    {
        StartMode::Auto
    }
}

/// Settings of an arena; fixed once the arena is built.
#[derive(Debug, Clone)]
pub struct ArenaConfig {
    /// Identifier of the game, e.g. "tetris"; also the discovery hashtag.
    pub game_id: String,
    /// Relay URLs.
    pub relays: Vec<String>,
    /// Room lifetime in ms; 0 means rooms never expire.
    pub room_expiry: u64,
    /// Heartbeat period in ms.
    pub heartbeat_interval: u64,
    /// Silence in ms after which the host drops a player.
    pub disconnect_threshold: u64,
    /// Minimum spacing in ms between two published game states.
    pub state_throttle: u64,
    /// Join timeout in ms.
    pub join_timeout: u64,
    /// Room capacity.
    pub max_players: usize,
    /// Start protocol of the room.
    pub start_mode: StartMode,
    /// Length of the countdown in seconds.
    pub countdown_seconds: u32,
    /// Prefix of room URLs.
    pub base_url: Option<String>,
}

/// The configuration that `ArenaConfig::new` builds, apart from its game id.
pub open spec fn has_default_settings(c: ArenaConfig) -> bool {
    &&& c.relays@.len() == 3
    &&& c.room_expiry == 0
    &&& c.heartbeat_interval == 3000
    &&& c.disconnect_threshold == 10000
    &&& c.state_throttle == 100
    &&& c.join_timeout == 30000
    &&& c.max_players == 2
    &&& c.start_mode == StartMode::Auto
    &&& c.countdown_seconds == 3
    &&& c.base_url is None
}

fn default_relays() -> (r: Vec<String>)
    ensures
        r@.len() == 3,
{
    let mut r: Vec<String> = Vec::new();
    r.push(String::from_str("wss://relay.damus.io"));
    r.push(String::from_str("wss://nos.lol"));
    r.push(String::from_str("wss://relay.nostr.band"));
    r
}

impl Default for ArenaConfig {
    fn default() -> (r: Self)
        ensures
            r.game_id@ == Seq::<char>::empty(),
            has_default_settings(r),
    {
        ArenaConfig {
            game_id: String::new(),
            relays: default_relays(),
            room_expiry: 0,
            heartbeat_interval: 3000,
            disconnect_threshold: 10000,
            state_throttle: 100,
            join_timeout: 30000,
            max_players: 2,
            start_mode: StartMode::Auto,
            countdown_seconds: 3,
            base_url: None,
        }
    }
}

impl ArenaConfig {
    /// Default settings for the game `game_id`.
    pub fn new(game_id: &str) -> (r: Self)
        ensures
            r.game_id@ == game_id@,
            has_default_settings(r),
    {
        let mut c = ArenaConfig::default();
        c.game_id = String::from_str(game_id);
        c
    }

    pub fn relays(self, relays: Vec<String>) -> (r: Self)
        ensures
            r == (ArenaConfig { relays, ..self }),
    {
        let mut c = self;
        c.relays = relays;
        c
    }

    pub fn room_expiry(self, ms: u64) -> (r: Self)
        ensures
            r == (ArenaConfig { room_expiry: ms, ..self }),
    {
        let mut c = self;
        c.room_expiry = ms;
        c
    }

    pub fn max_players(self, n: usize) -> (r: Self)
        ensures
            r == (ArenaConfig { max_players: n, ..self }),
    {
        let mut c = self;
        c.max_players = n;
        c
    }

    pub fn start_mode(self, mode: StartMode) -> (r: Self)
        ensures
            r == (ArenaConfig { start_mode: mode, ..self }),
    {
        let mut c = self;
        c.start_mode = mode;
        c
    }

    pub fn countdown_seconds(self, secs: u32) -> (r: Self)
        ensures
            r == (ArenaConfig { countdown_seconds: secs, ..self }),
    {
        let mut c = self;
        c.countdown_seconds = secs;
        c
    }

    pub fn base_url(self, url: &str) -> (r: Self)
        ensures
            r.base_url matches Some(u) && u@ == url@,
            r == (ArenaConfig { base_url: r.base_url, ..self }),
    {
        let mut c = self;
        c.base_url = Some(String::from_str(url));
        c
    }
}

/// What this instance knows of the room it takes part in.
#[derive(Debug, Clone)]
pub struct RoomState {
    pub room_id: Option<String>,
    pub status: RoomStatus,
    pub is_host: bool,
    pub seed: u64,
    pub created_at: Option<u64>,
    pub expires_at: Option<u64>,
    pub rematch_requested: bool,
}

/// The state of an instance that is in no room.
pub open spec fn is_idle_state(s: RoomState) -> bool {
    &&& s.room_id is None
    &&& s.status == RoomStatus::Idle
    &&& !s.is_host
}

impl Default for RoomState {
    fn default() -> (r: Self)
        ensures
            is_idle_state(r),
            r.seed == 0,
            r.created_at is None,
            r.expires_at is None,
            !r.rematch_requested,
    {
        RoomState {
            room_id: None,
            status: RoomStatus::Idle,
            is_host: false,
            seed: 0,
            created_at: None,
            expires_at: None,
            rematch_requested: false,
        }
    }
}

/// Presence of one player in a room.
#[derive(Debug, Clone)]
pub struct PlayerPresence {
    /// Hex public key of the player.
    pub pubkey: String,
    pub joined_at: u64,
    pub last_seen: u64,
    pub ready: bool,
}

/// A room found by discovery.
#[derive(Debug, Clone)]
pub struct RoomInfo {
    pub room_id: String,
    pub game_id: String,
    pub status: RoomStatus,
    pub host_pubkey: String,
    pub player_count: usize,
    pub max_players: usize,
    pub created_at: u64,
    pub expires_at: Option<u64>,
    pub seed: u64,
}

/// What is known of an opponent, with its latest game state.
#[derive(Debug, Clone)]
pub struct OpponentState<T> {
    pub public_key: String,
    pub game_state: Option<T>,
    pub is_connected: bool,
    pub last_heartbeat: u64,
    pub rematch_requested: bool,
}

impl<T> OpponentState<T> {
    /// A connected opponent with no game state yet, last heard from now.
    pub fn new(public_key: String) -> (r: Self)
        ensures
            r.public_key == public_key,
            r.game_state is None,
            r.is_connected,
            !r.rematch_requested,
    {
        OpponentState {
            public_key,
            game_state: None,
            is_connected: true,
            last_heartbeat: now_ms(),
            rematch_requested: false,
        }
    }
}

/// serde_json's `Value`, the schemaless JSON carried as a player's game state;
/// the library passes it through without looking inside.
#[verifier::external_type_specification]
#[verifier::external_body]
pub struct ExJsonValue(serde_json::Value);

/// Relies on serde_json's `Clone` for `Value`, a deep copy; nothing is claimed of the copy.
pub assume_specification[ <serde_json::Value as Clone>::clone ](v: &serde_json::Value) -> serde_json::Value;

/// Payload of an ephemeral relay event, tagged by its kind on the wire.
#[derive(Debug, Clone)]
pub enum EventContent {
    Room(RoomEventContent),
    Join(JoinEventContent),
    State(StateEventContent),
    GameOver(GameOverEventContent),
    Rematch(RematchEventContent),
    Heartbeat(HeartbeatEventContent),
    Ready(ReadyEventContent),
    GameStart(GameStartEventContent),
}

/// Room snapshot, authored by the host.
#[derive(Debug, Clone)]
pub struct RoomEventContent {
    pub status: RoomStatus,
    pub seed: u64,
    pub host_pubkey: String,
    pub max_players: usize,
    pub expires_at: Option<u64>,
    pub players: Vec<PlayerPresence>,
}

#[derive(Debug, Clone)]
pub struct JoinEventContent {
    pub player_pubkey: String,
}

/// A player's game state, as a schemaless JSON value.
#[derive(Debug, Clone)]
pub struct StateEventContent {
    pub game_state: serde_json::Value,
}

#[derive(Debug, Clone)]
pub struct GameOverEventContent {
    pub reason: String,
    pub final_score: Option<i64>,
    pub winner: Option<String>,
}

#[derive(Debug, Clone)]
pub struct RematchEventContent {
    pub action: RematchAction,
    pub new_seed: Option<u64>,
}

#[derive(Debug, Clone, Copy, PartialEq, Eq, Structural)]
pub enum RematchAction {
    Request,
    Accept,
}

#[derive(Debug, Clone)]
pub struct HeartbeatEventContent {
    pub timestamp: u64,
}

#[derive(Debug, Clone)]
pub struct ReadyEventContent {
    pub ready: bool,
}

#[derive(Debug, Clone)]
pub struct GameStartEventContent {}

/// The room tag `"{game_id}-{room_id}"`, the distributed identity of a room.
pub open spec fn room_tag(game_id: Seq<char>, room_id: Seq<char>) -> Seq<char> {
    game_id + seq!['-'] + room_id
}

pub fn create_room_tag(game_id: &str, room_id: &str) -> (r: String)
    ensures
        r@ == room_tag(game_id@, room_id@),
{
    let mut r = String::from_str(game_id);
    proof {
        reveal_strlit("-");
    }
    r.append("-");
    r.append(room_id);
    r
}

/// Relies on rand 0.8's `random::<u64>`: a value drawn from the thread-local generator.
#[verifier::external_body]
fn random_u64() -> u64 {
    rand::random::<u64>()
}

/// Relies on rand 0.8's `Rng::gen_range` over `0..bound`, which returns a value
/// of the range and panics only when the range is empty.
#[verifier::external_body]
fn random_below(bound: usize) -> (r: usize)
    requires
        bound > 0,
    ensures
        r < bound,
{
    rand::thread_rng().gen_range(0..bound)
}

/// A fresh random seed.
pub fn generate_seed() -> u64 {
    random_u64()
}

/// The characters a room id is drawn from.
pub const ROOM_ID_CHARS: &'static str = "abcdefghijklmnopqrstuvwxyz0123456789";

/// Number of characters in a generated room id.
pub const ROOM_ID_LEN: usize = 6;

pub open spec fn is_room_id_char(c: char) -> bool {
    ROOM_ID_CHARS@.contains(c)
}

/// Relies on `std::time::SystemTime::now` and `duration_since`: the milliseconds
/// since the Unix epoch, or nothing when the clock reads earlier than the epoch.
#[verifier::external_body]
fn system_millis() -> Option<u128> {
    std::time::SystemTime::now().duration_since(std::time::UNIX_EPOCH).ok().map(|d| d.as_millis())
}

/// A clock reading in milliseconds as a `u64`: 0 when the clock reads before
/// the epoch, capped at `u64::MAX`.
pub fn millis_of(ms: Option<u128>) -> (r: u64)
    ensures
        r == (match ms {
            Some(m) => if m > u64::MAX as u128 {
                u64::MAX
            } else {
                m as u64
            },
            None => 0,
        }),
{
    match ms {
        Some(m) => if m > u64::MAX as u128 {
            u64::MAX
        } else {
            m as u64
        },
        None => 0,
    }
}

/// Wall-clock milliseconds since the Unix epoch, as `millis_of` reads the clock.
pub fn now_ms() -> u64 {
    millis_of(system_millis())
}

/// A fresh room id of six random lowercase letters and digits.
pub fn generate_room_id() -> (r: String)
    ensures
        r@.len() == ROOM_ID_LEN,
        forall|i: int| 0 <= i < r@.len() ==> is_room_id_char(#[trigger] r@[i]),
{
    let mut r = String::new();
    let mut n: usize = 0;
    while n < ROOM_ID_LEN
        invariant
            n <= ROOM_ID_LEN,
            r@.len() == n,
            forall|i: int| 0 <= i < r@.len() ==> is_room_id_char(#[trigger] r@[i]),
        decreases ROOM_ID_LEN - n,
    {
        proof {
            reveal_strlit("abcdefghijklmnopqrstuvwxyz0123456789");
        }
        let k = random_below(36);
        let piece = ROOM_ID_CHARS.substring_char(k, k + 1);
        assert(piece@[0] == ROOM_ID_CHARS@[k as int]);
        r.append(piece);
        n = n + 1;
    }
    r
}

} // verus!
