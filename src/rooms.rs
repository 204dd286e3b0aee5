//! Room discovery: which fetched room snapshots are listed, and how.

use crate::arena::secs_to_millis;
use crate::types::{RoomEventContent, RoomInfo, RoomStatus};
use vstd::prelude::*;
use vstd::string::*;

verus! {

/// A room snapshot event as fetched from a relay.
#[derive(Debug, Clone)]
pub struct FetchedRoom {
    /// Value of the event's `d` tag, the room tag.
    pub d_tag: Option<String>,
    /// Event time in seconds, as the relay reports it.
    pub created_at_secs: u64,
    /// The decoded snapshot, or `None` when the content could not be decoded.
    pub content: Option<RoomEventContent>,
}

/// Whether a fetched room is listed at `now`: decoded, not deleted, not
/// expired, and of the requested status if one is given.
pub open spec fn is_listed(e: FetchedRoom, now: u64, status_filter: Option<RoomStatus>) -> bool {
    &&& e.content is Some
    &&& e.content->Some_0.status != RoomStatus::Deleted
    &&& !(e.content->Some_0.expires_at matches Some(x) && now > x)
    &&& (status_filter matches Some(f) ==> e.content->Some_0.status == f)
}

/// The listed rooms, in the order fetched.
pub open spec fn listed(es: Seq<FetchedRoom>, now: u64, status_filter: Option<RoomStatus>) -> Seq<
    FetchedRoom,
>
    decreases es.len(),
{
    if es.len() == 0 {
        es
    } else {
        let rest = listed(es.drop_last(), now, status_filter);
        if is_listed(es.last(), now, status_filter) {
            rest.push(es.last())
        } else {
            rest
        }
    }
}

/// The room id carried by a room tag: the tag without its `"{game_id}-"` prefix,
/// the whole tag when it lacks the prefix, and empty without a tag.
pub open spec fn room_id_of_tag(game_id: Seq<char>, tag: Option<String>) -> Seq<char> {
    match tag {
        None => Seq::empty(),
        Some(t) => {
            let prefix = game_id + seq!['-'];
            if prefix.is_prefix_of(t@) {
                t@.subrange(prefix.len() as int, t@.len() as int)
            } else {
                t@
            }
        },
    }
}

/// `info` describes the listed room `e` of game `game_id`.
pub open spec fn describes(info: RoomInfo, e: FetchedRoom, game_id: Seq<char>) -> bool {
    let c = e.content->Some_0;
    &&& info.room_id@ == room_id_of_tag(game_id, e.d_tag)
    &&& info.game_id@ == game_id
    &&& info.status == c.status
    &&& info.host_pubkey == c.host_pubkey
    &&& info.player_count == c.players@.len()
    &&& info.max_players == c.max_players
    &&& info.created_at == secs_to_millis(e.created_at_secs)
    &&& info.expires_at == c.expires_at
    &&& info.seed == c.seed
}

fn has_prefix(prefix: &str, s: &str) -> (r: bool)
    ensures
        r == prefix@.is_prefix_of(s@),
{
    let n = prefix.unicode_len();
    let m = s.unicode_len();
    if n > m {
        return false;
    }
    let mut i: usize = 0;
    while i < n
        invariant
            n == prefix@.len(),
            m == s@.len(),
            n <= m,
            i <= n,
            forall|j: int| 0 <= j < i ==> prefix@[j] == s@[j],
        decreases n - i,
    {
        if prefix.get_char(i) != s.get_char(i) {
            assert(prefix@[i as int] != s@.subrange(0, n as int)[i as int]);
            return false;
        }
        i = i + 1;
    }
    assert(prefix@ =~= s@.subrange(0, n as int));
    true
}

/// The room id carried by the tag `tag` of a room of game `game_id`.
fn room_id_from_tag(game_id: &str, tag: &Option<String>) -> (r: String)
    ensures
        r@ == room_id_of_tag(game_id@, *tag),
{
    match tag {
        None => String::new(),
        Some(t) => {
            let mut prefix = String::from_str(game_id);
            proof {
                reveal_strlit("-");
            }
            prefix.append("-");
            if has_prefix(prefix.as_str(), t.as_str()) {
                let n = prefix.as_str().unicode_len();
                let m = t.as_str().unicode_len();
                String::from_str(t.as_str().substring_char(n, m))
            } else {
                t.clone()
            }
        },
    }
}

/// The rooms of game `game_id` to list at `now` out of the fetched snapshots:
/// deleted, expired and undecodable ones are left out, so are those of
/// another status than `status_filter` when it is given; at most `limit` are
/// kept, in the order fetched.
pub fn select_rooms(
    game_id: &str,
    fetched: &Vec<FetchedRoom>,
    now: u64,
    status_filter: Option<RoomStatus>,
    limit: usize,
) -> (r: Vec<RoomInfo>)
    ensures
        r@.len() == (if listed(fetched@, now, status_filter).len() < limit {
            listed(fetched@, now, status_filter).len()
        } else {
            limit as nat
        }),
        forall|i: int|
            0 <= i < r@.len() ==> describes(
                #[trigger] r@[i],
                listed(fetched@, now, status_filter)[i],
                game_id@,
            ),
{
    let mut rooms: Vec<RoomInfo> = Vec::new();
    let mut i: usize = 0;
    while i < fetched.len()
        invariant
            i <= fetched@.len(),
            rooms@.len() == listed(fetched@.subrange(0, i as int), now, status_filter).len(),
            forall|j: int|
                0 <= j < rooms@.len() ==> describes(
                    #[trigger] rooms@[j],
                    listed(fetched@.subrange(0, i as int), now, status_filter)[j],
                    game_id@,
                ),
        decreases fetched@.len() - i,
    {
        proof {
            assert(fetched@.subrange(0, i as int + 1).drop_last() =~= fetched@.subrange(
                0,
                i as int,
            ));
        }
        let e = &fetched[i];
        match &e.content {
            Some(c) => {
                let expired = match c.expires_at {
                    Some(x) => now > x,
                    None => false,
                };
                let wanted = match status_filter {
                    Some(f) => c.status == f,
                    None => true,
                };
                if c.status != RoomStatus::Deleted && !expired && wanted {
                    let created_at = if e.created_at_secs > u64::MAX / 1000 {
                        u64::MAX
                    } else {
                        e.created_at_secs * 1000
                    };
                    rooms.push(
                        RoomInfo {
                            room_id: room_id_from_tag(game_id, &e.d_tag),
                            game_id: String::from_str(game_id),
                            status: c.status,
                            host_pubkey: c.host_pubkey.clone(),
                            player_count: c.players.len(),
                            max_players: c.max_players,
                            created_at,
                            expires_at: c.expires_at,
                            seed: c.seed,
                        },
                    );
                }
            },
            None => {},
        }
        i = i + 1;
    }
    assert(fetched@.subrange(0, fetched@.len() as int) =~= fetched@);
    rooms.truncate(limit);
    rooms
}

} // verus!
