//! Laws of the arena state machine, stated over its transitions and proved.

use crate::arena::{
    after_send_state, all_ready, auto_start, auto_start_due, countdown_step, departures,
    has_player, inbound, is_active, is_stale, left, ready_start, ready_start_due, rematch_reset,
    state_published, survivors, unique_keys, ArenaEvent, ArenaView,
};
use crate::types::{EventContent, JoinEventContent, PlayerPresence, RoomStatus, StartMode};
use vstd::prelude::*;

verus! {

/// Leaving empties the arena: no room, status Idle, no players and no game
/// states, and the invariant still holds. Deleting a room ends the same way,
/// since the host leaves once the deletion is published.
pub proof fn lemma_leave_clears<T>(v: ArenaView<T>)
    requires
        v.inv(),
    ensures
        left(v).inv(),
        left(v).room.room_id is None,
        left(v).room.status == RoomStatus::Idle,
        left(v).players.len() == 0,
        left(v).states.len() == 0,
{
}

/// While this instance takes part in a room, it is on the room's roster.
pub proof fn lemma_self_present<T>(v: ArenaView<T>)
    requires
        v.inv(),
        is_active(v.room.status),
    ensures
        has_player(v.players, v.public_key@),
{
}

/// In Auto mode a start emits GameStart once and leaves the room Playing; no
/// later join emits it again.
pub proof fn lemma_auto_start_once<T>(
    v: ArenaView<T>,
    author: String,
    join: JoinEventContent,
    now: u64,
)
    requires
        v.config.start_mode == StartMode::Auto,
        auto_start_due(v),
    ensures
        auto_start(v).1 == seq![ArenaEvent::<T>::GameStart],
        auto_start(v).0.room.status == RoomStatus::Playing,
        !inbound(auto_start(v).0, author, EventContent::Join(join), now).1.contains(
            ArenaEvent::GameStart,
        ),
{
    let w = auto_start(v).0;
    let e = inbound(w, author, EventContent::Join(join), now).1;
    if e.contains(ArenaEvent::GameStart) {
        let i = choose|i: int| 0 <= i < e.len() && e[i] == ArenaEvent::<T>::GameStart;
        assert(e[i] == ArenaEvent::<T>::GameStart);
    }
}

/// In Ready mode GameStart comes from no inbound event but a Ready signal
/// that leaves every player ready, and then it follows AllReady.
pub proof fn lemma_ready_mode_order<T>(
    v: ArenaView<T>,
    author: String,
    content: EventContent,
    now: u64,
)
    requires
        v.config.start_mode == StartMode::Ready,
    ensures
        ({
            let (w, e) = inbound(v, author, content, now);
            e.contains(ArenaEvent::GameStart) ==> all_ready(w.players) && e == seq![
                ArenaEvent::<T>::AllReady,
                ArenaEvent::GameStart,
            ]
        }),
        ({
            let (w, e) = ready_start(v);
            e.contains(ArenaEvent::GameStart) ==> all_ready(w.players) && e == seq![
                ArenaEvent::<T>::AllReady,
                ArenaEvent::GameStart,
            ]
        }),
{
    let (w, e) = inbound(v, author, content, now);
    if e.contains(ArenaEvent::GameStart) {
        let i = choose|i: int| 0 <= i < e.len() && e[i] == ArenaEvent::<T>::GameStart;
        assert(e[i] == ArenaEvent::<T>::GameStart);
    }
    let (w2, e2) = ready_start(v);
    if e2.contains(ArenaEvent::GameStart) {
        let i = choose|i: int| 0 <= i < e2.len() && e2[i] == ArenaEvent::<T>::GameStart;
        assert(e2[i] == ArenaEvent::<T>::GameStart);
    }
}

/// In Ready mode, while the room is not yet playing, the ready-driven start
/// emits AllReady then GameStart and sets the room Playing exactly when every
/// player is ready; otherwise it emits nothing and changes nothing. (A start
/// signal arriving while the game is already on is coalesced.)
pub proof fn lemma_ready_mode_start<T>(v: ArenaView<T>)
    requires
        v.config.start_mode == StartMode::Ready,
        v.in_room(),
        v.room.status != RoomStatus::Playing,
        v.countdown is None,
    ensures
        all_ready(v.players) ==> ready_start(v).1 == seq![
            ArenaEvent::<T>::AllReady,
            ArenaEvent::GameStart,
        ] && ready_start(v).0 == v.with_status(RoomStatus::Playing),
        !all_ready(v.players) ==> ready_start(v).1.len() == 0 && ready_start(v).0 == v,
{
}

/// `k` seconds of countdown, one tick after another.
pub open spec fn run_ticks<T>(v: ArenaView<T>, k: nat) -> (ArenaView<T>, Seq<ArenaEvent<T>>)
    decreases k,
{
    if k == 0 {
        (v, Seq::empty())
    } else {
        let (v1, e1) = countdown_step(v);
        let (v2, e2) = run_ticks(v1, (k - 1) as nat);
        (v2, e1 + e2)
    }
}

/// CountdownTick(n - 1), ..., CountdownTick(0).
pub open spec fn ticks_down<T>(n: u32) -> Seq<ArenaEvent<T>> {
    Seq::new(n as nat, |i: int| ArenaEvent::CountdownTick((n - 1 - i) as u32))
}

/// The events of a whole countdown start of `n` seconds.
pub open spec fn countdown_events<T>(n: u32) -> Seq<ArenaEvent<T>> {
    seq![ArenaEvent::AllReady, ArenaEvent::CountdownStart(n)] + ticks_down(n) + seq![
        ArenaEvent::GameStart,
    ]
}

proof fn lemma_ticks<T>(v: ArenaView<T>, k: u32)
    requires
        v.in_room(),
        v.countdown == Some(k),
        k >= 1,
    ensures
        run_ticks(v, k as nat).1 == ticks_down::<T>(k) + seq![ArenaEvent::<T>::GameStart],
        run_ticks(v, k as nat).0.room.status == RoomStatus::Playing,
        run_ticks(v, k as nat).0.countdown is None,
    decreases k,
{
    let (v1, e1) = countdown_step(v);
    if k == 1 {
        assert(run_ticks(v1, 0).1 == Seq::<ArenaEvent<T>>::empty());
        assert(e1 + Seq::<ArenaEvent<T>>::empty() =~= ticks_down::<T>(k) + seq![
            ArenaEvent::<T>::GameStart,
        ]);
    } else {
        lemma_ticks(v1, (k - 1) as u32);
        let e2 = run_ticks(v1, (k - 1) as nat).1;
        assert(e1 + e2 =~= ticks_down::<T>(k) + seq![ArenaEvent::<T>::GameStart]);
    }
}

/// In Countdown mode a start sequence of N seconds emits AllReady,
/// CountdownStart(N), CountdownTick(N - 1) down to CountdownTick(0), then
/// GameStart, in this order, and the room ends up Playing.
pub proof fn lemma_countdown_sequence<T>(v: ArenaView<T>)
    requires
        v.inv(),
        v.config.start_mode == StartMode::Countdown,
        ready_start_due(v),
    ensures
        ({
            let n = v.config.countdown_seconds;
            let (v1, e1) = ready_start(v);
            let (v2, e2) = run_ticks(v1, n as nat);
            &&& e1 + e2 == countdown_events::<T>(n)
            &&& v2.room.status == RoomStatus::Playing
            &&& v2.countdown is None
        }),
{
    let n = v.config.countdown_seconds;
    let (v1, e1) = ready_start(v);
    if n == 0 {
        assert(ticks_down::<T>(0) =~= Seq::<ArenaEvent<T>>::empty());
        assert(e1 + run_ticks(v1, 0).1 =~= countdown_events::<T>(n));
    } else {
        lemma_ticks(v1, n);
        let e2 = run_ticks(v1, n as nat).1;
        assert(e1 + e2 =~= countdown_events::<T>(n));
    }
}

/// How many PlayerLeave events for `key` a sequence holds.
pub open spec fn leave_count<T>(evs: Seq<ArenaEvent<T>>, key: Seq<char>) -> nat
    decreases evs.len(),
{
    if evs.len() == 0 {
        0
    } else {
        leave_count(evs.drop_last(), key) + if evs.last() matches ArenaEvent::PlayerLeave(s)
            && s@ == key {
            1nat
        } else {
            0nat
        }
    }
}

proof fn lemma_no_departure<T>(ps: Seq<PlayerPresence>, me: Seq<char>, now: u64, t: u64, key: Seq<char>)
    requires
        !has_player(ps, key),
    ensures
        leave_count(departures::<T>(ps, me, now, t), key) == 0,
    decreases ps.len(),
{
    if ps.len() > 0 {
        let init = ps.drop_last();
        assert(!has_player(init, key)) by {
            if has_player(init, key) {
                let j = choose|j: int| 0 <= j < init.len() && init[j].pubkey@ == key;
                assert(ps[j] == init[j]);
            }
        }
        lemma_no_departure::<T>(init, me, now, t, key);
        let rest = departures::<T>(init, me, now, t);
        if is_stale(ps.last(), me, now, t) {
            assert(rest.push(ArenaEvent::PlayerLeave(ps.last().pubkey)).drop_last() =~= rest);
            assert(ps[ps.len() - 1] == ps.last());
        }
    }
}

/// The host's presence sweep drops exactly the stale players other than the
/// host, and reports one PlayerLeave for each player it drops and none for
/// any other.
pub proof fn lemma_presence_sweep<T>(ps: Seq<PlayerPresence>, me: Seq<char>, now: u64, t: u64)
    requires
        unique_keys(ps),
    ensures
        forall|i: int|
            0 <= i < ps.len() ==> (has_player(survivors(ps, me, now, t), #[trigger] ps[i].pubkey@)
                <==> !is_stale(ps[i], me, now, t)),
        forall|i: int|
            0 <= i < ps.len() ==> leave_count(departures::<T>(ps, me, now, t), #[trigger] ps[i].pubkey@)
                == if is_stale(ps[i], me, now, t) {
                1nat
            } else {
                0nat
            },
    decreases ps.len(),
{
    if ps.len() > 0 {
        let init = ps.drop_last();
        let last = ps.last();
        assert(unique_keys(init));
        lemma_presence_sweep::<T>(init, me, now, t);
        crate::arena::lemma_survivors(ps, me, now, t);
        let rest = departures::<T>(init, me, now, t);
        assert(!has_player(init, last.pubkey@)) by {
            if has_player(init, last.pubkey@) {
                let j = choose|j: int| 0 <= j < init.len() && init[j].pubkey@ == last.pubkey@;
                assert(ps[j] == init[j]);
                assert(ps[ps.len() - 1] == last);
            }
        }
        lemma_no_departure::<T>(init, me, now, t, last.pubkey@);
        if is_stale(last, me, now, t) {
            assert(rest.push(ArenaEvent::PlayerLeave(last.pubkey)).drop_last() =~= rest);
        }
        assert forall|i: int| 0 <= i < ps.len() implies leave_count(
            departures::<T>(ps, me, now, t),
            #[trigger] ps[i].pubkey@,
        ) == if is_stale(ps[i], me, now, t) {
            1nat
        } else {
            0nat
        } by {
            if i < ps.len() - 1 {
                assert(ps[i] == init[i]);
                assert(ps[i].pubkey@ != last.pubkey@);
            } else {
                assert(ps[i] == last);
            }
        }
    }
}

/// Accepting a rematch replaces the seed, returns the room to Ready, clears
/// every ready flag and any running countdown; the ready-driven start cannot
/// fire again until every player has signalled ready anew.
pub proof fn lemma_rematch_resets<T>(v: ArenaView<T>, seed: u64)
    requires
        v.inv(),
        v.in_room(),
    ensures
        rematch_reset(v, seed).room.seed == seed,
        rematch_reset(v, seed).room.status == RoomStatus::Ready,
        rematch_reset(v, seed).countdown is None,
        forall|i: int|
            0 <= i < rematch_reset(v, seed).players.len() ==> !(
            #[trigger] rematch_reset(v, seed).players[i]).ready,
        !ready_start_due(rematch_reset(v, seed)),
        ready_start(rematch_reset(v, seed)).1.len() == 0,
{
    let w = rematch_reset(v, seed);
    let j = choose|j: int| 0 <= j < v.players.len() && v.players[j].pubkey@ == v.public_key@;
    assert(!w.players[j].ready);
}

/// The number of State events published by `send_state` calls at `times`, in turn.
pub open spec fn states_published<T>(v: ArenaView<T>, times: Seq<u64>) -> nat
    decreases times.len(),
{
    if times.len() == 0 {
        0
    } else {
        (if state_published(v, times[0]) {
            1nat
        } else {
            0nat
        }) + states_published(after_send_state(v, times[0]), times.drop_first())
    }
}

proof fn lemma_throttled_after<T>(v: ArenaView<T>, times: Seq<u64>)
    requires
        forall|i: int|
            0 <= i < times.len() ==> (#[trigger] times[i] as int) < v.last_state_update
                + v.config.state_throttle,
    ensures
        states_published(v, times) == 0,
    decreases times.len(),
{
    if times.len() > 0 {
        assert((times[0] as int) < v.last_state_update + v.config.state_throttle);
        let rest = times.drop_first();
        assert forall|i: int| 0 <= i < rest.len() implies (#[trigger] rest[i] as int)
            < v.last_state_update + v.config.state_throttle by {
            assert(rest[i] == times[i + 1]);
        }
        lemma_throttled_after(v, rest);
    }
}

/// Within any window shorter than `state_throttle` ms, `send_state` publishes
/// at most one State event, whatever the order of the calls.
pub proof fn lemma_state_throttle<T>(v: ArenaView<T>, lo: u64, times: Seq<u64>)
    requires
        forall|i: int|
            0 <= i < times.len() ==> lo <= #[trigger] times[i] && (times[i] as int) < lo
                + v.config.state_throttle,
    ensures
        states_published(v, times) <= 1,
    decreases times.len(),
{
    if times.len() > 0 {
        let t0 = times[0];
        let rest = times.drop_first();
        let w = after_send_state(v, t0);
        assert forall|i: int| 0 <= i < rest.len() implies lo <= #[trigger] rest[i] && (
        rest[i] as int) < lo + w.config.state_throttle by {
            assert(rest[i] == times[i + 1]);
        }
        if state_published(v, t0) {
            assert forall|i: int| 0 <= i < rest.len() implies (#[trigger] rest[i] as int)
                < w.last_state_update + w.config.state_throttle by {
                assert(rest[i] == times[i + 1]);
            }
            lemma_throttled_after(w, rest);
        } else {
            lemma_state_throttle(w, lo, rest);
        }
    }
}

} // verus!
