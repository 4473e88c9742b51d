use vstd::prelude::*;

use crate::aws::FlexMatchPlayerGameSession;
use crate::custom_room::lemma_slot_count_bound;
use crate::custom_room::spec_capacity;
use crate::custom_room::CustomRoomSlot;
use crate::service::find_player;
use crate::service::succ_msgs;
use crate::service::succeeded_payload;
use crate::service::custom_room_route;
use crate::store::lemma_room_slots_wf;
use crate::store::room_slots;
use crate::store::Store;
use crate::text::int_str;
use crate::websocket::envelope_json;

verus! {

/// At every point in time, a well-formed store keeps every room within its
/// capacity, and no two of a room's slots share a position or a user: the
/// slot invariants hold of every reachable state, since every operation
/// preserves `Store::wf`.
pub proof fn lemma_room_invariants(s: Store, j: int)
    requires
        s.wf(),
        0 <= j < s.rooms@.len(),
    ensures
        room_slots(s.slots@, s.rooms@[j].id as int).len() <= spec_capacity(s.rooms@[j]@),
        forall|k1: int, k2: int|
            0 <= k1 < k2 < room_slots(s.slots@, s.rooms@[j].id as int).len() ==> (
            #[trigger] room_slots(s.slots@, s.rooms@[j].id as int)[k1]).user_id != (
            #[trigger] room_slots(s.slots@, s.rooms@[j].id as int)[k2]).user_id,
        forall|k1: int, k2: int|
            0 <= k1 < k2 < room_slots(s.slots@, s.rooms@[j].id as int).len() ==> !((
            #[trigger] room_slots(s.slots@, s.rooms@[j].id as int)[k1]).team == (
            #[trigger] room_slots(s.slots@, s.rooms@[j].id as int)[k2]).team && room_slots(
                s.slots@,
                s.rooms@[j].id as int,
            )[k1].team_position == room_slots(s.slots@, s.rooms@[j].id as int)[k2].team_position),
{
    lemma_room_slots_wf(s, j);
    lemma_slot_count_bound(s.rooms@[j]@, room_slots(s.slots@, s.rooms@[j].id as int));
}

/// When a room has exactly one free slot left, a successful join fills the
/// room: the refreshed slot list is at capacity, so by `join`'s contract
/// every later join of the same room must fail with `RoomFull`. Together
/// with the store's serialized access this decides the race of two
/// concurrent joins on the last slot: exactly one of them succeeds.
pub proof fn lemma_last_slot_race(s1: Store, s2: Store, j: int, new_slot: CustomRoomSlot)
    requires
        s1.wf(),
        0 <= j < s1.rooms@.len(),
        room_slots(s1.slots@, s1.rooms@[j].id as int).len() == spec_capacity(s1.rooms@[j]@) - 1,
        new_slot.custom_room_id == s1.rooms@[j].id,
        s2.slots@ == s1.slots@.push(new_slot),
        s2.rooms@ == s1.rooms@,
    ensures
        room_slots(s2.slots@, s2.rooms@[j].id as int).len() == spec_capacity(s2.rooms@[j]@),
{
    broadcast use Seq::lemma_filter_push;

}

/// Of the unicasts a succeeded match produces, each occupant named in the
/// notification's player list receives exactly one, and it carries that
/// player's own session coordinates; a user without a slot receives none.
pub proof fn lemma_succeeded_unicasts(
    slots: Seq<CustomRoomSlot>,
    players: Seq<FlexMatchPlayerGameSession>,
    ip: Seq<char>,
    port: i32,
    u: i32,
)
    requires
        forall|i: int, k: int|
            0 <= i < k < slots.len() ==> (#[trigger] slots[i]).user_id != (
            #[trigger] slots[k]).user_id,
    ensures
        (crate::custom_room::user_in(slots, u as int) && find_player(players, int_str(u as int))
            is Some) ==> exists|k: int|
            0 <= k < succ_msgs(slots, players, ip, port).len() && (#[trigger] succ_msgs(
                slots,
                players,
                ip,
                port,
            )[k]).0 == u && succ_msgs(slots, players, ip, port)[k].1 == envelope_json(
                custom_room_route(),
                "matchmaking-succeeded"@,
                succeeded_payload(
                    ip,
                    port,
                    find_player(players, int_str(u as int))->Some_0.player_id@,
                    find_player(players, int_str(u as int))->Some_0.player_session_id@,
                ),
            ),
        forall|k1: int, k2: int|
            0 <= k1 < k2 < succ_msgs(slots, players, ip, port).len() ==> (#[trigger] succ_msgs(
                slots,
                players,
                ip,
                port,
            )[k1]).0 != (#[trigger] succ_msgs(slots, players, ip, port)[k2]).0,
        !crate::custom_room::user_in(slots, u as int) ==> forall|k: int|
            0 <= k < succ_msgs(slots, players, ip, port).len() ==> (#[trigger] succ_msgs(
                slots,
                players,
                ip,
                port,
            )[k]).0 != u,
    decreases slots.len(),
{
    let msgs = succ_msgs(slots, players, ip, port);
    if slots.len() == 0 {
    } else {
        let rest = slots.drop_last();
        let last = slots.last();
        lemma_succeeded_unicasts(rest, players, ip, port, u);
        lemma_succ_msgs_ids(rest, players, ip, port);
        if crate::custom_room::user_in(slots, u as int) && find_player(
            players,
            int_str(u as int),
        ) is Some {
            if last.user_id == u {
                let k = msgs.len() - 1;
                assert(msgs[k].0 == u);
            } else {
                let w = choose|w: int| 0 <= w < slots.len() && slots[w].user_id == u as int;
                assert(rest[w].user_id == u);
                assert(crate::custom_room::user_in(rest, u as int));
                let k = choose|k: int|
                    0 <= k < succ_msgs(rest, players, ip, port).len() && (#[trigger] succ_msgs(
                        rest,
                        players,
                        ip,
                        port,
                    )[k]).0 == u && succ_msgs(rest, players, ip, port)[k].1 == envelope_json(
                        custom_room_route(),
                        "matchmaking-succeeded"@,
                        succeeded_payload(
                            ip,
                            port,
                            find_player(players, int_str(u as int))->Some_0.player_id@,
                            find_player(players, int_str(u as int))->Some_0.player_session_id@,
                        ),
                    );
                assert(msgs[k] == succ_msgs(rest, players, ip, port)[k]);
            }
        }
        if !crate::custom_room::user_in(slots, u as int) {
            assert forall|k: int| 0 <= k < msgs.len() implies (#[trigger] msgs[k]).0 != u by {
                if k < succ_msgs(rest, players, ip, port).len() {
                    if crate::custom_room::user_in(rest, u as int) {
                        let w = choose|w: int| 0 <= w < rest.len() && rest[w].user_id == u as int;
                        assert(slots[w].user_id == u);
                    }
                } else {
                    assert(msgs[k].0 == last.user_id);
                    assert(slots[slots.len() - 1].user_id == last.user_id);
                }
            }
        }
    }
}

/// Every unicast of a succeeded match names the occupant of some slot, and
/// distinct unicasts name distinct occupants.
proof fn lemma_succ_msgs_ids(
    slots: Seq<CustomRoomSlot>,
    players: Seq<FlexMatchPlayerGameSession>,
    ip: Seq<char>,
    port: i32,
)
    requires
        forall|i: int, k: int|
            0 <= i < k < slots.len() ==> (#[trigger] slots[i]).user_id != (
            #[trigger] slots[k]).user_id,
    ensures
        forall|k: int|
            0 <= k < succ_msgs(slots, players, ip, port).len() ==> exists|w: int|
                0 <= w < slots.len() && (#[trigger] slots[w]).user_id == (#[trigger] succ_msgs(
                    slots,
                    players,
                    ip,
                    port,
                )[k]).0,
        forall|k1: int, k2: int|
            0 <= k1 < k2 < succ_msgs(slots, players, ip, port).len() ==> (#[trigger] succ_msgs(
                slots,
                players,
                ip,
                port,
            )[k1]).0 != (#[trigger] succ_msgs(slots, players, ip, port)[k2]).0,
    decreases slots.len(),
{
    let msgs = succ_msgs(slots, players, ip, port);
    if slots.len() > 0 {
        let rest = slots.drop_last();
        let last = slots.last();
        lemma_succ_msgs_ids(rest, players, ip, port);
        let rmsgs = succ_msgs(rest, players, ip, port);
        assert forall|k: int| 0 <= k < msgs.len() implies exists|w: int|
            0 <= w < slots.len() && (#[trigger] slots[w]).user_id == (#[trigger] msgs[k]).0 by {
            if k < rmsgs.len() {
                assert(msgs[k] == rmsgs[k]);
                let w = choose|w: int|
                    0 <= w < rest.len() && (#[trigger] rest[w]).user_id == rmsgs[k].0;
                assert(slots[w].user_id == msgs[k].0);
            } else {
                assert(msgs[k].0 == last.user_id);
                assert(slots[slots.len() - 1].user_id == last.user_id);
            }
        }
        assert forall|k1: int, k2: int|
            0 <= k1 < k2 < msgs.len() implies (#[trigger] msgs[k1]).0 != (
        #[trigger] msgs[k2]).0 by {
            if k2 < rmsgs.len() {
                assert(msgs[k1] == rmsgs[k1]);
                assert(msgs[k2] == rmsgs[k2]);
            } else if k2 >= rmsgs.len() && k1 < rmsgs.len() {
                assert(msgs[k1] == rmsgs[k1]);
                assert(msgs[k2].0 == last.user_id);
                let w = choose|w: int|
                    0 <= w < rest.len() && (#[trigger] rest[w]).user_id == rmsgs[k1].0;
                assert(slots[w].user_id != slots[slots.len() - 1].user_id);
            }
        }
    }
}

} // verus!
