//! The room/slot state machine: every state-changing room operation is
//! validated and executed atomically against the store, and returns the
//! snapshot and the addressed messages the caller then hands to the
//! connection registry.
//!
//! Two deliberate rules close gaps the original behaviour left open: a user
//! holds at most one slot anywhere, so creating or joining a second room is
//! refused; and the owner's slot lives exactly as long as the room, so the
//! owner leaves only by deleting it. Slot-changing operations (join, move,
//! archetype) stay available while a room is searching; a deployment that
//! wants to freeze membership during a search refuses them at its edge
//! before invoking the state machine.

use vstd::prelude::*;

use crate::custom_room::occupied;
use crate::custom_room::occupied_by_other;
use crate::custom_room::CreateData;
use crate::custom_room::CustomRoomSlot;
use crate::dtos::all_users_known;
use crate::dtos::room_dto_json;
use crate::dtos::spec_room_dto;
use crate::dtos::user_ids_except;
use crate::dtos::CustomRoomDto;
use crate::errors::RoomError;
use crate::store::has_user_id;
use crate::store::occupied_in_room;
use crate::store::occupied_in_room_by_other;
use crate::store::room_slots;
use crate::store::slot_of_user;
use crate::store::Store;
use crate::text::int_str;
use crate::text::json_str;
use crate::text::push_json_str;
use crate::user::User;
use crate::websocket::envelope_json;
use crate::websocket::BroadcastExceptMessage;
use crate::websocket::MultiForwardMessage;
use crate::websocket::ServerMessage;

verus! {

/// The logical resource path every room event is routed under.
pub open spec fn custom_room_route() -> Seq<char> {
    "/matchmaking/custom-room"@
}

/// The route string of every room event.
pub fn route_string() -> (r: String)
    ensures
        r@ == custom_room_route(),
{
    String::from_str("/matchmaking/custom-room")
}

/// The payload naming one user: `{"user_id": N}`.
pub open spec fn user_id_payload(u: i32) -> Seq<char> {
    "{\"user_id\":"@ + int_str(u as int) + "}"@
}

pub fn user_id_payload_string(u: i32) -> (r: String)
    ensures
        r@ == user_id_payload(u),
{
    let mut out = String::new();
    out.append("{\"user_id\":");
    crate::dtos::push_i32(&mut out, u);
    out.append("}");
    proof {
        assert(out@ =~= user_id_payload(u));
    }
    out
}

/// The empty payload of events that carry no data.
pub open spec fn empty_payload() -> Seq<char> {
    "{}"@
}

pub fn empty_payload_string() -> (r: String)
    ensures
        r@ == empty_payload(),
{
    String::from_str("{}")
}

/// The user ids of a list of slots, in order.
pub open spec fn slot_user_ids(slots: Seq<CustomRoomSlot>) -> Seq<i32> {
    slots.map_values(|s: CustomRoomSlot| s.user_id)
}

/// The user ids of the slots whose occupant is not `except`, in order.
pub open spec fn slot_user_ids_except(slots: Seq<CustomRoomSlot>, except: i32) -> Seq<i32>
    decreases slots.len(),
{
    if slots.len() == 0 {
        Seq::empty()
    } else {
        slot_user_ids_except(slots.drop_last(), except) + if slots.last().user_id != except {
            seq![slots.last().user_id]
        } else {
            Seq::empty()
        }
    }
}

/// Collects the user ids of slots other than `except`'s, in slot order.
pub fn collect_slot_ids_except(slots: &Vec<CustomRoomSlot>, except: i32) -> (r: Vec<i32>)
    ensures
        r@ == slot_user_ids_except(slots@, except),
{
    let mut result: Vec<i32> = Vec::new();
    let mut i: usize = 0;
    while i < slots.len()
        invariant
            i <= slots@.len(),
            result@ == slot_user_ids_except(slots@.take(i as int), except),
        decreases slots@.len() - i,
    {
        if slots[i].user_id != except {
            result.push(slots[i].user_id);
        }
        proof {
            assert(slots@.take(i as int + 1).drop_last() =~= slots@.take(i as int));
            assert(slots@.take(i as int + 1).last() == slots@[i as int]);
        }
        i += 1;
    }
    proof {
        assert(slots@.take(slots@.len() as int) =~= slots@);
    }
    result
}

/// Whether every occupant of the listed slots has a user record.
pub fn users_known(store: &Store, slots: &Vec<CustomRoomSlot>) -> (r: bool)
    ensures
        r == all_users_known(slots@, store.users@),
{
    let mut i: usize = 0;
    while i < slots.len()
        invariant
            i <= slots@.len(),
            forall|k: int|
                0 <= k < i ==> has_user_id(store.users@, (#[trigger] slots@[k]).user_id as int),
        decreases slots@.len() - i,
    {
        match store.get_user(&slots[i].user_id) {
            Some(_) => {},
            None => {
                return false;
            },
        }
        i += 1;
    }
    true
}

/// A position is occupied in a room's slot list exactly when it is
/// occupied among the room's slots of the full store list.
pub proof fn lemma_occupied_bridge(slots: Seq<CustomRoomSlot>, rid: int, t: int, p: int)
    ensures
        occupied(room_slots(slots, rid), t, p) == occupied_in_room(slots, rid, t, p),
{
    broadcast use vstd::seq_lib::group_filter_ensures;
    broadcast use Seq::lemma_filter_contains_rev;

    let rs = room_slots(slots, rid);
    if occupied(rs, t, p) {
        let i = choose|i: int| 0 <= i < rs.len() && rs[i].team == t && rs[i].team_position == p;
        assert(rs.contains(rs[i]));
        assert(slots.contains(rs[i]));
        let w = choose|w: int| 0 <= w < slots.len() && slots[w] == rs[i];
        assert(occupied_in_room(slots, rid, t, p));
    }
    if occupied_in_room(slots, rid, t, p) {
        let w = choose|w: int|
            0 <= w < slots.len() && (#[trigger] slots[w]).custom_room_id == rid && slots[w].team
                == t && slots[w].team_position == p;
        assert(rs.contains(slots[w]));
        let i = choose|i: int| 0 <= i < rs.len() && rs[i] == slots[w];
        assert(occupied(rs, t, p));
    }
}

/// The same bridge for occupancy by a user other than `u`.
pub proof fn lemma_occupied_by_other_bridge(
    slots: Seq<CustomRoomSlot>,
    rid: int,
    t: int,
    p: int,
    u: int,
)
    ensures
        occupied_by_other(room_slots(slots, rid), t, p, u) == occupied_in_room_by_other(
            slots,
            rid,
            t,
            p,
            u,
        ),
{
    broadcast use vstd::seq_lib::group_filter_ensures;
    broadcast use Seq::lemma_filter_contains_rev;

    let rs = room_slots(slots, rid);
    if occupied_by_other(rs, t, p, u) {
        let i = choose|i: int|
            0 <= i < rs.len() && rs[i].team == t && rs[i].team_position == p && rs[i].user_id != u;
        assert(rs.contains(rs[i]));
        assert(slots.contains(rs[i]));
        let w = choose|w: int| 0 <= w < slots.len() && slots[w] == rs[i];
        assert(occupied_in_room_by_other(slots, rid, t, p, u));
    }
    if occupied_in_room_by_other(slots, rid, t, p, u) {
        let w = choose|w: int|
            0 <= w < slots.len() && (#[trigger] slots[w]).custom_room_id == rid && slots[w].team
                == t && slots[w].team_position == p && slots[w].user_id != u;
        assert(rs.contains(slots[w]));
        let i = choose|i: int| 0 <= i < rs.len() && rs[i] == slots[w];
        assert(occupied_by_other(rs, t, p, u));
    }
}

/// Every room snapshot of the store, in storage order.
pub fn get_all(store: &Store) -> (r: Result<Vec<CustomRoomDto>, RoomError>)
    requires
        store.wf(),
    ensures
        match r {
            Ok(v) => {
                &&& v@.len() == store.rooms@.len()
                &&& forall|i: int|
                    0 <= i < v@.len() ==> (#[trigger] v@[i])@ == spec_room_dto(
                        store.rooms@[i]@,
                        room_slots(store.slots@, store.rooms@[i].id as int),
                        store.users@,
                    )
            },
            Err(e) => e == RoomError::UnknownUser && exists|i: int|
                0 <= i < store.rooms@.len() && !all_users_known(
                    room_slots(store.slots@, (#[trigger] store.rooms@[i]).id as int),
                    store.users@,
                ),
        },
{
    let mut results: Vec<CustomRoomDto> = Vec::new();
    let mut i: usize = 0;
    while i < store.rooms.len()
        invariant
            i <= store.rooms@.len(),
            store.wf(),
            results@.len() == i,
            forall|k: int|
                0 <= k < i ==> (#[trigger] results@[k])@ == spec_room_dto(
                    store.rooms@[k]@,
                    room_slots(store.slots@, store.rooms@[k].id as int),
                    store.users@,
                ),
        decreases store.rooms@.len() - i,
    {
        let room = store.rooms[i].clone();
        let slots = store.collect_room_slots(room.id);
        match CustomRoomDto::new((room, slots), store) {
            Ok(dto) => {
                results.push(dto);
            },
            Err(e) => {
                return Err(e);
            },
        }
        i += 1;
    }
    Ok(results)
}

} // verus!

verus! {

use crate::custom_room::is_first_free;
use crate::custom_room::spec_capacity;
use crate::custom_room::RoomView;
use crate::dtos::slot_dto_json;
use crate::enums::Archetypes;
use crate::form::CustomRoomSlotForm;
use crate::store::create_data_ok;
use crate::store::has_room_id;
use crate::store::lemma_room_slots_wf;

/// Opens a room for `user_id` with the owner seated at team 0, position 0,
/// and announces it to everyone else with a `"new"` broadcast.
pub fn create(create_data: CreateData, user_id: i32, store: &mut Store) -> (r: Result<
    (CustomRoomDto, BroadcastExceptMessage),
    RoomError,
>)
    requires
        old(store).wf(),
    ensures
        final(store).wf(),
        match r {
            Ok(t) => {
                &&& has_user_id(old(store).users@, user_id as int)
                &&& create_data_ok(create_data)
                &&& !slot_of_user(old(store).slots@, user_id as int)
                &&& final(store).rooms@ == old(store).rooms@.push(final(store).rooms@.last())
                &&& final(store).rooms@.last()@ == RoomView {
                    id: old(store).next_room_id,
                    label: create_data.label@,
                    user_id: user_id,
                    nb_teams: create_data.nb_teams,
                    max_player_per_team: create_data.max_players_per_team,
                    current_game_mode: create_data.game_mode,
                    current_map: create_data.map,
                    matchmaking_ticket: None,
                }
                &&& final(store).slots@ == old(store).slots@.push(
                    CustomRoomSlot {
                        id: old(store).next_slot_id,
                        custom_room_id: old(store).next_room_id,
                        team: 0,
                        team_position: 0,
                        user_id: user_id,
                        current_archetype: Archetypes::Leader,
                    },
                )
                &&& final(store).users@ == old(store).users@
                &&& t.0@ == spec_room_dto(
                    final(store).rooms@.last()@,
                    seq![final(store).slots@.last()],
                    old(store).users@,
                )
                &&& t.1.ids_to_except@ == seq![user_id]
                &&& t.1.message@ == envelope_json(
                    custom_room_route(),
                    "new"@,
                    room_dto_json(t.0@),
                )
            },
            Err(e) => {
                &&& *final(store) == *old(store)
                &&& {
                    ||| (e == RoomError::UnknownUser && !has_user_id(
                        old(store).users@,
                        user_id as int,
                    ))
                    ||| (e == RoomError::InvalidRoomSpec && has_user_id(
                        old(store).users@,
                        user_id as int,
                    ) && !create_data_ok(create_data))
                    ||| (e == RoomError::AlreadyInRoom && has_user_id(
                        old(store).users@,
                        user_id as int,
                    ) && create_data_ok(create_data) && slot_of_user(
                        old(store).slots@,
                        user_id as int,
                    ))
                    ||| (e == RoomError::IdSpaceExhausted && has_user_id(
                        old(store).users@,
                        user_id as int,
                    ) && create_data_ok(create_data) && !slot_of_user(
                        old(store).slots@,
                        user_id as int,
                    ) && (old(store).next_room_id == 0x7fffffff || old(store).next_slot_id
                        == 0x7fffffff))
                }
            },
        },
{
    match store.get_user(&user_id) {
        Some(_) => {},
        None => {
            return Err(RoomError::UnknownUser);
        },
    }
    match store.create_room(&user_id, create_data) {
        Err(e) => Err(e),
        Ok((room, slots_vec)) => {
            proof {
                assert(all_users_known(slots_vec@, store.users@));
            }
            let dto = match CustomRoomDto::new((room, slots_vec), store) {
                Ok(d) => d,
                Err(_) => vstd::pervasive::unreached(),
            };
            let mut excepted: Vec<i32> = Vec::new();
            excepted.push(user_id);
            let data = dto.to_json();
            let msg = BroadcastExceptMessage::new(
                &excepted,
                ServerMessage::new(route_string(), String::from_str("new"), data),
            );
            proof {
                assert(excepted@ =~= seq![user_id]);
            }
            Ok((dto, msg))
        },
    }
}

/// Seats `user_id` at the first free position of a room, scanning teams
/// then positions in ascending order, and tells the other occupants with a
/// `"join"` message carrying the new slot. A full room always fails with
/// `RoomFull`, before any check on the joining user; nothing is mutated on
/// any failure.
#[verifier::rlimit(100)]
pub fn join(custom_room_id: i32, user_id: i32, store: &mut Store) -> (r: Result<
    (CustomRoomDto, MultiForwardMessage),
    RoomError,
>)
    requires
        old(store).wf(),
    ensures
        final(store).wf(),
        match r {
            Ok(t) => {
                &&& exists|j: int|
                    0 <= j < old(store).rooms@.len() && (#[trigger] old(store).rooms@[j]).id
                        == custom_room_id && room_slots(
                        old(store).slots@,
                        custom_room_id as int,
                    ).len() < spec_capacity(old(store).rooms@[j]@) && is_first_free(
                        old(store).rooms@[j]@,
                        room_slots(old(store).slots@, custom_room_id as int),
                        final(store).slots@.last().team as int,
                        final(store).slots@.last().team_position as int,
                    ) && t.0@ == spec_room_dto(
                        old(store).rooms@[j]@,
                        room_slots(final(store).slots@, custom_room_id as int),
                        old(store).users@,
                    )
                &&& !slot_of_user(old(store).slots@, user_id as int)
                &&& final(store).slots@ == old(store).slots@.push(final(store).slots@.last())
                &&& final(store).slots@.last().custom_room_id == custom_room_id
                &&& final(store).slots@.last().user_id == user_id
                &&& final(store).slots@.last().current_archetype == Archetypes::Leader
                &&& final(store).slots@.last().id == old(store).next_slot_id
                &&& final(store).rooms@ == old(store).rooms@
                &&& final(store).users@ == old(store).users@
                &&& t.1.ids@ == user_ids_except(t.0@.slots, user_id)
                &&& t.1.message@ == envelope_json(
                    custom_room_route(),
                    "join"@,
                    slot_dto_json(t.0@.slots.last()),
                )
            },
            Err(e) => {
                &&& *final(store) == *old(store)
                &&& {
                    ||| (e == RoomError::UnknownRoom && !has_room_id(
                        old(store).rooms@,
                        custom_room_id as int,
                    ))
                    ||| (e == RoomError::RoomFull && exists|j: int|
                        0 <= j < old(store).rooms@.len() && (#[trigger] old(store).rooms@[j]).id
                            == custom_room_id && room_slots(
                            old(store).slots@,
                            custom_room_id as int,
                        ).len() == spec_capacity(old(store).rooms@[j]@))
                    ||| (e == RoomError::UnknownUser && (exists|j: int|
                        0 <= j < old(store).rooms@.len() && (#[trigger] old(store).rooms@[j]).id
                            == custom_room_id && room_slots(
                            old(store).slots@,
                            custom_room_id as int,
                        ).len() < spec_capacity(old(store).rooms@[j]@)) && (!has_user_id(
                        old(store).users@,
                        user_id as int,
                    ) || !all_users_known(
                        room_slots(old(store).slots@, custom_room_id as int),
                        old(store).users@,
                    )))
                    ||| (e == RoomError::AlreadyInRoom && (exists|j: int|
                        0 <= j < old(store).rooms@.len() && (#[trigger] old(store).rooms@[j]).id
                            == custom_room_id && room_slots(
                            old(store).slots@,
                            custom_room_id as int,
                        ).len() < spec_capacity(old(store).rooms@[j]@)) && has_user_id(
                        old(store).users@,
                        user_id as int,
                    ) && all_users_known(
                        room_slots(old(store).slots@, custom_room_id as int),
                        old(store).users@,
                    ) && slot_of_user(old(store).slots@, user_id as int))
                    ||| (e == RoomError::IdSpaceExhausted && (exists|j: int|
                        0 <= j < old(store).rooms@.len() && (#[trigger] old(store).rooms@[j]).id
                            == custom_room_id && room_slots(
                            old(store).slots@,
                            custom_room_id as int,
                        ).len() < spec_capacity(old(store).rooms@[j]@)) && has_user_id(
                        old(store).users@,
                        user_id as int,
                    ) && all_users_known(
                        room_slots(old(store).slots@, custom_room_id as int),
                        old(store).users@,
                    ) && old(store).next_slot_id == 0x7fffffff)
                }
            },
        },
{
    let tuple = match store.get(&custom_room_id) {
        Some(t) => t,
        None => {
            return Err(RoomError::UnknownRoom);
        },
    };
    let ghost j = choose|j: int|
        0 <= j < store.rooms@.len() && (#[trigger] store.rooms@[j]).id == custom_room_id
            && tuple.0@ == store.rooms@[j]@ && tuple.1@ == room_slots(
            store.slots@,
            custom_room_id as int,
        );
    proof {
        lemma_room_slots_wf(*store, j);
    }
    let form = match CustomRoomSlotForm::new_from_user_join(&custom_room_id, &user_id, &tuple) {
        Ok(f) => f,
        Err(e) => {
            return Err(e);
        },
    };
    match store.get_user(&user_id) {
        Some(_) => {},
        None => {
            return Err(RoomError::UnknownUser);
        },
    }
    if !users_known(store, &tuple.1) {
        return Err(RoomError::UnknownUser);
    }
    match store.create_slot(&form) {
        Ok((room2, slots2)) => {
            proof {
                broadcast use Seq::lemma_filter_push;
                broadcast use vstd::seq_lib::group_filter_ensures;
                broadcast use Seq::lemma_filter_contains_rev;

                let new_slot = store.slots@.last();
                assert(room_slots(store.slots@, custom_room_id as int) =~= room_slots(
                    old(store).slots@,
                    custom_room_id as int,
                ).push(new_slot));
                assert forall|i: int|
                    0 <= i < slots2@.len() implies has_user_id(
                    store.users@,
                    (#[trigger] slots2@[i]).user_id as int,
                ) by {
                    if i < slots2@.len() - 1 {
                        assert(slots2@[i] == tuple.1@[i]);
                    }
                }
            }
            let dto = match CustomRoomDto::new((room2, slots2), store) {
                Ok(d) => d,
                Err(_) => vstd::pervasive::unreached(),
            };
            let user_ids = dto.get_all_user_ids_except(&user_id);
            proof {
                assert(dto@.slots.len() > 0);
                assert(dto@.slots.last().user_id == user_id);
            }
            let idx = match dto.get_slot_index_from_user_id(&user_id) {
                Some(i) => i,
                None => vstd::pervasive::unreached(),
            };
            proof {
                broadcast use vstd::seq_lib::group_filter_ensures;
                broadcast use Seq::lemma_filter_contains_rev;

                if idx as int != dto@.slots.len() - 1 {
                    let rs_old = room_slots(old(store).slots@, custom_room_id as int);
                    let rs_new = room_slots(store.slots@, custom_room_id as int);
                    assert(rs_new =~= rs_old.push(store.slots@.last()));
                    assert(dto@.slots[idx as int].user_id == rs_new[idx as int].user_id);
                    assert(rs_new[idx as int] == rs_old[idx as int]);
                    assert(rs_old.contains(rs_old[idx as int]));
                    assert(old(store).slots@.contains(rs_old[idx as int]));
                    assert(!slot_of_user(old(store).slots@, user_id as int));
                    assert(false);
                }
            }
            let slot_json = dto.slots[idx].to_json();
            let msg = MultiForwardMessage::new(
                &user_ids,
                ServerMessage::new(route_string(), String::from_str("join"), slot_json),
            );
            Ok((dto, msg))
        },
        Err(e) => {
            proof {
                lemma_occupied_bridge(
                    old(store).slots@,
                    custom_room_id as int,
                    form.team as int,
                    form.team_position as int,
                );
                if e == RoomError::UnknownRoom {
                    assert(false);
                }
                if e == RoomError::InvalidSlot {
                    let j2 = choose|j2: int|
                        0 <= j2 < old(store).rooms@.len() && (#[trigger] old(store).rooms@[j2]).id
                            == form.custom_room_id && !(0 <= form.team < old(
                            store,
                        ).rooms@[j2].nb_teams && 0 <= form.team_position < old(
                            store,
                        ).rooms@[j2].max_player_per_team);
                    if j2 != j {
                        if j2 < j {
                            assert(old(store).rooms@[j2].id != old(store).rooms@[j].id);
                        } else {
                            assert(old(store).rooms@[j].id != old(store).rooms@[j2].id);
                        }
                    }
                    assert(false);
                }
                if e == RoomError::SlotTaken {
                    assert(false);
                }
            }
            Err(e)
        },
    }
}

} // verus!

verus! {

/// Every occupant of the listed slots other than `except` has a user record.
pub open spec fn all_users_known_except(
    slots: Seq<CustomRoomSlot>,
    users: Seq<User>,
    except: i32,
) -> bool {
    forall|i: int|
        0 <= i < slots.len() && (#[trigger] slots[i]).user_id != except ==> has_user_id(
            users,
            slots[i].user_id as int,
        )
}

/// Whether every occupant of the listed slots other than `except` has a
/// user record.
pub fn users_known_except(store: &Store, slots: &Vec<CustomRoomSlot>, except: i32) -> (r: bool)
    ensures
        r == all_users_known_except(slots@, store.users@, except),
{
    let mut i: usize = 0;
    while i < slots.len()
        invariant
            i <= slots@.len(),
            forall|k: int|
                0 <= k < i && (#[trigger] slots@[k]).user_id != except ==> has_user_id(
                    store.users@,
                    slots@[k].user_id as int,
                ),
        decreases slots@.len() - i,
    {
        if slots[i].user_id != except {
            match store.get_user(&slots[i].user_id) {
                Some(_) => {},
                None => {
                    return false;
                },
            }
        }
        i += 1;
    }
    true
}

/// Removes the slot of `user_id_to_kick` from a room. With an acting user
/// the event is a `"kick"`, told to the remaining occupants (except the
/// actor) and to the kicked user; without one it is disconnect cleanup and
/// the `"disconnect"` event goes to the remaining occupants only. The
/// owner's slot can never be removed this way.
#[verifier::rlimit(100)]
pub fn kick(
    custom_room_id: i32,
    user_id_to_kick: i32,
    o_user_id: Option<i32>,
    store: &mut Store,
) -> (r: Result<(CustomRoomDto, MultiForwardMessage), RoomError>)
    requires
        old(store).wf(),
    ensures
        final(store).wf(),
        match r {
            Ok(t) => {
                &&& exists|j: int|
                    0 <= j < old(store).rooms@.len() && (#[trigger] old(store).rooms@[j]).id
                        == custom_room_id && old(store).rooms@[j].user_id != user_id_to_kick && (
                    o_user_id matches Some(a) ==> old(store).rooms@[j].user_id == a) && t.0@
                        == spec_room_dto(
                        old(store).rooms@[j]@,
                        room_slots(final(store).slots@, custom_room_id as int),
                        old(store).users@,
                    )
                &&& exists|k: int|
                    0 <= k < old(store).slots@.len() && (#[trigger] old(store).slots@[k]).user_id
                        == user_id_to_kick && old(store).slots@[k].custom_room_id == custom_room_id
                        && final(store).slots@ == old(store).slots@.remove(k)
                &&& final(store).rooms@ == old(store).rooms@
                &&& final(store).users@ == old(store).users@
                &&& t.1.ids@ == (match o_user_id {
                    Some(a) => user_ids_except(t.0@.slots, a).push(user_id_to_kick),
                    None => t.0@.slots.map_values(|s: crate::dtos::SlotDtoView| s.user_id),
                })
                &&& t.1.message@ == envelope_json(
                    custom_room_route(),
                    match o_user_id {
                        Some(_) => "kick"@,
                        None => "disconnect"@,
                    },
                    user_id_payload(user_id_to_kick),
                )
            },
            Err(e) => {
                &&& *final(store) == *old(store)
                &&& {
                    ||| (e == RoomError::UnknownRoom && !has_room_id(
                        old(store).rooms@,
                        custom_room_id as int,
                    ))
                    ||| (e == RoomError::Forbidden && o_user_id is Some && exists|j: int|
                        0 <= j < old(store).rooms@.len() && (#[trigger] old(store).rooms@[j]).id
                            == custom_room_id && old(store).rooms@[j].user_id
                            != o_user_id->Some_0)
                    ||| (e == RoomError::NoSuchSlot && !exists|k: int|
                        0 <= k < old(store).slots@.len() && (#[trigger] old(
                            store,
                        ).slots@[k]).custom_room_id == custom_room_id && old(
                            store,
                        ).slots@[k].user_id == user_id_to_kick)
                    ||| (e == RoomError::OwnerCannotBeRemoved && exists|j: int|
                        0 <= j < old(store).rooms@.len() && (#[trigger] old(store).rooms@[j]).id
                            == custom_room_id && old(store).rooms@[j].user_id == user_id_to_kick)
                    ||| (e == RoomError::UnknownUser && !all_users_known_except(
                        room_slots(old(store).slots@, custom_room_id as int),
                        old(store).users@,
                        user_id_to_kick,
                    ))
                }
            },
        },
{
    let tuple = match store.get(&custom_room_id) {
        Some(t) => t,
        None => {
            return Err(RoomError::UnknownRoom);
        },
    };
    if let Some(acting) = o_user_id {
        if tuple.0.user_id != acting {
            return Err(RoomError::Forbidden);
        }
    }
    if !crate::custom_room::user_has_slot(&tuple.1, user_id_to_kick) {
        proof {
            let ghost j = choose|j: int|
                0 <= j < store.rooms@.len() && (#[trigger] store.rooms@[j]).id == custom_room_id
                    && tuple.0@ == store.rooms@[j]@ && tuple.1@ == room_slots(
                    store.slots@,
                    custom_room_id as int,
                );
            broadcast use vstd::seq_lib::group_filter_ensures;
            broadcast use Seq::lemma_filter_contains;

            if exists|k: int|
                0 <= k < store.slots@.len() && (#[trigger] store.slots@[k]).custom_room_id
                    == custom_room_id && store.slots@[k].user_id == user_id_to_kick {
                let k = choose|k: int|
                    0 <= k < store.slots@.len() && (#[trigger] store.slots@[k]).custom_room_id
                        == custom_room_id && store.slots@[k].user_id == user_id_to_kick;
                assert(tuple.1@.contains(store.slots@[k]));
                assert(false);
            }
        }
        return Err(RoomError::NoSuchSlot);
    }
    if tuple.0.user_id == user_id_to_kick {
        proof {
            let ghost j = choose|j: int|
                0 <= j < store.rooms@.len() && (#[trigger] store.rooms@[j]).id == custom_room_id
                    && tuple.0@ == store.rooms@[j]@;
        }
        return Err(RoomError::OwnerCannotBeRemoved);
    }
    if !users_known_except(store, &tuple.1, user_id_to_kick) {
        return Err(RoomError::UnknownUser);
    }
    let ghost j = choose|j: int|
        0 <= j < store.rooms@.len() && (#[trigger] store.rooms@[j]).id == custom_room_id
            && tuple.0@ == store.rooms@[j]@ && tuple.1@ == room_slots(
            store.slots@,
            custom_room_id as int,
        );
    proof {
        broadcast use vstd::seq_lib::group_filter_ensures;
        broadcast use Seq::lemma_filter_contains_rev;

        let w = choose|w: int|
            0 <= w < tuple.1@.len() && (#[trigger] tuple.1@[w]).user_id == user_id_to_kick;
        assert(tuple.1@.contains(tuple.1@[w]));
        assert(store.slots@.contains(tuple.1@[w]));
    }
    let snapshot = match store.delete_slot_by_user_id(&custom_room_id, &user_id_to_kick) {
        Ok(t) => t,
        Err(e) => {
            proof {
                if e == RoomError::OwnerCannotBeRemoved {
                    let j2 = choose|j2: int|
                        0 <= j2 < old(store).rooms@.len() && (#[trigger] old(store).rooms@[j2]).id
                            == custom_room_id && old(store).rooms@[j2].user_id == user_id_to_kick;
                    if j2 != j {
                        if j2 < j {
                            assert(old(store).rooms@[j2].id != old(store).rooms@[j].id);
                        } else {
                            assert(old(store).rooms@[j].id != old(store).rooms@[j2].id);
                        }
                    }
                }
                assert(false);
            }
            vstd::pervasive::unreached()
        },
    };
    proof {
        broadcast use vstd::seq_lib::group_filter_ensures;
        broadcast use Seq::lemma_filter_contains_rev;

        let k = choose|k: int|
            0 <= k < old(store).slots@.len() && (#[trigger] old(store).slots@[k]).user_id
                == user_id_to_kick && old(store).slots@[k].custom_room_id == custom_room_id
                && store.slots@ == old(store).slots@.remove(k);
        let rs_new = room_slots(store.slots@, custom_room_id as int);
        assert forall|i: int|
            0 <= i < rs_new.len() implies has_user_id(
            store.users@,
            (#[trigger] rs_new[i]).user_id as int,
        ) by {
            assert(rs_new.contains(rs_new[i]));
            assert(store.slots@.contains(rs_new[i]));
            let w = choose|w: int| 0 <= w < store.slots@.len() && store.slots@[w] == rs_new[i];
            let ow: int = if w < k {
                w
            } else {
                w + 1
            };
            assert(store.slots@[w] == old(store).slots@[ow]);
            if rs_new[i].user_id == user_id_to_kick {
                if ow < k {
                    assert(old(store).slots@[ow].user_id != old(store).slots@[k].user_id);
                } else {
                    assert(old(store).slots@[k].user_id != old(store).slots@[ow].user_id);
                }
                assert(false);
            }
            assert(old(store).slots@[ow].custom_room_id == custom_room_id);
            assert(room_slots(old(store).slots@, custom_room_id as int).contains(
                old(store).slots@[ow],
            ));
            let v = choose|v: int|
                0 <= v < tuple.1@.len() && tuple.1@[v] == old(store).slots@[ow];
            assert(has_user_id(store.users@, tuple.1@[v].user_id as int));
        }
    }
    let dto = match CustomRoomDto::new(snapshot, store) {
        Ok(d) => d,
        Err(_) => vstd::pervasive::unreached(),
    };
    let payload = user_id_payload_string(user_id_to_kick);
    match o_user_id {
        Some(acting) => {
            let mut user_ids = dto.get_all_user_ids_except(&acting);
            user_ids.push(user_id_to_kick);
            let msg = MultiForwardMessage::new(
                &user_ids,
                ServerMessage::new(route_string(), String::from_str("kick"), payload),
            );
            Ok((dto, msg))
        },
        None => {
            let user_ids = dto.get_all_user_ids();
            let msg = MultiForwardMessage::new(
                &user_ids,
                ServerMessage::new(route_string(), String::from_str("disconnect"), payload),
            );
            Ok((dto, msg))
        },
    }
}

} // verus!

verus! {

/// Removes the caller's own slot from a room and tells the remaining
/// occupants with a `"quit"` message. The owner cannot quit their own
/// room; they delete it instead.
#[verifier::rlimit(100)]
pub fn quit(custom_room_id: i32, user_id: i32, store: &mut Store) -> (r: Result<
    (CustomRoomDto, MultiForwardMessage),
    RoomError,
>)
    requires
        old(store).wf(),
    ensures
        final(store).wf(),
        match r {
            Ok(t) => {
                &&& exists|j: int|
                    0 <= j < old(store).rooms@.len() && (#[trigger] old(store).rooms@[j]).id
                        == custom_room_id && old(store).rooms@[j].user_id != user_id && t.0@
                        == spec_room_dto(
                        old(store).rooms@[j]@,
                        room_slots(final(store).slots@, custom_room_id as int),
                        old(store).users@,
                    )
                &&& exists|k: int|
                    0 <= k < old(store).slots@.len() && (#[trigger] old(store).slots@[k]).user_id
                        == user_id && old(store).slots@[k].custom_room_id == custom_room_id
                        && final(store).slots@ == old(store).slots@.remove(k)
                &&& final(store).rooms@ == old(store).rooms@
                &&& final(store).users@ == old(store).users@
                &&& t.1.ids@ == user_ids_except(t.0@.slots, user_id)
                &&& t.1.message@ == envelope_json(
                    custom_room_route(),
                    "quit"@,
                    user_id_payload(user_id),
                )
            },
            Err(e) => {
                &&& *final(store) == *old(store)
                &&& {
                    ||| (e == RoomError::UnknownRoom && !has_room_id(
                        old(store).rooms@,
                        custom_room_id as int,
                    ))
                    ||| (e == RoomError::NoSuchSlot && !exists|k: int|
                        0 <= k < old(store).slots@.len() && (#[trigger] old(
                            store,
                        ).slots@[k]).custom_room_id == custom_room_id && old(
                            store,
                        ).slots@[k].user_id == user_id)
                    ||| (e == RoomError::OwnerCannotBeRemoved && exists|j: int|
                        0 <= j < old(store).rooms@.len() && (#[trigger] old(store).rooms@[j]).id
                            == custom_room_id && old(store).rooms@[j].user_id == user_id)
                    ||| (e == RoomError::UnknownUser && !all_users_known_except(
                        room_slots(old(store).slots@, custom_room_id as int),
                        old(store).users@,
                        user_id,
                    ))
                }
            },
        },
{
    match kick(custom_room_id, user_id, None, store) {
        Ok((dto, inner)) => {
            let user_ids = dto.get_all_user_ids_except(&user_id);
            let payload = user_id_payload_string(user_id);
            let msg = MultiForwardMessage::new(
                &user_ids,
                ServerMessage::new(route_string(), String::from_str("quit"), payload),
            );
            Ok((dto, msg))
        },
        Err(e) => Err(e),
    }
}

/// Deletes the room owned by `user_id` with every slot in it, and tells
/// the other former occupants with a `"delete"` message.
pub fn delete(user_id: i32, store: &mut Store) -> (r: Result<MultiForwardMessage, RoomError>)
    requires
        old(store).wf(),
    ensures
        final(store).wf(),
        match r {
            Ok(msg) => {
                &&& exists|j: int|
                    0 <= j < old(store).rooms@.len() && (#[trigger] old(store).rooms@[j]).user_id
                        == user_id && final(store).rooms@ == old(store).rooms@.remove(j)
                        && final(store).slots@ == crate::store::slots_without_room(
                        old(store).slots@,
                        old(store).rooms@[j].id as int,
                    ) && msg.ids@ == slot_user_ids_except(
                        room_slots(old(store).slots@, old(store).rooms@[j].id as int),
                        user_id,
                    )
                &&& final(store).users@ == old(store).users@
                &&& msg.message@ == envelope_json(
                    custom_room_route(),
                    "delete"@,
                    empty_payload(),
                )
            },
            Err(e) => {
                &&& *final(store) == *old(store)
                &&& e == RoomError::UnknownRoom
                &&& !crate::store::has_owner(old(store).rooms@, user_id as int)
            },
        },
{
    let tuple = match store.get_by_user_id(&user_id) {
        Some(t) => t,
        None => {
            return Err(RoomError::UnknownRoom);
        },
    };
    let ghost j0 = choose|j0: int|
        0 <= j0 < store.rooms@.len() && (#[trigger] store.rooms@[j0]).user_id == user_id && tuple.0@
            == store.rooms@[j0]@ && tuple.1@ == room_slots(
            store.slots@,
            store.rooms@[j0].id as int,
        );
    let ids = collect_slot_ids_except(&tuple.1, user_id);
    match store.delete_room(&user_id) {
        Ok(_snapshot) => {},
        Err(_) => {
            proof {
                assert(false);
            }
        },
    }
    proof {
        let j = choose|j: int|
            0 <= j < old(store).rooms@.len() && (#[trigger] old(store).rooms@[j]).user_id
                == user_id && store.rooms@ == old(store).rooms@.remove(j) && store.slots@
                == crate::store::slots_without_room(
                old(store).slots@,
                old(store).rooms@[j].id as int,
            );
        if j != j0 {
            if j < j0 {
                assert(old(store).rooms@[j].user_id != old(store).rooms@[j0].user_id);
            } else {
                assert(old(store).rooms@[j0].user_id != old(store).rooms@[j].user_id);
            }
        }
    }
    let payload = empty_payload_string();
    let msg = MultiForwardMessage::new(
        &ids,
        ServerMessage::new(route_string(), String::from_str("delete"), payload),
    );
    Ok(msg)
}

} // verus!

verus! {

use crate::custom_room::SwitchSlotData;
use crate::dtos::nickname_of;
use crate::store::patched_slot;
use crate::store::slot_with_archetype;

/// The payload of a position switch:
/// `{"user_id": N, "nickname": ..., "team": N, "team_position": N}`.
pub open spec fn slot_switch_payload(u: i32, nickname: Seq<char>, t: i32, p: i32) -> Seq<char> {
    "{\"user_id\":"@ + int_str(u as int) + ",\"nickname\":"@ + json_str(nickname) + ",\"team\":"@
        + int_str(t as int) + ",\"team_position\":"@ + int_str(p as int) + "}"@
}

fn slot_switch_payload_string(u: i32, nickname: &str, t: i32, p: i32) -> (r: String)
    ensures
        r@ == slot_switch_payload(u, nickname@, t, p),
{
    let mut out = String::new();
    out.append("{\"user_id\":");
    crate::dtos::push_i32(&mut out, u);
    out.append(",\"nickname\":");
    push_json_str(&mut out, nickname);
    out.append(",\"team\":");
    crate::dtos::push_i32(&mut out, t);
    out.append(",\"team_position\":");
    crate::dtos::push_i32(&mut out, p);
    out.append("}");
    proof {
        assert(out@ =~= slot_switch_payload(u, nickname@, t, p));
    }
    out
}

/// The payload of an archetype switch: `{"user_id": N, "archetype": ...}`.
pub open spec fn archetype_payload(u: i32, a: Archetypes) -> Seq<char> {
    "{\"user_id\":"@ + int_str(u as int) + ",\"archetype\":"@ + json_str(a.spec_name()) + "}"@
}

fn archetype_payload_string(u: i32, a: Archetypes) -> (r: String)
    ensures
        r@ == archetype_payload(u, a),
{
    let mut out = String::new();
    out.append("{\"user_id\":");
    crate::dtos::push_i32(&mut out, u);
    out.append(",\"archetype\":");
    let name = a.name();
    push_json_str(&mut out, name.as_str());
    out.append("}");
    proof {
        assert(out@ =~= archetype_payload(u, a));
    }
    out
}

/// Moves the caller's slot to a requested position, leaving the archetype
/// untouched, and tells the other occupants with a `"slot"` message. The
/// target must lie inside the team grid (`InvalidSlot`) and must not be
/// held by someone else (`SlotTaken`).
#[verifier::rlimit(100)]
pub fn switch_slot(
    custom_room_id: i32,
    user_id: i32,
    position: SwitchSlotData,
    store: &mut Store,
) -> (r: Result<(CustomRoomDto, MultiForwardMessage), RoomError>)
    requires
        old(store).wf(),
    ensures
        final(store).wf(),
        match r {
            Ok(t) => {
                &&& exists|j: int|
                    0 <= j < old(store).rooms@.len() && (#[trigger] old(store).rooms@[j]).id
                        == custom_room_id && 0 <= position.team < old(store).rooms@[j].nb_teams && 0
                        <= position.team_position < old(store).rooms@[j].max_player_per_team && t.0@
                        == spec_room_dto(
                        old(store).rooms@[j]@,
                        room_slots(final(store).slots@, custom_room_id as int),
                        old(store).users@,
                    )
                &&& exists|k: int|
                    0 <= k < old(store).slots@.len() && (#[trigger] old(store).slots@[k]).user_id
                        == user_id && old(store).slots@[k].custom_room_id == custom_room_id
                        && final(store).slots@ == old(store).slots@.update(
                        k,
                        CustomRoomSlot {
                            id: old(store).slots@[k].id,
                            custom_room_id: old(store).slots@[k].custom_room_id,
                            team: position.team,
                            team_position: position.team_position,
                            user_id: old(store).slots@[k].user_id,
                            current_archetype: old(store).slots@[k].current_archetype,
                        },
                    )
                &&& !occupied_by_other(
                    room_slots(old(store).slots@, custom_room_id as int),
                    position.team as int,
                    position.team_position as int,
                    user_id as int,
                )
                &&& final(store).rooms@ == old(store).rooms@
                &&& final(store).users@ == old(store).users@
                &&& t.1.ids@ == user_ids_except(t.0@.slots, user_id)
                &&& t.1.message@ == envelope_json(
                    custom_room_route(),
                    "slot"@,
                    slot_switch_payload(
                        user_id,
                        nickname_of(old(store).users@, user_id as int),
                        position.team,
                        position.team_position,
                    ),
                )
            },
            Err(e) => {
                &&& *final(store) == *old(store)
                &&& {
                    ||| (e == RoomError::UnknownRoom && !has_room_id(
                        old(store).rooms@,
                        custom_room_id as int,
                    ))
                    ||| (e == RoomError::InvalidSlot && exists|j: int|
                        0 <= j < old(store).rooms@.len() && (#[trigger] old(store).rooms@[j]).id
                            == custom_room_id && !(0 <= position.team < old(
                            store,
                        ).rooms@[j].nb_teams && 0 <= position.team_position < old(
                            store,
                        ).rooms@[j].max_player_per_team))
                    ||| (e == RoomError::SlotTaken && (exists|j: int|
                        0 <= j < old(store).rooms@.len() && (#[trigger] old(store).rooms@[j]).id
                            == custom_room_id && 0 <= position.team < old(store).rooms@[j].nb_teams
                            && 0 <= position.team_position < old(
                            store,
                        ).rooms@[j].max_player_per_team) && occupied_by_other(
                        room_slots(old(store).slots@, custom_room_id as int),
                        position.team as int,
                        position.team_position as int,
                        user_id as int,
                    ))
                    ||| (e == RoomError::UnknownUser && (exists|j: int|
                        0 <= j < old(store).rooms@.len() && (#[trigger] old(store).rooms@[j]).id
                            == custom_room_id && 0 <= position.team < old(store).rooms@[j].nb_teams
                            && 0 <= position.team_position < old(
                            store,
                        ).rooms@[j].max_player_per_team) && !occupied_by_other(
                        room_slots(old(store).slots@, custom_room_id as int),
                        position.team as int,
                        position.team_position as int,
                        user_id as int,
                    ) && !all_users_known(
                        room_slots(old(store).slots@, custom_room_id as int),
                        old(store).users@,
                    ))
                    ||| (e == RoomError::NoSuchSlot && (exists|j: int|
                        0 <= j < old(store).rooms@.len() && (#[trigger] old(store).rooms@[j]).id
                            == custom_room_id && 0 <= position.team < old(store).rooms@[j].nb_teams
                            && 0 <= position.team_position < old(
                            store,
                        ).rooms@[j].max_player_per_team) && !occupied_by_other(
                        room_slots(old(store).slots@, custom_room_id as int),
                        position.team as int,
                        position.team_position as int,
                        user_id as int,
                    ) && all_users_known(
                        room_slots(old(store).slots@, custom_room_id as int),
                        old(store).users@,
                    ) && !exists|k: int|
                        0 <= k < old(store).slots@.len() && (#[trigger] old(
                            store,
                        ).slots@[k]).user_id == user_id && old(store).slots@[k].custom_room_id
                            == custom_room_id)
                }
            },
        },
{
    let tuple = match store.get(&custom_room_id) {
        Some(t) => t,
        None => {
            return Err(RoomError::UnknownRoom);
        },
    };
    let ghost j = choose|j: int|
        0 <= j < store.rooms@.len() && (#[trigger] store.rooms@[j]).id == custom_room_id
            && tuple.0@ == store.rooms@[j]@ && tuple.1@ == room_slots(
            store.slots@,
            custom_room_id as int,
        );
    let form = match CustomRoomSlotForm::new_from_switch_slot(
        &custom_room_id,
        &user_id,
        &position,
        &tuple,
    ) {
        Ok(f) => f,
        Err(e) => {
            return Err(e);
        },
    };
    if !users_known(store, &tuple.1) {
        return Err(RoomError::UnknownUser);
    }
    let snapshot = match store.update_slot(&user_id, &form) {
        Ok(t) => t,
        Err(e) => {
            proof {
                lemma_occupied_by_other_bridge(
                    old(store).slots@,
                    custom_room_id as int,
                    position.team as int,
                    position.team_position as int,
                    user_id as int,
                );
                if e == RoomError::InvalidSlot {
                    let j2 = choose|j2: int|
                        0 <= j2 < old(store).rooms@.len() && (#[trigger] old(store).rooms@[j2]).id
                            == form.custom_room_id && !(0 <= form.team < old(
                            store,
                        ).rooms@[j2].nb_teams && 0 <= form.team_position < old(
                            store,
                        ).rooms@[j2].max_player_per_team);
                    if j2 != j {
                        if j2 < j {
                            assert(old(store).rooms@[j2].id != old(store).rooms@[j].id);
                        } else {
                            assert(old(store).rooms@[j].id != old(store).rooms@[j2].id);
                        }
                    }
                    assert(false);
                }
                if e == RoomError::SlotTaken {
                    assert(false);
                }
                if e == RoomError::UnknownRoom {
                    assert(false);
                }
            }
            return Err(e);
        },
    };
    proof {
        broadcast use vstd::seq_lib::group_filter_ensures;
        broadcast use Seq::lemma_filter_contains_rev;

        let k = choose|k: int|
            0 <= k < old(store).slots@.len() && (#[trigger] old(store).slots@[k]).user_id
                == user_id && old(store).slots@[k].custom_room_id == custom_room_id && store.slots@
                == old(store).slots@.update(k, patched_slot(old(store).slots@[k], form));
        let rs_new = room_slots(store.slots@, custom_room_id as int);
        assert forall|i: int|
            0 <= i < rs_new.len() implies has_user_id(
            store.users@,
            (#[trigger] rs_new[i]).user_id as int,
        ) by {
            assert(rs_new.contains(rs_new[i]));
            assert(store.slots@.contains(rs_new[i]));
            let w = choose|w: int| 0 <= w < store.slots@.len() && store.slots@[w] == rs_new[i];
            if w == k {
                assert(store.slots@[w].user_id == user_id);
                assert(old(store).slots@[k].custom_room_id == custom_room_id);
                assert(room_slots(old(store).slots@, custom_room_id as int).contains(
                    old(store).slots@[k],
                ));
                let v = choose|v: int|
                    0 <= v < tuple.1@.len() && tuple.1@[v] == old(store).slots@[k];
            } else {
                assert(store.slots@[w] == old(store).slots@[w]);
                assert(room_slots(old(store).slots@, custom_room_id as int).contains(
                    old(store).slots@[w],
                ));
                let v = choose|v: int|
                    0 <= v < tuple.1@.len() && tuple.1@[v] == old(store).slots@[w];
            }
        }
    }
    let dto = match CustomRoomDto::new(snapshot, store) {
        Ok(d) => d,
        Err(_) => vstd::pervasive::unreached(),
    };
    let user = match store.get_user(&user_id) {
        Some(u) => u,
        None => {
            proof {
                let k = choose|k: int|
                    0 <= k < old(store).slots@.len() && (#[trigger] old(store).slots@[k]).user_id
                        == user_id && old(store).slots@[k].custom_room_id == custom_room_id;
                broadcast use vstd::seq_lib::group_filter_ensures;
                broadcast use Seq::lemma_filter_contains;

                assert(room_slots(old(store).slots@, custom_room_id as int).contains(
                    old(store).slots@[k],
                ));
                let v = choose|v: int|
                    0 <= v < tuple.1@.len() && tuple.1@[v] == old(store).slots@[k];
                assert(false);
            }
            vstd::pervasive::unreached()
        },
    };
    proof {
        let w = choose|w: int|
            0 <= w < store.users@.len() && (#[trigger] store.users@[w]).id == user_id && user@
                == store.users@[w]@;
        let c = choose|c: int|
            0 <= c < store.users@.len() && (#[trigger] store.users@[c]).id == user_id as int;
        if w != c {
            if w < c {
                assert(store.users@[w].id != store.users@[c].id);
            } else {
                assert(store.users@[c].id != store.users@[w].id);
            }
        }
    }
    let payload = slot_switch_payload_string(
        user_id,
        user.nickname.as_str(),
        position.team,
        position.team_position,
    );
    let user_ids = dto.get_all_user_ids_except(&user_id);
    let msg = MultiForwardMessage::new(
        &user_ids,
        ServerMessage::new(route_string(), String::from_str("slot"), payload),
    );
    Ok((dto, msg))
}

} // verus!

verus! {

use crate::custom_room::player_matches;
use crate::custom_room::StartMatchmakingRequest;
use crate::text::uuid_str;

/// Replaces the archetype of the caller's slot and tells the other
/// occupants with a `"select-archetype"` message. No capacity or
/// uniqueness concern applies.
#[verifier::rlimit(100)]
pub fn switch_archetype(
    custom_room_id: i32,
    archetype: Archetypes,
    user_id: i32,
    store: &mut Store,
) -> (r: Result<(CustomRoomDto, MultiForwardMessage), RoomError>)
    requires
        old(store).wf(),
    ensures
        final(store).wf(),
        match r {
            Ok(t) => {
                &&& exists|j: int|
                    0 <= j < old(store).rooms@.len() && (#[trigger] old(store).rooms@[j]).id
                        == custom_room_id && t.0@ == spec_room_dto(
                        old(store).rooms@[j]@,
                        room_slots(final(store).slots@, custom_room_id as int),
                        old(store).users@,
                    )
                &&& exists|k: int|
                    0 <= k < old(store).slots@.len() && (#[trigger] old(store).slots@[k]).user_id
                        == user_id && old(store).slots@[k].custom_room_id == custom_room_id
                        && final(store).slots@ == old(store).slots@.update(
                        k,
                        slot_with_archetype(old(store).slots@[k], archetype),
                    )
                &&& final(store).rooms@ == old(store).rooms@
                &&& final(store).users@ == old(store).users@
                &&& t.1.ids@ == user_ids_except(t.0@.slots, user_id)
                &&& t.1.message@ == envelope_json(
                    custom_room_route(),
                    "select-archetype"@,
                    archetype_payload(user_id, archetype),
                )
            },
            Err(e) => {
                &&& *final(store) == *old(store)
                &&& {
                    ||| (e == RoomError::UnknownRoom && !has_room_id(
                        old(store).rooms@,
                        custom_room_id as int,
                    ))
                    ||| (e == RoomError::UnknownUser && !all_users_known(
                        room_slots(old(store).slots@, custom_room_id as int),
                        old(store).users@,
                    ))
                    ||| (e == RoomError::NoSuchSlot && !exists|k: int|
                        0 <= k < old(store).slots@.len() && (#[trigger] old(
                            store,
                        ).slots@[k]).user_id == user_id && old(store).slots@[k].custom_room_id
                            == custom_room_id)
                }
            },
        },
{
    let tuple = match store.get(&custom_room_id) {
        Some(t) => t,
        None => {
            return Err(RoomError::UnknownRoom);
        },
    };
    let ghost j = choose|j: int|
        0 <= j < store.rooms@.len() && (#[trigger] store.rooms@[j]).id == custom_room_id
            && tuple.0@ == store.rooms@[j]@ && tuple.1@ == room_slots(
            store.slots@,
            custom_room_id as int,
        );
    if !users_known(store, &tuple.1) {
        return Err(RoomError::UnknownUser);
    }
    let snapshot = match store.update_slot_archetype(&user_id, &custom_room_id, &archetype) {
        Ok(t) => t,
        Err(e) => {
            proof {
                if e == RoomError::UnknownRoom {
                    assert(false);
                }
            }
            return Err(e);
        },
    };
    proof {
        broadcast use vstd::seq_lib::group_filter_ensures;
        broadcast use Seq::lemma_filter_contains_rev;

        let k = choose|k: int|
            0 <= k < old(store).slots@.len() && (#[trigger] old(store).slots@[k]).user_id
                == user_id && old(store).slots@[k].custom_room_id == custom_room_id && store.slots@
                == old(store).slots@.update(k, slot_with_archetype(old(store).slots@[k], archetype));
        let rs_new = room_slots(store.slots@, custom_room_id as int);
        assert forall|i: int|
            0 <= i < rs_new.len() implies has_user_id(
            store.users@,
            (#[trigger] rs_new[i]).user_id as int,
        ) by {
            assert(rs_new.contains(rs_new[i]));
            assert(store.slots@.contains(rs_new[i]));
            let w = choose|w: int| 0 <= w < store.slots@.len() && store.slots@[w] == rs_new[i];
            let ghost orig = if w == k {
                old(store).slots@[k]
            } else {
                old(store).slots@[w]
            };
            assert(store.slots@[w].user_id == orig.user_id);
            assert(orig.custom_room_id == custom_room_id);
            assert(room_slots(old(store).slots@, custom_room_id as int).contains(orig));
            let v = choose|v: int| 0 <= v < tuple.1@.len() && tuple.1@[v] == orig;
        }
    }
    let dto = match CustomRoomDto::new(snapshot, store) {
        Ok(d) => d,
        Err(_) => vstd::pervasive::unreached(),
    };
    let payload = archetype_payload_string(user_id, archetype);
    let user_ids = dto.get_all_user_ids_except(&user_id);
    let msg = MultiForwardMessage::new(
        &user_ids,
        ServerMessage::new(route_string(), String::from_str("select-archetype"), payload),
    );
    Ok((dto, msg))
}

/// Validates a matchmaking start and builds the request handed to the
/// external service: the acting user must own the room (`Forbidden`) and
/// no ticket may be outstanding (`AlreadySearching`). Nothing is mutated;
/// the ticket is recorded only by `start_matchmaking_commit`, after the
/// external service has acknowledged the request.
pub fn start_matchmaking_request(
    custom_room_id: i32,
    user_id: i32,
    ticket_id: u128,
    store: &Store,
) -> (r: Result<StartMatchmakingRequest, RoomError>)
    requires
        store.wf(),
    ensures
        match r {
            Ok(req) => {
                &&& exists|j: int|
                    0 <= j < store.rooms@.len() && (#[trigger] store.rooms@[j]).id
                        == custom_room_id && store.rooms@[j].user_id == user_id
                        && store.rooms@[j].matchmaking_ticket is None
                &&& req.configuration_name@ == "CustomGame"@
                &&& req.ticket_id@ == uuid_str(ticket_id)
                &&& req.players@.len() == room_slots(store.slots@, custom_room_id as int).len()
                &&& forall|i: int|
                    0 <= i < req.players@.len() ==> player_matches(
                        #[trigger] req.players@[i],
                        room_slots(store.slots@, custom_room_id as int)[i],
                    )
            },
            Err(e) => {
                ||| (e == RoomError::UnknownRoom && !has_room_id(
                    store.rooms@,
                    custom_room_id as int,
                ))
                ||| (e == RoomError::Forbidden && exists|j: int|
                    0 <= j < store.rooms@.len() && (#[trigger] store.rooms@[j]).id
                        == custom_room_id && store.rooms@[j].user_id != user_id)
                ||| (e == RoomError::AlreadySearching && exists|j: int|
                    0 <= j < store.rooms@.len() && (#[trigger] store.rooms@[j]).id
                        == custom_room_id && store.rooms@[j].user_id == user_id
                        && store.rooms@[j].matchmaking_ticket is Some)
            },
        },
{
    let tuple = match store.get(&custom_room_id) {
        Some(t) => t,
        None => {
            return Err(RoomError::UnknownRoom);
        },
    };
    if tuple.0.user_id != user_id {
        return Err(RoomError::Forbidden);
    }
    if tuple.0.matchmaking_ticket.is_some() {
        return Err(RoomError::AlreadySearching);
    }
    Ok(tuple.0.get_start_matchmaking_input(&tuple.1, &ticket_id))
}

/// Records an acknowledged matchmaking start: binds the fresh ticket to
/// the room and tells the other occupants with `"start-matchmaking"`.
#[verifier::rlimit(100)]
pub fn start_matchmaking_commit(
    custom_room_id: i32,
    user_id: i32,
    ticket_id: u128,
    store: &mut Store,
) -> (r: Result<MultiForwardMessage, RoomError>)
    requires
        old(store).wf(),
    ensures
        final(store).wf(),
        match r {
            Ok(msg) => {
                &&& exists|j: int|
                    0 <= j < old(store).rooms@.len() && (#[trigger] old(store).rooms@[j]).id
                        == custom_room_id && old(store).rooms@[j].user_id == user_id && old(
                        store,
                    ).rooms@[j].matchmaking_ticket is None && final(store).rooms@ == old(
                        store,
                    ).rooms@.update(
                        j,
                        crate::store::with_ticket(old(store).rooms@[j], Some(ticket_id)),
                    )
                &&& final(store).slots@ == old(store).slots@
                &&& final(store).users@ == old(store).users@
                &&& msg.ids@ == slot_user_ids_except(
                    room_slots(old(store).slots@, custom_room_id as int),
                    user_id,
                )
                &&& msg.message@ == envelope_json(
                    custom_room_route(),
                    "start-matchmaking"@,
                    empty_payload(),
                )
            },
            Err(e) => {
                &&& *final(store) == *old(store)
                &&& {
                    ||| (e == RoomError::UnknownRoom && !has_room_id(
                        old(store).rooms@,
                        custom_room_id as int,
                    ))
                    ||| (e == RoomError::Forbidden && exists|j: int|
                        0 <= j < old(store).rooms@.len() && (#[trigger] old(store).rooms@[j]).id
                            == custom_room_id && old(store).rooms@[j].user_id != user_id)
                    ||| (e == RoomError::AlreadySearching && exists|j: int|
                        0 <= j < old(store).rooms@.len() && (#[trigger] old(store).rooms@[j]).id
                            == custom_room_id && old(store).rooms@[j].matchmaking_ticket is Some)
                    ||| (e == RoomError::TicketInUse && exists|k: int|
                        0 <= k < old(store).rooms@.len() && (#[trigger] old(
                            store,
                        ).rooms@[k]).matchmaking_ticket == Some(ticket_id) && old(
                            store,
                        ).rooms@[k].id != custom_room_id)
                }
            },
        },
{
    let tuple = match store.get(&custom_room_id) {
        Some(t) => t,
        None => {
            return Err(RoomError::UnknownRoom);
        },
    };
    if tuple.0.user_id != user_id {
        return Err(RoomError::Forbidden);
    }
    if tuple.0.matchmaking_ticket.is_some() {
        return Err(RoomError::AlreadySearching);
    }
    let ids = collect_slot_ids_except(&tuple.1, user_id);
    match store.update_ticket(&custom_room_id, &Some(ticket_id)) {
        Ok(()) => {},
        Err(e) => {
            proof {
                if e == RoomError::UnknownRoom {
                    assert(false);
                }
            }
            return Err(e);
        },
    }
    let payload = empty_payload_string();
    let msg = MultiForwardMessage::new(
        &ids,
        ServerMessage::new(route_string(), String::from_str("start-matchmaking"), payload),
    );
    Ok(msg)
}

/// Validates a matchmaking stop and hands back the outstanding ticket the
/// external service must cancel. Nothing is mutated; the ticket is cleared
/// only by `stop_matchmaking_commit`, after the cancellation succeeded.
pub fn stop_matchmaking_request(custom_room_id: i32, user_id: i32, store: &Store) -> (r: Result<
    u128,
    RoomError,
>)
    requires
        store.wf(),
    ensures
        match r {
            Ok(t) => exists|j: int|
                0 <= j < store.rooms@.len() && (#[trigger] store.rooms@[j]).id == custom_room_id
                    && store.rooms@[j].user_id == user_id && store.rooms@[j].matchmaking_ticket
                    == Some(t),
            Err(e) => {
                ||| (e == RoomError::UnknownRoom && !has_room_id(
                    store.rooms@,
                    custom_room_id as int,
                ))
                ||| (e == RoomError::Forbidden && exists|j: int|
                    0 <= j < store.rooms@.len() && (#[trigger] store.rooms@[j]).id
                        == custom_room_id && store.rooms@[j].user_id != user_id)
                ||| (e == RoomError::NotSearching && exists|j: int|
                    0 <= j < store.rooms@.len() && (#[trigger] store.rooms@[j]).id
                        == custom_room_id && store.rooms@[j].user_id == user_id
                        && store.rooms@[j].matchmaking_ticket is None)
            },
        },
{
    let tuple = match store.get(&custom_room_id) {
        Some(t) => t,
        None => {
            return Err(RoomError::UnknownRoom);
        },
    };
    if tuple.0.user_id != user_id {
        return Err(RoomError::Forbidden);
    }
    match tuple.0.matchmaking_ticket {
        Some(t) => Ok(t),
        None => Err(RoomError::NotSearching),
    }
}

/// Records an acknowledged matchmaking stop: clears the room's ticket and
/// tells the other occupants with `"stop-matchmaking"`.
pub fn stop_matchmaking_commit(custom_room_id: i32, user_id: i32, store: &mut Store) -> (r: Result<
    MultiForwardMessage,
    RoomError,
>)
    requires
        old(store).wf(),
    ensures
        final(store).wf(),
        match r {
            Ok(msg) => {
                &&& exists|j: int|
                    0 <= j < old(store).rooms@.len() && (#[trigger] old(store).rooms@[j]).id
                        == custom_room_id && old(store).rooms@[j].user_id == user_id && old(
                        store,
                    ).rooms@[j].matchmaking_ticket is Some && final(store).rooms@ == old(
                        store,
                    ).rooms@.update(j, crate::store::with_ticket(old(store).rooms@[j], None))
                &&& final(store).slots@ == old(store).slots@
                &&& final(store).users@ == old(store).users@
                &&& msg.ids@ == slot_user_ids_except(
                    room_slots(old(store).slots@, custom_room_id as int),
                    user_id,
                )
                &&& msg.message@ == envelope_json(
                    custom_room_route(),
                    "stop-matchmaking"@,
                    empty_payload(),
                )
            },
            Err(e) => {
                &&& *final(store) == *old(store)
                &&& {
                    ||| (e == RoomError::UnknownRoom && !has_room_id(
                        old(store).rooms@,
                        custom_room_id as int,
                    ))
                    ||| (e == RoomError::Forbidden && exists|j: int|
                        0 <= j < old(store).rooms@.len() && (#[trigger] old(store).rooms@[j]).id
                            == custom_room_id && old(store).rooms@[j].user_id != user_id)
                    ||| (e == RoomError::NotSearching && exists|j: int|
                        0 <= j < old(store).rooms@.len() && (#[trigger] old(store).rooms@[j]).id
                            == custom_room_id && old(store).rooms@[j].matchmaking_ticket is None)
                }
            },
        },
{
    let tuple = match store.get(&custom_room_id) {
        Some(t) => t,
        None => {
            return Err(RoomError::UnknownRoom);
        },
    };
    if tuple.0.user_id != user_id {
        return Err(RoomError::Forbidden);
    }
    if tuple.0.matchmaking_ticket.is_none() {
        return Err(RoomError::NotSearching);
    }
    let ids = collect_slot_ids_except(&tuple.1, user_id);
    match store.update_ticket(&custom_room_id, &None) {
        Ok(()) => {},
        Err(_) => {
            proof {
                assert(false);
            }
        },
    }
    let payload = empty_payload_string();
    let msg = MultiForwardMessage::new(
        &ids,
        ServerMessage::new(route_string(), String::from_str("stop-matchmaking"), payload),
    );
    Ok(msg)
}

} // verus!

verus! {

use crate::aws::uuid_of;
use crate::aws::FlexMatchData;
use crate::aws::FlexMatchEvents;
use crate::aws::FlexMatchPlayerGameSession;
use crate::aws::FlexMatchSucceededDetail;
use crate::websocket::ForwardMessage;

/// The session payload one matched player receives:
/// `{"ip_address": ..., "port": N, "player_id": ..., "player_session_id": ...}`.
pub open spec fn succeeded_payload(
    ip: Seq<char>,
    port: i32,
    player_id: Seq<char>,
    session: Seq<char>,
) -> Seq<char> {
    "{\"ip_address\":"@ + json_str(ip) + ",\"port\":"@ + int_str(port as int) + ",\"player_id\":"@
        + json_str(player_id) + ",\"player_session_id\":"@ + json_str(session) + "}"@
}

fn succeeded_payload_string(ip: &str, port: i32, player_id: &str, session: &str) -> (r: String)
    ensures
        r@ == succeeded_payload(ip@, port, player_id@, session@),
{
    let mut out = String::new();
    out.append("{\"ip_address\":");
    push_json_str(&mut out, ip);
    out.append(",\"port\":");
    crate::dtos::push_i32(&mut out, port);
    out.append(",\"player_id\":");
    push_json_str(&mut out, player_id);
    out.append(",\"player_session_id\":");
    push_json_str(&mut out, session);
    out.append("}");
    proof {
        assert(out@ =~= succeeded_payload(ip@, port, player_id@, session@));
    }
    out
}

/// The payload of a failed matchmaking attempt: `{"reason": ...}`.
pub open spec fn failed_payload(reason: Seq<char>) -> Seq<char> {
    "{\"reason\":"@ + json_str(reason) + "}"@
}

fn failed_payload_string(reason: FlexMatchEvents) -> (r: String)
    ensures
        r@ == failed_payload(reason.spec_name()),
{
    let mut out = String::new();
    out.append("{\"reason\":");
    let name = reason.name();
    push_json_str(&mut out, name.as_str());
    out.append("}");
    proof {
        assert(out@ =~= failed_payload(reason.spec_name()));
    }
    out
}

/// The first player entry with the given player id, scanning from `k`.
pub open spec fn find_player_from(
    players: Seq<FlexMatchPlayerGameSession>,
    uid_str: Seq<char>,
    k: int,
) -> Option<FlexMatchPlayerGameSession>
    decreases players.len() - k,
{
    if k < 0 || k >= players.len() {
        None
    } else if players[k].player_id@ == uid_str {
        Some(players[k])
    } else {
        find_player_from(players, uid_str, k + 1)
    }
}

/// The first player entry with the given player id.
pub open spec fn find_player(
    players: Seq<FlexMatchPlayerGameSession>,
    uid_str: Seq<char>,
) -> Option<FlexMatchPlayerGameSession> {
    find_player_from(players, uid_str, 0)
}

fn find_player_exec<'a>(players: &'a Vec<FlexMatchPlayerGameSession>, uid_str: &str) -> (r: Option<
    &'a FlexMatchPlayerGameSession,
>)
    ensures
        match r {
            Some(p) => find_player(players@, uid_str@) == Some(*p),
            None => find_player(players@, uid_str@) is None,
        },
{
    let mut k: usize = 0;
    while k < players.len()
        invariant
            k <= players@.len(),
            find_player(players@, uid_str@) == find_player_from(players@, uid_str@, k as int),
        decreases players@.len() - k,
    {
        if crate::text::str_eq(players[k].player_id.as_str(), uid_str) {
            return Some(&players[k]);
        }
        k += 1;
    }
    None
}

/// The unicast messages a succeeded match produces: for each slot, in slot
/// order, the session payload of the first player entry carrying that
/// occupant's id; occupants without an entry receive nothing.
pub open spec fn succ_msgs(
    slots: Seq<CustomRoomSlot>,
    players: Seq<FlexMatchPlayerGameSession>,
    ip: Seq<char>,
    port: i32,
) -> Seq<(i32, Seq<char>)>
    decreases slots.len(),
{
    if slots.len() == 0 {
        Seq::empty()
    } else {
        succ_msgs(slots.drop_last(), players, ip, port) + match find_player(
            players,
            int_str(slots.last().user_id as int),
        ) {
            Some(p) => seq![
                (
                    slots.last().user_id,
                    envelope_json(
                        custom_room_route(),
                        "matchmaking-succeeded"@,
                        succeeded_payload(ip, port, p.player_id@, p.player_session_id@),
                    ),
                ),
            ],
            None => Seq::empty(),
        }
    }
}

/// The views of a list of unicast messages.
pub open spec fn fwd_msgs_view(s: Seq<ForwardMessage>) -> Seq<(i32, Seq<char>)> {
    s.map_values(|m: ForwardMessage| (m.id, m.message@))
}

/// Reacts to a succeeded match: each occupant named in the notification's
/// player list receives exactly one unicast with their own session
/// coordinates, and the room is deleted unconditionally. A notification
/// whose ticket matches no room is stale: it is refused without mutation.
#[verifier::rlimit(100)]
pub fn matchmaking_succeeded(data: FlexMatchData<FlexMatchSucceededDetail>, store: &mut Store) -> (r:
    Result<Vec<ForwardMessage>, RoomError>)
    requires
        old(store).wf(),
    ensures
        final(store).wf(),
        match r {
            Ok(msgs) => {
                &&& data.detail.tickets@.len() > 0
                &&& exists|j: int|
                    0 <= j < old(store).rooms@.len() && (#[trigger] old(
                        store,
                    ).rooms@[j]).matchmaking_ticket is Some && old(
                        store,
                    ).rooms@[j].matchmaking_ticket == uuid_of(data.detail.tickets@[0].ticket_id@)
                        && final(store).rooms@ == old(store).rooms@.remove(j) && final(store).slots@
                        == crate::store::slots_without_room(
                        old(store).slots@,
                        old(store).rooms@[j].id as int,
                    ) && fwd_msgs_view(msgs@) == succ_msgs(
                        room_slots(old(store).slots@, old(store).rooms@[j].id as int),
                        data.detail.game_session_info.players@,
                        data.detail.game_session_info.ip_address@,
                        data.detail.game_session_info.port,
                    )
                &&& final(store).users@ == old(store).users@
            },
            Err(e) => {
                &&& e == RoomError::UnknownTicket
                &&& *final(store) == *old(store)
                &&& (data.detail.tickets@.len() == 0 || uuid_of(data.detail.tickets@[0].ticket_id@)
                    is None || forall|j: int|
                    0 <= j < old(store).rooms@.len() ==> !((#[trigger] old(
                        store,
                    ).rooms@[j]).matchmaking_ticket is Some && old(
                        store,
                    ).rooms@[j].matchmaking_ticket == uuid_of(data.detail.tickets@[0].ticket_id@)))
            },
        },
{
    if data.detail.tickets.len() == 0 {
        return Err(RoomError::UnknownTicket);
    }
    let t = match crate::aws::parse_ticket(data.detail.tickets[0].ticket_id.as_str()) {
        Some(t) => t,
        None => {
            return Err(RoomError::UnknownTicket);
        },
    };
    let tuple = match store.get_by_ticket_id(t) {
        Some(x) => x,
        None => {
            return Err(RoomError::UnknownTicket);
        },
    };
    let ghost j = choose|j: int|
        0 <= j < store.rooms@.len() && (#[trigger] store.rooms@[j]).matchmaking_ticket == Some(t)
            && tuple.0@ == store.rooms@[j]@ && tuple.1@ == room_slots(
            store.slots@,
            store.rooms@[j].id as int,
        );
    let mut msgs: Vec<ForwardMessage> = Vec::new();
    let mut i: usize = 0;
    proof {
        assert(fwd_msgs_view(msgs@) =~= succ_msgs(
            tuple.1@.take(0),
            data.detail.game_session_info.players@,
            data.detail.game_session_info.ip_address@,
            data.detail.game_session_info.port,
        ));
    }
    while i < tuple.1.len()
        invariant
            i <= tuple.1@.len(),
            fwd_msgs_view(msgs@) == succ_msgs(
                tuple.1@.take(i as int),
                data.detail.game_session_info.players@,
                data.detail.game_session_info.ip_address@,
                data.detail.game_session_info.port,
            ),
        decreases tuple.1@.len() - i,
    {
        let slot_user_id = tuple.1[i].user_id;
        let uid_str = crate::text::i32_to_string(slot_user_id);
        match find_player_exec(&data.detail.game_session_info.players, uid_str.as_str()) {
            Some(player) => {
                let payload = succeeded_payload_string(
                    data.detail.game_session_info.ip_address.as_str(),
                    data.detail.game_session_info.port,
                    player.player_id.as_str(),
                    player.player_session_id.as_str(),
                );
                let msg = ForwardMessage::new(
                    &slot_user_id,
                    ServerMessage::new(
                        route_string(),
                        String::from_str("matchmaking-succeeded"),
                        payload,
                    ),
                );
                msgs.push(msg);
            },
            None => {},
        }
        proof {
            assert(tuple.1@.take(i as int + 1).drop_last() =~= tuple.1@.take(i as int));
            assert(tuple.1@.take(i as int + 1).last() == tuple.1@[i as int]);
            assert(fwd_msgs_view(msgs@) =~= succ_msgs(
                tuple.1@.take(i as int + 1),
                data.detail.game_session_info.players@,
                data.detail.game_session_info.ip_address@,
                data.detail.game_session_info.port,
            ));
        }
        i += 1;
    }
    proof {
        assert(tuple.1@.take(tuple.1@.len() as int) =~= tuple.1@);
    }
    match store.delete_room(&tuple.0.user_id) {
        Ok(_snapshot) => {},
        Err(_) => {
            proof {
                assert(false);
            }
        },
    }
    proof {
        let j2 = choose|j2: int|
            0 <= j2 < old(store).rooms@.len() && (#[trigger] old(store).rooms@[j2]).user_id
                == tuple.0.user_id && store.rooms@ == old(store).rooms@.remove(j2) && store.slots@
                == crate::store::slots_without_room(
                old(store).slots@,
                old(store).rooms@[j2].id as int,
            );
        if j2 != j {
            if j2 < j {
                assert(old(store).rooms@[j2].user_id != old(store).rooms@[j].user_id);
            } else {
                assert(old(store).rooms@[j].user_id != old(store).rooms@[j2].user_id);
            }
        }
    }
    Ok(msgs)
}

/// Reacts to a failed, timed-out or cancelled match: the occupants learn
/// the reason with one `"matchmaking-failed"` broadcast and the room's
/// ticket is cleared, returning the room to its open state. A notification
/// whose ticket matches no room is stale and changes nothing.
pub fn matchmaking_failed(
    reason: FlexMatchEvents,
    ticket_id: &str,
    store: &mut Store,
) -> (r: Result<MultiForwardMessage, RoomError>)
    requires
        old(store).wf(),
    ensures
        final(store).wf(),
        match r {
            Ok(msg) => {
                &&& exists|j: int|
                    0 <= j < old(store).rooms@.len() && (#[trigger] old(
                        store,
                    ).rooms@[j]).matchmaking_ticket is Some && old(
                        store,
                    ).rooms@[j].matchmaking_ticket == uuid_of(ticket_id@) && final(store).rooms@
                        == old(store).rooms@.update(
                        j,
                        crate::store::with_ticket(old(store).rooms@[j], None),
                    ) && msg.ids@ == slot_user_ids(
                        room_slots(old(store).slots@, old(store).rooms@[j].id as int),
                    )
                &&& final(store).slots@ == old(store).slots@
                &&& final(store).users@ == old(store).users@
                &&& msg.message@ == envelope_json(
                    custom_room_route(),
                    "matchmaking-failed"@,
                    failed_payload(reason.spec_name()),
                )
            },
            Err(e) => {
                &&& e == RoomError::UnknownTicket
                &&& *final(store) == *old(store)
                &&& (uuid_of(ticket_id@) is None || forall|j: int|
                    0 <= j < old(store).rooms@.len() ==> !((#[trigger] old(
                        store,
                    ).rooms@[j]).matchmaking_ticket is Some && old(
                        store,
                    ).rooms@[j].matchmaking_ticket == uuid_of(ticket_id@)))
            },
        },
{
    let t = match crate::aws::parse_ticket(ticket_id) {
        Some(t) => t,
        None => {
            return Err(RoomError::UnknownTicket);
        },
    };
    let tuple = match store.get_by_ticket_id(t) {
        Some(x) => x,
        None => {
            return Err(RoomError::UnknownTicket);
        },
    };
    let ghost j = choose|j: int|
        0 <= j < store.rooms@.len() && (#[trigger] store.rooms@[j]).matchmaking_ticket == Some(t)
            && tuple.0@ == store.rooms@[j]@ && tuple.1@ == room_slots(
            store.slots@,
            store.rooms@[j].id as int,
        );
    let mut user_ids: Vec<i32> = Vec::new();
    let mut i: usize = 0;
    while i < tuple.1.len()
        invariant
            i <= tuple.1@.len(),
            user_ids@.len() == i,
            forall|k: int| 0 <= k < i ==> user_ids@[k] == (#[trigger] tuple.1@[k]).user_id,
        decreases tuple.1@.len() - i,
    {
        user_ids.push(tuple.1[i].user_id);
        i += 1;
    }
    proof {
        assert(user_ids@ =~= slot_user_ids(tuple.1@));
    }
    let payload = failed_payload_string(reason);
    let msg = MultiForwardMessage::new(
        &user_ids,
        ServerMessage::new(route_string(), String::from_str("matchmaking-failed"), payload),
    );
    let room_id = tuple.0.id;
    match store.update_ticket(&room_id, &None) {
        Ok(()) => {},
        Err(_) => {
            proof {
                assert(false);
            }
        },
    }
    proof {
        let j2 = choose|j2: int|
            0 <= j2 < old(store).rooms@.len() && (#[trigger] old(store).rooms@[j2]).id == room_id
                && store.rooms@ == old(store).rooms@.update(
                j2,
                crate::store::with_ticket(old(store).rooms@[j2], None),
            );
        if j2 != j {
            if j2 < j {
                assert(old(store).rooms@[j2].id != old(store).rooms@[j].id);
            } else {
                assert(old(store).rooms@[j].id != old(store).rooms@[j2].id);
            }
        }
    }
    Ok(msg)
}

/// What became of a closed connection's user.
pub enum DisconnectOutcome {
    /// The user held no slot; nothing happened.
    NoSlot,
    /// The user owned a room: it was deleted and the former occupants told
    /// with a `"delete"` message.
    RoomDeleted(MultiForwardMessage),
    /// The user occupied a slot in someone else's room: only that slot was
    /// removed and the remaining occupants told with `"disconnect"`.
    SlotRemoved(CustomRoomDto, MultiForwardMessage),
    /// Cleanup could not run; the error is logged, never surfaced.
    Failed(RoomError),
}

/// Cleans up after a transport-level close: the owner's disconnect deletes
/// the whole room, anyone else's removes just their slot. Cleanup can fail
/// only for a non-owner whose room holds an occupant without a user
/// record; such a failure is logged by the caller, never surfaced.
pub fn handle_websocket_closing(user_id: &i32, store: &mut Store) -> (r: DisconnectOutcome)
    requires
        old(store).wf(),
    ensures
        final(store).wf(),
        match r {
            DisconnectOutcome::NoSlot => !slot_of_user(old(store).slots@, *user_id as int)
                && *final(store) == *old(store),
            DisconnectOutcome::RoomDeleted(msg) => {
                &&& exists|j: int|
                    0 <= j < old(store).rooms@.len() && (#[trigger] old(store).rooms@[j]).user_id
                        == *user_id && final(store).rooms@ == old(store).rooms@.remove(j)
                        && final(store).slots@ == crate::store::slots_without_room(
                        old(store).slots@,
                        old(store).rooms@[j].id as int,
                    ) && msg.ids@ == slot_user_ids_except(
                        room_slots(old(store).slots@, old(store).rooms@[j].id as int),
                        *user_id,
                    )
                &&& final(store).users@ == old(store).users@
                &&& msg.message@ == envelope_json(
                    custom_room_route(),
                    "delete"@,
                    empty_payload(),
                )
            },
            DisconnectOutcome::SlotRemoved(dto, msg) => {
                &&& exists|k: int|
                    0 <= k < old(store).slots@.len() && (#[trigger] old(store).slots@[k]).user_id
                        == *user_id && final(store).slots@ == old(store).slots@.remove(k)
                &&& !exists|j: int|
                    0 <= j < old(store).rooms@.len() && (#[trigger] old(store).rooms@[j]).user_id
                        == *user_id
                &&& final(store).rooms@ == old(store).rooms@
                &&& final(store).users@ == old(store).users@
                &&& msg.ids@ == dto@.slots.map_values(|s: crate::dtos::SlotDtoView| s.user_id)
                &&& msg.message@ == envelope_json(
                    custom_room_route(),
                    "disconnect"@,
                    user_id_payload(*user_id),
                )
            },
            DisconnectOutcome::Failed(e) => {
                &&& e == RoomError::UnknownUser
                &&& *final(store) == *old(store)
                &&& exists|k: int|
                    0 <= k < old(store).slots@.len() && (#[trigger] old(store).slots@[k]).user_id
                        == *user_id && !all_users_known_except(
                        room_slots(
                            old(store).slots@,
                            old(store).slots@[k].custom_room_id as int,
                        ),
                        old(store).users@,
                        *user_id,
                    )
                &&& !crate::store::has_owner(old(store).rooms@, *user_id as int)
            },
        },
{
    let slot = match store.get_slot_by_user_id(user_id) {
        Some(s) => s,
        None => {
            return DisconnectOutcome::NoSlot;
        },
    };
    let tuple = match store.get(&slot.custom_room_id) {
        Some(t) => t,
        None => {
            proof {
                let w = choose|w: int|
                    0 <= w < store.slots@.len() && #[trigger] store.slots@[w] == slot
                        && slot.user_id == *user_id;
                assert(crate::store::slot_room_ok(store.slots@[w], store.rooms@));
                assert(false);
            }
            vstd::pervasive::unreached()
        },
    };
    if tuple.0.user_id == *user_id {
        match delete(*user_id, store) {
            Ok(msg) => DisconnectOutcome::RoomDeleted(msg),
            Err(_) => {
                proof {
                    let ghost j = choose|j: int|
                        0 <= j < store.rooms@.len() && (#[trigger] store.rooms@[j]).id
                            == slot.custom_room_id && tuple.0@ == store.rooms@[j]@;
                    assert(false);
                }
                vstd::pervasive::unreached()
            },
        }
    } else {
        proof {
            // a non-owner's single slot sits in a room owned by someone
            // else, so the disconnecting user owns no room at all
            if crate::store::has_owner(old(store).rooms@, *user_id as int) {
                let j = choose|j: int|
                    0 <= j < old(store).rooms@.len() && (#[trigger] old(
                        store,
                    ).rooms@[j]).user_id == *user_id as int;
                assert(crate::store::slot_of_owner(old(store).slots@, old(store).rooms@[j]));
                let w = choose|w: int|
                    0 <= w < old(store).slots@.len() && (#[trigger] old(
                        store,
                    ).slots@[w]).custom_room_id == old(store).rooms@[j].id && old(
                        store,
                    ).slots@[w].user_id == old(store).rooms@[j].user_id;
                let v = choose|v: int|
                    0 <= v < old(store).slots@.len() && #[trigger] old(store).slots@[v] == slot;
                if v != w {
                    if v < w {
                        assert(old(store).slots@[v].user_id != old(store).slots@[w].user_id);
                    } else {
                        assert(old(store).slots@[w].user_id != old(store).slots@[v].user_id);
                    }
                }
                let jj = choose|jj: int|
                    0 <= jj < store.rooms@.len() && (#[trigger] store.rooms@[jj]).id
                        == slot.custom_room_id && tuple.0@ == store.rooms@[jj]@;
                if jj != j {
                    if jj < j {
                        assert(old(store).rooms@[jj].id != old(store).rooms@[j].id);
                    } else {
                        assert(old(store).rooms@[j].id != old(store).rooms@[jj].id);
                    }
                }
                assert(false);
            }
        }
        match kick(slot.custom_room_id, *user_id, None, store) {
            Ok((dto, msg)) => DisconnectOutcome::SlotRemoved(dto, msg),
            Err(e) => {
                proof {
                    let ghost j = choose|j: int|
                        0 <= j < store.rooms@.len() && (#[trigger] store.rooms@[j]).id
                            == slot.custom_room_id && tuple.0@ == store.rooms@[j]@;
                    let w = choose|w: int|
                        0 <= w < store.slots@.len() && #[trigger] store.slots@[w] == slot;
                    if e == RoomError::UnknownRoom {
                        assert(false);
                    }
                    if e == RoomError::NoSuchSlot {
                        assert(false);
                    }
                    if e == RoomError::OwnerCannotBeRemoved {
                        let j2 = choose|j2: int|
                            0 <= j2 < store.rooms@.len() && (#[trigger] store.rooms@[j2]).id
                                == slot.custom_room_id && store.rooms@[j2].user_id == *user_id;
                        if j2 != j {
                            if j2 < j {
                                assert(store.rooms@[j2].id != store.rooms@[j].id);
                            } else {
                                assert(store.rooms@[j].id != store.rooms@[j2].id);
                            }
                        }
                        assert(false);
                    }
                    assert(e == RoomError::UnknownUser);
                    assert(old(store).slots@[w].user_id == *user_id);
                    assert(old(store).slots@[w].custom_room_id == slot.custom_room_id);
                    assert(!all_users_known_except(
                        room_slots(old(store).slots@, slot.custom_room_id as int),
                        old(store).users@,
                        *user_id,
                    ));
                }
                DisconnectOutcome::Failed(e)
            },
        }
    }
}

} // verus!
