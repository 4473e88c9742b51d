use vstd::prelude::*;

use crate::custom_room::CustomRoom;
use crate::custom_room::CustomRoomSlot;
use crate::custom_room::RoomView;
use crate::enums::Archetypes;
use crate::enums::GameModes;
use crate::enums::Maps;
use crate::errors::RoomError;
use crate::store::has_user_id;
use crate::store::Store;
use crate::text::int_str;
use crate::text::json_str;
use crate::text::push_json_str;
use crate::text::uuid_str;
use crate::user::User;

verus! {

/// One slot of a room snapshot, with the occupant's display name resolved.
pub struct CustomRoomSlotDto {
    pub id: i32,
    pub custom_room_id: i32,
    pub team: i32,
    pub team_position: i32,
    pub user_id: i32,
    pub nickname: String,
    pub archetype: Archetypes,
}

/// The mathematical value of a slot snapshot.
pub struct SlotDtoView {
    pub id: i32,
    pub custom_room_id: i32,
    pub team: i32,
    pub team_position: i32,
    pub user_id: i32,
    pub nickname: Seq<char>,
    pub archetype: Archetypes,
}

impl View for CustomRoomSlotDto {
    type V = SlotDtoView;

    open spec fn view(&self) -> SlotDtoView {
        SlotDtoView {
            id: self.id,
            custom_room_id: self.custom_room_id,
            team: self.team,
            team_position: self.team_position,
            user_id: self.user_id,
            nickname: self.nickname@,
            archetype: self.archetype,
        }
    }
}

/// A consistent snapshot of one room: its fields and every slot, with
/// display names, ready for broadcast.
pub struct CustomRoomDto {
    pub id: i32,
    pub label: String,
    pub user_id: i32,
    pub nb_teams: i32,
    pub max_player_per_team: i32,
    pub game_mode: GameModes,
    pub map: Maps,
    pub matchmaking_ticket: Option<u128>,
    pub slots: Vec<CustomRoomSlotDto>,
}

/// The mathematical value of a room snapshot.
pub struct RoomDtoView {
    pub id: i32,
    pub label: Seq<char>,
    pub user_id: i32,
    pub nb_teams: i32,
    pub max_player_per_team: i32,
    pub game_mode: GameModes,
    pub map: Maps,
    pub matchmaking_ticket: Option<u128>,
    pub slots: Seq<SlotDtoView>,
}

impl View for CustomRoomDto {
    type V = RoomDtoView;

    open spec fn view(&self) -> RoomDtoView {
        RoomDtoView {
            id: self.id,
            label: self.label@,
            user_id: self.user_id,
            nb_teams: self.nb_teams,
            max_player_per_team: self.max_player_per_team,
            game_mode: self.game_mode,
            map: self.map,
            matchmaking_ticket: self.matchmaking_ticket,
            slots: self.slots@.map_values(|s: CustomRoomSlotDto| s@),
        }
    }
}

/// The display name recorded for a user id; empty when no record exists.
pub open spec fn nickname_of(users: Seq<User>, id: int) -> Seq<char> {
    if has_user_id(users, id) {
        let i = choose|i: int| 0 <= i < users.len() && (#[trigger] users[i]).id == id;
        users[i].nickname@
    } else {
        Seq::empty()
    }
}

/// Every slot's occupant has a user record.
pub open spec fn all_users_known(slots: Seq<CustomRoomSlot>, users: Seq<User>) -> bool {
    forall|i: int|
        0 <= i < slots.len() ==> has_user_id(users, (#[trigger] slots[i]).user_id as int)
}

/// The snapshot value of one slot.
pub open spec fn spec_slot_dto(slot: CustomRoomSlot, nickname: Seq<char>) -> SlotDtoView {
    SlotDtoView {
        id: slot.id,
        custom_room_id: slot.custom_room_id,
        team: slot.team,
        team_position: slot.team_position,
        user_id: slot.user_id,
        nickname: nickname,
        archetype: slot.current_archetype,
    }
}

/// The snapshot value of a room with its slots.
pub open spec fn spec_room_dto(room: RoomView, slots: Seq<CustomRoomSlot>, users: Seq<User>) -> RoomDtoView {
    RoomDtoView {
        id: room.id,
        label: room.label,
        user_id: room.user_id,
        nb_teams: room.nb_teams,
        max_player_per_team: room.max_player_per_team,
        game_mode: room.current_game_mode,
        map: room.current_map,
        matchmaking_ticket: room.matchmaking_ticket,
        slots: Seq::new(
            slots.len(),
            |i: int| spec_slot_dto(slots[i], nickname_of(users, slots[i].user_id as int)),
        ),
    }
}

impl CustomRoomSlotDto {
    /// Resolves the occupant's display name and builds the slot snapshot.
    pub fn new(slot: CustomRoomSlot, store: &Store) -> (r: Result<Self, RoomError>)
        requires
            store.wf(),
        ensures
            match r {
                Ok(d) => has_user_id(store.users@, slot.user_id as int) && d@ == spec_slot_dto(
                    slot,
                    nickname_of(store.users@, slot.user_id as int),
                ),
                Err(e) => e == RoomError::UnknownUser && !has_user_id(
                    store.users@,
                    slot.user_id as int,
                ),
            },
    {
        let user = match store.get_user(&slot.user_id) {
            Some(u) => u,
            None => {
                return Err(RoomError::UnknownUser);
            },
        };
        proof {
            let w = choose|w: int|
                0 <= w < store.users@.len() && (#[trigger] store.users@[w]).id == slot.user_id
                    && user@ == store.users@[w]@;
            let c = choose|c: int|
                0 <= c < store.users@.len() && (#[trigger] store.users@[c]).id == slot.user_id
                    as int;
            if w != c {
                if w < c {
                    assert(store.users@[w].id != store.users@[c].id);
                } else {
                    assert(store.users@[c].id != store.users@[w].id);
                }
            }
        }
        Ok(
            CustomRoomSlotDto {
                id: slot.id,
                custom_room_id: slot.custom_room_id,
                team: slot.team,
                team_position: slot.team_position,
                user_id: slot.user_id,
                nickname: user.nickname,
                archetype: slot.current_archetype,
            },
        )
    }

    /// The JSON document of one slot snapshot.
    pub fn to_json(&self) -> (r: String)
        ensures
            r@ == slot_dto_json(self@),
    {
        let mut out = String::new();
        out.append("{\"id\":");
        push_i32(&mut out, self.id);
        out.append(",\"custom_room_id\":");
        push_i32(&mut out, self.custom_room_id);
        out.append(",\"team\":");
        push_i32(&mut out, self.team);
        out.append(",\"team_position\":");
        push_i32(&mut out, self.team_position);
        out.append(",\"user_id\":");
        push_i32(&mut out, self.user_id);
        out.append(",\"nickname\":");
        push_json_str(&mut out, self.nickname.as_str());
        out.append(",\"archetype\":");
        let name = self.archetype.name();
        push_json_str(&mut out, name.as_str());
        out.append("}");
        proof {
            assert(out@ =~= slot_dto_json(self@));
        }
        out
    }
}

/// Appends the decimal text of a 32-bit integer.
pub fn push_i32(out: &mut String, x: i32)
    ensures
        final(out)@ == old(out)@ + int_str(x as int),
{
    let s = crate::text::i32_to_string(x);
    out.append(s.as_str());
}

/// The JSON document of one slot snapshot.
pub open spec fn slot_dto_json(d: SlotDtoView) -> Seq<char> {
    "{\"id\":"@ + int_str(d.id as int) + ",\"custom_room_id\":"@ + int_str(d.custom_room_id as int)
        + ",\"team\":"@ + int_str(d.team as int) + ",\"team_position\":"@ + int_str(
        d.team_position as int,
    ) + ",\"user_id\":"@ + int_str(d.user_id as int) + ",\"nickname\":"@ + json_str(d.nickname)
        + ",\"archetype\":"@ + json_str(d.archetype.spec_name()) + "}"@
}

/// The JSON array body of a list of slot snapshots, comma separated.
pub open spec fn slots_json(slots: Seq<SlotDtoView>) -> Seq<char>
    decreases slots.len(),
{
    if slots.len() == 0 {
        Seq::empty()
    } else if slots.len() == 1 {
        slot_dto_json(slots[0])
    } else {
        slots_json(slots.drop_last()) + ","@ + slot_dto_json(slots.last())
    }
}

/// The JSON text of a room's matchmaking ticket: the hyphenated ticket id
/// as a string, or `null`.
pub open spec fn ticket_json(t: Option<u128>) -> Seq<char> {
    match t {
        Some(t) => json_str(uuid_str(t)),
        None => "null"@,
    }
}

/// The JSON document of a room snapshot.
pub open spec fn room_dto_json(d: RoomDtoView) -> Seq<char> {
    "{\"id\":"@ + int_str(d.id as int) + ",\"label\":"@ + json_str(d.label) + ",\"user_id\":"@
        + int_str(d.user_id as int) + ",\"nb_teams\":"@ + int_str(d.nb_teams as int)
        + ",\"max_player_per_team\":"@ + int_str(d.max_player_per_team as int) + ",\"game_mode\":"@
        + json_str(d.game_mode.spec_name()) + ",\"map\":"@ + json_str(d.map.spec_name())
        + ",\"matchmaking_ticket\":"@ + ticket_json(d.matchmaking_ticket) + ",\"slots\":["@
        + slots_json(d.slots) + "]}"@
}

impl CustomRoomDto {
    /// Builds the snapshot of a room with its slots, resolving every
    /// occupant's display name against the store.
    pub fn new(tuple: (CustomRoom, Vec<CustomRoomSlot>), store: &Store) -> (r: Result<
        Self,
        RoomError,
    >)
        requires
            store.wf(),
        ensures
            match r {
                Ok(d) => all_users_known(tuple.1@, store.users@) && d@ == spec_room_dto(
                    tuple.0@,
                    tuple.1@,
                    store.users@,
                ),
                Err(e) => e == RoomError::UnknownUser && !all_users_known(tuple.1@, store.users@),
            },
    {
        let (room, slots) = tuple;
        let mut slot_dtos: Vec<CustomRoomSlotDto> = Vec::new();
        let mut i: usize = 0;
        while i < slots.len()
            invariant
                i <= slots@.len(),
                store.wf(),
                slots@ == tuple.1@,
                slot_dtos@.len() == i,
                forall|k: int|
                    0 <= k < i ==> has_user_id(store.users@, (#[trigger] slots@[k]).user_id as int),
                forall|k: int|
                    0 <= k < i ==> (#[trigger] slot_dtos@[k])@ == spec_slot_dto(
                        slots@[k],
                        nickname_of(store.users@, slots@[k].user_id as int),
                    ),
            decreases slots@.len() - i,
        {
            match CustomRoomSlotDto::new(slots[i], store) {
                Ok(d) => {
                    slot_dtos.push(d);
                },
                Err(e) => {
                    return Err(e);
                },
            }
            i += 1;
        }
        let dto = CustomRoomDto {
            id: room.id,
            label: room.label,
            user_id: room.user_id,
            nb_teams: room.nb_teams,
            max_player_per_team: room.max_player_per_team,
            game_mode: room.current_game_mode,
            map: room.current_map,
            matchmaking_ticket: room.matchmaking_ticket,
            slots: slot_dtos,
        };
        proof {
            assert(dto@.slots =~= spec_room_dto(tuple.0@, tuple.1@, store.users@).slots);
            assert(dto@ == spec_room_dto(tuple.0@, tuple.1@, store.users@));
        }
        Ok(dto)
    }

    /// The user ids of every slot except the given one's, in slot order.
    pub fn get_all_user_ids_except(&self, except_id: &i32) -> (r: Vec<i32>)
        ensures
            r@ == user_ids_except(self@.slots, *except_id),
    {
        let mut result: Vec<i32> = Vec::new();
        let mut i: usize = 0;
        while i < self.slots.len()
            invariant
                i <= self.slots@.len(),
                result@ == user_ids_except(self@.slots.take(i as int), *except_id),
            decreases self.slots@.len() - i,
        {
            if self.slots[i].user_id != *except_id {
                result.push(self.slots[i].user_id);
            }
            proof {
                assert(self@.slots.take(i as int + 1).drop_last() =~= self@.slots.take(i as int));
                assert(self@.slots.take(i as int + 1).last() == self@.slots[i as int]);
            }
            i += 1;
        }
        proof {
            assert(self@.slots.take(self@.slots.len() as int) =~= self@.slots);
        }
        result
    }

    /// The user ids of every slot, in slot order.
    pub fn get_all_user_ids(&self) -> (r: Vec<i32>)
        ensures
            r@ == self@.slots.map_values(|s: SlotDtoView| s.user_id),
    {
        let mut result: Vec<i32> = Vec::new();
        let mut i: usize = 0;
        while i < self.slots.len()
            invariant
                i <= self.slots@.len(),
                result@.len() == i,
                forall|k: int| 0 <= k < i ==> result@[k] == (#[trigger] self@.slots[k]).user_id,
            decreases self.slots@.len() - i,
        {
            result.push(self.slots[i].user_id);
            i += 1;
        }
        proof {
            assert(result@ =~= self@.slots.map_values(|s: SlotDtoView| s.user_id));
        }
        result
    }

    /// The index of the slot a user occupies in this snapshot, if any.
    pub fn get_slot_index_from_user_id(&self, user_id: &i32) -> (r: Option<usize>)
        ensures
            match r {
                Some(i) => 0 <= i < self@.slots.len() && self@.slots[i as int].user_id == *user_id
                    && forall|k: int|
                    0 <= k < i ==> (#[trigger] self@.slots[k]).user_id != *user_id,
                None => forall|k: int|
                    0 <= k < self@.slots.len() ==> (#[trigger] self@.slots[k]).user_id != *user_id,
            },
    {
        let mut i: usize = 0;
        while i < self.slots.len()
            invariant
                i <= self.slots@.len(),
                forall|k: int| 0 <= k < i ==> (#[trigger] self@.slots[k]).user_id != *user_id,
            decreases self.slots@.len() - i,
        {
            if self.slots[i].user_id == *user_id {
                return Some(i);
            }
            i += 1;
        }
        None
    }

    /// The JSON document of the whole room snapshot.
    #[verifier::loop_isolation(false)]
    pub fn to_json(&self) -> (r: String)
        ensures
            r@ == room_dto_json(self@),
    {
        let mut out = String::new();
        out.append("{\"id\":");
        push_i32(&mut out, self.id);
        out.append(",\"label\":");
        push_json_str(&mut out, self.label.as_str());
        out.append(",\"user_id\":");
        push_i32(&mut out, self.user_id);
        out.append(",\"nb_teams\":");
        push_i32(&mut out, self.nb_teams);
        out.append(",\"max_player_per_team\":");
        push_i32(&mut out, self.max_player_per_team);
        out.append(",\"game_mode\":");
        let mode_name = self.game_mode.name();
        push_json_str(&mut out, mode_name.as_str());
        out.append(",\"map\":");
        let map_name = self.map.name();
        push_json_str(&mut out, map_name.as_str());
        out.append(",\"matchmaking_ticket\":");
        match self.matchmaking_ticket {
            Some(t) => {
                let ticket_text = crate::text::uuid_to_string(t);
                push_json_str(&mut out, ticket_text.as_str());
            },
            None => {
                out.append("null");
            },
        }
        out.append(",\"slots\":[");
        let ghost prefix = out@;
        let mut i: usize = 0;
        while i < self.slots.len()
            invariant
                i <= self.slots@.len(),
                out@ == prefix + slots_json(self@.slots.take(i as int)),
            decreases self.slots@.len() - i,
        {
            if i > 0 {
                out.append(",");
            }
            let piece = self.slots[i].to_json();
            out.append(piece.as_str());
            proof {
                assert(self@.slots.take(i as int + 1).drop_last() =~= self@.slots.take(i as int));
                assert(self@.slots.take(i as int + 1).last() == self@.slots[i as int]);
                assert(out@ =~= prefix + slots_json(self@.slots.take(i as int + 1)));
            }
            i += 1;
        }
        proof {
            assert(self@.slots.take(self@.slots.len() as int) =~= self@.slots);
        }
        out.append("]}");
        proof {
            assert(out@ =~= room_dto_json(self@));
        }
        out
    }
}

/// The user ids of the slots whose occupant is not `except`, in order.
pub open spec fn user_ids_except(slots: Seq<SlotDtoView>, except: i32) -> Seq<i32>
    decreases slots.len(),
{
    if slots.len() == 0 {
        Seq::empty()
    } else {
        user_ids_except(slots.drop_last(), except) + if slots.last().user_id != except {
            seq![slots.last().user_id]
        } else {
            Seq::empty()
        }
    }
}

} // verus!
