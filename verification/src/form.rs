use vstd::prelude::*;

use crate::custom_room::lemma_all_occupied_full;
use crate::custom_room::occupied;
use crate::custom_room::occupied_by_other;
use crate::custom_room::position_taken;
use crate::custom_room::position_taken_by_other;
use crate::custom_room::is_first_free;
use crate::custom_room::room_slots_wf;
use crate::custom_room::spec_capacity;
use crate::custom_room::CreateData;
use crate::custom_room::CustomRoom;
use crate::custom_room::CustomRoomSlot;
use crate::custom_room::SwitchSlotData;
use crate::enums::Archetypes;
use crate::enums::GameModes;
use crate::enums::Maps;
use crate::errors::RoomError;

verus! {

/// The field values a new room is inserted with.
pub struct CustomRoomForm {
    pub label: String,
    pub user_id: i32,
    pub nb_teams: i32,
    pub max_player_per_team: i32,
    pub current_game_mode: GameModes,
    pub current_map: Maps,
}

impl CustomRoomForm {
    /// Carries the creation parameters over into an insertable room form.
    pub fn new_from_createdata(create_data: &CreateData, user_id: &i32) -> (r: Self)
        ensures
            r.label@ == create_data.label@,
            r.user_id == *user_id,
            r.nb_teams == create_data.nb_teams,
            r.max_player_per_team == create_data.max_players_per_team,
            r.current_game_mode == create_data.game_mode,
            r.current_map == create_data.map,
    {
        CustomRoomForm {
            label: create_data.label.clone(),
            user_id: *user_id,
            nb_teams: create_data.nb_teams,
            max_player_per_team: create_data.max_players_per_team,
            current_game_mode: create_data.game_mode,
            current_map: create_data.map,
        }
    }
}

/// The field values a new or moved slot is written with. A `None`
/// archetype means the slot keeps the archetype it already has.
pub struct CustomRoomSlotForm {
    pub custom_room_id: i32,
    pub team: i32,
    pub team_position: i32,
    pub user_id: i32,
    pub current_archetype: Option<Archetypes>,
}

impl CustomRoomSlotForm {
    /// The owner's slot of a freshly created room: team 0, position 0,
    /// with the default archetype.
    pub fn new_from_custom_room_creation(custom_room_id: &i32, user_id: &i32) -> (r: Self)
        ensures
            r.custom_room_id == *custom_room_id,
            r.team == 0,
            r.team_position == 0,
            r.user_id == *user_id,
            r.current_archetype == Some(Archetypes::Leader),
    {
        CustomRoomSlotForm {
            custom_room_id: *custom_room_id,
            team: 0,
            team_position: 0,
            user_id: *user_id,
            current_archetype: Some(Archetypes::Leader),
        }
    }

    pub fn get_custom_room_id(&self) -> (r: i32)
        ensures
            r == self.custom_room_id,
    {
        self.custom_room_id
    }

    /// Computes the slot a joining user takes: the first free position,
    /// scanning teams in ascending order and positions in ascending order
    /// within each team. Fails with `RoomFull` exactly when the room
    /// already holds as many slots as its capacity.
    pub fn new_from_user_join(
        custom_room_id: &i32,
        user_id: &i32,
        tuple: &(CustomRoom, Vec<CustomRoomSlot>),
    ) -> (r: Result<Self, RoomError>)
        requires
            room_slots_wf(tuple.0@, tuple.1@),
        ensures
            match r {
                Err(e) => e == RoomError::RoomFull && tuple.1@.len() == spec_capacity(tuple.0@),
                Ok(f) => {
                    &&& tuple.1@.len() < spec_capacity(tuple.0@)
                    &&& f.custom_room_id == *custom_room_id
                    &&& f.user_id == *user_id
                    &&& f.current_archetype == Some(Archetypes::Leader)
                    &&& is_first_free(tuple.0@, tuple.1@, f.team as int, f.team_position as int)
                },
            },
    {
        let (custom_room, slots) = tuple;
        let capacity = custom_room.get_capacity();
        if slots.len() >= capacity {
            proof {
                crate::custom_room::lemma_slot_count_bound(tuple.0@, tuple.1@);
            }
            return Err(RoomError::RoomFull);
        }
        let mut team: i32 = 0;
        while team < custom_room.nb_teams
            invariant
                0 <= team <= custom_room.nb_teams,
                room_slots_wf(tuple.0@, tuple.1@),
                tuple.1@.len() < spec_capacity(tuple.0@),
                slots == tuple.1,
                custom_room == tuple.0,
                forall|t: int, p: int|
                    0 <= t < team && 0 <= p < custom_room.max_player_per_team ==> occupied(
                        tuple.1@,
                        t,
                        p,
                    ),
            decreases custom_room.nb_teams - team,
        {
            let mut pos: i32 = 0;
            while pos < custom_room.max_player_per_team
                invariant
                    0 <= team < custom_room.nb_teams,
                    0 <= pos <= custom_room.max_player_per_team,
                    room_slots_wf(tuple.0@, tuple.1@),
                    tuple.1@.len() < spec_capacity(tuple.0@),
                    slots == tuple.1,
                    custom_room == tuple.0,
                    forall|t: int, p: int|
                        0 <= t < team && 0 <= p < custom_room.max_player_per_team ==> occupied(
                            tuple.1@,
                            t,
                            p,
                        ),
                    forall|p: int| 0 <= p < pos ==> occupied(tuple.1@, team as int, p),
                decreases custom_room.max_player_per_team - pos,
            {
                if !position_taken(slots, team, pos) {
                    return Ok(
                        CustomRoomSlotForm {
                            custom_room_id: *custom_room_id,
                            team,
                            team_position: pos,
                            user_id: *user_id,
                            current_archetype: Some(Archetypes::Leader),
                        },
                    );
                }
                pos += 1;
            }
            team += 1;
        }
        proof {
            lemma_all_occupied_full(tuple.0@, tuple.1@);
        }
        vstd::pervasive::unreached()
    }

    /// Validates a position switch: the target must lie inside the team
    /// grid and must not be occupied by another user. The returned form
    /// keeps the caller's archetype untouched.
    pub fn new_from_switch_slot(
        custom_room_id: &i32,
        user_id: &i32,
        slot_data: &SwitchSlotData,
        tuple: &(CustomRoom, Vec<CustomRoomSlot>),
    ) -> (r: Result<Self, RoomError>)
        ensures
            match r {
                Err(e) => {
                    ||| e == RoomError::InvalidSlot && !(0 <= slot_data.team < tuple.0.nb_teams && 0
                        <= slot_data.team_position < tuple.0.max_player_per_team)
                    ||| e == RoomError::SlotTaken && (0 <= slot_data.team < tuple.0.nb_teams && 0
                        <= slot_data.team_position < tuple.0.max_player_per_team) && occupied_by_other(
                        tuple.1@,
                        slot_data.team as int,
                        slot_data.team_position as int,
                        *user_id as int,
                    )
                },
                Ok(f) => {
                    &&& 0 <= slot_data.team < tuple.0.nb_teams
                    &&& 0 <= slot_data.team_position < tuple.0.max_player_per_team
                    &&& !occupied_by_other(
                        tuple.1@,
                        slot_data.team as int,
                        slot_data.team_position as int,
                        *user_id as int,
                    )
                    &&& f.custom_room_id == *custom_room_id
                    &&& f.team == slot_data.team
                    &&& f.team_position == slot_data.team_position
                    &&& f.user_id == *user_id
                    &&& f.current_archetype is None
                },
            },
    {
        let (custom_room, slots) = tuple;
        if !custom_room.is_valid_slot(&slot_data.team, &slot_data.team_position) {
            return Err(RoomError::InvalidSlot);
        }
        if position_taken_by_other(slots, slot_data.team, slot_data.team_position, *user_id) {
            return Err(RoomError::SlotTaken);
        }
        Ok(
            CustomRoomSlotForm {
                custom_room_id: *custom_room_id,
                team: slot_data.team,
                team_position: slot_data.team_position,
                user_id: *user_id,
                current_archetype: None,
            },
        )
    }
}

} // verus!
