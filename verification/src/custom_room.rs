use vstd::arithmetic::div_mod::lemma_fundamental_div_mod_converse;
use vstd::arithmetic::mul::lemma_mul_inequality;
use vstd::prelude::*;
use vstd::set_lib::lemma_int_range;
use vstd::set_lib::lemma_len_subset;
use vstd::set_lib::lemma_map_size;
use vstd::set_lib::set_int_range;

use crate::enums::Archetypes;
use crate::enums::GameModes;
use crate::enums::Maps;
use crate::errors::RoomError;

verus! {

/// The parameters a caller supplies to open a new room.
pub struct CreateData {
    pub label: String,
    pub nb_teams: i32,
    pub max_players_per_team: i32,
    pub game_mode: GameModes,
    pub map: Maps,
}

/// The position a caller asks to move to.
pub struct SwitchSlotData {
    pub team: i32,
    pub team_position: i32,
}

/// A matchmaking lobby grouping users into teams and slots.
pub struct CustomRoom {
    pub id: i32,
    pub label: String,
    pub user_id: i32,
    pub nb_teams: i32,
    pub max_player_per_team: i32,
    pub current_game_mode: GameModes,
    pub current_map: Maps,
    pub matchmaking_ticket: Option<u128>,
}

/// The mathematical value of a room.
pub struct RoomView {
    pub id: i32,
    pub label: Seq<char>,
    pub user_id: i32,
    pub nb_teams: i32,
    pub max_player_per_team: i32,
    pub current_game_mode: GameModes,
    pub current_map: Maps,
    pub matchmaking_ticket: Option<u128>,
}

impl View for CustomRoom {
    type V = RoomView;

    open spec fn view(&self) -> RoomView {
        RoomView {
            id: self.id,
            label: self.label@,
            user_id: self.user_id,
            nb_teams: self.nb_teams,
            max_player_per_team: self.max_player_per_team,
            current_game_mode: self.current_game_mode,
            current_map: self.current_map,
            matchmaking_ticket: self.matchmaking_ticket,
        }
    }
}

impl Clone for CustomRoom {
    fn clone(&self) -> (r: Self)
        ensures
            r@ == self@,
    {
        CustomRoom {
            id: self.id,
            label: self.label.clone(),
            user_id: self.user_id,
            nb_teams: self.nb_teams,
            max_player_per_team: self.max_player_per_team,
            current_game_mode: self.current_game_mode,
            current_map: self.current_map,
            matchmaking_ticket: self.matchmaking_ticket,
        }
    }
}

/// A (team, position) assignment of one user within a room.
#[derive(Clone, Copy, PartialEq, Eq, Structural, Debug)]
pub struct CustomRoomSlot {
    pub id: i32,
    pub custom_room_id: i32,
    pub team: i32,
    pub team_position: i32,
    pub user_id: i32,
    pub current_archetype: Archetypes,
}

/// A room whose team grid is usable: both dimensions are positive and the
/// total capacity fits a 32-bit count.
pub open spec fn room_wf(room: RoomView) -> bool {
    &&& 1 <= room.nb_teams
    &&& 1 <= room.max_player_per_team
    &&& room.nb_teams * room.max_player_per_team <= 0x7fffffff
}

/// The number of slots the room can hold.
pub open spec fn spec_capacity(room: RoomView) -> int {
    room.nb_teams * room.max_player_per_team
}

/// Some slot of the list sits at the given position.
pub open spec fn occupied(slots: Seq<CustomRoomSlot>, team: int, pos: int) -> bool {
    exists|i: int|
        0 <= i < slots.len() && slots[i].team == team && slots[i].team_position == pos
}

/// Some slot of the list at the given position belongs to a user other
/// than `user_id`.
pub open spec fn occupied_by_other(
    slots: Seq<CustomRoomSlot>,
    team: int,
    pos: int,
    user_id: int,
) -> bool {
    exists|i: int|
        0 <= i < slots.len() && slots[i].team == team && slots[i].team_position == pos
            && slots[i].user_id != user_id
}

/// Some slot of the list belongs to `user_id`.
pub open spec fn user_in(slots: Seq<CustomRoomSlot>, user_id: int) -> bool {
    exists|i: int| 0 <= i < slots.len() && slots[i].user_id == user_id
}

/// The slot lies inside the room's team grid and names the room.
pub open spec fn slot_in_bounds(s: CustomRoomSlot, room: RoomView) -> bool {
    &&& s.custom_room_id == room.id
    &&& 0 <= s.team < room.nb_teams
    &&& 0 <= s.team_position < room.max_player_per_team
}

/// A well-formed room together with the slots it holds: every slot lies in
/// bounds, no two slots share a user and no two slots share a position.
pub open spec fn room_slots_wf(room: RoomView, slots: Seq<CustomRoomSlot>) -> bool {
    &&& room_wf(room)
    &&& forall|i: int| 0 <= i < slots.len() ==> slot_in_bounds(#[trigger] slots[i], room)
    &&& forall|i: int, j: int|
        0 <= i < j < slots.len() ==> (#[trigger] slots[i]).user_id != (#[trigger] slots[j]).user_id
    &&& forall|i: int, j: int|
        0 <= i < j < slots.len() ==> !((#[trigger] slots[i]).team == (#[trigger] slots[j]).team
            && slots[i].team_position == slots[j].team_position)
}

/// The position comes first in the team-ascending, then position-ascending
/// scan order and is the first free one: every earlier position is occupied.
pub open spec fn is_first_free(
    room: RoomView,
    slots: Seq<CustomRoomSlot>,
    team: int,
    pos: int,
) -> bool {
    &&& 0 <= team < room.nb_teams
    &&& 0 <= pos < room.max_player_per_team
    &&& !occupied(slots, team, pos)
    &&& forall|t: int, p: int|
        0 <= t < room.nb_teams && 0 <= p < room.max_player_per_team && (t < team || (t == team
            && p < pos)) ==> occupied(slots, t, p)
}

/// Distinct in-bounds positions flatten to distinct indices of the team grid.
proof fn lemma_flat_injective(t1: int, p1: int, t2: int, p2: int, m: int)
    requires
        m >= 1,
        0 <= p1 < m,
        0 <= p2 < m,
        t1 * m + p1 == t2 * m + p2,
    ensures
        t1 == t2,
        p1 == p2,
{
    lemma_fundamental_div_mod_converse(t1 * m + p1, m, t1, p1);
    lemma_fundamental_div_mod_converse(t2 * m + p2, m, t2, p2);
}

/// A flattened in-bounds position lies below the room's capacity.
proof fn lemma_flat_bound(t: int, p: int, nb_teams: int, m: int)
    requires
        m >= 1,
        0 <= t < nb_teams,
        0 <= p < m,
    ensures
        0 <= t * m + p < nb_teams * m,
{
    lemma_mul_inequality(t + 1, nb_teams, m);
    lemma_mul_inequality(0, t, m);
    assert((t + 1) * m == t * m + m) by (nonlinear_arith);
}

/// No two slots of a well-formed room share a position, so the room never
/// holds more slots than its capacity.
pub proof fn lemma_slot_count_bound(room: RoomView, slots: Seq<CustomRoomSlot>)
    requires
        room_slots_wf(room, slots),
    ensures
        slots.len() <= spec_capacity(room),
{
    let m = room.max_player_per_team as int;
    let cap = spec_capacity(room);
    let n = slots.len() as int;
    let f = |i: int| slots[i].team * m + slots[i].team_position;
    let x = set_int_range(0, n);
    lemma_int_range(0, n);
    assert forall|i: int, j: int| x.contains(i) && x.contains(j) && i != j implies f(i) != f(j) by {
        if f(i) == f(j) {
            lemma_flat_injective(
                slots[i].team as int,
                slots[i].team_position as int,
                slots[j].team as int,
                slots[j].team_position as int,
                m,
            );
        }
    }
    let y = x.map(f);
    lemma_map_size(x, y, f);
    assert forall|k: int| y.contains(k) implies set_int_range(0, cap).contains(k) by {
        let i = choose|i: int| x.contains(i) && f(i) == k;
        lemma_flat_bound(slots[i].team as int, slots[i].team_position as int, room.nb_teams as int, m);
    }
    lemma_int_range(0, cap);
    lemma_len_subset(y, set_int_range(0, cap));
}

/// When every position of the team grid is occupied, the room holds at
/// least one slot per position, hence at least `capacity` slots.
pub proof fn lemma_all_occupied_full(room: RoomView, slots: Seq<CustomRoomSlot>)
    requires
        room_slots_wf(room, slots),
        forall|t: int, p: int|
            0 <= t < room.nb_teams && 0 <= p < room.max_player_per_team ==> occupied(slots, t, p),
    ensures
        slots.len() >= spec_capacity(room),
{
    let m = room.max_player_per_team as int;
    let cap = spec_capacity(room);
    let n = slots.len() as int;
    let g = |k: int|
        choose|i: int|
            0 <= i < slots.len() && slots[i].team * m + slots[i].team_position == k;
    let x = set_int_range(0, cap);
    lemma_int_range(0, cap);
    assert forall|k: int| x.contains(k) implies 0 <= #[trigger] g(k) < slots.len() && slots[g(
        k,
    )].team * m + slots[g(k)].team_position == k by {
        let t = k / m;
        let p = k % m;
        assert(0 <= p < m) by {
            vstd::arithmetic::div_mod::lemma_mod_division_less_than_divisor(k, m);
        }
        assert(m * t + p == k) by {
            vstd::arithmetic::div_mod::lemma_fundamental_div_mod(k, m);
        }
        assert(0 <= t < room.nb_teams) by {
            if t >= room.nb_teams {
                lemma_mul_inequality(room.nb_teams as int, t, m);
                assert(room.nb_teams * m <= t * m) by (nonlinear_arith)
                    requires room.nb_teams as int <= t, m >= 1;
                assert(t * m == m * t) by (nonlinear_arith);
            }
            if t < 0 {
                assert(m * t + p < m) by (nonlinear_arith)
                    requires t <= -1, m >= 1, p < m;
            }
        }
        assert(occupied(slots, t, p));
        let i0 = choose|i: int|
            0 <= i < slots.len() && slots[i].team == t && slots[i].team_position == p;
        assert(m * t == t * m) by (nonlinear_arith);
        assert(slots[i0].team * m + slots[i0].team_position == k);
    }
    assert forall|k1: int, k2: int|
        x.contains(k1) && x.contains(k2) && k1 != k2 implies g(k1) != g(k2) by {}
    let y = x.map(g);
    lemma_map_size(x, y, g);
    assert forall|i: int| y.contains(i) implies set_int_range(0, n).contains(i) by {
        let k = choose|k: int| x.contains(k) && g(k) == i;
        assert(0 <= g(k) < slots.len());
    }
    lemma_int_range(0, n);
    lemma_len_subset(y, set_int_range(0, n));
}

impl CustomRoom {
    /// The number of slots this room can hold.
    pub fn get_capacity(&self) -> (r: usize)
        requires
            room_wf(self@),
        ensures
            r == spec_capacity(self@),
    {
        let capacity = (self.nb_teams * self.max_player_per_team) as usize;
        capacity
    }

    /// Whether the position lies inside this room's team grid.
    pub fn is_valid_slot(&self, team: &i32, team_position: &i32) -> (r: bool)
        ensures
            r == (0 <= *team < self.nb_teams && 0 <= *team_position < self.max_player_per_team),
    {
        0 <= *team && *team < self.nb_teams && 0 <= *team_position && *team_position
            < self.max_player_per_team
    }
}

/// Whether some slot of the list sits at the given position.
pub fn position_taken(slots: &Vec<CustomRoomSlot>, team: i32, team_position: i32) -> (r: bool)
    ensures
        r == occupied(slots@, team as int, team_position as int),
{
    let mut i: usize = 0;
    while i < slots.len()
        invariant
            i <= slots@.len(),
            forall|k: int|
                0 <= k < i ==> !((#[trigger] slots@[k]).team == team && slots@[k].team_position
                    == team_position),
        decreases slots@.len() - i,
    {
        if slots[i].team == team && slots[i].team_position == team_position {
            return true;
        }
        i += 1;
    }
    false
}

/// Whether some slot of the list sits at the given position and belongs to
/// a user other than `user_id`.
pub fn position_taken_by_other(
    slots: &Vec<CustomRoomSlot>,
    team: i32,
    team_position: i32,
    user_id: i32,
) -> (r: bool)
    ensures
        r == occupied_by_other(slots@, team as int, team_position as int, user_id as int),
{
    let mut i: usize = 0;
    while i < slots.len()
        invariant
            i <= slots@.len(),
            forall|k: int|
                0 <= k < i ==> !((#[trigger] slots@[k]).team == team && slots@[k].team_position
                    == team_position && slots@[k].user_id != user_id),
        decreases slots@.len() - i,
    {
        if slots[i].team == team && slots[i].team_position == team_position && slots[i].user_id
            != user_id {
            return true;
        }
        i += 1;
    }
    false
}

/// Whether some slot of the list belongs to `user_id`.
pub fn user_has_slot(slots: &Vec<CustomRoomSlot>, user_id: i32) -> (r: bool)
    ensures
        r == user_in(slots@, user_id as int),
{
    let mut i: usize = 0;
    while i < slots.len()
        invariant
            i <= slots@.len(),
            forall|k: int| 0 <= k < i ==> (#[trigger] slots@[k]).user_id != user_id,
        decreases slots@.len() - i,
    {
        if slots[i].user_id == user_id {
            return true;
        }
        i += 1;
    }
    false
}

} // verus!

verus! {

/// A player attribute value of a matchmaking request: a number or a text.
pub enum AttrVal {
    N(i32),
    S(String),
}

/// One player of a matchmaking request.
pub struct MatchmakingPlayer {
    pub player_id: String,
    pub team: String,
    pub attributes: Vec<(String, AttrVal)>,
}

/// A complete matchmaking request: which configuration to match under,
/// every player with their attributes, and the fresh ticket id in its
/// hyphenated text form.
pub struct StartMatchmakingRequest {
    pub configuration_name: String,
    pub players: Vec<MatchmakingPlayer>,
    pub ticket_id: String,
}

/// The player entry a slot contributes to a matchmaking request.
pub open spec fn player_matches(p: MatchmakingPlayer, s: CustomRoomSlot) -> bool {
    &&& p.player_id@ == crate::text::int_str(s.user_id as int)
    &&& p.team@ == crate::text::int_str(s.team as int)
    &&& p.attributes@.len() == 3
    &&& p.attributes@[0].0@ == "team"@
    &&& p.attributes@[0].1 == AttrVal::N(s.team)
    &&& p.attributes@[1].0@ == "team_position"@
    &&& p.attributes@[1].1 == AttrVal::N(s.team_position)
    &&& p.attributes@[2].0@ == "archetype"@
    &&& (p.attributes@[2].1 matches AttrVal::S(n) && n@ == s.current_archetype.spec_name())
}

impl CustomRoomSlot {
    /// The attributes a slot contributes to its matchmaking player entry:
    /// the team, the position inside it, and the chosen archetype.
    pub fn get_gamelift_attributes(&self) -> (r: Vec<(String, AttrVal)>)
        ensures
            r@.len() == 3,
            r@[0].0@ == "team"@,
            r@[0].1 == AttrVal::N(self.team),
            r@[1].0@ == "team_position"@,
            r@[1].1 == AttrVal::N(self.team_position),
            r@[2].0@ == "archetype"@,
            r@[2].1 matches AttrVal::S(n) && n@ == self.current_archetype.spec_name(),
    {
        let mut attributes: Vec<(String, AttrVal)> = Vec::new();
        attributes.push((String::from_str("team"), AttrVal::N(self.team)));
        attributes.push((String::from_str("team_position"), AttrVal::N(self.team_position)));
        attributes.push((String::from_str("archetype"), AttrVal::S(self.current_archetype.name())));
        attributes
    }
}

impl CustomRoom {
    /// Builds the matchmaking request for this room: one player per slot,
    /// in slot order, under the custom-game configuration.
    pub fn get_start_matchmaking_input(
        &self,
        slots: &Vec<CustomRoomSlot>,
        ticket_id: &u128,
    ) -> (r: StartMatchmakingRequest)
        ensures
            r.configuration_name@ == "CustomGame"@,
            r.ticket_id@ == crate::text::uuid_str(*ticket_id),
            r.players@.len() == slots@.len(),
            forall|i: int|
                0 <= i < slots@.len() ==> player_matches(#[trigger] r.players@[i], slots@[i]),
    {
        let mut players: Vec<MatchmakingPlayer> = Vec::new();
        let mut i: usize = 0;
        while i < slots.len()
            invariant
                i <= slots@.len(),
                players@.len() == i,
                forall|k: int|
                    0 <= k < i ==> player_matches(#[trigger] players@[k], slots@[k]),
            decreases slots@.len() - i,
        {
            let slot = &slots[i];
            let attributes = slot.get_gamelift_attributes();
            players.push(
                MatchmakingPlayer {
                    player_id: crate::text::i32_to_string(slot.user_id),
                    team: crate::text::i32_to_string(slot.team),
                    attributes,
                },
            );
            i += 1;
        }
        StartMatchmakingRequest {
            configuration_name: String::from_str("CustomGame"),
            players,
            ticket_id: crate::text::uuid_to_string(*ticket_id),
        }
    }
}

} // verus!
