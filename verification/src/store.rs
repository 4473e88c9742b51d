use vstd::prelude::*;
use vstd::seq_lib::group_filter_ensures;

use crate::custom_room::room_slots_wf;
use crate::custom_room::room_wf;
use crate::custom_room::slot_in_bounds;
use crate::custom_room::CustomRoom;
use crate::custom_room::CustomRoomSlot;
use crate::user::User;

verus! {

/// The slots that belong to one room, in insertion order.
pub open spec fn room_slots(slots: Seq<CustomRoomSlot>, room_id: int) -> Seq<CustomRoomSlot> {
    slots.filter(|s: CustomRoomSlot| s.custom_room_id == room_id)
}

/// Some room of the list carries this id.
pub open spec fn has_room_id(rooms: Seq<CustomRoom>, id: int) -> bool {
    exists|i: int| 0 <= i < rooms.len() && (#[trigger] rooms[i]).id == id
}

/// Some room of the list is owned by this user.
pub open spec fn has_owner(rooms: Seq<CustomRoom>, user_id: int) -> bool {
    exists|i: int| 0 <= i < rooms.len() && (#[trigger] rooms[i]).user_id == user_id
}

/// Some room of the list carries this outstanding matchmaking ticket.
pub open spec fn has_ticket(rooms: Seq<CustomRoom>, ticket: u128) -> bool {
    exists|i: int|
        0 <= i < rooms.len() && (#[trigger] rooms[i]).matchmaking_ticket == Some(ticket)
}

/// Some user of the list carries this id.
pub open spec fn has_user_id(users: Seq<User>, id: int) -> bool {
    exists|i: int| 0 <= i < users.len() && (#[trigger] users[i]).id == id
}

/// Some slot of the list belongs to this user, in any room.
pub open spec fn slot_of_user(slots: Seq<CustomRoomSlot>, user_id: int) -> bool {
    exists|i: int| 0 <= i < slots.len() && (#[trigger] slots[i]).user_id == user_id
}

/// The slot names a room of the list and lies inside that room's team grid.
pub open spec fn slot_room_ok(s: CustomRoomSlot, rooms: Seq<CustomRoom>) -> bool {
    exists|j: int|
        0 <= j < rooms.len() && (#[trigger] rooms[j]).id == s.custom_room_id && slot_in_bounds(
            s,
            rooms[j]@,
        )
}

/// The single authoritative holder of rooms, slots and user records.
///
/// All mutation goes through its operations, each of which is atomic: an
/// operation either performs its whole change or reports an error and
/// leaves the store untouched. This models a transactional record store
/// whose callers are serialized.
pub struct Store {
    pub rooms: Vec<CustomRoom>,
    pub slots: Vec<CustomRoomSlot>,
    pub users: Vec<User>,
    pub next_room_id: i32,
    pub next_slot_id: i32,
}

impl Store {
    /// The store's invariant: ids are unique and fresh ids stay above every
    /// stored one; each owner has at most one room; every slot lies inside
    /// an existing room's grid; no user holds two slots; no two slots of a
    /// room share a position; every room keeps its owner's slot; no two
    /// rooms share an outstanding matchmaking ticket.
    pub open spec fn wf(self) -> bool {
        &&& forall|i: int|
            0 <= i < self.rooms@.len() ==> room_wf((#[trigger] self.rooms@[i])@)
        &&& forall|i: int, j: int|
            0 <= i < j < self.rooms@.len() ==> (#[trigger] self.rooms@[i]).id != (
            #[trigger] self.rooms@[j]).id
        &&& forall|i: int, j: int|
            0 <= i < j < self.rooms@.len() ==> (#[trigger] self.rooms@[i]).user_id != (
            #[trigger] self.rooms@[j]).user_id
        &&& forall|i: int, j: int|
            0 <= i < j < self.rooms@.len() && (#[trigger] self.rooms@[i]).matchmaking_ticket is Some
                ==> self.rooms@[i].matchmaking_ticket != (
            #[trigger] self.rooms@[j]).matchmaking_ticket
        &&& forall|i: int| 0 <= i < self.rooms@.len() ==> (#[trigger] self.rooms@[i]).id < self.next_room_id
        &&& forall|i: int|
            0 <= i < self.slots@.len() ==> slot_room_ok(#[trigger] self.slots@[i], self.rooms@)
        &&& forall|i: int, j: int|
            0 <= i < j < self.slots@.len() ==> (#[trigger] self.slots@[i]).id != (
            #[trigger] self.slots@[j]).id
        &&& forall|i: int, j: int|
            0 <= i < j < self.slots@.len() ==> (#[trigger] self.slots@[i]).user_id != (
            #[trigger] self.slots@[j]).user_id
        &&& forall|i: int, j: int|
            0 <= i < j < self.slots@.len() && (#[trigger] self.slots@[i]).custom_room_id == (
            #[trigger] self.slots@[j]).custom_room_id ==> !(self.slots@[i].team
                == self.slots@[j].team && self.slots@[i].team_position
                == self.slots@[j].team_position)
        &&& forall|i: int| 0 <= i < self.slots@.len() ==> (#[trigger] self.slots@[i]).id < self.next_slot_id
        &&& forall|i: int|
            0 <= i < self.rooms@.len() ==> slot_of_owner(self.slots@, #[trigger] self.rooms@[i])
        &&& forall|i: int, j: int|
            0 <= i < j < self.users@.len() ==> (#[trigger] self.users@[i]).id != (
            #[trigger] self.users@[j]).id
    }

    /// An empty store is well formed.
    pub fn new() -> (s: Store)
        ensures
            s.wf(),
            s.rooms@.len() == 0,
            s.slots@.len() == 0,
            s.users@.len() == 0,
    {
        Store { rooms: Vec::new(), slots: Vec::new(), users: Vec::new(), next_room_id: 1, next_slot_id: 1 }
    }
}

/// Some slot of the list is the owner's slot of this room.
pub open spec fn slot_of_owner(slots: Seq<CustomRoomSlot>, room: CustomRoom) -> bool {
    exists|k: int|
        0 <= k < slots.len() && (#[trigger] slots[k]).custom_room_id == room.id && slots[k].user_id
            == room.user_id
}

/// A sequence with pairwise distinct elements filters to one with pairwise
/// distinct elements.
pub proof fn lemma_filter_no_dup<A>(s: Seq<A>, p: spec_fn(A) -> bool)
    requires
        s.no_duplicates(),
    ensures
        s.filter(p).no_duplicates(),
    decreases s.len(),
{
    broadcast use group_filter_ensures;
    broadcast use Seq::lemma_filter_push;
    broadcast use Seq::lemma_filter_contains_rev;

    if s.len() > 0 {
        let rest = s.drop_last();
        let last = s.last();
        assert(rest.push(last) =~= s);
        lemma_filter_no_dup(rest, p);
        if p(last) {
            assert(!rest.contains(last));
            if rest.filter(p).contains(last) {
                assert(rest.contains(last));
            }
            assert(s.filter(p) == rest.filter(p).push(last));
        } else {
            assert(s.filter(p) == rest.filter(p));
        }
    }
}

/// Distinct slot ids make the slot list duplicate-free.
pub proof fn lemma_slots_no_dup(slots: Seq<CustomRoomSlot>)
    requires
        forall|i: int, j: int|
            0 <= i < j < slots.len() ==> (#[trigger] slots[i]).id != (#[trigger] slots[j]).id,
    ensures
        slots.no_duplicates(),
{
}

/// In a well-formed store, each room together with its slots forms a
/// well-formed room: slots in bounds, users unique, positions unique.
pub proof fn lemma_room_slots_wf(s: Store, ri: int)
    requires
        s.wf(),
        0 <= ri < s.rooms@.len(),
    ensures
        room_slots_wf(s.rooms@[ri]@, room_slots(s.slots@, s.rooms@[ri].id as int)),
{
    broadcast use group_filter_ensures;
    broadcast use Seq::lemma_filter_contains_rev;

    let room = s.rooms@[ri];
    let rid = room.id as int;
    let rs = room_slots(s.slots@, rid);
    let pred = |sl: CustomRoomSlot| sl.custom_room_id == rid;
    lemma_slots_no_dup(s.slots@);
    lemma_filter_no_dup(s.slots@, pred);
    assert forall|k: int| 0 <= k < rs.len() implies slot_in_bounds(#[trigger] rs[k], room@) by {
        assert(rs.contains(rs[k]));
        assert(s.slots@.contains(rs[k]));
        let w = choose|w: int| 0 <= w < s.slots@.len() && s.slots@[w] == rs[k];
        assert(slot_room_ok(s.slots@[w], s.rooms@));
        let j = choose|j: int|
            0 <= j < s.rooms@.len() && (#[trigger] s.rooms@[j]).id == rs[k].custom_room_id
                && slot_in_bounds(rs[k], s.rooms@[j]@);
        if j != ri {
            if j < ri {
                assert(s.rooms@[j].id != s.rooms@[ri].id);
            } else {
                assert(s.rooms@[ri].id != s.rooms@[j].id);
            }
        }
    }
    assert forall|k1: int, k2: int| 0 <= k1 < k2 < rs.len() implies (#[trigger] rs[k1]).user_id != (
    #[trigger] rs[k2]).user_id && !(rs[k1].team == rs[k2].team && rs[k1].team_position
        == rs[k2].team_position) by {
        assert(rs[k1] != rs[k2]);
        assert(rs.contains(rs[k1]));
        assert(rs.contains(rs[k2]));
        assert(s.slots@.contains(rs[k1]));
        assert(s.slots@.contains(rs[k2]));
        let a = choose|a: int| 0 <= a < s.slots@.len() && s.slots@[a] == rs[k1];
        let b = choose|b: int| 0 <= b < s.slots@.len() && s.slots@[b] == rs[k2];
        assert(a != b);
    }
}

impl Store {
    /// The room carrying this id, if any, without its slots.
    pub fn get_without_associations(&self, id: &i32) -> (r: Option<CustomRoom>)
        ensures
            match r {
                None => !has_room_id(self.rooms@, *id as int),
                Some(room) => exists|i: int|
                    0 <= i < self.rooms@.len() && (#[trigger] self.rooms@[i]).id == *id && room@
                        == self.rooms@[i]@,
            },
    {
        let mut i: usize = 0;
        while i < self.rooms.len()
            invariant
                i <= self.rooms@.len(),
                forall|k: int| 0 <= k < i ==> (#[trigger] self.rooms@[k]).id != *id,
            decreases self.rooms@.len() - i,
        {
            if self.rooms[i].id == *id {
                return Some(self.rooms[i].clone());
            }
            i += 1;
        }
        None
    }

    /// All slots of the room carrying this id, in insertion order.
    pub fn collect_room_slots(&self, room_id: i32) -> (r: Vec<CustomRoomSlot>)
        ensures
            r@ == room_slots(self.slots@, room_id as int),
    {
        broadcast use Seq::lemma_filter_push;
        broadcast use Seq::lemma_take_succ_push;

        let mut out: Vec<CustomRoomSlot> = Vec::new();
        let mut i: usize = 0;
        proof {
            assert(self.slots@.take(0) =~= Seq::<CustomRoomSlot>::empty());
            assert(room_slots(self.slots@.take(0), room_id as int) =~= Seq::<
                CustomRoomSlot,
            >::empty()) by {
                reveal(Seq::filter);
            }
        }
        while i < self.slots.len()
            invariant
                i <= self.slots@.len(),
                out@ == room_slots(self.slots@.take(i as int), room_id as int),
            decreases self.slots@.len() - i,
        {
            let s = self.slots[i];
            if s.custom_room_id == room_id {
                out.push(s);
            }
            proof {
                assert(self.slots@.take(i as int + 1) == self.slots@.take(i as int).push(
                    self.slots@[i as int],
                ));
                self.slots@.take(i as int).lemma_filter_push(
                    self.slots@[i as int],
                    |sl: CustomRoomSlot| sl.custom_room_id == room_id as int,
                );
            }
            i += 1;
        }
        proof {
            assert(self.slots@.take(self.slots@.len() as int) =~= self.slots@);
        }
        out
    }

    /// The room carrying this id together with its slots.
    pub fn get(&self, id: &i32) -> (r: Option<(CustomRoom, Vec<CustomRoomSlot>)>)
        ensures
            match r {
                None => !has_room_id(self.rooms@, *id as int),
                Some(t) => exists|i: int|
                    0 <= i < self.rooms@.len() && (#[trigger] self.rooms@[i]).id == *id && t.0@
                        == self.rooms@[i]@ && t.1@ == room_slots(self.slots@, *id as int),
            },
    {
        match self.get_without_associations(id) {
            Some(room) => {
                let slots = self.collect_room_slots(*id);
                Some((room, slots))
            },
            None => None,
        }
    }

    /// The room owned by this user together with its slots.
    pub fn get_by_user_id(&self, user_id: &i32) -> (r: Option<(CustomRoom, Vec<CustomRoomSlot>)>)
        ensures
            match r {
                None => !has_owner(self.rooms@, *user_id as int),
                Some(t) => exists|i: int|
                    0 <= i < self.rooms@.len() && (#[trigger] self.rooms@[i]).user_id == *user_id
                        && t.0@ == self.rooms@[i]@ && t.1@ == room_slots(
                        self.slots@,
                        self.rooms@[i].id as int,
                    ),
            },
    {
        let mut i: usize = 0;
        while i < self.rooms.len()
            invariant
                i <= self.rooms@.len(),
                forall|k: int| 0 <= k < i ==> (#[trigger] self.rooms@[k]).user_id != *user_id,
            decreases self.rooms@.len() - i,
        {
            if self.rooms[i].user_id == *user_id {
                let room = self.rooms[i].clone();
                let slots = self.collect_room_slots(room.id);
                return Some((room, slots));
            }
            i += 1;
        }
        None
    }

    /// The room carrying this outstanding matchmaking ticket, with its slots.
    pub fn get_by_ticket_id(&self, ticket_id: u128) -> (r: Option<(CustomRoom, Vec<CustomRoomSlot>)>)
        ensures
            match r {
                None => !has_ticket(self.rooms@, ticket_id),
                Some(t) => exists|i: int|
                    0 <= i < self.rooms@.len() && (#[trigger] self.rooms@[i]).matchmaking_ticket
                        == Some(ticket_id) && t.0@ == self.rooms@[i]@ && t.1@ == room_slots(
                        self.slots@,
                        self.rooms@[i].id as int,
                    ),
            },
    {
        let mut i: usize = 0;
        while i < self.rooms.len()
            invariant
                i <= self.rooms@.len(),
                forall|k: int|
                    0 <= k < i ==> (#[trigger] self.rooms@[k]).matchmaking_ticket != Some(
                        ticket_id,
                    ),
            decreases self.rooms@.len() - i,
        {
            let found = match self.rooms[i].matchmaking_ticket {
                Some(t) => t == ticket_id,
                None => false,
            };
            if found {
                let room = self.rooms[i].clone();
                let slots = self.collect_room_slots(room.id);
                return Some((room, slots));
            }
            i += 1;
        }
        None
    }

    /// The slot held by this user, in whatever room.
    pub fn get_slot_by_user_id(&self, user_id: &i32) -> (r: Option<CustomRoomSlot>)
        ensures
            match r {
                None => !slot_of_user(self.slots@, *user_id as int),
                Some(slot) => exists|i: int|
                    0 <= i < self.slots@.len() && #[trigger] self.slots@[i] == slot && slot.user_id
                        == *user_id,
            },
    {
        let mut i: usize = 0;
        while i < self.slots.len()
            invariant
                i <= self.slots@.len(),
                forall|k: int| 0 <= k < i ==> (#[trigger] self.slots@[k]).user_id != *user_id,
            decreases self.slots@.len() - i,
        {
            if self.slots[i].user_id == *user_id {
                return Some(self.slots[i]);
            }
            i += 1;
        }
        None
    }

    /// The slot of a room sitting at the given position, if any.
    pub fn get_slot_by_position(
        &self,
        custom_room_id: &i32,
        team: &i32,
        team_position: &i32,
    ) -> (r: Option<CustomRoomSlot>)
        ensures
            match r {
                None => !exists|i: int|
                    0 <= i < self.slots@.len() && (#[trigger] self.slots@[i]).custom_room_id
                        == *custom_room_id && self.slots@[i].team == *team
                        && self.slots@[i].team_position == *team_position,
                Some(slot) => exists|i: int|
                    0 <= i < self.slots@.len() && #[trigger] self.slots@[i] == slot
                        && slot.custom_room_id == *custom_room_id && slot.team == *team
                        && slot.team_position == *team_position,
            },
    {
        let mut i: usize = 0;
        while i < self.slots.len()
            invariant
                i <= self.slots@.len(),
                forall|k: int|
                    0 <= k < i ==> !((#[trigger] self.slots@[k]).custom_room_id == *custom_room_id
                        && self.slots@[k].team == *team && self.slots@[k].team_position
                        == *team_position),
            decreases self.slots@.len() - i,
        {
            if self.slots[i].custom_room_id == *custom_room_id && self.slots[i].team == *team
                && self.slots[i].team_position == *team_position {
                return Some(self.slots[i]);
            }
            i += 1;
        }
        None
    }

    /// The user record carrying this id, if any.
    pub fn get_user(&self, user_id: &i32) -> (r: Option<User>)
        ensures
            match r {
                None => !has_user_id(self.users@, *user_id as int),
                Some(user) => exists|i: int|
                    0 <= i < self.users@.len() && (#[trigger] self.users@[i]).id == *user_id
                        && user@ == self.users@[i]@,
            },
    {
        let mut i: usize = 0;
        while i < self.users.len()
            invariant
                i <= self.users@.len(),
                forall|k: int| 0 <= k < i ==> (#[trigger] self.users@[k]).id != *user_id,
            decreases self.users@.len() - i,
        {
            if self.users[i].id == *user_id {
                return Some(self.users[i].clone());
            }
            i += 1;
        }
        None
    }

    /// Every room of the store, each with its slots, in storage order.
    pub fn get_all(&self) -> (r: Vec<(CustomRoom, Vec<CustomRoomSlot>)>)
        ensures
            r@.len() == self.rooms@.len(),
            forall|i: int|
                0 <= i < r@.len() ==> (#[trigger] r@[i]).0@ == self.rooms@[i]@ && r@[i].1@
                    == room_slots(self.slots@, self.rooms@[i].id as int),
    {
        let mut out: Vec<(CustomRoom, Vec<CustomRoomSlot>)> = Vec::new();
        let mut i: usize = 0;
        while i < self.rooms.len()
            invariant
                i <= self.rooms@.len(),
                out@.len() == i,
                forall|k: int|
                    0 <= k < i ==> (#[trigger] out@[k]).0@ == self.rooms@[k]@ && out@[k].1@
                        == room_slots(self.slots@, self.rooms@[k].id as int),
            decreases self.rooms@.len() - i,
        {
            let room = self.rooms[i].clone();
            let slots = self.collect_room_slots(room.id);
            out.push((room, slots));
            i += 1;
        }
        out
    }
}

} // verus!

verus! {

/// The room parameters describe a usable room: positive team grid whose
/// capacity fits a 32-bit count.
pub open spec fn create_data_ok(d: crate::custom_room::CreateData) -> bool {
    &&& 1 <= d.nb_teams
    &&& 1 <= d.max_players_per_team
    &&& d.nb_teams * d.max_players_per_team <= 0x7fffffff
}

/// The room value with its matchmaking ticket replaced.
pub open spec fn with_ticket(r: CustomRoom, t: Option<u128>) -> CustomRoom {
    CustomRoom {
        id: r.id,
        label: r.label,
        user_id: r.user_id,
        nb_teams: r.nb_teams,
        max_player_per_team: r.max_player_per_team,
        current_game_mode: r.current_game_mode,
        current_map: r.current_map,
        matchmaking_ticket: t,
    }
}


impl Store {
    /// The index of the room carrying this id.
    fn find_room_index(&self, id: i32) -> (r: Option<usize>)
        ensures
            match r {
                Some(j) => 0 <= j < self.rooms@.len() && self.rooms@[j as int].id == id,
                None => !has_room_id(self.rooms@, id as int),
            },
    {
        let mut j: usize = 0;
        while j < self.rooms.len()
            invariant
                j <= self.rooms@.len(),
                forall|k: int| 0 <= k < j ==> (#[trigger] self.rooms@[k]).id != id,
            decreases self.rooms@.len() - j,
        {
            if self.rooms[j].id == id {
                return Some(j);
            }
            j += 1;
        }
        None
    }

    /// The index of the room owned by this user.
    fn find_room_index_by_owner(&self, user_id: i32) -> (r: Option<usize>)
        ensures
            match r {
                Some(j) => 0 <= j < self.rooms@.len() && self.rooms@[j as int].user_id == user_id,
                None => !has_owner(self.rooms@, user_id as int),
            },
    {
        let mut j: usize = 0;
        while j < self.rooms.len()
            invariant
                j <= self.rooms@.len(),
                forall|k: int| 0 <= k < j ==> (#[trigger] self.rooms@[k]).user_id != user_id,
            decreases self.rooms@.len() - j,
        {
            if self.rooms[j].user_id == user_id {
                return Some(j);
            }
            j += 1;
        }
        None
    }

    /// The index of the slot this user holds inside the given room.
    fn find_slot_index_of_user_in_room(&self, custom_room_id: i32, user_id: i32) -> (r: Option<
        usize,
    >)
        ensures
            match r {
                Some(k) => 0 <= k < self.slots@.len() && self.slots@[k as int].user_id == user_id
                    && self.slots@[k as int].custom_room_id == custom_room_id,
                None => !exists|i: int|
                    0 <= i < self.slots@.len() && (#[trigger] self.slots@[i]).user_id == user_id
                        && self.slots@[i].custom_room_id == custom_room_id,
            },
    {
        let mut k: usize = 0;
        while k < self.slots.len()
            invariant
                k <= self.slots@.len(),
                forall|w: int|
                    0 <= w < k ==> !((#[trigger] self.slots@[w]).user_id == user_id
                        && self.slots@[w].custom_room_id == custom_room_id),
            decreases self.slots@.len() - k,
        {
            if self.slots[k].user_id == user_id && self.slots[k].custom_room_id == custom_room_id {
                return Some(k);
            }
            k += 1;
        }
        None
    }

    /// Whether any slot of the store belongs to this user.
    fn any_slot_of_user(&self, user_id: i32) -> (r: bool)
        ensures
            r == slot_of_user(self.slots@, user_id as int),
    {
        let mut k: usize = 0;
        while k < self.slots.len()
            invariant
                k <= self.slots@.len(),
                forall|w: int| 0 <= w < k ==> (#[trigger] self.slots@[w]).user_id != user_id,
            decreases self.slots@.len() - k,
        {
            if self.slots[k].user_id == user_id {
                return true;
            }
            k += 1;
        }
        false
    }
}

impl Store {
    /// Registers a user record under a fresh id.
    #[verifier::loop_isolation(false)]
    pub fn add_user(&mut self, user: User) -> (r: Result<(), crate::errors::RoomError>)
        requires
            old(self).wf(),
        ensures
            final(self).wf(),
            match r {
                Ok(()) => {
                    &&& !has_user_id(old(self).users@, user.id as int)
                    &&& final(self).users@ == old(self).users@.push(user)
                    &&& final(self).rooms@ == old(self).rooms@
                    &&& final(self).slots@ == old(self).slots@
                    &&& final(self).next_room_id == old(self).next_room_id
                    &&& final(self).next_slot_id == old(self).next_slot_id
                },
                Err(e) => {
                    &&& e == crate::errors::RoomError::UserIdTaken
                    &&& has_user_id(old(self).users@, user.id as int)
                    &&& *final(self) == *old(self)
                },
            },
    {
        let mut i: usize = 0;
        while i < self.users.len()
            invariant
                i <= self.users@.len(),
                forall|k: int| 0 <= k < i ==> (#[trigger] self.users@[k]).id != user.id,
            decreases self.users@.len() - i,
        {
            if self.users[i].id == user.id {
                return Err(crate::errors::RoomError::UserIdTaken);
            }
            i += 1;
        }
        self.users.push(user);
        Ok(())
    }

    /// Sets or clears the matchmaking ticket of a room. Refuses a ticket
    /// that is already bound to a different room.
    #[verifier::loop_isolation(false)]
    #[verifier::rlimit(100)]
    pub fn update_ticket(&mut self, custom_room_id: &i32, ticket_id: &Option<u128>) -> (r: Result<
        (),
        crate::errors::RoomError,
    >)
        requires
            old(self).wf(),
        ensures
            final(self).wf(),
            match r {
                Ok(()) => {
                    &&& exists|j: int|
                        0 <= j < old(self).rooms@.len() && (#[trigger] old(self).rooms@[j]).id
                            == *custom_room_id && final(self).rooms@ == old(self).rooms@.update(
                            j,
                            with_ticket(old(self).rooms@[j], *ticket_id),
                        )
                    &&& final(self).slots@ == old(self).slots@
                    &&& final(self).users@ == old(self).users@
                    &&& final(self).next_room_id == old(self).next_room_id
                    &&& final(self).next_slot_id == old(self).next_slot_id
                },
                Err(e) => {
                    &&& *final(self) == *old(self)
                    &&& {
                        ||| (e == crate::errors::RoomError::UnknownRoom && !has_room_id(
                            old(self).rooms@,
                            *custom_room_id as int,
                        ))
                        ||| (e == crate::errors::RoomError::TicketInUse && has_room_id(
                            old(self).rooms@,
                            *custom_room_id as int,
                        ) && ticket_id is Some && exists|k: int|
                            0 <= k < old(self).rooms@.len() && (
                            #[trigger] old(self).rooms@[k]).matchmaking_ticket == *ticket_id && old(
                                self,
                            ).rooms@[k].id != *custom_room_id)
                    }
                },
            },
    {
        let n = self.rooms.len();
        let j = match self.find_room_index(*custom_room_id) {
            Some(j) => j,
            None => {
                return Err(crate::errors::RoomError::UnknownRoom);
            },
        };
        if let Some(t) = ticket_id {
            let mut k: usize = 0;
            while k < n
                invariant
                    k <= n,
                    n == self.rooms@.len(),
                    0 <= j < n,
                    self.rooms@[j as int].id == *custom_room_id,
                    ticket_id is Some && *ticket_id == Some(*t),
                    forall|w: int|
                        0 <= w < k ==> !((#[trigger] self.rooms@[w]).matchmaking_ticket == Some(*t)
                            && self.rooms@[w].id != *custom_room_id),
                decreases n - k,
            {
                if self.rooms[k].id != *custom_room_id {
                    let clash = match self.rooms[k].matchmaking_ticket {
                        Some(u) => u == *t,
                        None => false,
                    };
                    if clash {
                        return Err(crate::errors::RoomError::TicketInUse);
                    }
                }
                k += 1;
            }
        }
        let mut room = self.rooms.remove(j);
        room.matchmaking_ticket = *ticket_id;
        self.rooms.insert(j, room);
        proof {
            assert(self.rooms@ =~= old(self).rooms@.update(
                j as int,
                with_ticket(old(self).rooms@[j as int], *ticket_id),
            ));
            assert forall|a: int, b: int|
                0 <= a < b < self.rooms@.len() && (#[trigger] self.rooms@[a]).matchmaking_ticket is Some
                    implies self.rooms@[a].matchmaking_ticket != (
                #[trigger] self.rooms@[b]).matchmaking_ticket by {
                if a == j as int || b == j as int {
                    let other = if a == j as int { b } else { a };
                    assert(old(self).rooms@[other].id != *custom_room_id);
                    if ticket_id is Some {
                        assert(!(old(self).rooms@[other].matchmaking_ticket == *ticket_id
                            && old(self).rooms@[other].id != *custom_room_id));
                    }
                }
            }
            assert forall|i: int|
                0 <= i < self.slots@.len() implies slot_room_ok(
                #[trigger] self.slots@[i],
                self.rooms@,
            ) by {
                let w = choose|w: int|
                    0 <= w < old(self).rooms@.len() && (#[trigger] old(self).rooms@[w]).id
                        == self.slots@[i].custom_room_id && slot_in_bounds(
                        self.slots@[i],
                        old(self).rooms@[w]@,
                    );
                assert(0 <= w < self.rooms@.len() && self.rooms@[w].id
                    == self.slots@[i].custom_room_id && slot_in_bounds(
                    self.slots@[i],
                    self.rooms@[w]@,
                ));
            }
            assert forall|i: int|
                0 <= i < self.rooms@.len() implies slot_of_owner(
                self.slots@,
                #[trigger] self.rooms@[i],
            ) by {
                assert(slot_of_owner(old(self).slots@, old(self).rooms@[i]));
                let w = choose|w: int|
                    0 <= w < old(self).slots@.len() && (#[trigger] old(self).slots@[w]).custom_room_id
                        == old(self).rooms@[i].id && old(self).slots@[w].user_id == old(
                        self,
                    ).rooms@[i].user_id;
                assert(0 <= w < self.slots@.len() && self.slots@[w].custom_room_id
                    == self.rooms@[i].id && self.slots@[w].user_id == self.rooms@[i].user_id);
            }
        }
        Ok(())
    }
}

} // verus!

verus! {

use crate::custom_room::CreateData;
use crate::custom_room::RoomView;
use crate::enums::Archetypes;
use crate::errors::RoomError;
use crate::form::CustomRoomSlotForm;

impl Store {
    /// Opens a new room for `user_id` and seats the owner at team 0,
    /// position 0 with the default archetype, as one atomic change.
    #[verifier::loop_isolation(false)]
    #[verifier::rlimit(100)]
    pub fn create_room(&mut self, user_id: &i32, data: CreateData) -> (r: Result<
        (CustomRoom, Vec<CustomRoomSlot>),
        RoomError,
    >)
        requires
            old(self).wf(),
        ensures
            final(self).wf(),
            match r {
                Ok(t) => {
                    &&& create_data_ok(data)
                    &&& !slot_of_user(old(self).slots@, *user_id as int)
                    &&& old(self).next_room_id < 0x7fffffff
                    &&& old(self).next_slot_id < 0x7fffffff
                    &&& final(self).rooms@.len() == old(self).rooms@.len() + 1
                    &&& final(self).rooms@ == old(self).rooms@.push(final(self).rooms@.last())
                    &&& final(self).rooms@.last()@ == RoomView {
                        id: old(self).next_room_id,
                        label: data.label@,
                        user_id: *user_id,
                        nb_teams: data.nb_teams,
                        max_player_per_team: data.max_players_per_team,
                        current_game_mode: data.game_mode,
                        current_map: data.map,
                        matchmaking_ticket: None,
                    }
                    &&& final(self).slots@ == old(self).slots@.push(
                        CustomRoomSlot {
                            id: old(self).next_slot_id,
                            custom_room_id: old(self).next_room_id,
                            team: 0,
                            team_position: 0,
                            user_id: *user_id,
                            current_archetype: Archetypes::Leader,
                        },
                    )
                    &&& final(self).users@ == old(self).users@
                    &&& final(self).next_room_id == old(self).next_room_id + 1
                    &&& final(self).next_slot_id == old(self).next_slot_id + 1
                    &&& t.0@ == final(self).rooms@.last()@
                    &&& t.1@ == seq![final(self).slots@.last()]
                },
                Err(e) => {
                    &&& *final(self) == *old(self)
                    &&& {
                        ||| (e == RoomError::InvalidRoomSpec && !create_data_ok(data))
                        ||| (e == RoomError::AlreadyInRoom && create_data_ok(data) && slot_of_user(
                            old(self).slots@,
                            *user_id as int,
                        ))
                        ||| (e == RoomError::IdSpaceExhausted && create_data_ok(data)
                            && !slot_of_user(old(self).slots@, *user_id as int) && (old(
                            self,
                        ).next_room_id == 0x7fffffff || old(self).next_slot_id == 0x7fffffff))
                    }
                },
            },
    {
        if data.nb_teams < 1 || data.max_players_per_team < 1 {
            return Err(RoomError::InvalidRoomSpec);
        }
        proof {
            assert((data.nb_teams as int) * (data.max_players_per_team as int) <= 0x7fffffffi64
                * 0x7fffffffi64) by (nonlinear_arith)
                requires
                    1 <= data.nb_teams <= 0x7fffffff,
                    1 <= data.max_players_per_team <= 0x7fffffff,
            ;
        }
        if (data.nb_teams as i64) * (data.max_players_per_team as i64) > 0x7fffffff {
            return Err(RoomError::InvalidRoomSpec);
        }
        if self.any_slot_of_user(*user_id) {
            return Err(RoomError::AlreadyInRoom);
        }
        if self.next_room_id == 0x7fffffff || self.next_slot_id == 0x7fffffff {
            return Err(RoomError::IdSpaceExhausted);
        }
        let room = CustomRoom {
            id: self.next_room_id,
            label: data.label,
            user_id: *user_id,
            nb_teams: data.nb_teams,
            max_player_per_team: data.max_players_per_team,
            current_game_mode: data.game_mode,
            current_map: data.map,
            matchmaking_ticket: None,
        };
        let slot = CustomRoomSlot {
            id: self.next_slot_id,
            custom_room_id: room.id,
            team: 0,
            team_position: 0,
            user_id: *user_id,
            current_archetype: Archetypes::Leader,
        };
        let snapshot = room.clone();
        self.rooms.push(room);
        self.slots.push(slot);
        self.next_room_id += 1;
        self.next_slot_id += 1;
        let mut slots_vec: Vec<CustomRoomSlot> = Vec::new();
        slots_vec.push(slot);
        proof {
            let nrooms = self.rooms@;
            let nslots = self.slots@;
            assert forall|i: int|
                0 <= i < nrooms.len() implies slot_of_owner(nslots, #[trigger] nrooms[i]) by {
                if i < nrooms.len() - 1 {
                    assert(slot_of_owner(old(self).slots@, old(self).rooms@[i]));
                    let w = choose|w: int|
                        0 <= w < old(self).slots@.len() && (#[trigger] old(
                            self,
                        ).slots@[w]).custom_room_id == old(self).rooms@[i].id && old(
                            self,
                        ).slots@[w].user_id == old(self).rooms@[i].user_id;
                    assert(nslots[w] == old(self).slots@[w]);
                } else {
                    assert(nslots[nslots.len() - 1].custom_room_id == nrooms[i].id);
                }
            }
            assert forall|i: int|
                0 <= i < nslots.len() implies slot_room_ok(#[trigger] nslots[i], nrooms) by {
                if i < nslots.len() - 1 {
                    let w = choose|w: int|
                        0 <= w < old(self).rooms@.len() && (#[trigger] old(self).rooms@[w]).id
                            == old(self).slots@[i].custom_room_id && slot_in_bounds(
                            old(self).slots@[i],
                            old(self).rooms@[w]@,
                        );
                    assert(nrooms[w] == old(self).rooms@[w]);
                } else {
                    let w = nrooms.len() - 1;
                    assert(nrooms[w].id == nslots[i].custom_room_id && slot_in_bounds(
                        nslots[i],
                        nrooms[w]@,
                    ));
                }
            }
            assert forall|a: int, b: int|
                0 <= a < b < nrooms.len() implies (#[trigger] nrooms[a]).user_id != (
            #[trigger] nrooms[b]).user_id by {
                if b == nrooms.len() - 1 {
                    assert(slot_of_owner(old(self).slots@, old(self).rooms@[a]));
                    let w = choose|w: int|
                        0 <= w < old(self).slots@.len() && (#[trigger] old(
                            self,
                        ).slots@[w]).custom_room_id == old(self).rooms@[a].id && old(
                            self,
                        ).slots@[w].user_id == old(self).rooms@[a].user_id;
                    assert(!slot_of_user(old(self).slots@, *user_id as int));
                    assert(old(self).slots@[w].user_id != *user_id);
                }
            }
        }
        Ok((snapshot, slots_vec))
    }

    /// Inserts the slot described by a validated form, as one atomic
    /// change, and returns the room with its refreshed slot list. Beyond
    /// the uniqueness constraints on (room, team, position) and (room,
    /// user), the store also refuses an out-of-grid target, a user already
    /// seated in any room, and an exhausted slot-id space.
    #[verifier::loop_isolation(false)]
    #[verifier::rlimit(100)]
    pub fn create_slot(&mut self, form: &CustomRoomSlotForm) -> (r: Result<
        (CustomRoom, Vec<CustomRoomSlot>),
        RoomError,
    >)
        requires
            old(self).wf(),
        ensures
            final(self).wf(),
            match r {
                Ok(t) => {
                    &&& exists|j: int|
                        0 <= j < old(self).rooms@.len() && (#[trigger] old(self).rooms@[j]).id
                            == form.custom_room_id && t.0@ == old(self).rooms@[j]@ && slot_in_bounds(
                            final(self).slots@.last(),
                            old(self).rooms@[j]@,
                        )
                    &&& !occupied_in_room(
                        old(self).slots@,
                        form.custom_room_id as int,
                        form.team as int,
                        form.team_position as int,
                    )
                    &&& !slot_of_user(old(self).slots@, form.user_id as int)
                    &&& old(self).next_slot_id < 0x7fffffff
                    &&& final(self).slots@ == old(self).slots@.push(
                        CustomRoomSlot {
                            id: old(self).next_slot_id,
                            custom_room_id: form.custom_room_id,
                            team: form.team,
                            team_position: form.team_position,
                            user_id: form.user_id,
                            current_archetype: match form.current_archetype {
                                Some(a) => a,
                                None => Archetypes::Leader,
                            },
                        },
                    )
                    &&& final(self).rooms@ == old(self).rooms@
                    &&& final(self).users@ == old(self).users@
                    &&& final(self).next_room_id == old(self).next_room_id
                    &&& final(self).next_slot_id == old(self).next_slot_id + 1
                    &&& t.1@ == room_slots(final(self).slots@, form.custom_room_id as int)
                },
                Err(e) => {
                    &&& *final(self) == *old(self)
                    &&& {
                        ||| (e == RoomError::UnknownRoom && !has_room_id(
                            old(self).rooms@,
                            form.custom_room_id as int,
                        ))
                        ||| (e == RoomError::InvalidSlot && exists|j: int|
                            0 <= j < old(self).rooms@.len() && (#[trigger] old(self).rooms@[j]).id
                                == form.custom_room_id && !(0 <= form.team < old(
                                self,
                            ).rooms@[j].nb_teams && 0 <= form.team_position < old(
                                self,
                            ).rooms@[j].max_player_per_team))
                        ||| (e == RoomError::SlotTaken && occupied_in_room(
                            old(self).slots@,
                            form.custom_room_id as int,
                            form.team as int,
                            form.team_position as int,
                        ))
                        ||| (e == RoomError::AlreadyInRoom && slot_of_user(
                            old(self).slots@,
                            form.user_id as int,
                        ))
                        ||| (e == RoomError::IdSpaceExhausted && old(self).next_slot_id
                            == 0x7fffffff)
                    }
                },
            },
    {
        let j = match self.find_room_index(form.custom_room_id) {
            Some(j) => j,
            None => {
                return Err(RoomError::UnknownRoom);
            },
        };
        if !(0 <= form.team && form.team < self.rooms[j].nb_teams && 0 <= form.team_position
            && form.team_position < self.rooms[j].max_player_per_team) {
            return Err(RoomError::InvalidSlot);
        }
        if self.position_taken_in_room(form.custom_room_id, form.team, form.team_position) {
            return Err(RoomError::SlotTaken);
        }
        if self.any_slot_of_user(form.user_id) {
            return Err(RoomError::AlreadyInRoom);
        }
        if self.next_slot_id == 0x7fffffff {
            return Err(RoomError::IdSpaceExhausted);
        }
        let archetype = match form.current_archetype {
            Some(a) => a,
            None => Archetypes::Leader,
        };
        let slot = CustomRoomSlot {
            id: self.next_slot_id,
            custom_room_id: form.custom_room_id,
            team: form.team,
            team_position: form.team_position,
            user_id: form.user_id,
            current_archetype: archetype,
        };
        self.slots.push(slot);
        self.next_slot_id += 1;
        let room = self.rooms[j].clone();
        let slots_vec = self.collect_room_slots(form.custom_room_id);
        proof {
            let nrooms = self.rooms@;
            let nslots = self.slots@;
            assert(nslots == old(self).slots@.push(slot));
            assert forall|i: int|
                0 <= i < nslots.len() implies slot_room_ok(#[trigger] nslots[i], nrooms) by {
                if i < nslots.len() - 1 {
                    assert(slot_room_ok(old(self).slots@[i], old(self).rooms@));
                } else {
                    assert(nrooms[j as int].id == nslots[i].custom_room_id && slot_in_bounds(
                        nslots[i],
                        nrooms[j as int]@,
                    ));
                }
            }
            assert forall|i: int|
                0 <= i < nrooms.len() implies slot_of_owner(nslots, #[trigger] nrooms[i]) by {
                assert(slot_of_owner(old(self).slots@, old(self).rooms@[i]));
                let w = choose|w: int|
                    0 <= w < old(self).slots@.len() && (#[trigger] old(
                        self,
                    ).slots@[w]).custom_room_id == old(self).rooms@[i].id && old(
                        self,
                    ).slots@[w].user_id == old(self).rooms@[i].user_id;
                assert(nslots[w] == old(self).slots@[w]);
            }
            assert forall|a: int, b: int|
                0 <= a < b < nslots.len() implies (#[trigger] nslots[a]).user_id != (
            #[trigger] nslots[b]).user_id by {
                if b == nslots.len() - 1 {
                    assert(nslots[a] == old(self).slots@[a]);
                    assert(!slot_of_user(old(self).slots@, form.user_id as int));
                }
            }
            assert forall|a: int, b: int|
                0 <= a < b < nslots.len() implies (#[trigger] nslots[a]).id != (
            #[trigger] nslots[b]).id by {
                if b == nslots.len() - 1 {
                    assert(nslots[a] == old(self).slots@[a]);
                    assert(old(self).slots@[a].id < old(self).next_slot_id);
                }
            }
            assert forall|a: int, b: int|
                0 <= a < b < nslots.len() && (#[trigger] nslots[a]).custom_room_id == (
            #[trigger] nslots[b]).custom_room_id implies !(nslots[a].team == nslots[b].team
                && nslots[a].team_position == nslots[b].team_position) by {
                if b == nslots.len() - 1 {
                    assert(nslots[a] == old(self).slots@[a]);
                    assert(!occupied_in_room(
                        old(self).slots@,
                        form.custom_room_id as int,
                        form.team as int,
                        form.team_position as int,
                    ));
                }
            }
        }
        Ok((room, slots_vec))
    }

    /// Whether some slot of this room sits at the given position.
    fn position_taken_in_room(&self, custom_room_id: i32, team: i32, team_position: i32) -> (r:
        bool)
        ensures
            r == occupied_in_room(
                self.slots@,
                custom_room_id as int,
                team as int,
                team_position as int,
            ),
    {
        let mut i: usize = 0;
        while i < self.slots.len()
            invariant
                i <= self.slots@.len(),
                forall|k: int|
                    0 <= k < i ==> !((#[trigger] self.slots@[k]).custom_room_id == custom_room_id
                        && self.slots@[k].team == team && self.slots@[k].team_position
                        == team_position),
            decreases self.slots@.len() - i,
        {
            if self.slots[i].custom_room_id == custom_room_id && self.slots[i].team == team
                && self.slots[i].team_position == team_position {
                return true;
            }
            i += 1;
        }
        false
    }
}

/// Some slot of the given room sits at the given position.
pub open spec fn occupied_in_room(
    slots: Seq<CustomRoomSlot>,
    room_id: int,
    team: int,
    pos: int,
) -> bool {
    exists|i: int|
        0 <= i < slots.len() && (#[trigger] slots[i]).custom_room_id == room_id && slots[i].team
            == team && slots[i].team_position == pos
}

} // verus!

verus! {

/// Some slot of the given room sits at the given position and belongs to a
/// user other than `user_id`.
pub open spec fn occupied_in_room_by_other(
    slots: Seq<CustomRoomSlot>,
    room_id: int,
    team: int,
    pos: int,
    user_id: int,
) -> bool {
    exists|i: int|
        0 <= i < slots.len() && (#[trigger] slots[i]).custom_room_id == room_id && slots[i].team
            == team && slots[i].team_position == pos && slots[i].user_id != user_id
}

/// The slot value with its position, and possibly its archetype, replaced
/// by the form's values.
pub open spec fn patched_slot(
    s: CustomRoomSlot,
    f: crate::form::CustomRoomSlotForm,
) -> CustomRoomSlot {
    CustomRoomSlot {
        id: s.id,
        custom_room_id: s.custom_room_id,
        team: f.team,
        team_position: f.team_position,
        user_id: s.user_id,
        current_archetype: match f.current_archetype {
            Some(a) => a,
            None => s.current_archetype,
        },
    }
}

/// The slot value with only its archetype replaced.
pub open spec fn slot_with_archetype(
    s: CustomRoomSlot,
    a: crate::enums::Archetypes,
) -> CustomRoomSlot {
    CustomRoomSlot {
        id: s.id,
        custom_room_id: s.custom_room_id,
        team: s.team,
        team_position: s.team_position,
        user_id: s.user_id,
        current_archetype: a,
    }
}

/// The slots that survive the deletion of one room.
pub open spec fn slots_without_room(
    slots: Seq<CustomRoomSlot>,
    room_id: int,
) -> Seq<CustomRoomSlot> {
    slots.filter(|s: CustomRoomSlot| s.custom_room_id != room_id)
}

/// Two distinct positions of a duplicate-free sequence's filtering come
/// from two distinct positions of the sequence itself.
pub proof fn lemma_filter_pair_witness<A>(s: Seq<A>, p: spec_fn(A) -> bool, k1: int, k2: int)
    requires
        s.no_duplicates(),
        0 <= k1 < k2 < s.filter(p).len(),
    ensures
        exists|a: int, b: int|
            0 <= a < b < s.len() && ((s[a] == s.filter(p)[k1] && s[b] == s.filter(p)[k2]) || (s[a]
                == s.filter(p)[k2] && s[b] == s.filter(p)[k1])),
{
    broadcast use vstd::seq_lib::group_filter_ensures;
    broadcast use Seq::lemma_filter_contains_rev;

    lemma_filter_no_dup(s, p);
    let f = s.filter(p);
    assert(f[k1] != f[k2]);
    assert(f.contains(f[k1]));
    assert(f.contains(f[k2]));
    assert(s.contains(f[k1]));
    assert(s.contains(f[k2]));
    let a0 = choose|a0: int| 0 <= a0 < s.len() && s[a0] == f[k1];
    let b0 = choose|b0: int| 0 <= b0 < s.len() && s[b0] == f[k2];
    assert(a0 != b0);
    if a0 < b0 {
        assert(0 <= a0 < b0 < s.len() && s[a0] == f[k1] && s[b0] == f[k2]);
    } else {
        assert(0 <= b0 < a0 < s.len() && s[b0] == f[k2] && s[a0] == f[k1]);
    }
}

impl Store {
    /// Moves the caller's slot to the position a validated form carries,
    /// leaving the archetype as the form says, as one atomic change.
    #[verifier::loop_isolation(false)]
    #[verifier::rlimit(100)]
    pub fn update_slot(&mut self, user_id: &i32, form: &crate::form::CustomRoomSlotForm) -> (r:
        Result<(CustomRoom, Vec<CustomRoomSlot>), RoomError>)
        requires
            old(self).wf(),
        ensures
            final(self).wf(),
            match r {
                Ok(t) => {
                    &&& exists|j: int|
                        0 <= j < old(self).rooms@.len() && (#[trigger] old(self).rooms@[j]).id
                            == form.custom_room_id && t.0@ == old(self).rooms@[j]@ && 0 <= form.team
                            < old(self).rooms@[j].nb_teams && 0 <= form.team_position < old(
                            self,
                        ).rooms@[j].max_player_per_team
                    &&& exists|k: int|
                        0 <= k < old(self).slots@.len() && (#[trigger] old(self).slots@[k]).user_id
                            == *user_id && old(self).slots@[k].custom_room_id
                            == form.custom_room_id && final(self).slots@ == old(
                            self,
                        ).slots@.update(k, patched_slot(old(self).slots@[k], *form))
                    &&& !occupied_in_room_by_other(
                        old(self).slots@,
                        form.custom_room_id as int,
                        form.team as int,
                        form.team_position as int,
                        *user_id as int,
                    )
                    &&& final(self).rooms@ == old(self).rooms@
                    &&& final(self).users@ == old(self).users@
                    &&& final(self).next_room_id == old(self).next_room_id
                    &&& final(self).next_slot_id == old(self).next_slot_id
                    &&& t.1@ == room_slots(final(self).slots@, form.custom_room_id as int)
                },
                Err(e) => {
                    &&& *final(self) == *old(self)
                    &&& {
                        ||| (e == RoomError::UnknownRoom && !has_room_id(
                            old(self).rooms@,
                            form.custom_room_id as int,
                        ))
                        ||| (e == RoomError::NoSuchSlot && !exists|k: int|
                            0 <= k < old(self).slots@.len() && (#[trigger] old(
                                self,
                            ).slots@[k]).user_id == *user_id && old(self).slots@[k].custom_room_id
                                == form.custom_room_id)
                        ||| (e == RoomError::InvalidSlot && exists|j: int|
                            0 <= j < old(self).rooms@.len() && (#[trigger] old(self).rooms@[j]).id
                                == form.custom_room_id && !(0 <= form.team < old(
                                self,
                            ).rooms@[j].nb_teams && 0 <= form.team_position < old(
                                self,
                            ).rooms@[j].max_player_per_team))
                        ||| (e == RoomError::SlotTaken && occupied_in_room_by_other(
                            old(self).slots@,
                            form.custom_room_id as int,
                            form.team as int,
                            form.team_position as int,
                            *user_id as int,
                        ))
                    }
                },
            },
    {
        let j = match self.find_room_index(form.custom_room_id) {
            Some(j) => j,
            None => {
                return Err(RoomError::UnknownRoom);
            },
        };
        let k = match self.find_slot_index_of_user_in_room(form.custom_room_id, *user_id) {
            Some(k) => k,
            None => {
                return Err(RoomError::NoSuchSlot);
            },
        };
        if !(0 <= form.team && form.team < self.rooms[j].nb_teams && 0 <= form.team_position
            && form.team_position < self.rooms[j].max_player_per_team) {
            return Err(RoomError::InvalidSlot);
        }
        if self.position_taken_in_room_by_other(
            form.custom_room_id,
            form.team,
            form.team_position,
            *user_id,
        ) {
            return Err(RoomError::SlotTaken);
        }
        let old_slot = self.slots[k];
        let archetype = match form.current_archetype {
            Some(a) => a,
            None => old_slot.current_archetype,
        };
        let new_slot = CustomRoomSlot {
            id: old_slot.id,
            custom_room_id: old_slot.custom_room_id,
            team: form.team,
            team_position: form.team_position,
            user_id: old_slot.user_id,
            current_archetype: archetype,
        };
        self.slots[k] = new_slot;
        let room = self.rooms[j].clone();
        let slots_vec = self.collect_room_slots(form.custom_room_id);
        proof {
            let nslots = self.slots@;
            assert(nslots == old(self).slots@.update(
                k as int,
                patched_slot(old(self).slots@[k as int], *form),
            ));
            assert forall|i: int|
                0 <= i < nslots.len() implies slot_room_ok(#[trigger] nslots[i], self.rooms@) by {
                if i != k as int {
                    assert(nslots[i] == old(self).slots@[i]);
                    assert(slot_room_ok(old(self).slots@[i], old(self).rooms@));
                } else {
                    assert(self.rooms@[j as int].id == nslots[i].custom_room_id && slot_in_bounds(
                        nslots[i],
                        self.rooms@[j as int]@,
                    ));
                }
            }
            assert forall|a: int, b: int|
                0 <= a < b < nslots.len() && (#[trigger] nslots[a]).custom_room_id == (
            #[trigger] nslots[b]).custom_room_id implies !(nslots[a].team == nslots[b].team
                && nslots[a].team_position == nslots[b].team_position) by {
                if a == k as int || b == k as int {
                    let other = if a == k as int { b } else { a };
                    assert(nslots[other] == old(self).slots@[other]);
                    if old(self).slots@[other].user_id != *user_id {
                        assert(!(old(self).slots@[other].custom_room_id == form.custom_room_id
                            as int && old(self).slots@[other].team == form.team as int && old(
                            self,
                        ).slots@[other].team_position == form.team_position as int));
                    } else {
                        if other < k as int {
                            assert(old(self).slots@[other].user_id != old(
                                self,
                            ).slots@[k as int].user_id);
                        } else if other > k as int {
                            assert(old(self).slots@[k as int].user_id != old(
                                self,
                            ).slots@[other].user_id);
                        }
                    }
                }
            }
            assert forall|i: int|
                0 <= i < self.rooms@.len() implies slot_of_owner(nslots, #[trigger] self.rooms@[i])
                by {
                assert(slot_of_owner(old(self).slots@, old(self).rooms@[i]));
                let w = choose|w: int|
                    0 <= w < old(self).slots@.len() && (#[trigger] old(
                        self,
                    ).slots@[w]).custom_room_id == old(self).rooms@[i].id && old(
                        self,
                    ).slots@[w].user_id == old(self).rooms@[i].user_id;
                if w == k as int {
                    assert(nslots[w].custom_room_id == self.rooms@[i].id && nslots[w].user_id
                        == self.rooms@[i].user_id);
                } else {
                    assert(nslots[w] == old(self).slots@[w]);
                }
            }
        }
        Ok((room, slots_vec))
    }

    /// Whether some slot of this room sits at the given position and
    /// belongs to a user other than `user_id`.
    fn position_taken_in_room_by_other(
        &self,
        custom_room_id: i32,
        team: i32,
        team_position: i32,
        user_id: i32,
    ) -> (r: bool)
        ensures
            r == occupied_in_room_by_other(
                self.slots@,
                custom_room_id as int,
                team as int,
                team_position as int,
                user_id as int,
            ),
    {
        let mut i: usize = 0;
        while i < self.slots.len()
            invariant
                i <= self.slots@.len(),
                forall|w: int|
                    0 <= w < i ==> !((#[trigger] self.slots@[w]).custom_room_id == custom_room_id
                        && self.slots@[w].team == team && self.slots@[w].team_position
                        == team_position && self.slots@[w].user_id != user_id),
            decreases self.slots@.len() - i,
        {
            if self.slots[i].custom_room_id == custom_room_id && self.slots[i].team == team
                && self.slots[i].team_position == team_position && self.slots[i].user_id
                != user_id {
                return true;
            }
            i += 1;
        }
        false
    }

    /// Replaces the archetype of the caller's slot, as one atomic change.
    #[verifier::loop_isolation(false)]
    #[verifier::rlimit(100)]
    pub fn update_slot_archetype(
        &mut self,
        user_id: &i32,
        custom_room_id: &i32,
        archetype: &crate::enums::Archetypes,
    ) -> (r: Result<(CustomRoom, Vec<CustomRoomSlot>), RoomError>)
        requires
            old(self).wf(),
        ensures
            final(self).wf(),
            match r {
                Ok(t) => {
                    &&& exists|j: int|
                        0 <= j < old(self).rooms@.len() && (#[trigger] old(self).rooms@[j]).id
                            == *custom_room_id && t.0@ == old(self).rooms@[j]@
                    &&& exists|k: int|
                        0 <= k < old(self).slots@.len() && (#[trigger] old(self).slots@[k]).user_id
                            == *user_id && old(self).slots@[k].custom_room_id == *custom_room_id
                            && final(self).slots@ == old(self).slots@.update(
                            k,
                            slot_with_archetype(old(self).slots@[k], *archetype),
                        )
                    &&& final(self).rooms@ == old(self).rooms@
                    &&& final(self).users@ == old(self).users@
                    &&& final(self).next_room_id == old(self).next_room_id
                    &&& final(self).next_slot_id == old(self).next_slot_id
                    &&& t.1@ == room_slots(final(self).slots@, *custom_room_id as int)
                },
                Err(e) => {
                    &&& *final(self) == *old(self)
                    &&& {
                        ||| (e == RoomError::UnknownRoom && !has_room_id(
                            old(self).rooms@,
                            *custom_room_id as int,
                        ))
                        ||| (e == RoomError::NoSuchSlot && !exists|k: int|
                            0 <= k < old(self).slots@.len() && (#[trigger] old(
                                self,
                            ).slots@[k]).user_id == *user_id && old(self).slots@[k].custom_room_id
                                == *custom_room_id)
                    }
                },
            },
    {
        let _j = match self.find_room_index(*custom_room_id) {
            Some(j) => j,
            None => {
                return Err(RoomError::UnknownRoom);
            },
        };
        let k = match self.find_slot_index_of_user_in_room(*custom_room_id, *user_id) {
            Some(k) => k,
            None => {
                return Err(RoomError::NoSuchSlot);
            },
        };
        let old_slot = self.slots[k];
        let new_slot = CustomRoomSlot {
            id: old_slot.id,
            custom_room_id: old_slot.custom_room_id,
            team: old_slot.team,
            team_position: old_slot.team_position,
            user_id: old_slot.user_id,
            current_archetype: *archetype,
        };
        self.slots[k] = new_slot;
        let room = self.rooms[_j].clone();
        let slots_vec = self.collect_room_slots(*custom_room_id);
        proof {
            let nslots = self.slots@;
            assert(nslots == old(self).slots@.update(
                k as int,
                slot_with_archetype(old(self).slots@[k as int], *archetype),
            ));
            assert forall|i: int|
                0 <= i < nslots.len() implies slot_room_ok(#[trigger] nslots[i], self.rooms@) by {
                if i != k as int {
                    assert(nslots[i] == old(self).slots@[i]);
                    assert(slot_room_ok(old(self).slots@[i], old(self).rooms@));
                } else {
                    assert(slot_room_ok(old(self).slots@[i], old(self).rooms@));
                    let w = choose|w: int|
                        0 <= w < old(self).rooms@.len() && (#[trigger] old(self).rooms@[w]).id
                            == old(self).slots@[i].custom_room_id && slot_in_bounds(
                            old(self).slots@[i],
                            old(self).rooms@[w]@,
                        );
                    assert(self.rooms@[w].id == nslots[i].custom_room_id && slot_in_bounds(
                        nslots[i],
                        self.rooms@[w]@,
                    ));
                }
            }
            assert forall|i: int|
                0 <= i < self.rooms@.len() implies slot_of_owner(nslots, #[trigger] self.rooms@[i])
                by {
                assert(slot_of_owner(old(self).slots@, old(self).rooms@[i]));
                let w = choose|w: int|
                    0 <= w < old(self).slots@.len() && (#[trigger] old(
                        self,
                    ).slots@[w]).custom_room_id == old(self).rooms@[i].id && old(
                        self,
                    ).slots@[w].user_id == old(self).rooms@[i].user_id;
                if w == k as int {
                    assert(nslots[w].custom_room_id == self.rooms@[i].id && nslots[w].user_id
                        == self.rooms@[i].user_id);
                } else {
                    assert(nslots[w] == old(self).slots@[w]);
                }
            }
        }
        Ok((room, slots_vec))
    }
}

} // verus!

verus! {

impl Store {
    /// Removes the slot `user_id` holds in the given room, as one atomic
    /// change. The owner's slot can never be removed this way: the owner
    /// leaves only by deleting the room.
    #[verifier::loop_isolation(false)]
    #[verifier::rlimit(100)]
    pub fn delete_slot_by_user_id(&mut self, custom_room_id: &i32, user_id: &i32) -> (r: Result<
        (CustomRoom, Vec<CustomRoomSlot>),
        RoomError,
    >)
        requires
            old(self).wf(),
        ensures
            final(self).wf(),
            match r {
                Ok(t) => {
                    &&& exists|j: int|
                        0 <= j < old(self).rooms@.len() && (#[trigger] old(self).rooms@[j]).id
                            == *custom_room_id && t.0@ == old(self).rooms@[j]@ && old(
                            self,
                        ).rooms@[j].user_id != *user_id
                    &&& exists|k: int|
                        0 <= k < old(self).slots@.len() && (#[trigger] old(self).slots@[k]).user_id
                            == *user_id && old(self).slots@[k].custom_room_id == *custom_room_id
                            && final(self).slots@ == old(self).slots@.remove(k)
                    &&& final(self).rooms@ == old(self).rooms@
                    &&& final(self).users@ == old(self).users@
                    &&& final(self).next_room_id == old(self).next_room_id
                    &&& final(self).next_slot_id == old(self).next_slot_id
                    &&& t.1@ == room_slots(final(self).slots@, *custom_room_id as int)
                },
                Err(e) => {
                    &&& *final(self) == *old(self)
                    &&& {
                        ||| (e == RoomError::UnknownRoom && !has_room_id(
                            old(self).rooms@,
                            *custom_room_id as int,
                        ))
                        ||| (e == RoomError::NoSuchSlot && !exists|k: int|
                            0 <= k < old(self).slots@.len() && (#[trigger] old(
                                self,
                            ).slots@[k]).user_id == *user_id && old(self).slots@[k].custom_room_id
                                == *custom_room_id)
                        ||| (e == RoomError::OwnerCannotBeRemoved && exists|j: int|
                            0 <= j < old(self).rooms@.len() && (#[trigger] old(self).rooms@[j]).id
                                == *custom_room_id && old(self).rooms@[j].user_id == *user_id)
                    }
                },
            },
    {
        let j = match self.find_room_index(*custom_room_id) {
            Some(j) => j,
            None => {
                return Err(RoomError::UnknownRoom);
            },
        };
        let k = match self.find_slot_index_of_user_in_room(*custom_room_id, *user_id) {
            Some(k) => k,
            None => {
                return Err(RoomError::NoSuchSlot);
            },
        };
        if self.rooms[j].user_id == *user_id {
            return Err(RoomError::OwnerCannotBeRemoved);
        }
        self.slots.remove(k);
        let room = self.rooms[j].clone();
        let slots_vec = self.collect_room_slots(*custom_room_id);
        proof {
            let nslots = self.slots@;
            let os = old(self).slots@;
            assert forall|i: int|
                0 <= i < nslots.len() implies slot_room_ok(#[trigger] nslots[i], self.rooms@) by {
                let oi: int = if i < k as int {
                    i
                } else {
                    i + 1
                };
                assert(nslots[i] == os[oi]);
                assert(slot_room_ok(os[oi], old(self).rooms@));
            }
            assert forall|a: int, b: int|
                0 <= a < b < nslots.len() implies (#[trigger] nslots[a]).user_id != (
            #[trigger] nslots[b]).user_id && (#[trigger] nslots[a]).id != (#[trigger] nslots[b]).id
                by {
                let oa: int = if a < k as int {
                    a
                } else {
                    a + 1
                };
                let ob: int = if b < k as int {
                    b
                } else {
                    b + 1
                };
                assert(nslots[a] == os[oa]);
                assert(nslots[b] == os[ob]);
            }
            assert forall|a: int, b: int|
                0 <= a < b < nslots.len() && (#[trigger] nslots[a]).custom_room_id == (
            #[trigger] nslots[b]).custom_room_id implies !(nslots[a].team == nslots[b].team
                && nslots[a].team_position == nslots[b].team_position) by {
                let oa: int = if a < k as int {
                    a
                } else {
                    a + 1
                };
                let ob: int = if b < k as int {
                    b
                } else {
                    b + 1
                };
                assert(nslots[a] == os[oa]);
                assert(nslots[b] == os[ob]);
            }
            assert forall|i: int| 0 <= i < nslots.len() implies (#[trigger] nslots[i]).id
                < self.next_slot_id by {
                let oi: int = if i < k as int {
                    i
                } else {
                    i + 1
                };
                assert(nslots[i] == os[oi]);
            }
            assert forall|i: int|
                0 <= i < self.rooms@.len() implies slot_of_owner(nslots, #[trigger] self.rooms@[i])
                by {
                assert(slot_of_owner(os, old(self).rooms@[i]));
                let w = choose|w: int|
                    0 <= w < os.len() && (#[trigger] os[w]).custom_room_id == old(
                        self,
                    ).rooms@[i].id && os[w].user_id == old(self).rooms@[i].user_id;
                if w == k as int {
                    if i < j as int {
                        assert(old(self).rooms@[i].id != old(self).rooms@[j as int].id);
                    } else if i > j as int {
                        assert(old(self).rooms@[j as int].id != old(self).rooms@[i].id);
                    }
                    assert(false);
                } else {
                    let nw: int = if w < k as int {
                        w
                    } else {
                        w - 1
                    };
                    assert(nslots[nw] == os[w]);
                }
            }
        }
        Ok((room, slots_vec))
    }

    /// Deletes the room owned by `user_id` together with every one of its
    /// slots, as one atomic change. Returns the room and the slots it had.
    #[verifier::loop_isolation(false)]
    #[verifier::rlimit(100)]
    pub fn delete_room(&mut self, user_id: &i32) -> (r: Result<
        (CustomRoom, Vec<CustomRoomSlot>),
        RoomError,
    >)
        requires
            old(self).wf(),
        ensures
            final(self).wf(),
            match r {
                Ok(t) => {
                    &&& exists|j: int|
                        0 <= j < old(self).rooms@.len() && (#[trigger] old(self).rooms@[j]).user_id
                            == *user_id && t.0@ == old(self).rooms@[j]@ && final(self).rooms@ == old(
                            self,
                        ).rooms@.remove(j) && final(self).slots@ == slots_without_room(
                            old(self).slots@,
                            old(self).rooms@[j].id as int,
                        ) && t.1@ == room_slots(old(self).slots@, old(self).rooms@[j].id as int)
                    &&& final(self).users@ == old(self).users@
                    &&& final(self).next_room_id == old(self).next_room_id
                    &&& final(self).next_slot_id == old(self).next_slot_id
                },
                Err(e) => {
                    &&& *final(self) == *old(self)
                    &&& e == RoomError::UnknownRoom
                    &&& !has_owner(old(self).rooms@, *user_id as int)
                },
            },
    {
        broadcast use Seq::lemma_filter_push;
        broadcast use Seq::lemma_take_succ_push;

        let j = match self.find_room_index_by_owner(*user_id) {
            Some(j) => j,
            None => {
                return Err(RoomError::UnknownRoom);
            },
        };
        let rid = self.rooms[j].id;
        let removed_slots = self.collect_room_slots(rid);
        let mut kept: Vec<CustomRoomSlot> = Vec::new();
        let mut i: usize = 0;
        proof {
            assert(self.slots@.take(0) =~= Seq::<CustomRoomSlot>::empty());
            assert(slots_without_room(self.slots@.take(0), rid as int) =~= Seq::<
                CustomRoomSlot,
            >::empty()) by {
                reveal(Seq::filter);
            }
        }
        while i < self.slots.len()
            invariant
                i <= self.slots@.len(),
                kept@ == slots_without_room(self.slots@.take(i as int), rid as int),
            decreases self.slots@.len() - i,
        {
            let s = self.slots[i];
            if s.custom_room_id != rid {
                kept.push(s);
            }
            proof {
                assert(self.slots@.take(i as int + 1) == self.slots@.take(i as int).push(
                    self.slots@[i as int],
                ));
                self.slots@.take(i as int).lemma_filter_push(
                    self.slots@[i as int],
                    |sl: CustomRoomSlot| sl.custom_room_id != rid as int,
                );
            }
            i += 1;
        }
        proof {
            assert(self.slots@.take(self.slots@.len() as int) =~= self.slots@);
        }
        let room = self.rooms.remove(j);
        self.slots = kept;
        proof {
            broadcast use vstd::seq_lib::group_filter_ensures;
            broadcast use Seq::lemma_filter_contains_rev;
            broadcast use Seq::lemma_filter_contains;

            let nrooms = self.rooms@;
            let nslots = self.slots@;
            let or_ = old(self).rooms@;
            let os = old(self).slots@;
            let pred = |sl: CustomRoomSlot| sl.custom_room_id != rid as int;
            lemma_slots_no_dup(os);
            assert forall|a: int, b: int|
                0 <= a < b < nrooms.len() implies (#[trigger] nrooms[a]).id != (
            #[trigger] nrooms[b]).id && (#[trigger] nrooms[a]).user_id != (
            #[trigger] nrooms[b]).user_id by {
                let oa: int = if a < j as int {
                    a
                } else {
                    a + 1
                };
                let ob: int = if b < j as int {
                    b
                } else {
                    b + 1
                };
                assert(nrooms[a] == or_[oa]);
                assert(nrooms[b] == or_[ob]);
            }
            assert forall|a: int, b: int|
                0 <= a < b < nrooms.len() && (#[trigger] nrooms[a]).matchmaking_ticket is Some
                    implies nrooms[a].matchmaking_ticket != (
            #[trigger] nrooms[b]).matchmaking_ticket by {
                let oa: int = if a < j as int {
                    a
                } else {
                    a + 1
                };
                let ob: int = if b < j as int {
                    b
                } else {
                    b + 1
                };
                assert(nrooms[a] == or_[oa]);
                assert(nrooms[b] == or_[ob]);
            }
            assert forall|i2: int|
                0 <= i2 < nrooms.len() implies room_wf((#[trigger] nrooms[i2])@) && nrooms[i2].id
                < self.next_room_id by {
                let oi: int = if i2 < j as int {
                    i2
                } else {
                    i2 + 1
                };
                assert(nrooms[i2] == or_[oi]);
            }
            assert forall|i2: int|
                0 <= i2 < nslots.len() implies slot_room_ok(#[trigger] nslots[i2], nrooms) by {
                assert(nslots.contains(nslots[i2]));
                assert(os.contains(nslots[i2]));
                assert(pred(nslots[i2]));
                let w = choose|w: int| 0 <= w < os.len() && os[w] == nslots[i2];
                assert(slot_room_ok(os[w], or_));
                let rw = choose|rw: int|
                    0 <= rw < or_.len() && (#[trigger] or_[rw]).id == os[w].custom_room_id
                        && slot_in_bounds(os[w], or_[rw]@);
                assert(rw != j as int);
                let nrw: int = if rw < j as int {
                    rw
                } else {
                    rw - 1
                };
                assert(nrooms[nrw] == or_[rw]);
            }
            assert forall|a: int, b: int|
                0 <= a < b < nslots.len() implies (#[trigger] nslots[a]).user_id != (
            #[trigger] nslots[b]).user_id && (#[trigger] nslots[a]).id != (#[trigger] nslots[b]).id
                && !((nslots[a]).custom_room_id == (nslots[b]).custom_room_id && nslots[a].team
                == nslots[b].team && nslots[a].team_position == nslots[b].team_position) by {
                lemma_filter_pair_witness(os, pred, a, b);
                let (wa, wb): (int, int) = choose|wa: int, wb: int|
                    0 <= wa < wb < os.len() && ((os[wa] == nslots[a] && os[wb] == nslots[b]) || (
                    os[wa] == nslots[b] && os[wb] == nslots[a]));
                assert(os[wa].user_id != os[wb].user_id);
                assert(os[wa].id != os[wb].id);
            }
            assert forall|i2: int| 0 <= i2 < nslots.len() implies (#[trigger] nslots[i2]).id
                < self.next_slot_id by {
                assert(nslots.contains(nslots[i2]));
                assert(os.contains(nslots[i2]));
                let w = choose|w: int| 0 <= w < os.len() && os[w] == nslots[i2];
                assert(os[w].id < old(self).next_slot_id);
            }
            assert forall|i2: int|
                0 <= i2 < nrooms.len() implies slot_of_owner(nslots, #[trigger] nrooms[i2]) by {
                let oi: int = if i2 < j as int {
                    i2
                } else {
                    i2 + 1
                };
                assert(nrooms[i2] == or_[oi]);
                assert(slot_of_owner(os, or_[oi]));
                let w = choose|w: int|
                    0 <= w < os.len() && (#[trigger] os[w]).custom_room_id == or_[oi].id
                        && os[w].user_id == or_[oi].user_id;
                if oi < j as int {
                    assert(or_[oi].id != or_[j as int].id);
                } else {
                    assert(or_[j as int].id != or_[oi].id);
                }
                assert(pred(os[w]));
                assert(nslots.contains(os[w]));
                let nw = choose|nw: int| 0 <= nw < nslots.len() && nslots[nw] == os[w];
                assert(nslots[nw].custom_room_id == nrooms[i2].id && nslots[nw].user_id
                    == nrooms[i2].user_id);
            }
        }
        Ok((room, removed_slots))
    }
}

} // verus!
