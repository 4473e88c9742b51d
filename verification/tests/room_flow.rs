use rigidity::custom_room::CreateData;
use rigidity::custom_room::SwitchSlotData;
use rigidity::enums::Archetypes;
use rigidity::enums::GameModes;
use rigidity::enums::Maps;
use rigidity::errors::RoomError;
use rigidity::service;
use rigidity::store::Store;
use rigidity::user::User;

fn mk_user(id: i32, nickname: &str) -> User {
    User {
        id,
        email: format!("{}@example.test", nickname),
        nickname: nickname.to_string(),
        hash: "x".to_string(),
        reset_password_hash: None,
        password_hash_expire_at: None,
        created_at: 0,
        steam_id: format!("{}", id),
        first_name: nickname.to_string(),
        last_name: nickname.to_string(),
        birth_date: 0,
        email_confirmation_required: false,
    }
}

fn store_with_users(names: &[(i32, &str)]) -> Store {
    let mut store = Store::new();
    for (id, name) in names {
        assert!(store.add_user(mk_user(*id, name)).is_ok());
    }
    store
}

fn room_data(label: &str, teams: i32, per_team: i32) -> CreateData {
    CreateData {
        label: label.to_string(),
        nb_teams: teams,
        max_players_per_team: per_team,
        game_mode: GameModes::Deathmatch,
        map: Maps::Heaven,
    }
}

#[test]
fn create_seats_owner_at_origin() {
    let mut store = store_with_users(&[(1, "alice")]);
    let (dto, broadcast) = service::create(room_data("Room", 2, 2), 1, &mut store).unwrap();
    assert_eq!(dto.slots.len(), 1);
    assert_eq!(dto.slots[0].user_id, 1);
    assert_eq!(dto.slots[0].team, 0);
    assert_eq!(dto.slots[0].team_position, 0);
    assert!(matches!(dto.slots[0].archetype, Archetypes::Leader));
    assert_eq!(dto.slots[0].nickname, "alice");
    assert_eq!(dto.user_id, 1);
    assert_eq!(dto.matchmaking_ticket, None);
    assert_eq!(broadcast.get_ids_to_except(), &vec![1]);
}

#[test]
fn create_snapshot_json_is_exact() {
    let mut store = store_with_users(&[(1, "alice")]);
    let (dto, broadcast) = service::create(room_data("Room", 2, 2), 1, &mut store).unwrap();
    let expected_dto = "{\"id\":1,\"label\":\"Room\",\"user_id\":1,\"nb_teams\":2,\"max_player_per_team\":2,\"game_mode\":\"Deathmatch\",\"map\":\"Heaven\",\"matchmaking_ticket\":null,\"slots\":[{\"id\":1,\"custom_room_id\":1,\"team\":0,\"team_position\":0,\"user_id\":1,\"nickname\":\"alice\",\"archetype\":\"Leader\"}]}";
    assert_eq!(dto.to_json(), expected_dto);
    let expected_envelope = format!(
        "{{\"route\":\"/matchmaking/custom-room\",\"message\":\"new\",\"data\":{}}}",
        expected_dto
    );
    assert_eq!(broadcast.get_message(), expected_envelope);
}

#[test]
fn create_rejects_bad_dimensions_and_double_membership() {
    let mut store = store_with_users(&[(1, "alice")]);
    assert!(matches!(
        service::create(room_data("Bad", 0, 2), 1, &mut store),
        Err(RoomError::InvalidRoomSpec)
    ));
    service::create(room_data("Room", 2, 2), 1, &mut store).unwrap();
    assert!(matches!(
        service::create(room_data("Second", 2, 2), 1, &mut store),
        Err(RoomError::AlreadyInRoom)
    ));
}

#[test]
fn join_fills_first_free_slot_in_scan_order() {
    let mut store = store_with_users(&[(1, "a"), (2, "b"), (3, "c"), (4, "d")]);
    let (dto, _) = service::create(room_data("Room", 2, 2), 1, &mut store).unwrap();
    let room_id = dto.id;
    let (dto2, msg2) = service::join(room_id, 2, &mut store).unwrap();
    let s2 = &dto2.slots[dto2.slots.len() - 1];
    assert_eq!((s2.team, s2.team_position), (0, 1));
    assert_eq!(msg2.get_ids(), &vec![1]);
    let (dto3, msg3) = service::join(room_id, 3, &mut store).unwrap();
    let s3 = &dto3.slots[dto3.slots.len() - 1];
    assert_eq!((s3.team, s3.team_position), (1, 0));
    assert_eq!(msg3.get_ids(), &vec![1, 2]);
    let (dto4, _) = service::join(room_id, 4, &mut store).unwrap();
    let s4 = &dto4.slots[dto4.slots.len() - 1];
    assert_eq!((s4.team, s4.team_position), (1, 1));
}

#[test]
fn join_payload_is_the_new_slot() {
    let mut store = store_with_users(&[(1, "a"), (2, "b")]);
    let (dto, _) = service::create(room_data("Room", 2, 2), 1, &mut store).unwrap();
    let (dto2, msg) = service::join(dto.id, 2, &mut store).unwrap();
    let slot_json = dto2.slots[dto2.slots.len() - 1].to_json();
    let expected = format!(
        "{{\"route\":\"/matchmaking/custom-room\",\"message\":\"join\",\"data\":{}}}",
        slot_json
    );
    assert_eq!(msg.get_message(), expected);
}

#[test]
fn join_on_full_room_fails_and_mutates_nothing() {
    let mut store = store_with_users(&[(1, "a"), (2, "b"), (3, "c")]);
    let (dto, _) = service::create(room_data("Tiny", 1, 2), 1, &mut store).unwrap();
    service::join(dto.id, 2, &mut store).unwrap();
    let rooms_before = store.rooms.len();
    let slots_before = store.slots.len();
    assert!(matches!(
        service::join(dto.id, 3, &mut store),
        Err(RoomError::RoomFull)
    ));
    assert_eq!(store.rooms.len(), rooms_before);
    assert_eq!(store.slots.len(), slots_before);
}

#[test]
fn concurrent_joins_on_last_slot_one_wins() {
    // The registry and store are serialized, so two racing joins run in
    // some order; the first takes the last slot, the second gets RoomFull.
    let mut store = store_with_users(&[(1, "a"), (2, "b"), (3, "c")]);
    let (dto, _) = service::create(room_data("Tiny", 1, 2), 1, &mut store).unwrap();
    let first = service::join(dto.id, 2, &mut store);
    let second = service::join(dto.id, 3, &mut store);
    assert!(first.is_ok());
    assert!(matches!(second, Err(RoomError::RoomFull)));
    // no duplicate slot was ever persisted
    let mut positions: Vec<(i32, i32)> = store
        .slots
        .iter()
        .map(|s| (s.team, s.team_position))
        .collect();
    positions.sort();
    positions.dedup();
    assert_eq!(positions.len(), store.slots.len());
}

#[test]
fn switch_slot_validates_bounds_and_occupancy() {
    let mut store = store_with_users(&[(1, "a"), (2, "b")]);
    let (dto, _) = service::create(room_data("Room", 2, 2), 1, &mut store).unwrap();
    service::join(dto.id, 2, &mut store).unwrap();
    // to an occupied position: SlotTaken
    assert!(matches!(
        service::switch_slot(dto.id, 2, SwitchSlotData { team: 0, team_position: 0 }, &mut store),
        Err(RoomError::SlotTaken)
    ));
    // team out of range: InvalidSlot
    assert!(matches!(
        service::switch_slot(dto.id, 2, SwitchSlotData { team: 2, team_position: 0 }, &mut store),
        Err(RoomError::InvalidSlot)
    ));
    // position out of range: InvalidSlot
    assert!(matches!(
        service::switch_slot(dto.id, 2, SwitchSlotData { team: 0, team_position: 2 }, &mut store),
        Err(RoomError::InvalidSlot)
    ));
    // a free position works, archetype is untouched
    let (dto2, msg) = service::switch_slot(
        dto.id,
        2,
        SwitchSlotData { team: 1, team_position: 1 },
        &mut store,
    )
    .unwrap();
    let moved = dto2.slots.iter().find(|s| s.user_id == 2).unwrap();
    assert_eq!((moved.team, moved.team_position), (1, 1));
    assert!(matches!(moved.archetype, Archetypes::Leader));
    let expected = "{\"route\":\"/matchmaking/custom-room\",\"message\":\"slot\",\"data\":{\"user_id\":2,\"nickname\":\"b\",\"team\":1,\"team_position\":1}}";
    assert_eq!(msg.get_message(), expected);
}

#[test]
fn switch_to_own_position_is_allowed() {
    let mut store = store_with_users(&[(1, "a")]);
    let (dto, _) = service::create(room_data("Room", 2, 2), 1, &mut store).unwrap();
    assert!(service::switch_slot(
        dto.id,
        1,
        SwitchSlotData { team: 0, team_position: 0 },
        &mut store
    )
    .is_ok());
}

#[test]
fn switch_archetype_updates_unconditionally() {
    let mut store = store_with_users(&[(1, "a"), (2, "b")]);
    let (dto, _) = service::create(room_data("Room", 2, 2), 1, &mut store).unwrap();
    service::join(dto.id, 2, &mut store).unwrap();
    let (dto2, msg) =
        service::switch_archetype(dto.id, Archetypes::Healer, 2, &mut store).unwrap();
    let changed = dto2.slots.iter().find(|s| s.user_id == 2).unwrap();
    assert!(matches!(changed.archetype, Archetypes::Healer));
    let expected = "{\"route\":\"/matchmaking/custom-room\",\"message\":\"select-archetype\",\"data\":{\"user_id\":2,\"archetype\":\"Healer\"}}";
    assert_eq!(msg.get_message(), expected);
}

#[test]
fn quit_removes_slot_and_notifies_rest() {
    let mut store = store_with_users(&[(1, "a"), (2, "b"), (3, "c")]);
    let (dto, _) = service::create(room_data("Room", 2, 2), 1, &mut store).unwrap();
    service::join(dto.id, 2, &mut store).unwrap();
    service::join(dto.id, 3, &mut store).unwrap();
    let (dto2, msg) = service::quit(dto.id, 2, &mut store).unwrap();
    assert!(dto2.slots.iter().all(|s| s.user_id != 2));
    assert_eq!(msg.get_ids(), &vec![1, 3]);
    let expected = "{\"route\":\"/matchmaking/custom-room\",\"message\":\"quit\",\"data\":{\"user_id\":2}}";
    assert_eq!(msg.get_message(), expected);
    // the owner cannot quit their own room
    assert!(matches!(
        service::quit(dto.id, 1, &mut store),
        Err(RoomError::OwnerCannotBeRemoved)
    ));
}

#[test]
fn kick_is_owner_only_and_reaches_the_kicked_user() {
    let mut store = store_with_users(&[(1, "a"), (2, "b"), (3, "c")]);
    let (dto, _) = service::create(room_data("Room", 2, 2), 1, &mut store).unwrap();
    service::join(dto.id, 2, &mut store).unwrap();
    service::join(dto.id, 3, &mut store).unwrap();
    assert!(matches!(
        service::kick(dto.id, 3, Some(2), &mut store),
        Err(RoomError::Forbidden)
    ));
    assert!(matches!(
        service::kick(dto.id, 1, Some(1), &mut store),
        Err(RoomError::OwnerCannotBeRemoved)
    ));
    let (dto2, msg) = service::kick(dto.id, 2, Some(1), &mut store).unwrap();
    assert!(dto2.slots.iter().all(|s| s.user_id != 2));
    // remaining occupants except the actor, then the kicked user
    assert_eq!(msg.get_ids(), &vec![3, 2]);
    let expected = "{\"route\":\"/matchmaking/custom-room\",\"message\":\"kick\",\"data\":{\"user_id\":2}}";
    assert_eq!(msg.get_message(), expected);
}

#[test]
fn delete_is_cascading() {
    let mut store = store_with_users(&[(1, "a"), (2, "b")]);
    let (dto, _) = service::create(room_data("Room", 2, 2), 1, &mut store).unwrap();
    service::join(dto.id, 2, &mut store).unwrap();
    let msg = service::delete(1, &mut store).unwrap();
    assert_eq!(msg.get_ids(), &vec![2]);
    let expected = "{\"route\":\"/matchmaking/custom-room\",\"message\":\"delete\",\"data\":{}}";
    assert_eq!(msg.get_message(), expected);
    assert!(store.rooms.is_empty());
    assert!(store.slots.is_empty());
    assert!(matches!(
        service::delete(2, &mut store),
        Err(RoomError::UnknownRoom)
    ));
}

#[test]
fn disconnect_of_owner_deletes_room_others_lose_their_slot() {
    let mut store = store_with_users(&[(1, "a"), (2, "b"), (3, "c")]);
    let (dto, _) = service::create(room_data("Room", 2, 2), 1, &mut store).unwrap();
    service::join(dto.id, 2, &mut store).unwrap();
    service::join(dto.id, 3, &mut store).unwrap();
    // a non-owner disconnect removes only that slot, event "disconnect"
    match service::handle_websocket_closing(&2, &mut store) {
        service::DisconnectOutcome::SlotRemoved(dto2, msg) => {
            assert!(dto2.slots.iter().all(|s| s.user_id != 2));
            assert_eq!(msg.get_ids(), &vec![1, 3]);
            let expected = "{\"route\":\"/matchmaking/custom-room\",\"message\":\"disconnect\",\"data\":{\"user_id\":2}}";
            assert_eq!(msg.get_message(), expected);
        },
        _ => panic!("expected a slot removal"),
    }
    assert_eq!(store.rooms.len(), 1);
    // the owner's disconnect deletes the room, event "delete"
    match service::handle_websocket_closing(&1, &mut store) {
        service::DisconnectOutcome::RoomDeleted(msg) => {
            assert_eq!(msg.get_ids(), &vec![3]);
            assert!(msg.get_message().contains("\"message\":\"delete\""));
        },
        _ => panic!("expected the room to be deleted"),
    }
    assert!(store.rooms.is_empty());
    assert!(store.slots.is_empty());
    // a user with no slot: nothing happens
    assert!(matches!(
        service::handle_websocket_closing(&2, &mut store),
        service::DisconnectOutcome::NoSlot
    ));
}

#[test]
fn unknown_room_and_unknown_user_are_reported() {
    let mut store = store_with_users(&[(1, "a")]);
    assert!(matches!(
        service::join(99, 1, &mut store),
        Err(RoomError::UnknownRoom)
    ));
    let (dto, _) = service::create(room_data("Room", 2, 2), 1, &mut store).unwrap();
    // joining user without a user record
    assert!(matches!(
        service::join(dto.id, 42, &mut store),
        Err(RoomError::UnknownUser)
    ));
}

#[test]
fn get_all_lists_every_room() {
    let mut store = store_with_users(&[(1, "a"), (2, "b")]);
    service::create(room_data("One", 2, 2), 1, &mut store).unwrap();
    service::create(room_data("Two", 1, 3), 2, &mut store).unwrap();
    let all = service::get_all(&store).unwrap();
    assert_eq!(all.len(), 2);
    assert_eq!(all[0].label, "One");
    assert_eq!(all[1].label, "Two");
    assert_eq!(all[1].max_player_per_team, 3);
}

#[test]
fn slot_invariants_hold_across_operations() {
    let mut store = store_with_users(&[(1, "a"), (2, "b"), (3, "c"), (4, "d"), (5, "e")]);
    let (dto, _) = service::create(room_data("Room", 2, 2), 1, &mut store).unwrap();
    service::join(dto.id, 2, &mut store).unwrap();
    service::join(dto.id, 3, &mut store).unwrap();
    assert!(service::switch_slot(
        dto.id,
        3,
        SwitchSlotData { team: 0, team_position: 0 },
        &mut store
    )
    .is_err());
    service::switch_slot(dto.id, 3, SwitchSlotData { team: 1, team_position: 1 }, &mut store)
        .unwrap();
    service::join(dto.id, 4, &mut store).unwrap();
    assert!(matches!(
        service::join(dto.id, 5, &mut store),
        Err(RoomError::RoomFull)
    ));
    service::quit(dto.id, 2, &mut store).unwrap();
    service::join(dto.id, 5, &mut store).unwrap();
    // at every point: count within capacity, no shared position, no shared user
    let room = &store.rooms[0];
    let capacity = (room.nb_teams * room.max_player_per_team) as usize;
    assert!(store.slots.len() <= capacity);
    let mut positions: Vec<(i32, i32)> = store
        .slots
        .iter()
        .map(|s| (s.team, s.team_position))
        .collect();
    positions.sort();
    positions.dedup();
    assert_eq!(positions.len(), store.slots.len());
    let mut users: Vec<i32> = store.slots.iter().map(|s| s.user_id).collect();
    users.sort();
    users.dedup();
    assert_eq!(users.len(), store.slots.len());
    // the owner's slot exists for the whole lifetime of the room
    assert!(store.slots.iter().any(|s| s.user_id == room.user_id));
}

#[test]
fn full_room_refuses_even_an_unknown_joiner() {
    // RoomFull is decided before any check on the joining user
    let mut store = store_with_users(&[(1, "a"), (2, "b")]);
    let (dto, _) = service::create(room_data("Tiny", 1, 2), 1, &mut store).unwrap();
    service::join(dto.id, 2, &mut store).unwrap();
    assert!(matches!(
        service::join(dto.id, 42, &mut store),
        Err(RoomError::RoomFull)
    ));
}

#[test]
fn switch_slot_checks_bounds_before_occupancy() {
    let mut store = store_with_users(&[(1, "a"), (2, "b")]);
    let (dto, _) = service::create(room_data("Room", 2, 2), 1, &mut store).unwrap();
    service::join(dto.id, 2, &mut store).unwrap();
    // an out-of-grid target is InvalidSlot even though (0,0) is occupied
    assert!(matches!(
        service::switch_slot(dto.id, 2, SwitchSlotData { team: 5, team_position: 0 }, &mut store),
        Err(RoomError::InvalidSlot)
    ));
}
