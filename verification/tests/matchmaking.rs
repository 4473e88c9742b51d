use rigidity::aws;
use rigidity::aws::FlexMatchData;
use rigidity::aws::FlexMatchEvents;
use rigidity::aws::FlexMatchGameSession;
use rigidity::aws::FlexMatchNotification;
use rigidity::aws::FlexMatchPlayerGameSession;
use rigidity::aws::FlexMatchSucceededDetail;
use rigidity::aws::FlexMatchTicket;
use rigidity::custom_room::AttrVal;
use rigidity::custom_room::CreateData;
use rigidity::enums::GameModes;
use rigidity::enums::Maps;
use rigidity::errors::RoomError;
use rigidity::service;
use rigidity::store::Store;
use rigidity::text;
use rigidity::user::User;

fn mk_user(id: i32, nickname: &str) -> User {
    User {
        id,
        email: format!("{}@example.test", nickname),
        nickname: nickname.to_string(),
        hash: "x".to_string(),
        reset_password_hash: None,
        password_hash_expire_at: None,
        created_at: 0,
        steam_id: format!("{}", id),
        first_name: nickname.to_string(),
        last_name: nickname.to_string(),
        birth_date: 0,
        email_confirmation_required: false,
    }
}

fn store_with_users(names: &[(i32, &str)]) -> Store {
    let mut store = Store::new();
    for (id, name) in names {
        assert!(store.add_user(mk_user(*id, name)).is_ok());
    }
    store
}

fn room_data(label: &str, teams: i32, per_team: i32) -> CreateData {
    CreateData {
        label: label.to_string(),
        nb_teams: teams,
        max_players_per_team: per_team,
        game_mode: GameModes::Deathmatch,
        map: Maps::Heaven,
    }
}

fn succeeded_notification(
    ticket: &str,
    players: Vec<(i32, &str)>,
) -> FlexMatchData<FlexMatchSucceededDetail> {
    FlexMatchData {
        id: "evt-1".to_string(),
        account: "test".to_string(),
        region: "eu-west-1".to_string(),
        resources: Vec::new(),
        detail: FlexMatchSucceededDetail {
            tickets: vec![FlexMatchTicket { ticket_id: ticket.to_string() }],
            e_type: FlexMatchEvents::MatchmakingSucceeded,
            match_id: "match-1".to_string(),
            game_session_info: FlexMatchGameSession {
                ip_address: "10.0.0.1".to_string(),
                port: 7777,
                players: players
                    .into_iter()
                    .map(|(id, session)| FlexMatchPlayerGameSession {
                        player_id: format!("{}", id),
                        player_session_id: session.to_string(),
                    })
                    .collect(),
            },
        },
    }
}

const TICKET: u128 = 0x550e8400e29b41d4a716446655440000;
const TICKET_TEXT: &str = "550e8400-e29b-41d4-a716-446655440000";

#[test]
fn start_matchmaking_is_owner_only_and_single() {
    let mut store = store_with_users(&[(1, "a"), (2, "b")]);
    let (dto, _) = service::create(room_data("Room", 2, 2), 1, &mut store).unwrap();
    service::join(dto.id, 2, &mut store).unwrap();
    assert!(matches!(
        service::start_matchmaking_request(dto.id, 2, TICKET, &store),
        Err(RoomError::Forbidden)
    ));
    let req = service::start_matchmaking_request(dto.id, 1, TICKET, &store).unwrap();
    assert_eq!(req.configuration_name, "CustomGame");
    assert_eq!(req.ticket_id, TICKET_TEXT);
    assert_eq!(req.players.len(), 2);
    assert_eq!(req.players[0].player_id, "1");
    assert_eq!(req.players[0].team, "0");
    assert_eq!(req.players[0].attributes.len(), 3);
    assert_eq!(req.players[0].attributes[0].0, "team");
    assert!(matches!(req.players[0].attributes[0].1, AttrVal::N(0)));
    assert_eq!(req.players[0].attributes[2].0, "archetype");
    match &req.players[0].attributes[2].1 {
        AttrVal::S(name) => assert_eq!(name, "Leader"),
        _ => panic!("archetype attribute must be text"),
    }
    // the external call succeeded: commit binds the ticket and broadcasts
    let msg = service::start_matchmaking_commit(dto.id, 1, TICKET, &mut store).unwrap();
    assert_eq!(msg.get_ids(), &vec![2]);
    let expected = "{\"route\":\"/matchmaking/custom-room\",\"message\":\"start-matchmaking\",\"data\":{}}";
    assert_eq!(msg.get_message(), expected);
    assert_eq!(store.rooms[0].matchmaking_ticket, Some(TICKET));
    // a second attempt is refused while the ticket is outstanding
    assert!(matches!(
        service::start_matchmaking_request(dto.id, 1, TICKET, &store),
        Err(RoomError::AlreadySearching)
    ));
}

#[test]
fn stop_matchmaking_clears_the_ticket() {
    let mut store = store_with_users(&[(1, "a"), (2, "b")]);
    let (dto, _) = service::create(room_data("Room", 2, 2), 1, &mut store).unwrap();
    service::join(dto.id, 2, &mut store).unwrap();
    assert!(matches!(
        service::stop_matchmaking_request(dto.id, 1, &store),
        Err(RoomError::NotSearching)
    ));
    service::start_matchmaking_commit(dto.id, 1, TICKET, &mut store).unwrap();
    let to_cancel = service::stop_matchmaking_request(dto.id, 1, &store).unwrap();
    assert_eq!(to_cancel, TICKET);
    let msg = service::stop_matchmaking_commit(dto.id, 1, &mut store).unwrap();
    assert_eq!(msg.get_ids(), &vec![2]);
    assert!(msg.get_message().contains("\"message\":\"stop-matchmaking\""));
    assert_eq!(store.rooms[0].matchmaking_ticket, None);
}

#[test]
fn failed_match_notifies_everyone_and_reopens_the_room() {
    let mut store = store_with_users(&[(1, "a"), (2, "b")]);
    let (dto, _) = service::create(room_data("Room", 2, 2), 1, &mut store).unwrap();
    service::join(dto.id, 2, &mut store).unwrap();
    service::start_matchmaking_commit(dto.id, 1, TICKET, &mut store).unwrap();
    let msg = service::matchmaking_failed(
        FlexMatchEvents::MatchmakingTimedOut,
        TICKET_TEXT,
        &mut store,
    )
    .unwrap();
    assert_eq!(msg.get_ids(), &vec![1, 2]);
    let expected = "{\"route\":\"/matchmaking/custom-room\",\"message\":\"matchmaking-failed\",\"data\":{\"reason\":\"MatchmakingTimedOut\"}}";
    assert_eq!(msg.get_message(), expected);
    assert_eq!(store.rooms[0].matchmaking_ticket, None);
}

#[test]
fn failed_match_with_stale_ticket_is_a_no_op() {
    let mut store = store_with_users(&[(1, "a"), (2, "b")]);
    let (dto, _) = service::create(room_data("Room", 2, 2), 1, &mut store).unwrap();
    service::join(dto.id, 2, &mut store).unwrap();
    service::start_matchmaking_commit(dto.id, 1, TICKET, &mut store).unwrap();
    // a well-formed but unknown ticket
    let r = service::matchmaking_failed(
        FlexMatchEvents::MatchmakingFailed,
        "00000000-0000-0000-0000-00000000beef",
        &mut store,
    );
    assert!(matches!(r, Err(RoomError::UnknownTicket)));
    // a malformed ticket
    let r2 = service::matchmaking_failed(
        FlexMatchEvents::MatchmakingFailed,
        "not a ticket",
        &mut store,
    );
    assert!(matches!(r2, Err(RoomError::UnknownTicket)));
    // no room was mutated and no broadcast was produced
    assert_eq!(store.rooms[0].matchmaking_ticket, Some(TICKET));
    assert_eq!(store.slots.len(), 2);
}

#[test]
fn succeeded_match_unicasts_sessions_and_deletes_the_room() {
    let mut store = store_with_users(&[(1, "a"), (2, "b"), (3, "c")]);
    let (dto, _) = service::create(room_data("Room", 2, 2), 1, &mut store).unwrap();
    service::join(dto.id, 2, &mut store).unwrap();
    service::join(dto.id, 3, &mut store).unwrap();
    service::start_matchmaking_commit(dto.id, 1, TICKET, &mut store).unwrap();
    // the notification names occupants 1 and 3 but not 2
    let data = succeeded_notification(TICKET_TEXT, vec![(1, "psess-1"), (3, "psess-3")]);
    let msgs = service::matchmaking_succeeded(data, &mut store).unwrap();
    assert_eq!(msgs.len(), 2);
    assert_eq!(*msgs[0].get_id(), 1);
    let expected1 = "{\"route\":\"/matchmaking/custom-room\",\"message\":\"matchmaking-succeeded\",\"data\":{\"ip_address\":\"10.0.0.1\",\"port\":7777,\"player_id\":\"1\",\"player_session_id\":\"psess-1\"}}";
    assert_eq!(msgs[0].get_message(), expected1);
    assert_eq!(*msgs[1].get_id(), 3);
    assert!(msgs[1].get_message().contains("psess-3"));
    // the room is gone, unconditionally
    assert!(store.rooms.is_empty());
    assert!(store.slots.is_empty());
}

#[test]
fn succeeded_match_with_stale_ticket_is_refused_without_mutation() {
    let mut store = store_with_users(&[(1, "a")]);
    let (dto, _) = service::create(room_data("Room", 2, 2), 1, &mut store).unwrap();
    service::start_matchmaking_commit(dto.id, 1, TICKET, &mut store).unwrap();
    let data = succeeded_notification("00000000-0000-0000-0000-00000000beef", vec![(1, "s")]);
    assert!(matches!(
        service::matchmaking_succeeded(data, &mut store),
        Err(RoomError::UnknownTicket)
    ));
    assert_eq!(store.rooms.len(), 1);
    assert_eq!(store.rooms[0].matchmaking_ticket, Some(TICKET));
}

#[test]
fn sns_dispatch_routes_by_event_kind() {
    let mut store = store_with_users(&[(1, "a")]);
    let (dto, _) = service::create(room_data("Room", 2, 2), 1, &mut store).unwrap();
    service::start_matchmaking_commit(dto.id, 1, TICKET, &mut store).unwrap();
    // an uninteresting event kind changes nothing
    match aws::handle_sns_notification(FlexMatchNotification::Other, &mut store) {
        Ok(aws::SnsOutcome::Ignored) => {},
        _ => panic!("other events must be ignored"),
    }
    // a failure clears the ticket
    match aws::handle_sns_notification(
        FlexMatchNotification::Failed(
            FlexMatchEvents::MatchmakingCancelled,
            TICKET_TEXT.to_string(),
        ),
        &mut store,
    ) {
        Ok(aws::SnsOutcome::Failed(msg)) => {
            assert!(msg.get_message().contains("MatchmakingCancelled"));
        },
        _ => panic!("expected a failure broadcast"),
    }
    assert_eq!(store.rooms[0].matchmaking_ticket, None);
    // a success deletes the room
    service::start_matchmaking_commit(dto.id, 1, TICKET, &mut store).unwrap();
    match aws::handle_sns_notification(
        FlexMatchNotification::Succeeded(succeeded_notification(TICKET_TEXT, vec![(1, "s")])),
        &mut store,
    ) {
        Ok(aws::SnsOutcome::Succeeded(msgs)) => assert_eq!(msgs.len(), 1),
        _ => panic!("expected unicasts"),
    }
    assert!(store.rooms.is_empty());
}

#[test]
fn ticket_text_round_trips_through_the_real_parser() {
    assert_eq!(text::uuid_to_string(TICKET), TICKET_TEXT);
    assert_eq!(aws::parse_ticket(TICKET_TEXT), Some(TICKET));
    assert_eq!(aws::parse_ticket("nonsense"), None);
    let fresh = aws::new_ticket_id();
    assert_eq!(aws::parse_ticket(&text::uuid_to_string(fresh)), Some(fresh));
}

#[test]
fn end_to_end_lobby_lifecycle() {
    // room 2x2 created by A; B, C, D join; E is refused; matchmaking starts,
    // succeeds for all four; the room no longer exists.
    let mut store = store_with_users(&[(1, "A"), (2, "B"), (3, "C"), (4, "D"), (5, "E")]);
    let (dto, _) = service::create(room_data("Arena", 2, 2), 1, &mut store).unwrap();
    let (d2, _) = service::join(dto.id, 2, &mut store).unwrap();
    let s2 = &d2.slots[d2.slots.len() - 1];
    assert_eq!((s2.team, s2.team_position), (0, 1));
    let (d3, _) = service::join(dto.id, 3, &mut store).unwrap();
    let s3 = &d3.slots[d3.slots.len() - 1];
    assert_eq!((s3.team, s3.team_position), (1, 0));
    let (d4, _) = service::join(dto.id, 4, &mut store).unwrap();
    let s4 = &d4.slots[d4.slots.len() - 1];
    assert_eq!((s4.team, s4.team_position), (1, 1));
    assert!(matches!(
        service::join(dto.id, 5, &mut store),
        Err(RoomError::RoomFull)
    ));
    let msg = service::start_matchmaking_commit(dto.id, 1, TICKET, &mut store).unwrap();
    assert_eq!(msg.get_ids(), &vec![2, 3, 4]);
    let data = succeeded_notification(
        TICKET_TEXT,
        vec![(1, "sa"), (2, "sb"), (3, "sc"), (4, "sd")],
    );
    let msgs = service::matchmaking_succeeded(data, &mut store).unwrap();
    let mut ids: Vec<i32> = msgs.iter().map(|m| *m.get_id()).collect();
    ids.sort();
    assert_eq!(ids, vec![1, 2, 3, 4]);
    for m in &msgs {
        let session = format!(
            "\"player_id\":\"{}\",\"player_session_id\":\"s{}\"",
            m.get_id(),
            match *m.get_id() {
                1 => "a",
                2 => "b",
                3 => "c",
                _ => "d",
            }
        );
        assert!(m.get_message().contains(&session));
    }
    assert!(store.get(&dto.id).is_none());
    assert!(store.rooms.is_empty());
}
