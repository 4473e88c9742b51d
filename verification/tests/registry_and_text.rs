use rigidity::cmd;
use rigidity::cmd::DbAction;
use rigidity::enums::Archetypes;
use rigidity::errors::to_app_error;
use rigidity::errors::AppError;
use rigidity::errors::RoomError;
use rigidity::text;
use rigidity::user::User;
use rigidity::websocket::BroadcastExceptMessage;
use rigidity::websocket::Connect;
use rigidity::websocket::Disconnect;
use rigidity::websocket::ForwardMessage;
use rigidity::websocket::Lobby;
use rigidity::websocket::MultiForwardMessage;
use rigidity::websocket::ServerMessage;

#[test]
fn registry_is_last_write_wins() {
    let mut lobby = Lobby::default();
    lobby.handle_connect(Connect { addr: 100, self_id: 1 });
    lobby.handle_connect(Connect { addr: 200, self_id: 2 });
    assert_eq!(lobby.get_handle(1), Some(100));
    // a reconnect replaces the old handle
    lobby.handle_connect(Connect { addr: 300, self_id: 1 });
    assert_eq!(lobby.get_handle(1), Some(300));
    assert_eq!(lobby.sessions.len(), 2);
    // disconnect removes the mapping; a second disconnect is a no-op
    lobby.handle_disconnect(Disconnect { id: 1 });
    assert_eq!(lobby.get_handle(1), None);
    lobby.handle_disconnect(Disconnect { id: 1 });
    assert_eq!(lobby.sessions.len(), 1);
    assert_eq!(lobby.get_handle(2), Some(200));
}

#[test]
fn delivery_is_best_effort_and_ordered() {
    let mut lobby = Lobby::default();
    lobby.handle_connect(Connect { addr: 100, self_id: 1 });
    lobby.handle_connect(Connect { addr: 200, self_id: 2 });
    lobby.handle_connect(Connect { addr: 300, self_id: 3 });
    // unicast to a missing user is silently dropped
    assert!(lobby.send_message("hi", &9).is_none());
    let d = lobby.send_message("hi", &2).unwrap();
    assert_eq!(d.handle, 200);
    assert_eq!(d.message.0, "hi");
    // multi-forward skips missing users, keeps list order
    let ds = lobby.send_many_message("all", &vec![3, 9, 1]);
    let handles: Vec<u64> = ds.iter().map(|d| d.handle).collect();
    assert_eq!(handles, vec![300, 100]);
    // broadcast-except covers everyone else, in registry order
    let ds2 = lobby.send_message_to_all_except("news", &vec![2]);
    let handles2: Vec<u64> = ds2.iter().map(|d| d.handle).collect();
    assert_eq!(handles2, vec![100, 300]);
}

#[test]
fn message_commands_carry_their_payload() {
    let mut lobby = Lobby::default();
    lobby.handle_connect(Connect { addr: 100, self_id: 1 });
    lobby.handle_connect(Connect { addr: 200, self_id: 2 });
    let fwd = ForwardMessage::new(
        &1,
        ServerMessage::new("/r".to_string(), "ping".to_string(), "{}".to_string()),
    );
    assert_eq!(*fwd.get_id(), 1);
    assert_eq!(fwd.get_message(), "{\"route\":\"/r\",\"message\":\"ping\",\"data\":{}}");
    let d = lobby.handle_forward_message(&fwd).unwrap();
    assert_eq!(d.handle, 100);
    let multi = MultiForwardMessage::new(
        &vec![1, 2],
        ServerMessage::new("/r".to_string(), "m".to_string(), "{}".to_string()),
    );
    assert_eq!(multi.get_ids(), &vec![1, 2]);
    assert_eq!(lobby.handle_multi_forward_message(&multi).len(), 2);
    let bc = BroadcastExceptMessage::new(
        &vec![1],
        ServerMessage::new("/r".to_string(), "b".to_string(), "{}".to_string()),
    );
    assert_eq!(bc.get_ids_to_except(), &vec![1]);
    let ds = lobby.handle_broadcast_except_message(&bc);
    assert_eq!(ds.len(), 1);
    assert_eq!(ds[0].handle, 200);
}

#[test]
fn envelope_escapes_its_strings() {
    let m = ServerMessage::new(
        "/a\"b".to_string(),
        "line\nbreak".to_string(),
        "{\"x\":1}".to_string(),
    );
    assert_eq!(
        m.to_string(),
        "{\"route\":\"/a\\\"b\",\"message\":\"line\\nbreak\",\"data\":{\"x\":1}}"
    );
    let ctrl = ServerMessage::new(
        "r".to_string(),
        "\u{1}".to_string(),
        "{}".to_string(),
    );
    assert_eq!(
        ctrl.to_string(),
        "{\"route\":\"r\",\"message\":\"\\u0001\",\"data\":{}}"
    );
}

#[test]
fn numbers_render_exactly() {
    assert_eq!(text::i32_to_string(0), "0");
    assert_eq!(text::i32_to_string(7), "7");
    assert_eq!(text::i32_to_string(1203), "1203");
    assert_eq!(text::i32_to_string(-45), "-45");
    assert_eq!(text::i32_to_string(i32::MIN), "-2147483648");
    assert_eq!(text::i32_to_string(i32::MAX), "2147483647");
}

#[test]
fn uuid_renders_hyphenated_lowercase() {
    assert_eq!(
        text::uuid_to_string(0),
        "00000000-0000-0000-0000-000000000000"
    );
    assert_eq!(
        text::uuid_to_string(0xa1a2a3a4b1b2c1c2d1d2d3d4d5d6d7d8),
        "a1a2a3a4-b1b2-c1c2-d1d2-d3d4d5d6d7d8"
    );
}

#[test]
fn path_and_query_renders_pairs() {
    assert_eq!(text::make_path_and_query("/api", &vec![]), "/api");
    assert_eq!(
        text::make_path_and_query(
            "/api",
            &vec![("key".to_string(), "v1".to_string()), ("id".to_string(), "7".to_string())]
        ),
        "/api?key=v1&id=7"
    );
}

#[test]
fn string_equality_compares_characters() {
    assert!(text::str_eq("abc", "abc"));
    assert!(!text::str_eq("abc", "abd"));
    assert!(!text::str_eq("abc", "ab"));
    assert!(text::str_eq("", ""));
}

#[test]
fn archetypes_round_trip_their_codes() {
    assert_eq!(Archetypes::from_u32(0), Some(Archetypes::Leader));
    assert_eq!(Archetypes::from_u32(1), Some(Archetypes::Spiker));
    assert_eq!(Archetypes::from_u32(2), Some(Archetypes::Healer));
    assert_eq!(Archetypes::from_u32(3), Some(Archetypes::Assassin));
    assert_eq!(Archetypes::from_u32(9), None);
    assert_eq!(Archetypes::Healer.to_u32(), 2);
    assert_eq!(Archetypes::Assassin.name(), "Assassin");
}

#[test]
fn room_errors_surface_as_transport_errors() {
    match to_app_error(RoomError::RoomFull) {
        AppError::BadRequest(m) => assert_eq!(m, "Can't join, room is full."),
        _ => panic!("RoomFull is a bad request"),
    }
    match to_app_error(RoomError::SlotTaken) {
        AppError::BadRequest(m) => assert_eq!(m, "Slot already taken by someone else"),
        _ => panic!("SlotTaken is a bad request"),
    }
    assert!(matches!(to_app_error(RoomError::Forbidden), AppError::Forbidden));
    match to_app_error(RoomError::UnknownTicket) {
        AppError::InternalServerError(m) => {
            assert_eq!(m, "No room matches the matchmaking ticket.")
        },
        _ => panic!("UnknownTicket is internal"),
    }
    let e = AppError::Unauthorized;
    assert_eq!(e.get_message(), "Unauthorized");
}

#[test]
fn command_interpreter_schedules_actions() {
    let ok = cmd::interpret(vec!["--insert".to_string(), "users".to_string()]).unwrap();
    assert_eq!(ok, vec![DbAction::InsertTestUsers]);
    let twice = cmd::interpret(vec![
        "--insert".to_string(),
        "users".to_string(),
        "users".to_string(),
    ])
    .unwrap();
    assert_eq!(twice.len(), 2);
    let err = cmd::interpret(vec!["--insert".to_string(), "nope".to_string()]).unwrap_err();
    assert_eq!(err, "Unknown arg nope of command db --insert");
    let err2 = cmd::interpret(vec!["--frob".to_string(), "users".to_string()]).unwrap_err();
    assert_eq!(err2, "Unknown command users of db module");
}

#[test]
fn test_users_are_numbered() {
    let forms = cmd::insert_test_users("hashed");
    assert_eq!(forms.len(), 10);
    assert_eq!(forms[3].email, "3@spikegames.eu");
    assert_eq!(forms[3].nickname, "Spike3");
    assert_eq!(forms[3].steam_id, "3");
    assert_eq!(forms[3].first_name, "Spike");
    assert_eq!(forms[9].last_name, "9");
    assert_eq!(forms[0].hash, "hashed");
}

#[test]
fn user_login_gate_follows_confirmation() {
    let mut u = User {
        id: 1,
        email: "a@example.test".to_string(),
        nickname: "a".to_string(),
        hash: "x".to_string(),
        reset_password_hash: None,
        password_hash_expire_at: None,
        created_at: 0,
        steam_id: "1".to_string(),
        first_name: "a".to_string(),
        last_name: "a".to_string(),
        birth_date: 0,
        email_confirmation_required: true,
    };
    assert!(!u.can_login());
    u.email_confirmation_required = false;
    assert!(u.can_login());
}
