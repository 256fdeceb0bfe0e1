use sdkwork_games::rooms::{
    active_seat_count, is_active_seat_status, next_available_seat_no, CloseGameRoomCommand,
    CreateGameRoomCommand, GameRoomItem, GameRoomQuery, GameRoomSeatItem, JoinGameRoomCommand,
    LeaveGameRoomCommand, ReadyGameRoomCommand, RoomRow, StartGameRoomCommand,
};
use sdkwork_games::rooms_store::InMemoryGameRoomRepository;

fn sample_items() -> Vec<GameRoomItem> {
    vec![
        GameRoomItem {
            id: "room-1".into(),
            game_id: "game-chinese-chess".into(),
            mode_id: Some("mode-ranked".into()),
            ruleset_id: Some("ruleset-v1".into()),
            room_code: "XQ-001".into(),
            host_user_id: "user-host-1".into(),
            visibility: "public".into(),
            join_policy: "open".into(),
            max_players: 2,
            current_players: 2,
            status: "in_progress".into(),
            version: 1,
        },
        GameRoomItem {
            id: "room-2".into(),
            game_id: "game-doudizhu".into(),
            mode_id: None,
            ruleset_id: None,
            room_code: "DDZ-OPEN".into(),
            host_user_id: "user-host-2".into(),
            visibility: "public".into(),
            join_policy: "open".into(),
            max_players: 4,
            current_players: 1,
            status: "open".into(),
            version: 0,
        },
    ]
}

fn create_command(code: &str, max_players: i32) -> CreateGameRoomCommand {
    CreateGameRoomCommand {
        game_id: "game-xiangqi".into(),
        mode_id: None,
        ruleset_id: None,
        room_code: code.into(),
        host_user_id: "user-host".into(),
        visibility: "public".into(),
        join_policy: "open".into(),
        max_players,
    }
}

fn seat(no: i32, status: &str) -> GameRoomSeatItem {
    GameRoomSeatItem {
        id: format!("seat-{no}"),
        room_id: "room-1".into(),
        seat_no: no,
        team_no: None,
        user_id: None,
        display_name_snapshot: None,
        status: status.into(),
        version: 0,
    }
}

#[test]
fn list_rooms_filters_by_status() {
    let repo = InMemoryGameRoomRepository::with_seed(sample_items());
    let page = repo.list_rooms("100001", &GameRoomQuery { status: Some("open".into()), ..Default::default() }).unwrap();
    assert_eq!(1, page.items.len());
    assert_eq!("open", page.items[0].status);
}

#[test]
fn list_rooms_paginates_items() {
    let repo = InMemoryGameRoomRepository::with_seed(sample_items());
    let page = repo
        .list_rooms("100001", &GameRoomQuery { page: Some(1), page_size: Some(1), ..Default::default() })
        .unwrap();
    assert_eq!(1, page.items.len());
    assert_eq!(2, page.total);
    assert_eq!("room-1", page.items[0].id);
}

#[test]
fn join_room_rejects_capacity_and_stale_versions() {
    let mut repo = InMemoryGameRoomRepository::new();
    let room = repo.create_room("100001", &create_command("ROOM-002", 1), "room-a".into(), "seat-a".into()).unwrap();
    let full = repo
        .join_room(
            "100001",
            &JoinGameRoomCommand {
                room_id: room.id.clone(),
                user_id: "user-guest".into(),
                display_name_snapshot: None,
                expected_version: Some(room.version),
            },
            "seat-b".into(),
        )
        .unwrap_err();
    assert_eq!("invalid", full.code());
    assert_eq!("room is full", full.message());

    let stale = repo
        .join_room(
            "100001",
            &JoinGameRoomCommand {
                room_id: room.id.clone(),
                user_id: "user-host".into(),
                display_name_snapshot: None,
                expected_version: Some(room.version + 10),
            },
            "seat-c".into(),
        )
        .unwrap_err();
    assert_eq!("conflict", stale.code());
}

#[test]
fn room_seats_follow_join_ready_start_and_leave() {
    let mut repo = InMemoryGameRoomRepository::new();
    let room = repo.create_room("100001", &create_command("ROOM-001", 2), "room-a".into(), "seat-host".into()).unwrap();
    assert_eq!(1, room.current_players);
    assert_eq!("open", room.status);

    let joined = repo
        .join_room(
            "100001",
            &JoinGameRoomCommand {
                room_id: room.id.clone(),
                user_id: "user-guest".into(),
                display_name_snapshot: Some("Guest".into()),
                expected_version: Some(room.version),
            },
            "seat-guest".into(),
        )
        .unwrap();
    assert_eq!(2, joined.current_players);
    assert_eq!(1, joined.version);

    let ready = repo
        .set_ready(
            "100001",
            &ReadyGameRoomCommand { room_id: room.id.clone(), user_id: "user-host".into(), ready: true, expected_version: None },
        )
        .unwrap();
    assert_eq!(2, ready.version);

    let started = repo
        .start_room(
            "100001",
            &StartGameRoomCommand { room_id: room.id.clone(), host_user_id: "user-host".into(), expected_version: Some(2) },
        )
        .unwrap();
    assert_eq!("in_progress", started.status);
    let seats = repo.list_room_seats("100001", &room.id).unwrap();
    assert_eq!(2, seats.len());
    assert!(seats.iter().all(|s| s.status == "playing"));
    assert_eq!(seats[0].seat_no, 1);
    assert_eq!(seats[1].seat_no, 2);

    let left = repo
        .leave_room("100001", &LeaveGameRoomCommand { room_id: room.id.clone(), user_id: "user-guest".into(), expected_version: None })
        .unwrap();
    assert_eq!(1, left.current_players);
    let again = repo
        .leave_room("100001", &LeaveGameRoomCommand { room_id: room.id.clone(), user_id: "user-guest".into(), expected_version: None })
        .unwrap_err();
    assert_eq!("not_found", again.code());
    assert_eq!("active room seat not found", again.message());
}

#[test]
fn a_freed_seat_is_taken_again() {
    let mut repo = InMemoryGameRoomRepository::new();
    let room = repo.create_room("100001", &create_command("ROOM-005", 2), "room-a".into(), "seat-host".into()).unwrap();
    let join = |user: &str| JoinGameRoomCommand {
        room_id: "room-a".into(),
        user_id: user.into(),
        display_name_snapshot: None,
        expected_version: None,
    };
    repo.join_room("100001", &join("user-1"), "seat-1".into()).unwrap();
    repo.leave_room("100001", &LeaveGameRoomCommand { room_id: room.id.clone(), user_id: "user-host".into(), expected_version: None })
        .unwrap();
    let back = repo.join_room("100001", &join("user-2"), "seat-2".into()).unwrap();
    assert_eq!(back.current_players, 2);
    let seats = repo.list_room_seats("100001", &room.id).unwrap();
    assert_eq!(seats.len(), 2);
    assert_eq!(seats[0].id, "seat-host");
    assert_eq!(seats[0].user_id, Some("user-2".into()));
    assert_eq!(seats[0].version, 2);
}

#[test]
fn close_empties_the_room() {
    let mut repo = InMemoryGameRoomRepository::new();
    let room = repo.create_room("100001", &create_command("ROOM-003", 2), "room-a".into(), "seat-host".into()).unwrap();
    let closed = repo
        .close_room(
            "100001",
            &CloseGameRoomCommand {
                room_id: room.id.clone(),
                operator_user_id: "user-host".into(),
                reason: Some("done".into()),
                expected_version: Some(room.version),
            },
        )
        .unwrap();
    assert_eq!("closed", closed.status);
    assert_eq!(0, closed.current_players);
    let seats = repo.list_room_seats("100001", &room.id).unwrap();
    assert!(seats.iter().all(|s| s.status == "left"));
}

#[test]
fn room_codes_are_unique_per_tenant_and_hostless_rooms_start_empty() {
    let mut repo = InMemoryGameRoomRepository::new();
    repo.create_room("100001", &create_command("ROOM-9", 2), "room-a".into(), "seat-a".into()).unwrap();
    let again = repo.create_room("100001", &create_command("ROOM-9", 2), "room-b".into(), "seat-b".into()).unwrap_err();
    assert_eq!(again.code(), "invalid");
    assert_eq!(again.message(), "room_code already exists");
    let mut hostless = create_command("ROOM-9", 2);
    hostless.host_user_id = " ".into();
    let other = repo.create_room("200001", &hostless, "room-c".into(), "seat-c".into()).unwrap();
    assert_eq!(other.current_players, 0);
    assert!(repo.list_room_seats("200001", "room-c").unwrap().is_empty());
    assert_eq!(repo.get_room("200001", "ROOM-9").unwrap().id, "room-c");
    assert_eq!(repo.get_room("100001", "missing").unwrap_err().code(), "not_found");
}

#[test]
fn seat_helpers_find_the_lowest_free_number() {
    assert!(is_active_seat_status("reserved"));
    assert!(is_active_seat_status("playing"));
    assert!(!is_active_seat_status("left"));
    let room = &sample_items()[1];
    let seats = vec![seat(1, "joined"), seat(2, "left"), seat(3, "ready")];
    assert_eq!(next_available_seat_no(room, &seats), Some(2));
    assert_eq!(active_seat_count(&seats), 2);
    let full = vec![seat(1, "joined"), seat(2, "joined")];
    assert_eq!(next_available_seat_no(&sample_items()[0], &full), None);
}

#[test]
fn room_rows_read_a_missing_host_as_empty() {
    let row = RoomRow {
        id: "r".into(),
        game_id: "g".into(),
        mode_id: None,
        ruleset_id: None,
        room_code: "C".into(),
        host_user_id: None,
        visibility: "public".into(),
        join_policy: "open".into(),
        max_players: 4,
        current_players: 0,
        status: "open".into(),
        version: 3,
    };
    let item = row.into_item();
    assert_eq!(item.host_user_id, "");
    assert_eq!(item.version, 3);
}

#[test]
fn a_room_never_holds_more_players_than_its_capacity() {
    let mut repo = InMemoryGameRoomRepository::new();
    let room = repo.create_room("100001", &create_command("ROOM-009", 3), "room-a".into(), "seat-host".into()).unwrap();
    let join = |user: &str| JoinGameRoomCommand {
        room_id: "room-a".into(),
        user_id: user.into(),
        display_name_snapshot: None,
        expected_version: None,
    };
    let second = repo.join_room("100001", &join("user-1"), "seat-1".into()).unwrap();
    assert_eq!(2, second.current_players);
    let third = repo.join_room("100001", &join("user-2"), "seat-2".into()).unwrap();
    assert_eq!(3, third.current_players);
    assert_eq!(3, third.max_players);
    let refused = repo.join_room("100001", &join("user-3"), "seat-3".into()).unwrap_err();
    assert_eq!("invalid", refused.code());
    assert_eq!("room is full", refused.message());
    let seats = repo.list_room_seats("100001", &room.id).unwrap();
    assert_eq!(3, seats.len());
    let numbers: Vec<i32> = seats.iter().map(|s| s.seat_no).collect();
    assert_eq!(vec![1, 2, 3], numbers);
    assert_eq!(3, repo.get_room("100001", &room.id).unwrap().current_players);
}

#[test]
fn only_the_versions_an_operation_bumps_must_have_room_to_grow() {
    let mut items = sample_items();
    items[0].version = i64::MAX;
    let mut repo = InMemoryGameRoomRepository::with_seed(items);
    let join = |room: &str, expected: Option<i64>| JoinGameRoomCommand {
        room_id: room.into(),
        user_id: "user-9".into(),
        display_name_snapshot: None,
        expected_version: expected,
    };
    // room-1 is at the top version: a join that goes through would bump it.
    assert!(!repo.join_can_grow("100001", &join("room-1", None)));
    assert!(!repo.room_move_can_grow("100001", "room-1", None));
    // A join refused on its version bumps nothing, so it is fine.
    assert!(repo.join_can_grow("100001", &join("room-1", Some(3))));
    assert_eq!("conflict", repo.join_room("100001", &join("room-1", Some(3)), "seat-x".into()).unwrap_err().code());
    // Another room is untouched by room-1's version.
    assert!(repo.join_can_grow("100001", &join("room-2", None)));
    let joined = repo.join_room("100001", &join("room-2", None), "seat-y".into()).unwrap();
    assert_eq!(joined.version, 1);
    assert!(repo.seat_change_can_grow("100001", "room-2", "user-9", None));
    assert!(repo.seat_change_can_grow("100001", "room-2", "user-nobody", None));
    assert!(repo.room_move_can_grow("100001", "room-2", Some(1)));
}
