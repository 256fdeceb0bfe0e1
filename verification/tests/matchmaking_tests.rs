use sdkwork_games::matchmaking::{
    validate_cancel_ticket, validate_create_ticket, CancelMatchTicketCommand, CreateMatchTicketCommand,
    MatchTicketQuery, MatchmakingQueueQuery,
};
use sdkwork_games::matchmaking_store::InMemoryGameMatchmakingRepository;

fn command(idempotency_key: &str) -> CreateMatchTicketCommand {
    CreateMatchTicketCommand {
        game_id: "game-xiangqi".into(),
        mode_id: Some("mode-ranked".into()),
        ruleset_id: Some("ruleset-standard".into()),
        user_id: "user-1".into(),
        party_id: None,
        priority: 10,
        match_attributes: "{\"rank\":\"gold\"}".into(),
        idempotency_key: idempotency_key.into(),
        expires_at: None,
    }
}

#[test]
fn match_ticket_query_clamps_page_size() {
    let query = MatchTicketQuery { page: Some(2), page_size: Some(500), ..Default::default() };
    assert_eq!(200, query.limit());
    assert_eq!(200, query.offset());
}

#[test]
fn create_ticket_is_idempotent() {
    let mut repository = InMemoryGameMatchmakingRepository::new();
    let command = command("idem-memory-1");
    let first = repository.create_ticket("100001", &command, "t-1".into(), "2026-07-07T00:00:00Z".into()).unwrap();
    let replay = repository.create_ticket("100001", &command, "t-2".into(), "2026-07-07T00:00:01Z".into()).unwrap();
    assert_eq!(first.id, replay.id);
    assert_eq!("queued", replay.status);
}

#[test]
fn conflicting_idempotency_payload_fails() {
    let mut repository = InMemoryGameMatchmakingRepository::new();
    let command = command("idem-memory-conflict");
    repository.create_ticket("100001", &command, "t-1".into(), "now".into()).unwrap();
    let mut conflict = command.clone();
    conflict.user_id = "user-2".into();
    let error = repository.create_ticket("100001", &conflict, "t-2".into(), "now".into()).unwrap_err();
    assert_eq!("conflict", error.code());
}

#[test]
fn cancel_ticket_updates_queued_ticket() {
    let mut repository = InMemoryGameMatchmakingRepository::new();
    let ticket = repository.create_ticket("100001", &command("idem-memory-cancel"), "t-1".into(), "now".into()).unwrap();
    let cancelled = repository
        .cancel_ticket(
            "100001",
            &CancelMatchTicketCommand { ticket_id: ticket.id, user_id: "user-1".into(), reason: "player_cancelled".into() },
            "later".into(),
        )
        .unwrap();
    assert_eq!("cancelled", cancelled.status);
    assert!(cancelled.cancelled_at.is_some());
}

#[test]
fn create_ticket_rejects_missing_idempotency_key() {
    let mut command = command("");
    command.idempotency_key = " ".into();
    let error = validate_create_ticket("100001", &command).expect_err("missing idempotency key must fail");
    assert_eq!("invalid", error.code());
}

#[test]
fn cancel_ticket_rejects_empty_reason() {
    let error = validate_cancel_ticket(
        "100001",
        &CancelMatchTicketCommand { ticket_id: "ticket-1".into(), user_id: "user-1".into(), reason: " ".into() },
    )
    .expect_err("empty cancel reason must fail");
    assert_eq!("invalid", error.code());
}

#[test]
fn create_ticket_accepts_valid_queued_ticket() {
    let command = command("idem-1");
    validate_create_ticket("100001", &command).expect("ticket");
    let mut repository = InMemoryGameMatchmakingRepository::new();
    let item = repository.create_ticket("100001", &command, "ticket-1".into(), "now".into()).expect("ticket");
    assert_eq!("queued", item.status);
    assert_eq!("game-xiangqi", item.game_id);
    assert_eq!("MT-ticket-1", item.ticket_code);
}

#[test]
fn a_ticket_is_cancelled_once_and_only_by_its_player() {
    let mut repository = InMemoryGameMatchmakingRepository::new();
    let ticket = repository.create_ticket("100001", &command("idem-once"), "t-1".into(), "now".into()).unwrap();
    let by_other = repository
        .cancel_ticket(
            "100001",
            &CancelMatchTicketCommand { ticket_id: ticket.id.clone(), user_id: "user-2".into(), reason: "x".into() },
            "later".into(),
        )
        .unwrap_err();
    assert_eq!(by_other.code(), "not_found");
    let cancel = CancelMatchTicketCommand { ticket_id: ticket.ticket_code.clone(), user_id: "user-1".into(), reason: "x".into() };
    let first = repository.cancel_ticket("100001", &cancel, "later".into()).unwrap();
    assert_eq!(first.version, 1);
    let second = repository.cancel_ticket("100001", &cancel, "later".into()).unwrap_err();
    assert_eq!(second.code(), "conflict");
    assert_eq!(second.message(), "only queued match tickets can be cancelled");
    assert_eq!(repository.get_ticket("100001", &ticket.id).unwrap().status, "cancelled");
    assert_eq!(repository.get_ticket("200001", &ticket.id).unwrap_err().code(), "not_found");
}

#[test]
fn queue_lists_highest_priority_first_then_oldest() {
    let mut repository = InMemoryGameMatchmakingRepository::new();
    let mut low = command("idem-low");
    low.priority = 10;
    low.user_id = "user-low".into();
    let mut high = command("idem-high");
    high.priority = 30;
    high.user_id = "user-high".into();
    let mut mid = command("idem-mid");
    mid.priority = 20;
    mid.user_id = "user-mid".into();
    repository.create_ticket("100001", &low, "t-low".into(), "2026-07-07T00:00:01Z".into()).unwrap();
    repository.create_ticket("100001", &high, "t-high".into(), "2026-07-07T00:00:02Z".into()).unwrap();
    repository.create_ticket("100001", &mid, "t-mid".into(), "2026-07-07T00:00:03Z".into()).unwrap();

    let page = repository
        .list_queue(
            "100001",
            &MatchmakingQueueQuery {
                game_id: "game-xiangqi".into(),
                mode_id: Some("mode-ranked".into()),
                page: Some(1),
                page_size: Some(2),
            },
        )
        .unwrap();
    assert_eq!(page.total, 3);
    assert_eq!(page.items.len(), 2);
    assert_eq!(page.items[0].user_id, "user-high");
    assert_eq!(page.items[1].user_id, "user-mid");

    let other_mode = repository
        .list_queue(
            "100001",
            &MatchmakingQueueQuery { game_id: "game-xiangqi".into(), mode_id: Some("mode-casual".into()), page: None, page_size: None },
        )
        .unwrap();
    assert_eq!(other_mode.total, 0);
}

#[test]
fn ticket_listing_is_newest_first_and_filtered() {
    let mut repository = InMemoryGameMatchmakingRepository::new();
    repository.create_ticket("100001", &command("k1"), "t-1".into(), "2026-07-07T00:00:01Z".into()).unwrap();
    let mut other_user = command("k2");
    other_user.user_id = "user-2".into();
    repository.create_ticket("100001", &other_user, "t-2".into(), "2026-07-07T00:00:02Z".into()).unwrap();
    let all = repository.list_tickets("100001", &MatchTicketQuery::default()).unwrap();
    assert_eq!(all.items[0].id, "t-2");
    assert_eq!(all.items[1].id, "t-1");
    let mine = repository
        .list_tickets("100001", &MatchTicketQuery { user_id: Some("user-1".into()), status: Some(" ".into()), ..Default::default() })
        .unwrap();
    assert_eq!(mine.total, 1);
    assert_eq!(mine.items[0].id, "t-1");
}

fn ticket_row(attributes: &str) -> sdkwork_games::matchmaking::TicketRow {
    sdkwork_games::matchmaking::TicketRow {
        id: "t-1".into(),
        ticket_code: "MT-t-1".into(),
        game_id: "game-xiangqi".into(),
        mode_id: Some("mode-ranked".into()),
        ruleset_id: Some("ruleset-standard".into()),
        user_id: "user-1".into(),
        party_id: None,
        status: "queued".into(),
        priority: 10,
        match_attributes: attributes.into(),
        idempotency_key: "idem-1".into(),
        queued_at: "2026-07-07T00:00:00Z".into(),
        matched_at: None,
        cancelled_at: None,
        expires_at: None,
        version: 0,
    }
}

#[test]
fn ticket_rows_read_attributes_as_compact_json() {
    let item = ticket_row("{ \"rank\" : \"gold\" }").into_item().unwrap();
    assert_eq!(item.match_attributes, "{\"rank\":\"gold\"}");
    let broken = ticket_row("{rank").into_item().unwrap_err();
    assert_eq!(broken.code(), "invalid");
    assert!(!broken.message().is_empty());
}

#[test]
fn ticket_pages_fail_on_the_first_unreadable_row() {
    let page = sdkwork_games::matchmaking::page_from_rows(vec![ticket_row("{}"), ticket_row("[1, 2]")], 7, 2, 4).unwrap();
    assert_eq!(page.items.len(), 2);
    assert_eq!(page.items[1].match_attributes, "[1,2]");
    assert_eq!(page.total, 7);
    assert_eq!(page.page, 3);
    assert_eq!(page.page_size, 2);
    let failed = sdkwork_games::matchmaking::page_from_rows(vec![ticket_row("{}"), ticket_row("nope")], 2, 20, 0);
    assert_eq!(failed.unwrap_err().code(), "invalid");
}

#[test]
fn existing_ticket_rows_must_match_the_request() {
    let same = sdkwork_games::matchmaking::map_existing(Some(ticket_row("{\"rank\": \"gold\"}")), &command("idem-1")).unwrap();
    assert_eq!(same.unwrap().id, "t-1");
    let mut other = command("idem-1");
    other.priority = 11;
    let conflict = sdkwork_games::matchmaking::map_existing(Some(ticket_row("{\"rank\":\"gold\"}")), &other).unwrap_err();
    assert_eq!(conflict.code(), "conflict");
    assert!(sdkwork_games::matchmaking::map_existing(None, &other).unwrap().is_none());
}

#[test]
fn a_queued_ticket_reads_back_by_id_and_code() {
    let mut repository = InMemoryGameMatchmakingRepository::new();
    let ticket = repository.create_ticket("100001", &command("idem-read"), "t-9".into(), "2026-07-07T00:00:00Z".into()).unwrap();
    assert_eq!("MT-t-9", ticket.ticket_code);
    assert_eq!(repository.get_ticket("100001", "t-9").unwrap(), ticket);
    assert_eq!(repository.get_ticket("100001", "MT-t-9").unwrap(), ticket);
    assert_eq!("not_found", repository.get_ticket("100001", "t-10").unwrap_err().code());
}

#[test]
fn a_ticket_replay_compares_match_attributes_as_json_values() {
    let mut repository = InMemoryGameMatchmakingRepository::new();
    let mut first_command = command("idem-json");
    first_command.match_attributes = "{\"rank\":\"gold\",\"elo\":0.0}".into();
    let first = repository.create_ticket("100001", &first_command, "t-1".into(), "now".into()).unwrap();
    let mut replay = first_command.clone();
    replay.match_attributes = "{\"elo\":-0.0,\"rank\":\"gold\"}".into();
    assert_eq!(repository.create_ticket("100001", &replay, "t-2".into(), "later".into()).unwrap(), first);
    let mut other = first_command.clone();
    other.match_attributes = "{\"rank\":\"silver\",\"elo\":0.0}".into();
    assert_eq!("conflict", repository.create_ticket("100001", &other, "t-3".into(), "later".into()).unwrap_err().code());
}

#[test]
fn a_ticket_row_takes_the_attributes_it_is_given() {
    let row = ticket_row("{ \"rank\" : \"gold\" }");
    let ticket = sdkwork_games::matchmaking::ticket_from_row(&row, "{\"rank\":\"gold\"}".into());
    assert_eq!(ticket.match_attributes, "{\"rank\":\"gold\"}");
    assert_eq!(ticket.id, row.id);
    assert_eq!(row.to_item().unwrap(), ticket);
}
