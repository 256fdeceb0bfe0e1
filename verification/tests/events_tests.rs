use sdkwork_games::events::{
    validate_append_audit_record, validate_append_event, validate_mark_event_failed,
    AppendAuditRecordCommand, AppendGameEngineEventCommand, AuditRecordQuery,
    MarkGameEngineEventFailedCommand, MarkGameEngineEventPublishedCommand,
    PendingGameEngineEventQuery,
};
use sdkwork_games::events_store::InMemoryGameEventsRepository;

fn event_command(idempotency_key: &str) -> AppendGameEngineEventCommand {
    AppendGameEngineEventCommand {
        event_type: "game.session.completed".into(),
        aggregate_type: "session".into(),
        aggregate_id: "session-1".into(),
        idempotency_key: idempotency_key.into(),
        event_payload: "{\"sessionId\":\"session-1\"}".into(),
        trace_id: "trace-1".into(),
    }
}

fn typed_event_command(event_type: &str) -> AppendGameEngineEventCommand {
    AppendGameEngineEventCommand {
        event_type: event_type.into(),
        aggregate_type: "session".into(),
        aggregate_id: "session-1".into(),
        idempotency_key: "event-session-1-completed".into(),
        event_payload: "{\"sessionId\":\"session-1\"}".into(),
        trace_id: "trace-1".into(),
    }
}

fn audit_command(target_id: &str) -> AppendAuditRecordCommand {
    AppendAuditRecordCommand {
        actor_type: "operator".into(),
        actor_id: Some("operator-1".into()),
        action: "session.result.corrected".into(),
        target_type: "session".into(),
        target_id: target_id.into(),
        reason_code: Some("manual_review".into()),
        before_snapshot: "{\"score\":1}".into(),
        after_snapshot: "{\"score\":2}".into(),
        trace_id: "trace-1".into(),
    }
}

fn actor_audit_command(actor_type: &str) -> AppendAuditRecordCommand {
    let mut command = audit_command("session-1");
    command.actor_type = actor_type.into();
    command
}

#[test]
fn append_event_is_idempotent_and_can_be_published() {
    let mut repo = InMemoryGameEventsRepository::new();
    let command = event_command("idem-event-1");

    let first = repo.append_event("100001", &command, "event-1".into(), "2026-07-01T00:00:00Z".into()).unwrap();
    let replay = repo.append_event("100001", &command, "event-2".into(), "2026-07-02T00:00:00Z".into()).unwrap();
    assert_eq!(first.id, replay.id);

    let published = repo
        .mark_event_published(
            "100001",
            &MarkGameEngineEventPublishedCommand { event_id: first.id, expected_version: Some(first.version) },
            "2026-07-03T00:00:00Z".into(),
        )
        .unwrap();

    assert_eq!("published", published.status);
    assert!(published.published_at.is_some());
}

#[test]
fn pending_events_are_paginated() {
    let mut repo = InMemoryGameEventsRepository::new();
    repo.append_event("100001", &event_command("idem-event-1"), "event-1".into(), "2026-07-01T00:00:00Z".into())
        .unwrap();
    repo.append_event("100001", &event_command("idem-event-2"), "event-2".into(), "2026-07-01T00:00:01Z".into())
        .unwrap();

    let page = repo
        .list_pending_events(
            "100001",
            &PendingGameEngineEventQuery { due_at: "2026-07-07T00:00:00Z".into(), page: Some(1), page_size: Some(1) },
        )
        .unwrap();

    assert_eq!(2, page.total);
    assert_eq!(1, page.items.len());
}

#[test]
fn audit_search_filters_by_target() {
    let mut repo = InMemoryGameEventsRepository::new();
    repo.append_audit_record("100001", &audit_command("session-1"), "audit-1".into(), "2026-07-01T00:00:00Z".into())
        .unwrap();
    repo.append_audit_record("100001", &audit_command("session-2"), "audit-2".into(), "2026-07-01T00:00:01Z".into())
        .unwrap();

    let page = repo
        .search_audit_records(
            "100001",
            &AuditRecordQuery {
                target_type: Some("session".into()),
                target_id: Some("session-2".into()),
                page: Some(1),
                page_size: Some(20),
                ..Default::default()
            },
        )
        .unwrap();

    assert_eq!(1, page.total);
    assert_eq!("session-2", page.items[0].target_id);
}

#[test]
fn append_event_rejects_non_dotted_type() {
    let error = validate_append_event("100001", &typed_event_command("session_completed"))
        .expect_err("event type must be dotted");
    assert_eq!("invalid", error.code());
}

#[test]
fn append_event_accepts_cloud_events_style_type() {
    let command = typed_event_command("game.session.completed");
    validate_append_event("100001", &command).expect("event");
    let mut repo = InMemoryGameEventsRepository::new();
    let item = repo.append_event("100001", &command, "event-1".into(), "2026-07-07T00:00:00Z".into()).expect("event");
    assert_eq!("game.session.completed", item.event_type);
    assert_eq!("pending", item.status);
}

#[test]
fn append_audit_rejects_unsupported_actor_type() {
    let error = validate_append_audit_record("100001", &actor_audit_command("browser"))
        .expect_err("unsupported actor must fail");
    assert_eq!("invalid", error.code());
}

#[test]
fn audit_query_clamps_page_size() {
    let query = AuditRecordQuery { page: Some(2), page_size: Some(500), ..Default::default() };
    assert_eq!(200, query.limit());
    assert_eq!(200, query.offset());
}

#[test]
fn event_types_must_not_start_or_end_with_a_dot() {
    assert!(validate_append_event("100001", &typed_event_command(".game.session")).is_err());
    assert!(validate_append_event("100001", &typed_event_command("game.session.")).is_err());
    let error = validate_append_event("100001", &typed_event_command("gamesession")).unwrap_err();
    assert_eq!(error.message(), "event_type must be a stable dotted event type");
}

#[test]
fn event_validation_reports_the_first_missing_field() {
    let error = validate_append_event(" ", &typed_event_command("game.session")).unwrap_err();
    assert_eq!(error.message(), "tenant_id is required");
    let mut command = typed_event_command("game.session");
    command.aggregate_id = "".into();
    assert_eq!(validate_append_event("100001", &command).unwrap_err().message(), "aggregate_id is required");
    let mut command = typed_event_command("game.session");
    command.event_payload = "null".into();
    assert_eq!(
        validate_append_event("100001", &command).unwrap_err().message(),
        "event_payload must not be null"
    );
}

#[test]
fn failure_reports_need_a_retry_time_unless_dead_lettered() {
    let retry = MarkGameEngineEventFailedCommand {
        event_id: "event-1".into(),
        next_retry_at: None,
        dead_letter: false,
        expected_version: None,
    };
    let error = validate_mark_event_failed("100001", &retry).unwrap_err();
    assert_eq!(error.message(), "next_retry_at is required unless event is dead_letter");
    let dead = MarkGameEngineEventFailedCommand { dead_letter: true, ..retry };
    assert!(validate_mark_event_failed("100001", &dead).is_ok());
}

#[test]
fn conflicting_event_payload_is_refused() {
    let mut repo = InMemoryGameEventsRepository::new();
    repo.append_event("100001", &event_command("idem-x"), "event-1".into(), "t1".into()).unwrap();
    let mut other = event_command("idem-x");
    other.aggregate_id = "session-2".into();
    let error = repo.append_event("100001", &other, "event-2".into(), "t2".into()).unwrap_err();
    assert_eq!(error.code(), "conflict");
    assert_eq!(error.message(), "idempotency_key already belongs to a different engine event payload");
    let again = repo.append_event("200001", &other, "event-3".into(), "t3".into()).unwrap();
    assert_eq!(again.id, "event-3");
}

#[test]
fn stale_version_is_refused_and_missing_events_are_not_found() {
    let mut repo = InMemoryGameEventsRepository::new();
    let first = repo.append_event("100001", &event_command("idem-v"), "event-1".into(), "t1".into()).unwrap();
    let command = MarkGameEngineEventPublishedCommand { event_id: first.id.clone(), expected_version: Some(0) };
    let published = repo.mark_event_published("100001", &command, "t2".into()).unwrap();
    assert_eq!(published.version, 1);
    let stale = repo.mark_event_published("100001", &command, "t3".into()).unwrap_err();
    assert_eq!(stale.code(), "conflict");
    assert_eq!(stale.message(), "engine event version has changed");
    let missing = repo.get_event("200001", &first.id).unwrap_err();
    assert_eq!(missing.code(), "not_found");
    assert_eq!(repo.get_event("100001", &first.id).unwrap().status, "published");
}

#[test]
fn failed_events_become_due_at_their_retry_time() {
    let mut repo = InMemoryGameEventsRepository::new();
    let a = repo.append_event("100001", &event_command("idem-a"), "event-a".into(), "2026-07-01T00:00:00Z".into()).unwrap();
    let b = repo.append_event("100001", &event_command("idem-b"), "event-b".into(), "2026-07-01T00:00:05Z".into()).unwrap();
    let failed = repo
        .mark_event_failed(
            "100001",
            &MarkGameEngineEventFailedCommand {
                event_id: a.id.clone(),
                next_retry_at: Some("2026-07-02T00:00:00Z".into()),
                dead_letter: false,
                expected_version: Some(a.version),
            },
        )
        .unwrap();
    assert_eq!(failed.status, "failed");
    assert_eq!(failed.version, 1);

    let early = repo
        .list_pending_events(
            "100001",
            &PendingGameEngineEventQuery { due_at: "2026-07-01T12:00:00Z".into(), page: None, page_size: None },
        )
        .unwrap();
    assert_eq!(early.total, 1);
    assert_eq!(early.items[0].id, b.id);

    let later = repo
        .list_pending_events(
            "100001",
            &PendingGameEngineEventQuery { due_at: "2026-07-03T00:00:00Z".into(), page: None, page_size: None },
        )
        .unwrap();
    assert_eq!(later.total, 2);
    assert_eq!(later.items[0].id, b.id);
    assert_eq!(later.items[1].id, a.id);

    let dead = repo
        .mark_event_failed(
            "100001",
            &MarkGameEngineEventFailedCommand {
                event_id: b.id.clone(),
                next_retry_at: None,
                dead_letter: true,
                expected_version: None,
            },
        )
        .unwrap();
    assert_eq!(dead.status, "dead_letter");
}

#[test]
fn audit_search_lists_newest_first() {
    let mut repo = InMemoryGameEventsRepository::new();
    repo.append_audit_record("100001", &audit_command("s-1"), "audit-1".into(), "2026-07-01T00:00:00Z".into()).unwrap();
    repo.append_audit_record("100001", &audit_command("s-2"), "audit-2".into(), "2026-07-03T00:00:00Z".into()).unwrap();
    repo.append_audit_record("100001", &audit_command("s-3"), "audit-3".into(), "2026-07-02T00:00:00Z".into()).unwrap();
    let page = repo.search_audit_records("100001", &AuditRecordQuery::default()).unwrap();
    let ids: Vec<&str> = page.items.iter().map(|a| a.id.as_str()).collect();
    assert_eq!(ids, vec!["audit-2", "audit-3", "audit-1"]);
    let by_actor = repo
        .search_audit_records(
            "100001",
            &AuditRecordQuery { actor_id: Some("someone-else".into()), ..Default::default() },
        )
        .unwrap();
    assert_eq!(by_actor.total, 0);
}

fn audit_row(before: &str) -> sdkwork_games::events::AuditRow {
    sdkwork_games::events::AuditRow {
        id: "audit-1".into(),
        actor_type: "operator".into(),
        actor_id: None,
        action: "session.result.corrected".into(),
        target_type: "session".into(),
        target_id: "session-1".into(),
        reason_code: None,
        before_snapshot: before.into(),
        after_snapshot: "{}".into(),
        trace_id: "trace-1".into(),
        created_at: "2026-07-07T00:00:00Z".into(),
        version: 0,
    }
}

#[test]
fn audit_pages_read_snapshots_as_compact_json() {
    let page = sdkwork_games::events::audit_page_from_rows(vec![audit_row("{ \"score\" : 1 }")], 1, 20, 0).unwrap();
    assert_eq!(page.items[0].before_snapshot, "{\"score\":1}");
    assert_eq!(page.page, 1);
    let failed = sdkwork_games::events::audit_page_from_rows(vec![audit_row("{score")], 1, 20, 0).unwrap_err();
    assert_eq!(failed.code(), "invalid");
}

#[test]
fn json_text_is_parsed_and_rewritten_compactly() {
    assert_eq!(sdkwork_games::events::parse_json(" [ 1 , true ] ").unwrap(), "[1,true]");
    assert_eq!(sdkwork_games::events::parse_json("oops").unwrap_err().code(), "invalid");
}

#[test]
fn an_appended_event_reads_back_by_id() {
    let mut repo = InMemoryGameEventsRepository::new();
    let event = repo.append_event("100001", &event_command("idem-read"), "event-9".into(), "2026-07-01T00:00:00Z".into()).unwrap();
    assert_eq!(repo.get_event("100001", "event-9").unwrap(), event);
    assert_eq!("pending", event.status);
    assert_eq!(0, event.version);
    assert_eq!("not_found", repo.get_event("200001", "event-9").unwrap_err().code());
}

#[test]
fn a_replay_with_an_equal_json_value_is_not_a_conflict() {
    let mut repo = InMemoryGameEventsRepository::new();
    let mut command = event_command("idem-json");
    command.event_payload = "{\"score\":0.0,\"a\":1}".into();
    let first = repo.append_event("100001", &command, "event-1".into(), "t1".into()).unwrap();
    let mut replay = command.clone();
    replay.event_payload = "{ \"a\": 1, \"score\": -0.0 }".into();
    let again = repo.append_event("100001", &replay, "event-2".into(), "t2".into()).unwrap();
    assert_eq!(first, again);
    let mut other = command.clone();
    other.event_payload = "{\"score\":1.0,\"a\":1}".into();
    assert_eq!("conflict", repo.append_event("100001", &other, "event-3".into(), "t3".into()).unwrap_err().code());
}

#[test]
fn rows_take_the_json_text_they_are_given() {
    let row = audit_row("{ \"a\" : 1 }");
    let record = sdkwork_games::events::audit_from_row(&row, "{\"a\":1}".into(), "{\"b\":2}".into());
    assert_eq!(record.before_snapshot, "{\"a\":1}");
    assert_eq!(record.after_snapshot, "{\"b\":2}");
    assert_eq!(record.action, "session.result.corrected");
    assert_eq!(row.to_item().unwrap().before_snapshot, "{\"a\":1}");

    let event_row = sdkwork_games::events::EventRow {
        id: "event-1".into(),
        event_type: "game.session.completed".into(),
        aggregate_type: "session".into(),
        aggregate_id: "session-1".into(),
        idempotency_key: "idem-1".into(),
        event_payload: "{ \"k\" : [1, 2] }".into(),
        status: "pending".into(),
        trace_id: "trace-1".into(),
        created_at: "2026-07-07T00:00:00Z".into(),
        published_at: None,
        next_retry_at: Some("2026-07-08T00:00:00Z".into()),
        version: 3,
    };
    let item = sdkwork_games::events::event_from_row(&event_row, "{\"k\":[1,2]}".into());
    assert_eq!(item.event_payload, "{\"k\":[1,2]}");
    assert_eq!(item.next_retry_at, Some("2026-07-08T00:00:00Z".into()));
    assert_eq!(item.version, 3);
    assert_eq!(event_row.into_item().unwrap(), item);
}
