use sdkwork_games::points::{signed_delta, validate_append_ledger, AppendPointLedgerCommand};
use sdkwork_games::points_ledger::InMemoryGamePointRepository;

fn win_points_command(idempotency_key: &str) -> AppendPointLedgerCommand {
    AppendPointLedgerCommand {
        ledger_account_id: "acct-game-1-user-1".into(),
        game_id: "game-xiangqi".into(),
        mode_id: Some("mode-ranked".into()),
        season_id: Some("season-2026".into()),
        user_id: "user-1".into(),
        direction: "credit".into(),
        points_delta: 30,
        source_event_id: "score-event-1".into(),
        reason_code: "match_win".into(),
        idempotency_key: idempotency_key.into(),
    }
}

#[test]
fn append_ledger_is_idempotent_and_updates_balance_once() {
    let mut repo = InMemoryGamePointRepository::new();
    let command = win_points_command("idem-match-1-user-1");
    let first = repo.append_ledger("100001", &command, "ledger-1".into(), "balance-1".into(), "t1".into()).unwrap();
    let second = repo.append_ledger("100001", &command, "ledger-2".into(), "balance-2".into(), "t2".into()).unwrap();
    let balance = repo.get_balance("100001", &command.ledger_account_id).unwrap();
    assert_eq!(first.id, second.id);
    assert_eq!(30, first.points_after);
    assert_eq!(30, second.points_after);
    assert_eq!(30, balance.points);
    assert_eq!(Some(first.id), balance.last_ledger_id);
}

#[test]
fn append_ledger_rejects_conflicting_idempotency_payload() {
    let mut repo = InMemoryGamePointRepository::new();
    let command = win_points_command("idem-conflict");
    repo.append_ledger("100001", &command, "ledger-1".into(), "balance-1".into(), "t1".into()).unwrap();
    let mut conflict = command.clone();
    conflict.points_delta = 99;
    let error = repo.append_ledger("100001", &conflict, "ledger-2".into(), "balance-2".into(), "t2".into()).unwrap_err();
    assert_eq!("conflict", error.code());
}

#[test]
fn balances_are_isolated_by_tenant() {
    let mut repo = InMemoryGamePointRepository::new();
    let command = win_points_command("idem-tenant");
    repo.append_ledger("100001", &command, "ledger-1".into(), "balance-1".into(), "t1".into()).unwrap();
    repo.append_ledger("200001", &command, "ledger-2".into(), "balance-2".into(), "t2".into()).unwrap();
    let first = repo.get_balance("100001", &command.ledger_account_id).unwrap();
    let second = repo.get_balance("200001", &command.ledger_account_id).unwrap();
    assert_ne!(first.id, second.id);
    assert_eq!(30, first.points);
    assert_eq!(30, second.points);
}

#[test]
fn append_ledger_rejects_cash_or_wallet_direction_semantics() {
    let result = validate_append_ledger(
        "100001",
        &AppendPointLedgerCommand {
            ledger_account_id: "acct-game-1-user-1".into(),
            game_id: "game-xiangqi".into(),
            mode_id: None,
            season_id: None,
            user_id: "user-1".into(),
            direction: "cash_credit".into(),
            points_delta: 10,
            source_event_id: "score-event-1".into(),
            reason_code: "match_win".into(),
            idempotency_key: "idem-1".into(),
        },
    );
    let error = result.unwrap_err();
    assert_eq!("invalid", error.code());
}

#[test]
fn debits_lower_the_balance_and_entries_keep_running_sums() {
    let mut repo = InMemoryGamePointRepository::new();
    repo.append_ledger("100001", &win_points_command("k1"), "l1".into(), "b1".into(), "t1".into()).unwrap();
    let mut more = win_points_command("k2");
    more.points_delta = 15;
    let second = repo.append_ledger("100001", &more, "l2".into(), "b2".into(), "t2".into()).unwrap();
    assert_eq!(second.points_after, 45);
    let mut spend = win_points_command("k3");
    spend.direction = "debit".into();
    spend.points_delta = 50;
    let third = repo.append_ledger("100001", &spend, "l3".into(), "b3".into(), "t3".into()).unwrap();
    assert_eq!(third.points_after, -5);
    let balance = repo.get_balance("100001", "acct-game-1-user-1").unwrap();
    assert_eq!(balance.points, -5);
    assert_eq!(balance.id, "b1");
    assert_eq!(balance.version, 2);
    assert_eq!(balance.last_ledger_id, Some("l3".into()));
    assert_eq!(signed_delta(&spend), -50);
}

#[test]
fn missing_balance_is_not_found() {
    let repo = InMemoryGamePointRepository::new();
    let error = repo.get_balance("100001", "acct").unwrap_err();
    assert_eq!(error.code(), "not_found");
    assert_eq!(error.message(), "point balance not found");
}

#[test]
fn points_validation_reports_the_first_broken_rule() {
    let mut command = win_points_command("k");
    command.points_delta = 0;
    assert_eq!(validate_append_ledger("100001", &command).unwrap_err().message(), "points_delta must be greater than zero");
    let mut command = win_points_command("k");
    command.ledger_account_id = "".into();
    assert_eq!(validate_append_ledger("100001", &command).unwrap_err().message(), "ledger_account_id is required");
    assert!(validate_append_ledger("100001", &win_points_command("k")).is_ok());
}

#[test]
fn a_balance_names_the_latest_entry_of_its_account() {
    let mut repo = InMemoryGamePointRepository::new();
    assert_eq!("not_found", repo.get_balance("100001", "acct-game-1-user-1").unwrap_err().code());
    repo.append_ledger("100001", &win_points_command("k1"), "ledger-1".into(), "balance-1".into(), "t1".into()).unwrap();
    let mut other = win_points_command("k2");
    other.ledger_account_id = "acct-other".into();
    repo.append_ledger("100001", &other, "ledger-2".into(), "balance-2".into(), "t2".into()).unwrap();
    let mut spend = win_points_command("k3");
    spend.direction = "debit".into();
    spend.points_delta = 10;
    repo.append_ledger("100001", &spend, "ledger-3".into(), "balance-3".into(), "t3".into()).unwrap();
    let balance = repo.get_balance("100001", "acct-game-1-user-1").unwrap();
    assert_eq!(balance.last_ledger_id, Some("ledger-3".into()));
    assert_eq!(balance.points, 20);
    assert_eq!(balance.id, "balance-1");
    assert_eq!(repo.get_balance("100001", "acct-other").unwrap().last_ledger_id, Some("ledger-2".into()));
    assert_eq!("not_found", repo.get_balance("200001", "acct-other").unwrap_err().code());
}
