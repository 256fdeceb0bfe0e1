use sdkwork_games::leaderboard::{
    validate_list_configs, validate_list_rankings, validate_rebuild_entries, validate_upsert_entry,
    LeaderboardConfigItem, LeaderboardConfigQuery, LeaderboardEntriesRebuildCommand, LeaderboardEntry,
    LeaderboardEntryUpdateCommand, LeaderboardQuery,
};
use sdkwork_games::leaderboard_store::InMemoryLeaderboardRepository;

fn entry_command(user_id: &str, score_value: i64) -> LeaderboardEntryUpdateCommand {
    LeaderboardEntryUpdateCommand {
        leaderboard_id: "leaderboard-ranked".into(),
        game_id: "game-xiangqi".into(),
        mode_id: Some("mode-ranked".into()),
        season_id: Some("season-2026".into()),
        user_id: user_id.into(),
        display_name_snapshot: Some(user_id.into()),
        score_value,
        tie_breaker_value: None,
        last_ledger_id: Some(format!("ledger-{user_id}-{score_value}")),
        recorded_at: Some("2026-07-07T00:00:00Z".into()),
    }
}

fn ranked_query() -> LeaderboardQuery {
    LeaderboardQuery { leaderboard_id: Some("leaderboard-ranked".into()), page_size: Some(10), ..Default::default() }
}

fn config(id: &str, code: &str, status: &str) -> LeaderboardConfigItem {
    LeaderboardConfigItem {
        id: id.into(),
        game_id: "game-xiangqi".into(),
        mode_id: None,
        season_id: None,
        leaderboard_code: code.into(),
        title: code.into(),
        status: status.into(),
        ranking_metric: "points".into(),
        ranking_order: "desc".into(),
        tie_breaker: "updated_at".into(),
        version: 0,
    }
}

#[test]
fn upsert_entry_updates_score_and_rebuilds_rank_order() {
    let mut repo = InMemoryLeaderboardRepository::new();
    repo.upsert_entry("100001", &entry_command("user-a", 10), "entry-a".into(), "now".into()).unwrap();
    repo.upsert_entry("100001", &entry_command("user-b", 20), "entry-b".into(), "now".into()).unwrap();

    let page = repo.list_rankings("100001", &ranked_query()).unwrap();
    assert_eq!("user-b", page.items[0].user_id);
    assert_eq!(Some(1), page.items[0].rank_no);
    assert_eq!("user-a", page.items[1].user_id);
    assert_eq!(Some(2), page.items[1].rank_no);

    repo.upsert_entry("100001", &entry_command("user-a", 30), "entry-c".into(), "now".into()).unwrap();
    let updated = repo.list_rankings("100001", &ranked_query()).unwrap();
    assert_eq!("user-a", updated.items[0].user_id);
    assert_eq!(30, updated.items[0].score);
    assert_eq!(Some(1), updated.items[0].rank_no);
}

#[test]
fn rebuild_entries_replaces_leaderboard_scope() {
    let mut repo = InMemoryLeaderboardRepository::new();
    repo.rebuild_entries(
        "100001",
        &LeaderboardEntriesRebuildCommand {
            leaderboard_id: "leaderboard-ranked".into(),
            entries: vec![entry_command("user-a", 10), entry_command("user-b", 20)],
        },
        vec!["e1".into(), "e2".into()],
        "now".into(),
    )
    .unwrap();
    repo.rebuild_entries(
        "100001",
        &LeaderboardEntriesRebuildCommand {
            leaderboard_id: "leaderboard-ranked".into(),
            entries: vec![entry_command("user-c", 50)],
        },
        vec!["e3".into()],
        "now".into(),
    )
    .unwrap();

    let page = repo.list_rankings("100001", &ranked_query()).unwrap();
    assert_eq!(1, page.total);
    assert_eq!("user-c", page.items[0].user_id);
    assert_eq!(Some(1), page.items[0].rank_no);
}

#[test]
fn list_configs_filters_by_game_status_and_tenant() {
    let mut ranked = config("leaderboard-ranked", "ranked-season", "active");
    ranked.mode_id = Some("mode-ranked".into());
    ranked.season_id = Some("season-2026".into());
    ranked.title = "Ranked Season".into();
    let mut draft = config("leaderboard-draft", "draft", "draft");
    draft.title = "Draft".into();
    let repo = InMemoryLeaderboardRepository::with_configs(vec![ranked, draft], vec![]);

    let query = LeaderboardConfigQuery {
        game_id: Some("game-xiangqi".into()),
        status: Some("active".into()),
        ..Default::default()
    };
    let page = repo.list_configs("100001", &query).unwrap();
    assert_eq!(1, page.total);
    assert_eq!("leaderboard-ranked", page.items[0].id);

    let other_tenant = repo.list_configs("200001", &query).unwrap();
    assert_eq!(0, other_tenant.total);
}

#[test]
fn list_rankings_rejects_empty_tenant() {
    let result = validate_list_rankings("", &LeaderboardQuery::default());
    assert!(result.is_err());
    assert_eq!(result.unwrap_err().code(), "invalid");
}

#[test]
fn list_configs_rejects_invalid_pagination_before_repository_access() {
    let page_size_error = validate_list_configs(
        "100001",
        &LeaderboardConfigQuery { page_size: Some(201), ..Default::default() },
    )
    .expect_err("page_size above the SDKWork maximum must fail");
    assert_eq!("invalid_parameter", page_size_error.code());
    assert_eq!("page and page_size must follow SDKWork pagination bounds", page_size_error.message());

    let page_error =
        validate_list_configs("100001", &LeaderboardConfigQuery { page: Some(0), ..Default::default() })
            .expect_err("page zero must fail");
    assert_eq!("invalid_parameter", page_error.code());
    assert_eq!("page and page_size must follow SDKWork pagination bounds", page_error.message());
}

#[test]
fn list_rankings_rejects_invalid_pagination_before_repository_access() {
    let page_size_error =
        validate_list_rankings("100001", &LeaderboardQuery { page_size: Some(201), ..Default::default() })
            .expect_err("page_size above the SDKWork maximum must fail");
    assert_eq!("invalid_parameter", page_size_error.code());
    assert_eq!("page and page_size must follow SDKWork pagination bounds", page_size_error.message());

    let page_error = validate_list_rankings("100001", &LeaderboardQuery { page: Some(0), ..Default::default() })
        .expect_err("page zero must fail");
    assert_eq!("invalid_parameter", page_error.code());
    assert_eq!("page and page_size must follow SDKWork pagination bounds", page_error.message());
}

#[test]
fn upsert_entry_rejects_empty_leaderboard_id() {
    let result = validate_upsert_entry(
        "100001",
        &LeaderboardEntryUpdateCommand {
            leaderboard_id: String::new(),
            game_id: "game-xiangqi".into(),
            mode_id: None,
            season_id: None,
            user_id: "user-1".into(),
            display_name_snapshot: None,
            score_value: 10,
            tie_breaker_value: None,
            last_ledger_id: None,
            recorded_at: None,
        },
    );
    assert_eq!("invalid", result.unwrap_err().code());
}

#[test]
fn ties_rank_by_earlier_record_then_id() {
    let mut repo = InMemoryLeaderboardRepository::new();
    let mut late = entry_command("user-late", 40);
    late.recorded_at = Some("2026-07-08T00:00:00Z".into());
    repo.upsert_entry("100001", &late, "id-late".into(), "now".into()).unwrap();
    repo.upsert_entry("100001", &entry_command("user-z", 40), "id-z".into(), "now".into()).unwrap();
    repo.upsert_entry("100001", &entry_command("user-y", 40), "id-y".into(), "now".into()).unwrap();
    let page = repo.list_rankings("100001", &ranked_query()).unwrap();
    let users: Vec<&str> = page.items.iter().map(|e| e.user_id.as_str()).collect();
    assert_eq!(users, vec!["user-y", "user-z", "user-late"]);
    let ranks: Vec<Option<i32>> = page.items.iter().map(|e| e.rank_no).collect();
    assert_eq!(ranks, vec![Some(1), Some(2), Some(3)]);
}

#[test]
fn upsert_keeps_the_entry_id_and_uses_now_without_a_time() {
    let mut repo = InMemoryLeaderboardRepository::new();
    let first = repo.upsert_entry("100001", &entry_command("user-a", 10), "entry-1".into(), "now".into()).unwrap();
    let mut again = entry_command("user-a", 15);
    again.recorded_at = None;
    let second = repo.upsert_entry("100001", &again, "entry-2".into(), "2026-08-01T00:00:00Z".into()).unwrap();
    assert_eq!(first.id, "entry-1");
    assert_eq!(second.id, "entry-1");
    assert_eq!(second.score, 15);
    assert_eq!(second.recorded_at, "2026-08-01T00:00:00Z");
    assert_eq!(second.rank_no, Some(1));
}

#[test]
fn user_ranking_uses_the_game_ranking() {
    let mut repo = InMemoryLeaderboardRepository::new();
    repo.upsert_entry("100001", &entry_command("user-a", 10), "e-a".into(), "now".into()).unwrap();
    repo.upsert_entry("100001", &entry_command("user-b", 20), "e-b".into(), "now".into()).unwrap();
    let ranking = repo.get_user_ranking("100001", "user-a", Some("game-xiangqi")).unwrap();
    assert_eq!(ranking.score, 10);
    assert_eq!(ranking.rank_no, Some(2));
    let missing = repo.get_user_ranking("100001", "user-x", None).unwrap_err();
    assert_eq!(missing.code(), "not_found");
    assert_eq!(missing.message(), "leaderboard entry not found");
}

#[test]
fn seeded_entries_belong_to_the_default_board() {
    let entry = LeaderboardEntry {
        id: "seed-1".into(),
        game_id: "game-xiangqi".into(),
        user_id: "user-s".into(),
        display_name: None,
        score: 5,
        rank_no: None,
        recorded_at: "2026-07-07T00:00:00Z".into(),
    };
    let repo = InMemoryLeaderboardRepository::with_seed(vec![entry]);
    let page = repo
        .list_rankings("100001", &LeaderboardQuery { leaderboard_id: Some("default".into()), ..Default::default() })
        .unwrap();
    assert_eq!(page.total, 1);
    assert_eq!(page.items[0].rank_no, Some(1));
    let config_missing = repo.get_config("100001", "default").unwrap_err();
    assert_eq!(config_missing.code(), "not_found");
}

#[test]
fn rebuild_validation_names_the_entry() {
    let mut bad = entry_command("user-a", 10);
    bad.user_id = " ".into();
    let command = LeaderboardEntriesRebuildCommand { leaderboard_id: "leaderboard-ranked".into(), entries: vec![bad] };
    let error = validate_rebuild_entries("100001", &command).unwrap_err();
    assert_eq!(error.code(), "invalid");
}

#[test]
fn rebuild_entries_must_stay_in_scope() {
    let mut stray = entry_command("user-a", 10);
    stray.leaderboard_id = "leaderboard-other".into();
    let command = LeaderboardEntriesRebuildCommand { leaderboard_id: "leaderboard-ranked".into(), entries: vec![stray] };
    let error = validate_rebuild_entries("100001", &command).unwrap_err();
    assert_eq!(error.code(), "conflict");
    assert_eq!(error.message(), "rebuild entry leaderboard_id must match rebuild scope");
}

fn ranking_row(user_id: &str, rank_no: Option<i32>) -> sdkwork_games::leaderboard::LeaderboardRow {
    sdkwork_games::leaderboard::LeaderboardRow {
        id: format!("entry-{user_id}"),
        leaderboard_id: "leaderboard-ranked".into(),
        game_id: "game-xiangqi".into(),
        user_id: user_id.into(),
        display_name_snapshot: Some(user_id.to_uppercase()),
        score_value: 90,
        rank_no,
        recorded_at: "2026-07-01T00:00:00Z".into(),
    }
}

#[test]
fn ranking_pages_number_unranked_rows_after_the_offset() {
    let query = LeaderboardQuery { page: Some(3), ..Default::default() };
    let page = sdkwork_games::leaderboard::entry_page_from_rows(
        vec![ranking_row("a", None), ranking_row("b", Some(7))],
        12,
        5,
        10,
        &query,
    );
    assert_eq!(page.items[0].rank_no, Some(11));
    assert_eq!(page.items[0].display_name, Some("A".into()));
    assert_eq!(page.items[1].rank_no, Some(7));
    assert_eq!((page.total, page.page, page.page_size), (12, 3, 5));

    let last = sdkwork_games::leaderboard::entry_page_from_rows(
        vec![ranking_row("z", None)],
        1,
        1,
        (i32::MAX - 1) as i64,
        &LeaderboardQuery::default(),
    );
    assert_eq!(last.items[0].rank_no, Some(i32::MAX));
    assert_eq!(last.page, 1);
}
