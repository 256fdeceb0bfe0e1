use sdkwork_games::modes::{
    merge_update, mode_search_pattern, GameModeError, validate_create_mode, validate_update_mode, CreateGameModeCommand, GameModeItem, GameModeQuery,
    UpdateGameModeCommand,
};
use sdkwork_games::modes_store::InMemoryGameModeRepository;

fn mode_item(id: &str, tenant_id: &str, status: &str) -> (String, GameModeItem) {
    (
        tenant_id.into(),
        GameModeItem {
            id: id.into(),
            game_id: "game-1".into(),
            mode_code: id.into(),
            title: id.into(),
            status: status.into(),
            min_players: 2,
            max_players: 4,
            team_size: Some(2),
            ruleset_id: None,
            matchmaking_enabled: true,
            room_enabled: true,
            leaderboard_enabled: true,
        },
    )
}

fn create_command(min_players: i32, max_players: i32, team_size: Option<i32>) -> CreateGameModeCommand {
    CreateGameModeCommand {
        game_id: "game-1".into(),
        mode_code: "ranked".into(),
        title: "Ranked".into(),
        status: "active".into(),
        min_players,
        max_players,
        team_size,
        ruleset_id: None,
        matchmaking_enabled: true,
        room_enabled: true,
        leaderboard_enabled: true,
    }
}

#[test]
fn mode_query_clamps_page_size() {
    let query = GameModeQuery { page: Some(2), page_size: Some(500), ..Default::default() };
    assert_eq!(query.limit(), 200);
    assert_eq!(query.offset(), 200);
}

#[test]
fn memory_repository_lists_modes_by_tenant_and_status() {
    let repository = InMemoryGameModeRepository::with_seed(vec![
        mode_item("ranked", "100001", "active"),
        mode_item("draft", "100001", "draft"),
        mode_item("other", "200002", "active"),
    ]);
    let page = repository
        .list_modes("100001", &GameModeQuery { status: Some("active".into()), ..Default::default() })
        .expect("mode page");
    assert_eq!(page.total, 1);
    assert_eq!(page.items[0].mode_code, "ranked");
}

#[test]
fn memory_repository_creates_and_updates_mode() {
    let mut repository = InMemoryGameModeRepository::new();
    let created = repository.create_mode("100001", &create_command(2, 4, Some(2)), "mode-1".into()).expect("created mode");
    let updated = repository
        .update_mode(
            "100001",
            &created.id,
            &UpdateGameModeCommand { title: Some("Ranked v2".into()), max_players: Some(6), ..Default::default() },
        )
        .expect("updated mode");
    assert_eq!(updated.title, "Ranked v2");
    assert_eq!(updated.max_players, 6);
}

#[test]
fn create_mode_rejects_invalid_player_range() {
    let result = validate_create_mode("100001", &create_command(4, 2, None));
    assert_eq!(result.unwrap_err().code(), "invalid");
}

#[test]
fn create_mode_accepts_active_mode() {
    let mut command = create_command(2, 4, Some(2));
    command.ruleset_id = Some("ruleset-1".into());
    validate_create_mode("100001", &command).expect("mode");
    let mut repository = InMemoryGameModeRepository::new();
    let item = repository.create_mode("100001", &command, "mode-1".into()).expect("mode");
    assert_eq!(item.mode_code, "ranked");
}

#[test]
fn mode_codes_are_unique_per_game_and_tenant() {
    let mut repository = InMemoryGameModeRepository::new();
    repository.create_mode("100001", &create_command(2, 4, None), "mode-1".into()).unwrap();
    let again = repository.create_mode("100001", &create_command(2, 4, None), "mode-2".into()).unwrap_err();
    assert_eq!(again.code(), "invalid");
    assert_eq!(again.message(), "mode_code already exists for game");
    let other_tenant = repository.create_mode("200001", &create_command(2, 4, None), "mode-3".into()).unwrap();
    assert_eq!(other_tenant.id, "mode-3");
    let mut other_game = create_command(2, 4, None);
    other_game.game_id = "game-2".into();
    assert!(repository.create_mode("100001", &other_game, "mode-4".into()).is_ok());
}

#[test]
fn update_of_a_missing_mode_is_not_found() {
    let mut repository = InMemoryGameModeRepository::new();
    let error = repository.update_mode("100001", "nope", &UpdateGameModeCommand::default()).unwrap_err();
    assert_eq!(error.code(), "not_found");
    assert_eq!(error.message(), "mode not found");
}

#[test]
fn modes_are_searched_case_insensitively_and_sorted_by_code() {
    let repository = InMemoryGameModeRepository::with_seed(vec![
        mode_item("zeta-Ranked", "100001", "active"),
        mode_item("alpha-ranked", "100001", "active"),
        mode_item("casual", "100001", "active"),
    ]);
    let page = repository
        .list_modes("100001", &GameModeQuery { q: Some(" RANKED ".into()), ..Default::default() })
        .unwrap();
    let codes: Vec<&str> = page.items.iter().map(|m| m.mode_code.as_str()).collect();
    assert_eq!(codes, vec!["alpha-ranked", "zeta-Ranked"]);
    assert_eq!(repository.get_mode("100001", "casual").unwrap().id, "casual");
}

#[test]
fn merge_keeps_unset_fields() {
    let (_, item) = mode_item("ranked", "100001", "active");
    let merged = merge_update(
        item.clone(),
        &UpdateGameModeCommand { team_size: Some(None), room_enabled: Some(false), ..Default::default() },
    );
    assert_eq!(merged.team_size, None);
    assert!(!merged.room_enabled);
    assert_eq!(merged.title, item.title);
    assert_eq!(merged.max_players, item.max_players);
}

#[test]
fn update_validation_rejects_blank_mode_id() {
    let error = validate_update_mode("100001", " ", &UpdateGameModeCommand::default()).unwrap_err();
    assert_eq!(error.code(), "invalid");
}

#[test]
fn mode_listing_rejects_out_of_bounds_pages() {
    let error = sdkwork_games::modes::validate_list_modes("100001", &GameModeQuery { page_size: Some(0), ..Default::default() })
        .unwrap_err();
    assert_eq!(error.code(), "invalid_parameter");
    assert_eq!(error.message(), "page and page_size must follow SDKWork pagination bounds");
    let blank = sdkwork_games::modes::validate_list_modes(" ", &GameModeQuery::default()).unwrap_err();
    assert_eq!(blank.code(), "invalid");
}

#[test]
fn a_mode_reads_back_what_was_written() {
    let mut repository = InMemoryGameModeRepository::new();
    let created = repository.create_mode("100001", &create_command(2, 4, Some(2)), "mode-1".into()).expect("created mode");
    assert_eq!(repository.get_mode("100001", "mode-1").expect("read back"), created);
    let updated = repository
        .update_mode(
            "100001",
            "mode-1",
            &UpdateGameModeCommand { status: Some("draft".into()), team_size: Some(None), ..Default::default() },
        )
        .expect("updated mode");
    let read = repository.get_mode("100001", "mode-1").expect("read back");
    assert_eq!(read, updated);
    assert_eq!(read.status, "draft");
    assert_eq!(read.team_size, None);
    assert_eq!(read.title, "Ranked");
    assert_eq!(repository.get_mode("100001", "ranked").expect("by code"), updated);
    assert_eq!("not_found", repository.get_mode("200002", "mode-1").unwrap_err().code());
}

#[test]
fn mode_search_text_becomes_a_trimmed_like_pattern() {
    assert_eq!(mode_search_pattern(&Some("  Ranked 5v5 ".into())), Some("%Ranked 5v5%".to_string()));
    assert_eq!(mode_search_pattern(&Some("50%_off".into())), Some("%50%_off%".to_string()));
    assert_eq!(mode_search_pattern(&Some("   ".into())), None);
    assert_eq!(mode_search_pattern(&None), None);
}

#[test]
fn mode_errors_carry_one_of_three_codes_and_clone_whole() {
    let errors = vec![
        GameModeError::invalid("a"),
        GameModeError::invalid_parameter("b"),
        GameModeError::not_found("c"),
        validate_create_mode("100001", &create_command(5, 2, None)).unwrap_err(),
    ];
    for e in &errors {
        assert!(["invalid", "invalid_parameter", "not_found"].contains(&e.code()));
        let copy = e.clone();
        assert_eq!(&copy, e);
        assert_eq!(copy.message(), e.message());
    }
    assert_eq!(errors[1].code(), "invalid_parameter");
}
