use sdkwork_games::catalog::{
    build_catalog_list_sql, escape_like, map_repository_error, order_by_clause,
    validate_get_game, validate_list_games, CatalogRow, GameCatalogItem, GameCatalogQuery,
    SqlDialect,
};
use sdkwork_games::catalog_store::InMemoryGameCatalogRepository;

fn sample_item(id: &str, genre: &str, title: &str) -> GameCatalogItem {
    GameCatalogItem {
        id: id.into(),
        game_code: id.into(),
        title: title.into(),
        summary: None,
        genre: Some(genre.into()),
        status: "published".into(),
    }
}

#[test]
fn builds_postgres_placeholders() {
    let sql = build_catalog_list_sql(
        &GameCatalogQuery {
            status: Some("published".into()),
            genre: Some("chess".into()),
            ..Default::default()
        },
        SqlDialect::Postgres,
    );
    assert!(sql.select_sql.contains("$1"));
    assert!(sql.select_sql.contains("genre = $3"));
    assert_eq!(sql.bind_values.len(), 2);
}

#[test]
fn q_filter_adds_three_bind_values() {
    let sql = build_catalog_list_sql(
        &GameCatalogQuery {
            q: Some("xiangqi".into()),
            ..Default::default()
        },
        SqlDialect::Sqlite,
    );
    assert_eq!(sql.bind_values.len(), 3);
    assert!(sql.select_sql.contains("LIKE LOWER(?)"));
}

#[test]
fn catalog_row_maps_to_domain_item() {
    let row = CatalogRow {
        id: "g1".into(),
        game_code: "xiangqi".into(),
        title: "Chinese Chess".into(),
        summary: None,
        genre: Some("chess".into()),
        status: "published".into(),
    };
    let item = row.into_item();
    assert_eq!(item.game_code, "xiangqi");
}

#[test]
fn list_catalog_paginates_items() {
    let repo = InMemoryGameCatalogRepository::with_seed(vec![sample_item("g1", "puzzle", "Demo Game")]);
    let page = repo.list_catalog("100001", &GameCatalogQuery::default()).expect("page");
    assert_eq!(page.total, 1);
    assert_eq!(page.items[0].title, "Demo Game");
}

#[test]
fn list_catalog_filters_by_genre_and_q() {
    let repo = InMemoryGameCatalogRepository::with_seed(vec![
        sample_item("g1", "chess", "Chinese Chess"),
        sample_item("g2", "quiz", "Quiz Arena"),
    ]);
    let page = repo
        .list_catalog(
            "100001",
            &GameCatalogQuery {
                genre: Some("chess".into()),
                q: Some("chinese".into()),
                ..Default::default()
            },
        )
        .expect("page");
    assert_eq!(page.total, 1);
    assert_eq!(page.items[0].id, "g1");
}

#[test]
fn list_games_rejects_empty_tenant() {
    let result = validate_list_games("", &GameCatalogQuery::default());
    assert_eq!(result.unwrap_err().code(), "invalid");
}

#[test]
fn list_games_rejects_invalid_pagination_before_repository_access() {
    let page_size_error = validate_list_games(
        "100001",
        &GameCatalogQuery {
            page_size: Some(201),
            ..Default::default()
        },
    )
    .expect_err("page_size above the SDKWork maximum must fail");
    assert_eq!(page_size_error.code(), "invalid_parameter");
    assert_eq!(page_size_error.message(), "page and page_size must follow SDKWork pagination bounds");

    let page_error = validate_list_games(
        "100001",
        &GameCatalogQuery {
            page: Some(0),
            ..Default::default()
        },
    )
    .expect_err("page zero must fail");
    assert_eq!(page_error.code(), "invalid_parameter");
    assert_eq!(page_error.message(), "page and page_size must follow SDKWork pagination bounds");
}

#[test]
fn get_game_requires_game_id() {
    let error = validate_get_game("100001", "  ").unwrap_err();
    assert_eq!(error.code(), "invalid");
    assert_eq!(error.message(), "game_id is required");
    assert!(validate_get_game("100001", "g1").is_ok());
}

#[test]
fn catalog_sorts_by_title_or_newest_code() {
    let repo = InMemoryGameCatalogRepository::with_seed(vec![
        sample_item("b-code", "chess", "Alpha"),
        sample_item("a-code", "chess", "Beta"),
        sample_item("c-code", "chess", "Alpha"),
    ]);
    let by_title = repo.list_catalog("100001", &GameCatalogQuery::default()).unwrap();
    let ids: Vec<&str> = by_title.items.iter().map(|g| g.id.as_str()).collect();
    assert_eq!(ids, vec!["b-code", "c-code", "a-code"]);

    let newest = repo
        .list_catalog(
            "100001",
            &GameCatalogQuery {
                sort: Some("newest".into()),
                ..Default::default()
            },
        )
        .unwrap();
    let ids: Vec<&str> = newest.items.iter().map(|g| g.id.as_str()).collect();
    assert_eq!(ids, vec!["c-code", "b-code", "a-code"]);
}

#[test]
fn catalog_pages_past_the_end_are_empty() {
    let repo = InMemoryGameCatalogRepository::with_seed(vec![
        sample_item("g1", "chess", "One"),
        sample_item("g2", "chess", "Two"),
        sample_item("g3", "chess", "Three"),
    ]);
    let second = repo
        .list_catalog(
            "100001",
            &GameCatalogQuery {
                page: Some(2),
                page_size: Some(2),
                ..Default::default()
            },
        )
        .unwrap();
    assert_eq!(second.total, 3);
    assert_eq!(second.page, 2);
    assert_eq!(second.page_size, 2);
    assert_eq!(second.items.len(), 1);
    assert_eq!(second.items[0].id, "g2");

    let beyond = repo
        .list_catalog(
            "100001",
            &GameCatalogQuery {
                page: Some(5),
                page_size: Some(2),
                ..Default::default()
            },
        )
        .unwrap();
    assert!(beyond.items.is_empty());
}

#[test]
fn catalog_lookup_by_id_or_code() {
    let mut item = sample_item("g1", "chess", "Chinese Chess");
    item.game_code = "xiangqi".into();
    let repo = InMemoryGameCatalogRepository::with_seed(vec![item]);
    assert_eq!(repo.get_catalog_item("100001", "g1").unwrap().id, "g1");
    assert_eq!(repo.get_catalog_item("100001", "xiangqi").unwrap().id, "g1");
    let missing = repo.get_catalog_item("100001", "go").unwrap_err();
    assert_eq!(missing.code(), "not_found");
    assert_eq!(missing.message(), "game go not found");
}

#[test]
fn catalog_search_text_is_trimmed_and_case_folded() {
    let mut item = sample_item("g1", "chess", "Chinese Chess");
    item.summary = Some("A Classic Board Game".into());
    let repo = InMemoryGameCatalogRepository::with_seed(vec![item, sample_item("g2", "quiz", "Quiz Arena")]);
    let page = repo
        .list_catalog(
            "100001",
            &GameCatalogQuery {
                q: Some("  BOARD ".into()),
                ..Default::default()
            },
        )
        .unwrap();
    assert_eq!(page.total, 1);
    assert_eq!(page.items[0].id, "g1");
}

#[test]
fn escape_like_escapes_wildcards() {
    assert_eq!(escape_like("50%_off\\"), "50\\%\\_off\\\\");
}

#[test]
fn order_by_clause_follows_sort() {
    assert_eq!(order_by_clause(&Some("title".into())), "ORDER BY title ASC");
    assert_eq!(order_by_clause(&Some("newest".into())), "ORDER BY created_at DESC, title ASC");
    assert_eq!(order_by_clause(&Some("popular".into())), "ORDER BY sort_order ASC, title ASC");
    assert_eq!(order_by_clause(&None), "ORDER BY sort_order ASC, title ASC");
}

#[test]
fn repository_errors_become_invalid() {
    let error = map_repository_error("connection refused");
    assert_eq!(error.code(), "invalid");
    assert_eq!(error.message(), "repository error: connection refused");
}

#[test]
fn postgres_placeholders_are_numbered_in_order() {
    let sql = SqlDialect::Postgres.rewrite_placeholders("a = ? AND b = ? AND c = ?");
    assert_eq!(sql, "a = $1 AND b = $2 AND c = $3");
    let sqlite = SqlDialect::Sqlite.rewrite_placeholders("a = ?");
    assert_eq!(sqlite, "a = ?");
}

#[test]
fn new_game_id_is_uuid_v4() {
    let id = sdkwork_games::catalog::GameCatalogService::<InMemoryGameCatalogRepository>::new_game_id();
    assert_eq!(id.len(), 36);
}

#[test]
fn new_game_ids_have_the_version_four_shape() {
    let id = sdkwork_games::catalog::GameCatalogService::<()>::new_game_id();
    let chars: Vec<char> = id.chars().collect();
    assert_eq!(chars[8], '-');
    assert_eq!(chars[13], '-');
    assert_eq!(chars[14], '4');
    assert!(matches!(chars[19], '8' | '9' | 'a' | 'b'));
    assert_ne!(id, sdkwork_games::catalog::GameCatalogService::<()>::new_game_id());
}

#[test]
fn catalog_pages_from_rows_carry_total_page_and_size() {
    let row = |id: &str| CatalogRow {
        id: id.into(),
        game_code: format!("code-{id}"),
        title: format!("Title {id}"),
        summary: Some("s".into()),
        genre: None,
        status: "published".into(),
    };
    let page = sdkwork_games::catalog::catalog_page_from_rows(vec![row("g3"), row("g4")], 7, 2, 4);
    assert_eq!(page.items.len(), 2);
    assert_eq!(page.items[0], row("g3").into_item());
    assert_eq!(page.items[1].game_code, "code-g4");
    assert_eq!((page.total, page.page, page.page_size), (7, 3, 2));
    let first = sdkwork_games::catalog::catalog_page_from_rows(Vec::new(), 0, 20, 0);
    assert!(first.items.is_empty());
    assert_eq!((first.total, first.page, first.page_size), (0, 1, 20));
}

#[test]
fn every_bound_value_has_its_placeholder() {
    let queries = vec![
        GameCatalogQuery::default(),
        GameCatalogQuery { status: Some("published".into()), ..Default::default() },
        GameCatalogQuery { genre: Some(" ".into()), q: Some("x?".into()), ..Default::default() },
        GameCatalogQuery {
            status: Some("published".into()),
            genre: Some("chess".into()),
            q: Some("chess".into()),
            sort: Some("newest".into()),
            ..Default::default()
        },
    ];
    for query in &queries {
        let sql = build_catalog_list_sql(query, SqlDialect::Sqlite);
        let n = sql.bind_values.len();
        assert_eq!(sql.count_sql.matches('?').count(), n + 1);
        assert_eq!(sql.select_sql.matches('?').count(), n + 3);
        let pg = build_catalog_list_sql(query, SqlDialect::Postgres);
        assert!(!pg.select_sql.contains('?'));
        assert!(pg.select_sql.contains(&format!("${}", n + 3)));
        assert!(!pg.select_sql.contains(&format!("${}", n + 4)));
    }
}
