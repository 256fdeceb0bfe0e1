//! Game catalog: models, request validation, the listing SQL builder and row mapping.
use vstd::prelude::*;
use crate::paging::{
    offset_fits, page_limit, page_number, page_offset, pagination_in_bounds, pagination_within_bounds, query_limit,
    query_offset,
};
use crate::text::{blank, copy_opt, decimal, is_blank, push_char, push_decimal, text_eq, trim_text, trimmed};

verus! {

/// One published game of the catalog.
#[derive(Debug, Clone, PartialEq, Eq)]
pub struct GameCatalogItem {
    pub id: String,
    pub game_code: String,
    pub title: String,
    pub summary: Option<String>,
    pub genre: Option<String>,
    pub status: String,
}

/// One page of catalog items.
#[derive(Debug, Clone, PartialEq, Eq)]
pub struct GameCatalogPage {
    pub items: Vec<GameCatalogItem>,
    pub total: u64,
    pub page: u32,
    pub page_size: u32,
}

/// Filters, ordering and page of a catalog listing.
#[derive(Debug, Clone, PartialEq, Eq)]
pub struct GameCatalogQuery {
    pub status: Option<String>,
    pub genre: Option<String>,
    pub q: Option<String>,
    pub sort: Option<String>,
    pub page: Option<u32>,
    pub page_size: Option<u32>,
}

impl Default for GameCatalogQuery {
    fn default() -> (r: Self)
        ensures
            r.status is None,
            r.genre is None,
            r.q is None,
            r.sort is None,
            r.page is None,
            r.page_size is None,
    {
        GameCatalogQuery {
            status: None,
            genre: None,
            q: None,
            sort: None,
            page: None,
            page_size: None,
        }
    }
}

impl GameCatalogQuery {
    /// The clamped page size.
    pub fn limit(&self) -> (r: u32)
        ensures
            r == page_limit(self.page_size),
    {
        query_limit(self.page_size)
    }

    /// The number of items before the requested page.
    pub fn offset(&self) -> (r: u32)
        requires
            offset_fits(self.page, self.page_size),
        ensures
            r == page_offset(self.page, self.page_size),
    {
        query_offset(self.page, self.page_size)
    }
}

/// The error of the catalog service: a stable code and a message.
#[derive(Debug, Clone, PartialEq, Eq)]
pub struct GameError {
    code: String,
    message: String,
}

pub type GameResult<T> = Result<T, GameError>;

/// Whether `r` is an error with the given code and message.
pub open spec fn fails_with<T>(r: GameResult<T>, code: Seq<char>, message: Seq<char>) -> bool {
    match r {
        Err(e) => e.error_code() == code && e.error_message() == message,
        Ok(_) => false,
    }
}

impl GameError {
    /// The code of the error.
    pub closed spec fn error_code(&self) -> Seq<char> {
        self.code@
    }

    /// The message of the error.
    pub closed spec fn error_message(&self) -> Seq<char> {
        self.message@
    }

    /// An `invalid` error.
    pub fn invalid(message: &str) -> (r: Self)
        ensures
            r.error_code() == "invalid"@,
            r.error_message() == message@,
    {
        GameError { code: String::from_str("invalid"), message: String::from_str(message) }
    }

    /// An `invalid_parameter` error.
    pub fn invalid_parameter(message: &str) -> (r: Self)
        ensures
            r.error_code() == "invalid_parameter"@,
            r.error_message() == message@,
    {
        GameError {
            code: String::from_str("invalid_parameter"),
            message: String::from_str(message),
        }
    }

    /// A `not_found` error.
    pub fn not_found(message: &str) -> (r: Self)
        ensures
            r.error_code() == "not_found"@,
            r.error_message() == message@,
    {
        GameError { code: String::from_str("not_found"), message: String::from_str(message) }
    }

    /// The code of the error.
    pub fn code(&self) -> (r: &str)
        ensures
            r@ == self.error_code(),
    {
        self.code.as_str()
    }

    /// The message of the error.
    pub fn message(&self) -> (r: &str)
        ensures
            r@ == self.error_message(),
    {
        self.message.as_str()
    }
}

/// The error of the catalog storage layer.
#[derive(Debug, Clone, PartialEq, Eq)]
pub enum RepositoryError {
    Database(String),
}

impl RepositoryError {
    /// The human-readable text of the error.
    pub fn to_text(&self) -> (r: String)
        ensures
            r@ == "database error: "@ + match self {
                RepositoryError::Database(m) => m@,
            },
    {
        match self {
            RepositoryError::Database(m) => String::from_str("database error: ").concat(m.as_str()),
        }
    }
}

/// Maps a storage failure, given by its text, to an `invalid` catalog error.
pub fn map_repository_error(error_text: &str) -> (r: GameError)
    ensures
        r.error_code() == "invalid"@,
        r.error_message() == "repository error: "@ + error_text@,
{
    let message = String::from_str("repository error: ").concat(error_text);
    GameError::invalid(message.as_str())
}

/// Wraps the text of a SQL failure as a storage error.
pub fn sql_error(error_text: &str) -> (r: RepositoryError)
    ensures
        r == RepositoryError::Database(r->Database_0) && r->Database_0@ == error_text@,
{
    RepositoryError::Database(String::from_str(error_text))
}

/// Maps a database driver failure, given by its text, to an `invalid` catalog error.
pub fn map_sqlx_error(error_text: &str) -> (r: GameError)
    ensures
        r.error_code() == "invalid"@,
        r.error_message() == error_text@,
{
    GameError::invalid(error_text)
}

pub open spec fn pagination_message() -> Seq<char> {
    "page and page_size must follow SDKWork pagination bounds"@
}

/// Why a catalog listing request is refused, if it is:
/// a blank tenant first, then a page or page size out of bounds.
pub fn validate_list_games(tenant_id: &str, query: &GameCatalogQuery) -> (r: GameResult<()>)
    ensures
        blank(tenant_id@) ==> fails_with(r, "invalid"@, "tenant_id is required"@),
        !blank(tenant_id@) && !pagination_in_bounds(query.page, query.page_size) ==> fails_with(
            r,
            "invalid_parameter"@,
            pagination_message(),
        ),
        !blank(tenant_id@) && pagination_in_bounds(query.page, query.page_size) ==> r is Ok,
{
    if is_blank(tenant_id) {
        return Err(GameError::invalid("tenant_id is required"));
    }
    if !pagination_within_bounds(query.page, query.page_size) {
        return Err(
            GameError::invalid_parameter("page and page_size must follow SDKWork pagination bounds"),
        );
    }
    Ok(())
}

/// Why a single-game lookup is refused, if it is: a blank tenant, then a blank game id.
pub fn validate_get_game(tenant_id: &str, game_id: &str) -> (r: GameResult<()>)
    ensures
        blank(tenant_id@) ==> fails_with(r, "invalid"@, "tenant_id is required"@),
        !blank(tenant_id@) && blank(game_id@) ==> fails_with(r, "invalid"@, "game_id is required"@),
        !blank(tenant_id@) && !blank(game_id@) ==> r is Ok,
{
    if is_blank(tenant_id) {
        return Err(GameError::invalid("tenant_id is required"));
    }
    if is_blank(game_id) {
        return Err(GameError::invalid("game_id is required"));
    }
    Ok(())
}

/// The catalog service over a storage `R`; the requests it serves are checked by
/// `validate_list_games` and `validate_get_game` before the storage is asked.
pub struct GameCatalogService<R> {
    repository: R,
}

impl<R> GameCatalogService<R> {
    /// The storage the service reads.
    pub closed spec fn storage(&self) -> R {
        self.repository
    }

    /// A service over `repository`.
    pub fn new(repository: R) -> (r: Self)
        ensures
            r.storage() == repository,
    {
        GameCatalogService { repository }
    }

    /// The storage the service reads.
    pub fn repository(&self) -> (r: &R)
        ensures
            *r == self.storage(),
    {
        &self.repository
    }

    /// A fresh random game id: a version 4 UUID in hyphenated lower-case form.
    pub fn new_game_id() -> (r: String)
        ensures
            uuid_v4_text(r@),
    {
        random_uuid_v4()
    }
}

/// Whether `s` is a version 4 UUID written hyphenated in lower case: 36 characters,
/// hyphens at 8, 13, 18 and 23, hexadecimal digits elsewhere, the version digit `4` at
/// 14 and a variant digit of `8`, `9`, `a` or `b` at 19.
pub open spec fn uuid_v4_text(s: Seq<char>) -> bool {
    &&& s.len() == 36
    &&& forall|i: int|
        0 <= i < 36 ==> if i == 8 || i == 13 || i == 18 || i == 23 {
            s[i] == '-'
        } else {
            ('0' <= #[trigger] s[i] <= '9') || ('a' <= s[i] <= 'f')
        }
    &&& s[14] == '4'
    &&& (s[19] == '8' || s[19] == '9' || s[19] == 'a' || s[19] == 'b')
}

/// Calls `uuid::Uuid::new_v4` and writes the id with `Display`, which writes the
/// hyphenated lower-case form; the random bits are not stated, only the shape that
/// the version and variant bits `new_v4` sets give the text.
#[verifier::external_body]
fn random_uuid_v4() -> (r: String)
    ensures
        uuid_v4_text(r@),
{
    uuid::Uuid::new_v4().to_string()
}

/// The SQL dialect whose placeholders a statement uses.
#[derive(Clone, Copy, Debug, PartialEq, Eq)]
pub enum SqlDialect {
    Postgres,
    Sqlite,
}

/// The listing statement, its count statement, and the filter values bound after the tenant.
#[derive(Debug, Clone, PartialEq, Eq)]
pub struct CatalogListSql {
    pub select_sql: String,
    pub count_sql: String,
    pub bind_values: Vec<String>,
}

/// How many `?` placeholders `s` holds.
pub open spec fn placeholder_count(s: Seq<char>) -> nat
    decreases s.len(),
{
    if s.len() == 0 {
        0
    } else {
        placeholder_count(s.drop_last()) + if s.last() == '?' {
            1nat
        } else {
            0nat
        }
    }
}

/// `s` with its k-th `?` (counting from 1) written as `$k`.
pub open spec fn numbered_placeholders(s: Seq<char>) -> Seq<char>
    decreases s.len(),
{
    if s.len() == 0 {
        seq![]
    } else {
        let before = numbered_placeholders(s.drop_last());
        if s.last() == '?' {
            before + seq!['$'] + decimal(placeholder_count(s.drop_last()) + 1)
        } else {
            before.push(s.last())
        }
    }
}

/// A statement in the placeholder style of `dialect`.
pub open spec fn in_dialect(dialect: SqlDialect, s: Seq<char>) -> Seq<char> {
    match dialect {
        SqlDialect::Postgres => numbered_placeholders(s),
        SqlDialect::Sqlite => s,
    }
}

impl SqlDialect {
    /// The statement with its placeholders written in this dialect.
    pub fn rewrite_placeholders(&self, sql: &str) -> (r: String)
        ensures
            r@ == in_dialect(*self, sql@),
    {
        match self {
            SqlDialect::Postgres => {
                let n = sql.unicode_len();
                let mut output = String::new();
                let mut count: usize = 0;
                let mut i: usize = 0;
                while i < n
                    invariant
                        n == sql@.len(),
                        i <= n,
                        output@ == numbered_placeholders(sql@.subrange(0, i as int)),
                        count == placeholder_count(sql@.subrange(0, i as int)),
                        count <= i,
                    decreases n - i,
                {
                    let ch = sql.get_char(i);
                    proof {
                        let next = sql@.subrange(0, i + 1);
                        assert(next.drop_last() =~= sql@.subrange(0, i as int));
                        assert(next.last() == ch);
                    }
                    if ch == '?' {
                        push_char(&mut output, '$');
                        push_decimal(&mut output, count + 1);
                        count = count + 1;
                    } else {
                        push_char(&mut output, ch);
                    }
                    i = i + 1;
                }
                assert(sql@.subrange(0, n as int) =~= sql@);
                output
            },
            SqlDialect::Sqlite => String::from_str(sql),
        }
    }
}

/// A filter value is used when it is present and not blank.
pub open spec fn used_filter(v: Option<String>) -> bool {
    v matches Some(s) && !blank(s@)
}

/// `s` with `\`, `%` and `_` escaped by a backslash, so a LIKE pattern matches them literally.
pub open spec fn like_escaped(s: Seq<char>) -> Seq<char>
    decreases s.len(),
{
    if s.len() == 0 {
        seq![]
    } else {
        let c = s.last();
        let before = like_escaped(s.drop_last());
        if c == '\\' || c == '%' || c == '_' {
            before + seq!['\\', c]
        } else {
            before.push(c)
        }
    }
}

/// The LIKE pattern of a free-text search: the trimmed, escaped text between `%` signs.
pub open spec fn search_pattern(q: Seq<char>) -> Seq<char> {
    seq!['%'] + like_escaped(trimmed(q)) + seq!['%']
}

/// The ORDER BY clause that a sort key selects.
pub open spec fn order_clause(sort: Option<String>) -> Seq<char> {
    match sort {
        Some(s) => if s@ == "title"@ {
            "ORDER BY title ASC"@
        } else if s@ == "newest"@ {
            "ORDER BY created_at DESC, title ASC"@
        } else {
            "ORDER BY sort_order ASC, title ASC"@
        },
        None => "ORDER BY sort_order ASC, title ASC"@,
    }
}

/// The search condition over title, code and summary.
pub open spec fn search_condition() -> Seq<char> {
    "(LOWER(title) LIKE LOWER(?) OR LOWER(game_code) LIKE LOWER(?) OR LOWER(COALESCE(summary, '')) LIKE LOWER(?))"@
}

/// The WHERE condition of a catalog listing, with `?` placeholders.
pub open spec fn catalog_where(query: GameCatalogQuery) -> Seq<char> {
    "tenant_id = ? AND deleted_at IS NULL"@ + (if used_filter(query.status) {
        " AND status = ?"@
    } else {
        seq![]
    }) + (if used_filter(query.genre) {
        " AND genre = ?"@
    } else {
        seq![]
    }) + (if used_filter(query.q) {
        " AND "@ + search_condition()
    } else {
        seq![]
    })
}

/// The values bound after the tenant: status, genre, then the search pattern three times.
pub open spec fn catalog_binds(query: GameCatalogQuery) -> Seq<Seq<char>> {
    (if used_filter(query.status) {
        seq![query.status->0@]
    } else {
        seq![]
    }) + (if used_filter(query.genre) {
        seq![query.genre->0@]
    } else {
        seq![]
    }) + (if used_filter(query.q) {
        let p = search_pattern(query.q->0@);
        seq![p, p, p]
    } else {
        seq![]
    })
}

/// The listing statement before its placeholders are rewritten.
pub open spec fn catalog_select(query: GameCatalogQuery) -> Seq<char> {
    "SELECT id, game_code, title, summary, genre, status FROM game_catalog"@ + " WHERE "@
        + catalog_where(query) + " "@ + order_clause(query.sort) + " LIMIT ? OFFSET ?"@
}

/// The count statement before its placeholders are rewritten.
pub open spec fn catalog_count(query: GameCatalogQuery) -> Seq<char> {
    "SELECT COUNT(*) FROM game_catalog WHERE "@ + catalog_where(query)
}

/// How many `?` placeholders `s` holds from index `i` on.
pub open spec fn placeholders_from(s: Seq<char>, i: int) -> nat
    decreases s.len() - i,
{
    if i < 0 || i >= s.len() {
        0
    } else {
        (if s[i] == '?' {
            1nat
        } else {
            0nat
        }) + placeholders_from(s, i + 1)
    }
}

/// Placeholders add up over concatenation.
proof fn lemma_placeholders_concat(a: Seq<char>, b: Seq<char>)
    ensures
        placeholder_count(a + b) == placeholder_count(a) + placeholder_count(b),
    decreases b.len(),
{
    if b.len() == 0 {
        assert(a + b =~= a);
    } else {
        lemma_placeholders_concat(a, b.drop_last());
        assert((a + b).drop_last() =~= a + b.drop_last());
        assert((a + b).last() == b.last());
    }
}

/// Counting forward from `i` counts the placeholders of the rest of `s`.
proof fn lemma_placeholders_from(s: Seq<char>, i: int)
    requires
        0 <= i <= s.len(),
    ensures
        placeholders_from(s, i) == placeholder_count(s.subrange(i, s.len() as int)),
    decreases s.len() - i,
{
    if i == s.len() {
        assert(s.subrange(i, s.len() as int) =~= seq![]);
    } else {
        lemma_placeholders_from(s, i + 1);
        let head = seq![s[i]];
        assert(s.subrange(i, s.len() as int) =~= head + s.subrange(i + 1, s.len() as int));
        lemma_placeholders_concat(head, s.subrange(i + 1, s.len() as int));
        assert(head.drop_last() =~= Seq::<char>::empty());
        assert(placeholder_count(head.drop_last()) == 0);
        assert(head.last() == s[i]);
        assert(placeholder_count(head) == if s[i] == '?' { 1nat } else { 0nat });
    }
}

/// The placeholders of each fixed piece of the catalog statements.
#[verifier::rlimit(100)]
proof fn lemma_catalog_pieces()
    ensures
        placeholder_count("tenant_id = ? AND deleted_at IS NULL"@) == 1,
        placeholder_count(" AND status = ?"@) == 1,
        placeholder_count(" AND genre = ?"@) == 1,
        placeholder_count(" AND "@) == 0,
        placeholder_count("(LOWER(title) LIKE LOWER(?) OR LOWER(game_code) LIKE LOWER(?) OR LOWER(COALESCE(summary, '')) LIKE LOWER(?))"@) == 3,
        placeholder_count("SELECT id, game_code, title, summary, genre, status FROM game_catalog"@) == 0,
        placeholder_count(" WHERE "@) == 0,
        placeholder_count(" "@) == 0,
        placeholder_count("ORDER BY title ASC"@) == 0,
        placeholder_count("ORDER BY created_at DESC, title ASC"@) == 0,
        placeholder_count("ORDER BY sort_order ASC, title ASC"@) == 0,
        placeholder_count(" LIMIT ? OFFSET ?"@) == 2,
        placeholder_count("SELECT COUNT(*) FROM game_catalog WHERE "@) == 0,
{
    reveal_with_fuel(placeholders_from, 12);
    reveal_strlit("tenant_id = ? AND deleted_at IS NULL");
    assert(placeholders_from("tenant_id = ? AND deleted_at IS NULL"@, 26) == 0);
    assert(placeholders_from("tenant_id = ? AND deleted_at IS NULL"@, 16) == 0);
    assert(placeholders_from("tenant_id = ? AND deleted_at IS NULL"@, 6) == 1);
    assert(placeholders_from("tenant_id = ? AND deleted_at IS NULL"@, 0) == 1);
    lemma_placeholders_from("tenant_id = ? AND deleted_at IS NULL"@, 0);
    assert("tenant_id = ? AND deleted_at IS NULL"@.subrange(0, 36) =~= "tenant_id = ? AND deleted_at IS NULL"@);
    reveal_strlit(" AND status = ?");
    assert(placeholders_from(" AND status = ?"@, 5) == 1);
    assert(placeholders_from(" AND status = ?"@, 0) == 1);
    lemma_placeholders_from(" AND status = ?"@, 0);
    assert(" AND status = ?"@.subrange(0, 15) =~= " AND status = ?"@);
    reveal_strlit(" AND genre = ?");
    assert(placeholders_from(" AND genre = ?"@, 4) == 1);
    assert(placeholders_from(" AND genre = ?"@, 0) == 1);
    lemma_placeholders_from(" AND genre = ?"@, 0);
    assert(" AND genre = ?"@.subrange(0, 14) =~= " AND genre = ?"@);
    reveal_strlit(" AND ");
    assert(placeholders_from(" AND "@, 0) == 0);
    lemma_placeholders_from(" AND "@, 0);
    assert(" AND "@.subrange(0, 5) =~= " AND "@);
    reveal_strlit("(LOWER(title) LIKE LOWER(?) OR LOWER(game_code) LIKE LOWER(?) OR LOWER(COALESCE(summary, '')) LIKE LOWER(?))");
    assert(placeholders_from("(LOWER(title) LIKE LOWER(?) OR LOWER(game_code) LIKE LOWER(?) OR LOWER(COALESCE(summary, '')) LIKE LOWER(?))"@, 98) == 1);
    assert(placeholders_from("(LOWER(title) LIKE LOWER(?) OR LOWER(game_code) LIKE LOWER(?) OR LOWER(COALESCE(summary, '')) LIKE LOWER(?))"@, 88) == 1);
    assert(placeholders_from("(LOWER(title) LIKE LOWER(?) OR LOWER(game_code) LIKE LOWER(?) OR LOWER(COALESCE(summary, '')) LIKE LOWER(?))"@, 78) == 1);
    assert(placeholders_from("(LOWER(title) LIKE LOWER(?) OR LOWER(game_code) LIKE LOWER(?) OR LOWER(COALESCE(summary, '')) LIKE LOWER(?))"@, 68) == 1);
    assert(placeholders_from("(LOWER(title) LIKE LOWER(?) OR LOWER(game_code) LIKE LOWER(?) OR LOWER(COALESCE(summary, '')) LIKE LOWER(?))"@, 58) == 2);
    assert(placeholders_from("(LOWER(title) LIKE LOWER(?) OR LOWER(game_code) LIKE LOWER(?) OR LOWER(COALESCE(summary, '')) LIKE LOWER(?))"@, 48) == 2);
    assert(placeholders_from("(LOWER(title) LIKE LOWER(?) OR LOWER(game_code) LIKE LOWER(?) OR LOWER(COALESCE(summary, '')) LIKE LOWER(?))"@, 38) == 2);
    assert(placeholders_from("(LOWER(title) LIKE LOWER(?) OR LOWER(game_code) LIKE LOWER(?) OR LOWER(COALESCE(summary, '')) LIKE LOWER(?))"@, 28) == 2);
    assert(placeholders_from("(LOWER(title) LIKE LOWER(?) OR LOWER(game_code) LIKE LOWER(?) OR LOWER(COALESCE(summary, '')) LIKE LOWER(?))"@, 18) == 3);
    assert(placeholders_from("(LOWER(title) LIKE LOWER(?) OR LOWER(game_code) LIKE LOWER(?) OR LOWER(COALESCE(summary, '')) LIKE LOWER(?))"@, 8) == 3);
    assert(placeholders_from("(LOWER(title) LIKE LOWER(?) OR LOWER(game_code) LIKE LOWER(?) OR LOWER(COALESCE(summary, '')) LIKE LOWER(?))"@, 0) == 3);
    lemma_placeholders_from("(LOWER(title) LIKE LOWER(?) OR LOWER(game_code) LIKE LOWER(?) OR LOWER(COALESCE(summary, '')) LIKE LOWER(?))"@, 0);
    assert("(LOWER(title) LIKE LOWER(?) OR LOWER(game_code) LIKE LOWER(?) OR LOWER(COALESCE(summary, '')) LIKE LOWER(?))"@.subrange(0, 108) =~= "(LOWER(title) LIKE LOWER(?) OR LOWER(game_code) LIKE LOWER(?) OR LOWER(COALESCE(summary, '')) LIKE LOWER(?))"@);
    reveal_strlit("SELECT id, game_code, title, summary, genre, status FROM game_catalog");
    assert(placeholders_from("SELECT id, game_code, title, summary, genre, status FROM game_catalog"@, 59) == 0);
    assert(placeholders_from("SELECT id, game_code, title, summary, genre, status FROM game_catalog"@, 49) == 0);
    assert(placeholders_from("SELECT id, game_code, title, summary, genre, status FROM game_catalog"@, 39) == 0);
    assert(placeholders_from("SELECT id, game_code, title, summary, genre, status FROM game_catalog"@, 29) == 0);
    assert(placeholders_from("SELECT id, game_code, title, summary, genre, status FROM game_catalog"@, 19) == 0);
    assert(placeholders_from("SELECT id, game_code, title, summary, genre, status FROM game_catalog"@, 9) == 0);
    assert(placeholders_from("SELECT id, game_code, title, summary, genre, status FROM game_catalog"@, 0) == 0);
    lemma_placeholders_from("SELECT id, game_code, title, summary, genre, status FROM game_catalog"@, 0);
    assert("SELECT id, game_code, title, summary, genre, status FROM game_catalog"@.subrange(0, 69) =~= "SELECT id, game_code, title, summary, genre, status FROM game_catalog"@);
    reveal_strlit(" WHERE ");
    assert(placeholders_from(" WHERE "@, 0) == 0);
    lemma_placeholders_from(" WHERE "@, 0);
    assert(" WHERE "@.subrange(0, 7) =~= " WHERE "@);
    reveal_strlit(" ");
    assert(placeholders_from(" "@, 0) == 0);
    lemma_placeholders_from(" "@, 0);
    assert(" "@.subrange(0, 1) =~= " "@);
    reveal_strlit("ORDER BY title ASC");
    assert(placeholders_from("ORDER BY title ASC"@, 8) == 0);
    assert(placeholders_from("ORDER BY title ASC"@, 0) == 0);
    lemma_placeholders_from("ORDER BY title ASC"@, 0);
    assert("ORDER BY title ASC"@.subrange(0, 18) =~= "ORDER BY title ASC"@);
    reveal_strlit("ORDER BY created_at DESC, title ASC");
    assert(placeholders_from("ORDER BY created_at DESC, title ASC"@, 25) == 0);
    assert(placeholders_from("ORDER BY created_at DESC, title ASC"@, 15) == 0);
    assert(placeholders_from("ORDER BY created_at DESC, title ASC"@, 5) == 0);
    assert(placeholders_from("ORDER BY created_at DESC, title ASC"@, 0) == 0);
    lemma_placeholders_from("ORDER BY created_at DESC, title ASC"@, 0);
    assert("ORDER BY created_at DESC, title ASC"@.subrange(0, 35) =~= "ORDER BY created_at DESC, title ASC"@);
    reveal_strlit("ORDER BY sort_order ASC, title ASC");
    assert(placeholders_from("ORDER BY sort_order ASC, title ASC"@, 24) == 0);
    assert(placeholders_from("ORDER BY sort_order ASC, title ASC"@, 14) == 0);
    assert(placeholders_from("ORDER BY sort_order ASC, title ASC"@, 4) == 0);
    assert(placeholders_from("ORDER BY sort_order ASC, title ASC"@, 0) == 0);
    lemma_placeholders_from("ORDER BY sort_order ASC, title ASC"@, 0);
    assert("ORDER BY sort_order ASC, title ASC"@.subrange(0, 34) =~= "ORDER BY sort_order ASC, title ASC"@);
    reveal_strlit(" LIMIT ? OFFSET ?");
    assert(placeholders_from(" LIMIT ? OFFSET ?"@, 7) == 2);
    assert(placeholders_from(" LIMIT ? OFFSET ?"@, 0) == 2);
    lemma_placeholders_from(" LIMIT ? OFFSET ?"@, 0);
    assert(" LIMIT ? OFFSET ?"@.subrange(0, 17) =~= " LIMIT ? OFFSET ?"@);
    reveal_strlit("SELECT COUNT(*) FROM game_catalog WHERE ");
    assert(placeholders_from("SELECT COUNT(*) FROM game_catalog WHERE "@, 30) == 0);
    assert(placeholders_from("SELECT COUNT(*) FROM game_catalog WHERE "@, 20) == 0);
    assert(placeholders_from("SELECT COUNT(*) FROM game_catalog WHERE "@, 10) == 0);
    assert(placeholders_from("SELECT COUNT(*) FROM game_catalog WHERE "@, 0) == 0);
    lemma_placeholders_from("SELECT COUNT(*) FROM game_catalog WHERE "@, 0);
    assert("SELECT COUNT(*) FROM game_catalog WHERE "@.subrange(0, 40) =~= "SELECT COUNT(*) FROM game_catalog WHERE "@);
}

/// Every value a catalog listing binds has its placeholder: the count statement holds one
/// `?` for the tenant and one per bound filter value; the listing statement two more, for
/// the page size and the offset.
pub proof fn law_catalog_placeholders_match_binds(query: GameCatalogQuery)
    ensures
        placeholder_count(catalog_count(query)) == catalog_binds(query).len() + 1,
        placeholder_count(catalog_select(query)) == catalog_binds(query).len() + 3,
{
    lemma_catalog_pieces();
    let empty: Seq<char> = seq![];
    let status = if used_filter(query.status) { " AND status = ?"@ } else { empty };
    let genre = if used_filter(query.genre) { " AND genre = ?"@ } else { empty };
    let search = if used_filter(query.q) { " AND "@ + search_condition() } else { empty };
    lemma_placeholders_concat(" AND "@, search_condition());
    let w0 = "tenant_id = ? AND deleted_at IS NULL"@;
    lemma_placeholders_concat(w0, status);
    lemma_placeholders_concat(w0 + status, genre);
    lemma_placeholders_concat(w0 + status + genre, search);
    let w = catalog_where(query);
    assert(w == w0 + status + genre + search);
    let count_head = "SELECT COUNT(*) FROM game_catalog WHERE "@;
    lemma_placeholders_concat(count_head, w);
    let head = "SELECT id, game_code, title, summary, genre, status FROM game_catalog"@ + " WHERE "@;
    lemma_placeholders_concat("SELECT id, game_code, title, summary, genre, status FROM game_catalog"@, " WHERE "@);
    lemma_placeholders_concat(head, w);
    lemma_placeholders_concat(head + w, " "@);
    lemma_placeholders_concat(head + w + " "@, order_clause(query.sort));
    lemma_placeholders_concat(head + w + " "@ + order_clause(query.sort), " LIMIT ? OFFSET ?"@);
}
/// The values a catalog listing binds follow its placeholders: after the tenant's, the
/// WHERE clause holds `status = ?` then `genre = ?` then the three search placeholders,
/// each only when its filter is set and not blank, and the bound values come in that same
/// order: the status, the genre, then the trimmed, escaped search text between `%` signs,
/// three times.
pub proof fn law_catalog_binds_follow_placeholders(query: GameCatalogQuery, dialect: SqlDialect, r: CatalogListSql)
    requires
        r.select_sql@ == in_dialect(dialect, catalog_select(query)),
        r.count_sql@ == in_dialect(dialect, catalog_count(query)),
        r.bind_values@.map_values(|v: String| v@) == catalog_binds(query),
    ensures
        ({
            let s = match query.status {
                Some(v) => !blank(v@),
                None => false,
            };
            let g = match query.genre {
                Some(v) => !blank(v@),
                None => false,
            };
            let q = match query.q {
                Some(v) => !blank(v@),
                None => false,
            };
            let ns: int = if s { 1 } else { 0 };
            let ng: int = if g { 1 } else { 0 };
            let nq: int = if q { 3 } else { 0 };
            let where_clause = "tenant_id = ? AND deleted_at IS NULL"@ + (if s {
                " AND status = ?"@
            } else {
                Seq::<char>::empty()
            }) + (if g {
                " AND genre = ?"@
            } else {
                Seq::<char>::empty()
            }) + (if q {
                " AND (LOWER(title) LIKE LOWER(?) OR LOWER(game_code) LIKE LOWER(?) OR LOWER(COALESCE(summary, '')) LIKE LOWER(?))"@
            } else {
                Seq::<char>::empty()
            });
            &&& r.bind_values@.len() == ns + ng + nq
            &&& s ==> r.bind_values@[0]@ == query.status->0@
            &&& g ==> r.bind_values@[ns]@ == query.genre->0@
            &&& q ==> forall|k: int|
                0 <= k < 3 ==> (#[trigger] r.bind_values@[ns + ng + k])@ == seq!['%'] + like_escaped(trimmed(query.q->0@))
                    + seq!['%']
            &&& r.count_sql@ == in_dialect(dialect, "SELECT COUNT(*) FROM game_catalog WHERE "@ + where_clause)
            &&& r.select_sql@ == in_dialect(
                dialect,
                "SELECT id, game_code, title, summary, genre, status FROM game_catalog WHERE "@ + where_clause + " "@
                    + order_clause(query.sort) + " LIMIT ? OFFSET ?"@,
            )
        }),
{
    let binds = catalog_binds(query);
    assert(r.bind_values@.len() == binds.len());
    assert forall|k: int| 0 <= k < binds.len() implies (#[trigger] r.bind_values@[k])@ == binds[k] by {
        assert(r.bind_values@.map_values(|v: String| v@)[k] == r.bind_values@[k]@);
    }
    reveal_strlit(" AND ");
    reveal_strlit("(LOWER(title) LIKE LOWER(?) OR LOWER(game_code) LIKE LOWER(?) OR LOWER(COALESCE(summary, '')) LIKE LOWER(?))");
    reveal_strlit(" AND (LOWER(title) LIKE LOWER(?) OR LOWER(game_code) LIKE LOWER(?) OR LOWER(COALESCE(summary, '')) LIKE LOWER(?))");
    assert(" AND "@ + search_condition() =~= " AND (LOWER(title) LIKE LOWER(?) OR LOWER(game_code) LIKE LOWER(?) OR LOWER(COALESCE(summary, '')) LIKE LOWER(?))"@);
    reveal_strlit("SELECT id, game_code, title, summary, genre, status FROM game_catalog");
    reveal_strlit(" WHERE ");
    reveal_strlit("SELECT id, game_code, title, summary, genre, status FROM game_catalog WHERE ");
    assert("SELECT id, game_code, title, summary, genre, status FROM game_catalog"@ + " WHERE "@
        =~= "SELECT id, game_code, title, summary, genre, status FROM game_catalog WHERE "@);
}

/// The ORDER BY clause for a sort key: `title`, `newest`, or the catalog order.
pub fn order_by_clause(sort: &Option<String>) -> (r: &'static str)
    ensures
        r@ == order_clause(*sort),
{
    match sort {
        Some(s) => {
            if text_eq(s.as_str(), "title") {
                "ORDER BY title ASC"
            } else if text_eq(s.as_str(), "newest") {
                "ORDER BY created_at DESC, title ASC"
            } else {
                "ORDER BY sort_order ASC, title ASC"
            }
        },
        None => "ORDER BY sort_order ASC, title ASC",
    }
}

/// Escapes `\`, `%` and `_` so a LIKE pattern matches them literally.
pub fn escape_like(input: &str) -> (r: String)
    ensures
        r@ == like_escaped(input@),
{
    let n = input.unicode_len();
    let mut out = String::new();
    let mut i: usize = 0;
    while i < n
        invariant
            n == input@.len(),
            i <= n,
            out@ == like_escaped(input@.subrange(0, i as int)),
        decreases n - i,
    {
        let c = input.get_char(i);
        proof {
            let next = input@.subrange(0, i + 1);
            assert(next.drop_last() =~= input@.subrange(0, i as int));
            assert(next.last() == c);
        }
        if c == '\\' || c == '%' || c == '_' {
            push_char(&mut out, '\\');
            push_char(&mut out, c);
        } else {
            push_char(&mut out, c);
        }
        proof {
            let next = input@.subrange(0, i + 1);
            assert(out@ =~= like_escaped(next));
        }
        i = i + 1;
    }
    assert(input@.subrange(0, n as int) =~= input@);
    out
}

/// Whether an optional filter is present and not blank.
fn filter_in_use(v: &Option<String>) -> (r: bool)
    ensures
        r == used_filter(*v),
{
    match v {
        Some(s) => !is_blank(s.as_str()),
        None => false,
    }
}

/// Builds the listing and count statements of a catalog query in `dialect`, with the
/// filter values they bind after the tenant id (the page size and offset follow them).
pub fn build_catalog_list_sql(query: &GameCatalogQuery, dialect: SqlDialect) -> (r: CatalogListSql)
    ensures
        r.select_sql@ == in_dialect(dialect, catalog_select(*query)),
        r.count_sql@ == in_dialect(dialect, catalog_count(*query)),
        r.bind_values@.map_values(|v: String| v@) == catalog_binds(*query),
{
    let mut where_clause = String::from_str("tenant_id = ? AND deleted_at IS NULL");
    let mut bind_values: Vec<String> = Vec::new();
    let ghost binds0: Seq<Seq<char>> = seq![];
    assert(bind_values@.map_values(|v: String| v@) =~= binds0);
    let status_used = filter_in_use(&query.status);
    if status_used {
        where_clause.append(" AND status = ?");
        let s = query.status.as_ref().unwrap();
        bind_values.push(s.clone());
    }
    let ghost binds1: Seq<Seq<char>> = if used_filter(query.status) {
        seq![query.status->0@]
    } else {
        seq![]
    };
    assert(bind_values@.map_values(|v: String| v@) =~= binds1);
    let genre_used = filter_in_use(&query.genre);
    if genre_used {
        where_clause.append(" AND genre = ?");
        let g = query.genre.as_ref().unwrap();
        bind_values.push(g.clone());
    }
    let ghost binds2: Seq<Seq<char>> = binds1 + if used_filter(query.genre) {
        seq![query.genre->0@]
    } else {
        seq![]
    };
    assert(bind_values@.map_values(|v: String| v@) =~= binds2);
    let q_used = filter_in_use(&query.q);
    if q_used {
        let q = query.q.as_ref().unwrap();
        let trimmed_q = trim_text(q.as_str());
        let escaped = escape_like(trimmed_q.as_str());
        let pattern = String::from_str("%").concat(escaped.as_str()).concat("%");
        proof {
            reveal_strlit("%");
        }
        assert(pattern@ =~= search_pattern(q@));
        where_clause.append(" AND ");
        where_clause.append(
            "(LOWER(title) LIKE LOWER(?) OR LOWER(game_code) LIKE LOWER(?) OR LOWER(COALESCE(summary, '')) LIKE LOWER(?))",
        );
        bind_values.push(pattern.clone());
        bind_values.push(pattern.clone());
        bind_values.push(pattern);
    }
    assert(bind_values@.map_values(|v: String| v@) =~= catalog_binds(*query));
    assert(where_clause@ =~= catalog_where(*query));
    let order = order_by_clause(&query.sort);
    let select_sql = String::from_str(
        "SELECT id, game_code, title, summary, genre, status FROM game_catalog",
    ).concat(" WHERE ").concat(where_clause.as_str()).concat(" ").concat(order).concat(
        " LIMIT ? OFFSET ?",
    );
    assert(select_sql@ =~= catalog_select(*query));
    let count_sql = String::from_str("SELECT COUNT(*) FROM game_catalog WHERE ").concat(
        where_clause.as_str(),
    );
    assert(count_sql@ =~= catalog_count(*query));
    CatalogListSql {
        select_sql: dialect.rewrite_placeholders(select_sql.as_str()),
        count_sql: dialect.rewrite_placeholders(count_sql.as_str()),
        bind_values,
    }
}

/// One catalog row as the database returns it.
#[derive(Debug, Clone, PartialEq, Eq)]
pub struct CatalogRow {
    pub id: String,
    pub game_code: String,
    pub title: String,
    pub summary: Option<String>,
    pub genre: Option<String>,
    pub status: String,
}

/// The catalog item a row holds, field for field.
pub open spec fn catalog_item_of_row(row: CatalogRow) -> GameCatalogItem {
    GameCatalogItem {
        id: row.id,
        game_code: row.game_code,
        title: row.title,
        summary: row.summary,
        genre: row.genre,
        status: row.status,
    }
}

impl CatalogRow {
    /// The catalog item that the row holds, field for field.
    pub fn into_item(self) -> (r: GameCatalogItem)
        ensures
            r == catalog_item_of_row(self),
    {
        GameCatalogItem {
            id: self.id,
            game_code: self.game_code,
            title: self.title,
            summary: self.summary,
            genre: self.genre,
            status: self.status,
        }
    }

    /// The catalog item that the row holds, leaving the row in place.
    pub fn to_item(&self) -> (r: GameCatalogItem)
        ensures
            r == catalog_item_of_row(*self),
    {
        GameCatalogItem {
            id: self.id.clone(),
            game_code: self.game_code.clone(),
            title: self.title.clone(),
            summary: copy_opt(&self.summary),
            genre: copy_opt(&self.genre),
            status: self.status.clone(),
        }
    }
}

/// A page of catalog items read from database rows: the rows' items, the counted total,
/// the page number the offset falls on, and the page size.
pub fn catalog_page_from_rows(rows: Vec<CatalogRow>, total: i64, limit: i64, offset: i64) -> (r: GameCatalogPage)
    requires
        0 <= offset,
        1 <= limit,
        offset / limit < i64::MAX,
    ensures
        r.items@ == rows@.map_values(|row: CatalogRow| catalog_item_of_row(row)),
        r.total == #[verifier::truncate] (total as u64),
        r.page == #[verifier::truncate] (((offset / limit) + 1) as u32),
        r.page_size == #[verifier::truncate] (limit as u32),
{
    let mut items: Vec<GameCatalogItem> = Vec::new();
    let n = rows.len();
    let mut i: usize = 0;
    while i < n
        invariant
            n == rows@.len(),
            i <= n,
            items@ == rows@.subrange(0, i as int).map_values(|row: CatalogRow| catalog_item_of_row(row)),
        decreases n - i,
    {
        items.push(rows[i].to_item());
        assert(rows@.subrange(0, i + 1).map_values(|row: CatalogRow| catalog_item_of_row(row))
            =~= rows@.subrange(0, i as int).map_values(|row: CatalogRow| catalog_item_of_row(row)).push(
            catalog_item_of_row(rows@[i as int]),
        ));
        i = i + 1;
    }
    assert(rows@.subrange(0, n as int) =~= rows@);
    GameCatalogPage {
        items,
        total: #[verifier::truncate] (total as u64),
        page: page_number(offset, limit),
        page_size: #[verifier::truncate] (limit as u32),
    }
}

} // verus!
