//! Leaderboards: models, request validation, and row mapping.
use vstd::prelude::*;
use crate::paging::{
    offset_fits, page_limit, page_number, page_offset, pagination_in_bounds,
    pagination_within_bounds, query_limit, query_offset,
};
use crate::rules::{required, then_check, Refusal};
use crate::text::{copy_opt, is_blank, required_message};

verus! {

/// One ranked entry of a leaderboard.
#[derive(Debug, Clone, PartialEq, Eq)]
pub struct LeaderboardEntry {
    pub id: String,
    pub game_id: String,
    pub user_id: String,
    pub display_name: Option<String>,
    pub score: i64,
    pub rank_no: Option<i32>,
    pub recorded_at: String,
}

/// The configuration of one leaderboard.
#[derive(Debug, Clone, PartialEq, Eq)]
pub struct LeaderboardConfigItem {
    pub id: String,
    pub game_id: String,
    pub mode_id: Option<String>,
    pub season_id: Option<String>,
    pub leaderboard_code: String,
    pub title: String,
    pub status: String,
    pub ranking_metric: String,
    pub ranking_order: String,
    pub tie_breaker: String,
    pub version: i64,
}

/// One page of ranked entries.
#[derive(Debug, Clone, PartialEq, Eq)]
pub struct LeaderboardPage {
    pub items: Vec<LeaderboardEntry>,
    pub total: u64,
    pub page: u32,
    pub page_size: u32,
}

/// One page of leaderboard configurations.
#[derive(Debug, Clone, PartialEq, Eq)]
pub struct LeaderboardConfigPage {
    pub items: Vec<LeaderboardConfigItem>,
    pub total: u64,
    pub page: u32,
    pub page_size: u32,
}

/// Scope and page of a rankings listing.
#[derive(Debug, Clone, PartialEq, Eq)]
pub struct LeaderboardQuery {
    pub leaderboard_id: Option<String>,
    pub game_id: Option<String>,
    pub page: Option<u32>,
    pub page_size: Option<u32>,
}

impl Default for LeaderboardQuery {
    fn default() -> (r: Self)
        ensures
            r.leaderboard_id is None,
            r.game_id is None,
            r.page is None,
            r.page_size is None,
    {
        LeaderboardQuery { leaderboard_id: None, game_id: None, page: None, page_size: None }
    }
}

impl LeaderboardQuery {
    /// The clamped page size.
    pub fn limit(&self) -> (r: u32)
        ensures
            r == page_limit(self.page_size),
    {
        query_limit(self.page_size)
    }

    /// The number of entries before the requested page.
    pub fn offset(&self) -> (r: u32)
        requires
            offset_fits(self.page, self.page_size),
        ensures
            r == page_offset(self.page, self.page_size),
    {
        query_offset(self.page, self.page_size)
    }
}

/// Filters and page of a configuration listing.
#[derive(Debug, Clone, PartialEq, Eq)]
pub struct LeaderboardConfigQuery {
    pub game_id: Option<String>,
    pub status: Option<String>,
    pub page: Option<u32>,
    pub page_size: Option<u32>,
}

impl Default for LeaderboardConfigQuery {
    fn default() -> (r: Self)
        ensures
            r.game_id is None,
            r.status is None,
            r.page is None,
            r.page_size is None,
    {
        LeaderboardConfigQuery { game_id: None, status: None, page: None, page_size: None }
    }
}

impl LeaderboardConfigQuery {
    /// The clamped page size.
    pub fn limit(&self) -> (r: u32)
        ensures
            r == page_limit(self.page_size),
    {
        query_limit(self.page_size)
    }

    /// The number of configurations before the requested page.
    pub fn offset(&self) -> (r: u32)
        requires
            offset_fits(self.page, self.page_size),
        ensures
            r == page_offset(self.page, self.page_size),
    {
        query_offset(self.page, self.page_size)
    }
}

/// A request to record a user's score on a leaderboard.
#[derive(Debug, Clone, PartialEq, Eq)]
pub struct LeaderboardEntryUpdateCommand {
    pub leaderboard_id: String,
    pub game_id: String,
    pub mode_id: Option<String>,
    pub season_id: Option<String>,
    pub user_id: String,
    pub display_name_snapshot: Option<String>,
    pub score_value: i64,
    pub tie_breaker_value: Option<String>,
    pub last_ledger_id: Option<String>,
    pub recorded_at: Option<String>,
}

/// A request to replace all entries of one leaderboard.
#[derive(Debug, Clone, PartialEq, Eq)]
pub struct LeaderboardEntriesRebuildCommand {
    pub leaderboard_id: String,
    pub entries: Vec<LeaderboardEntryUpdateCommand>,
}

/// The error of the leaderboard service: a stable code and a message.
#[derive(Debug, Clone, PartialEq, Eq)]
pub struct LeaderboardError {
    code: String,
    message: String,
}

pub type LeaderboardResult<T> = Result<T, LeaderboardError>;

/// `r` is refused as `refusal` says, or is `Ok` when `refusal` is `None`.
pub open spec fn board_outcome<T>(r: LeaderboardResult<T>, refusal: Refusal) -> bool {
    match refusal {
        Some((c, m)) => board_fails_with(r, c, m),
        None => r is Ok,
    }
}

/// Whether `r` is an error with the given code and message.
pub open spec fn board_fails_with<T>(r: LeaderboardResult<T>, code: Seq<char>, message: Seq<char>) -> bool {
    match r {
        Err(e) => e.error_code() == code && e.error_message() == message,
        Ok(_) => false,
    }
}

impl LeaderboardError {
    /// The code of the error.
    pub closed spec fn error_code(&self) -> Seq<char> {
        self.code@
    }

    /// The message of the error.
    pub closed spec fn error_message(&self) -> Seq<char> {
        self.message@
    }

    /// An `invalid` error.
    pub fn invalid(message: &str) -> (r: Self)
        ensures
            r.error_code() == "invalid"@,
            r.error_message() == message@,
    {
        LeaderboardError { code: String::from_str("invalid"), message: String::from_str(message) }
    }

    /// An `invalid_parameter` error.
    pub fn invalid_parameter(message: &str) -> (r: Self)
        ensures
            r.error_code() == "invalid_parameter"@,
            r.error_message() == message@,
    {
        LeaderboardError {
            code: String::from_str("invalid_parameter"),
            message: String::from_str(message),
        }
    }

    /// A `not_found` error.
    pub fn not_found(message: &str) -> (r: Self)
        ensures
            r.error_code() == "not_found"@,
            r.error_message() == message@,
    {
        LeaderboardError { code: String::from_str("not_found"), message: String::from_str(message) }
    }

    /// A `conflict` error.
    pub fn conflict(message: &str) -> (r: Self)
        ensures
            r.error_code() == "conflict"@,
            r.error_message() == message@,
    {
        LeaderboardError { code: String::from_str("conflict"), message: String::from_str(message) }
    }

    /// The code of the error.
    pub fn code(&self) -> (r: &str)
        ensures
            r@ == self.error_code(),
    {
        self.code.as_str()
    }

    /// The message of the error.
    pub fn message(&self) -> (r: &str)
        ensures
            r@ == self.error_message(),
    {
        self.message.as_str()
    }
}

/// Refuses a blank required field.
fn validate_required(field: &str, value: &str) -> (r: LeaderboardResult<()>)
    ensures
        board_outcome(r, required(field@, value@)),
{
    if is_blank(value) {
        let message = required_message(field);
        return Err(LeaderboardError::invalid(message.as_str()));
    }
    Ok(())
}

pub open spec fn pagination_rule(page: Option<u32>, page_size: Option<u32>) -> Refusal {
    if pagination_in_bounds(page, page_size) {
        None
    } else {
        Some(("invalid_parameter"@, "page and page_size must follow SDKWork pagination bounds"@))
    }
}

/// Refuses a page or page size outside the SDKWork bounds.
fn validate_pagination(page: Option<u32>, page_size: Option<u32>) -> (r: LeaderboardResult<()>)
    ensures
        board_outcome(r, pagination_rule(page, page_size)),
{
    if !pagination_within_bounds(page, page_size) {
        return Err(
            LeaderboardError::invalid_parameter(
                "page and page_size must follow SDKWork pagination bounds",
            ),
        );
    }
    Ok(())
}

/// The first rule an entry update breaks: leaderboard, game and user are required.
pub open spec fn entry_command_refusal(c: LeaderboardEntryUpdateCommand) -> Refusal {
    then_check(
        required("leaderboard_id"@, c.leaderboard_id@),
        then_check(required("game_id"@, c.game_id@), required("user_id"@, c.user_id@)),
    )
}

/// Checks an entry update on its own.
pub fn validate_entry_command(command: &LeaderboardEntryUpdateCommand) -> (r: LeaderboardResult<()>)
    ensures
        board_outcome(r, entry_command_refusal(*command)),
{
    validate_required("leaderboard_id", command.leaderboard_id.as_str())?;
    validate_required("game_id", command.game_id.as_str())?;
    validate_required("user_id", command.user_id.as_str())?;
    Ok(())
}

/// Checks a configuration listing: tenant, then pagination bounds.
pub fn validate_list_configs(tenant_id: &str, query: &LeaderboardConfigQuery) -> (r: LeaderboardResult<()>)
    ensures
        board_outcome(
            r,
            then_check(required("tenant_id"@, tenant_id@), pagination_rule(query.page, query.page_size)),
        ),
{
    validate_required("tenant_id", tenant_id)?;
    validate_pagination(query.page, query.page_size)?;
    Ok(())
}

/// Checks a configuration lookup: tenant, then leaderboard id.
pub fn validate_get_config(tenant_id: &str, leaderboard_id: &str) -> (r: LeaderboardResult<()>)
    ensures
        board_outcome(
            r,
            then_check(required("tenant_id"@, tenant_id@), required("leaderboard_id"@, leaderboard_id@)),
        ),
{
    validate_required("tenant_id", tenant_id)?;
    validate_required("leaderboard_id", leaderboard_id)?;
    Ok(())
}

/// Checks a rankings listing: tenant, then pagination bounds.
pub fn validate_list_rankings(tenant_id: &str, query: &LeaderboardQuery) -> (r: LeaderboardResult<()>)
    ensures
        board_outcome(
            r,
            then_check(required("tenant_id"@, tenant_id@), pagination_rule(query.page, query.page_size)),
        ),
{
    validate_required("tenant_id", tenant_id)?;
    validate_pagination(query.page, query.page_size)?;
    Ok(())
}

/// Checks a user's ranking lookup: tenant, then user id.
pub fn validate_get_user_ranking(tenant_id: &str, user_id: &str) -> (r: LeaderboardResult<()>)
    ensures
        board_outcome(r, then_check(required("tenant_id"@, tenant_id@), required("user_id"@, user_id@))),
{
    validate_required("tenant_id", tenant_id)?;
    validate_required("user_id", user_id)?;
    Ok(())
}

/// Checks an entry update: tenant, then the entry.
pub fn validate_upsert_entry(tenant_id: &str, command: &LeaderboardEntryUpdateCommand) -> (r: LeaderboardResult<()>)
    ensures
        board_outcome(r, then_check(required("tenant_id"@, tenant_id@), entry_command_refusal(*command))),
{
    validate_required("tenant_id", tenant_id)?;
    validate_entry_command(command)?;
    Ok(())
}

/// The rule one rebuild entry breaks: its own, or naming another leaderboard.
pub open spec fn rebuild_entry_refusal(scope: Seq<char>, c: LeaderboardEntryUpdateCommand) -> Refusal {
    then_check(
        entry_command_refusal(c),
        if c.leaderboard_id@ != scope {
            Some(("conflict"@, "rebuild entry leaderboard_id must match rebuild scope"@))
        } else {
            None
        },
    )
}

/// The first rule broken by the entries of a rebuild, checked in order.
pub open spec fn rebuild_entries_refusal(scope: Seq<char>, entries: Seq<LeaderboardEntryUpdateCommand>) -> Refusal
    decreases entries.len(),
{
    if entries.len() == 0 {
        None
    } else {
        then_check(
            rebuild_entries_refusal(scope, entries.drop_last()),
            rebuild_entry_refusal(scope, entries.last()),
        )
    }
}

proof fn lemma_rebuild_refusal_prefix(scope: Seq<char>, entries: Seq<LeaderboardEntryUpdateCommand>, k: int)
    requires
        0 <= k <= entries.len(),
        rebuild_entries_refusal(scope, entries.subrange(0, k)) is Some,
    ensures
        rebuild_entries_refusal(scope, entries) == rebuild_entries_refusal(scope, entries.subrange(0, k)),
    decreases entries.len() - k,
{
    if k < entries.len() {
        assert(entries.drop_last().subrange(0, k) =~= entries.subrange(0, k));
        lemma_rebuild_refusal_prefix(scope, entries.drop_last(), k);
    } else {
        assert(entries.subrange(0, k) =~= entries);
    }
}

/// Checks a rebuild: tenant, leaderboard id, then each entry in order.
pub fn validate_rebuild_entries(tenant_id: &str, command: &LeaderboardEntriesRebuildCommand) -> (r: LeaderboardResult<()>)
    ensures
        board_outcome(
            r,
            then_check(
                required("tenant_id"@, tenant_id@),
                then_check(
                    required("leaderboard_id"@, command.leaderboard_id@),
                    rebuild_entries_refusal(command.leaderboard_id@, command.entries@),
                ),
            ),
        ),
{
    validate_required("tenant_id", tenant_id)?;
    validate_required("leaderboard_id", command.leaderboard_id.as_str())?;
    let ghost scope = command.leaderboard_id@;
    let n = command.entries.len();
    let mut i: usize = 0;
    assert(command.entries@.subrange(0, 0) =~= Seq::<LeaderboardEntryUpdateCommand>::empty());
    while i < n
        invariant
            n == command.entries@.len(),
            i <= n,
            scope == command.leaderboard_id@,
            required("tenant_id"@, tenant_id@) is None,
            required("leaderboard_id"@, command.leaderboard_id@) is None,
            rebuild_entries_refusal(scope, command.entries@.subrange(0, i as int)) is None,
        decreases n - i,
    {
        let entry = &command.entries[i];
        let ghost next = command.entries@.subrange(0, i + 1);
        assert(next.drop_last() =~= command.entries@.subrange(0, i as int));
        assert(next.last() == command.entries@[i as int]);
        match validate_entry_command(entry) {
            Err(e) => {
                proof {
                    assert(rebuild_entries_refusal(scope, next) == rebuild_entry_refusal(scope, command.entries@[i as int]));
                    lemma_rebuild_refusal_prefix(scope, command.entries@, i + 1);
                }
                return Err(e);
            },
            Ok(()) => {},
        }
        if entry.leaderboard_id != command.leaderboard_id {
            proof {
                assert(rebuild_entries_refusal(scope, next) == rebuild_entry_refusal(scope, command.entries@[i as int]));
                lemma_rebuild_refusal_prefix(scope, command.entries@, i + 1);
            }
            return Err(LeaderboardError::conflict(
                "rebuild entry leaderboard_id must match rebuild scope",
            ));
        }
        i = i + 1;
    }
    assert(command.entries@.subrange(0, n as int) =~= command.entries@);
    Ok(())
}

/// The leaderboard service over a storage `R`; each request is checked by the
/// matching `validate_*` function before the storage is asked.
pub struct LeaderboardService<R> {
    repository: R,
}

impl<R> LeaderboardService<R> {
    /// The storage the service uses.
    pub closed spec fn storage(&self) -> R {
        self.repository
    }

    /// A service over `repository`.
    pub fn new(repository: R) -> (r: Self)
        ensures
            r.storage() == repository,
    {
        LeaderboardService { repository }
    }

    /// The storage the service uses.
    pub fn repository(&self) -> (r: &R)
        ensures
            *r == self.storage(),
    {
        &self.repository
    }
}

/// Maps a database driver failure, given by its text, to an `invalid` leaderboard error.
pub fn map_sqlx_error(error_text: &str) -> (r: LeaderboardError)
    ensures
        r.error_code() == "invalid"@,
        r.error_message() == error_text@,
{
    LeaderboardError::invalid(error_text)
}

/// One configuration row as the database returns it.
#[derive(Debug, Clone, PartialEq, Eq)]
pub struct ConfigRow {
    pub id: String,
    pub game_id: String,
    pub mode_id: Option<String>,
    pub season_id: Option<String>,
    pub leaderboard_code: String,
    pub title: String,
    pub status: String,
    pub ranking_metric: String,
    pub ranking_order: String,
    pub tie_breaker: String,
    pub version: i64,
}

/// The configuration a row holds, field for field.
pub open spec fn config_of_row(row: ConfigRow) -> LeaderboardConfigItem {
    LeaderboardConfigItem {
        id: row.id,
        game_id: row.game_id,
        mode_id: row.mode_id,
        season_id: row.season_id,
        leaderboard_code: row.leaderboard_code,
        title: row.title,
        status: row.status,
        ranking_metric: row.ranking_metric,
        ranking_order: row.ranking_order,
        tie_breaker: row.tie_breaker,
        version: row.version,
    }
}

impl ConfigRow {
    /// The configuration the row holds.
    pub fn into_item(self) -> (r: LeaderboardConfigItem)
        ensures
            r == config_of_row(self),
    {
        LeaderboardConfigItem {
            id: self.id,
            game_id: self.game_id,
            mode_id: self.mode_id,
            season_id: self.season_id,
            leaderboard_code: self.leaderboard_code,
            title: self.title,
            status: self.status,
            ranking_metric: self.ranking_metric,
            ranking_order: self.ranking_order,
            tie_breaker: self.tie_breaker,
            version: self.version,
        }
    }

    /// The configuration the row holds, leaving the row in place.
    pub fn to_item(&self) -> (r: LeaderboardConfigItem)
        ensures
            r == config_of_row(*self),
    {
        LeaderboardConfigItem {
            id: self.id.clone(),
            game_id: self.game_id.clone(),
            mode_id: copy_opt(&self.mode_id),
            season_id: copy_opt(&self.season_id),
            leaderboard_code: self.leaderboard_code.clone(),
            title: self.title.clone(),
            status: self.status.clone(),
            ranking_metric: self.ranking_metric.clone(),
            ranking_order: self.ranking_order.clone(),
            tie_breaker: self.tie_breaker.clone(),
            version: self.version,
        }
    }
}

/// One entry row as the database returns it; `rank_no` is unset until ranks are refreshed.
#[derive(Debug, Clone, PartialEq, Eq)]
pub struct LeaderboardRow {
    pub id: String,
    pub leaderboard_id: String,
    pub game_id: String,
    pub user_id: String,
    pub display_name_snapshot: Option<String>,
    pub score_value: i64,
    pub rank_no: Option<i32>,
    pub recorded_at: String,
}

/// The entry a row holds; a row without a stored rank takes `rank_no`.
pub open spec fn entry_of_row(row: LeaderboardRow, rank_no: i32) -> LeaderboardEntry {
    LeaderboardEntry {
        id: row.id,
        game_id: row.game_id,
        user_id: row.user_id,
        display_name: row.display_name_snapshot,
        score: row.score_value,
        rank_no: Some(
            match row.rank_no {
                Some(r) => r,
                None => rank_no,
            },
        ),
        recorded_at: row.recorded_at,
    }
}

impl LeaderboardRow {
    /// The entry the row holds; a row without a stored rank takes `rank_no`.
    pub fn into_entry(self, rank_no: i32) -> (r: LeaderboardEntry)
        ensures
            r == entry_of_row(self, rank_no),
    {
        let rank = match self.rank_no {
            Some(r) => r,
            None => rank_no,
        };
        LeaderboardEntry {
            id: self.id,
            game_id: self.game_id,
            user_id: self.user_id,
            display_name: self.display_name_snapshot,
            score: self.score_value,
            rank_no: Some(rank),
            recorded_at: self.recorded_at,
        }
    }

    /// The entry the row holds, leaving the row in place.
    pub fn to_entry(&self, rank_no: i32) -> (r: LeaderboardEntry)
        ensures
            r == entry_of_row(*self, rank_no),
    {
        let rank = match self.rank_no {
            Some(r) => r,
            None => rank_no,
        };
        LeaderboardEntry {
            id: self.id.clone(),
            game_id: self.game_id.clone(),
            user_id: self.user_id.clone(),
            display_name: copy_opt(&self.display_name_snapshot),
            score: self.score_value,
            rank_no: Some(rank),
            recorded_at: self.recorded_at.clone(),
        }
    }
}

/// A page of configurations read from database rows, numbered from its offset.
pub fn config_page_from_rows(rows: Vec<ConfigRow>, total: i64, limit: i64, offset: i64) -> (r: LeaderboardConfigPage)
    requires
        0 <= offset,
        1 <= limit,
        offset / limit < i64::MAX,
    ensures
        r.items@ == rows@.map_values(|row: ConfigRow| config_of_row(row)),
        r.total == #[verifier::truncate] (total as u64),
        r.page == #[verifier::truncate] (((offset / limit) + 1) as u32),
        r.page_size == #[verifier::truncate] (limit as u32),
{
    let mut items: Vec<LeaderboardConfigItem> = Vec::new();
    let n = rows.len();
    let mut i: usize = 0;
    while i < n
        invariant
            n == rows@.len(),
            i <= n,
            items@ == rows@.subrange(0, i as int).map_values(|row: ConfigRow| config_of_row(row)),
        decreases n - i,
    {
        items.push(rows[i].to_item());
        assert(rows@.subrange(0, i + 1).map_values(|row: ConfigRow| config_of_row(row))
            =~= rows@.subrange(0, i as int).map_values(|row: ConfigRow| config_of_row(row)).push(
            config_of_row(rows@[i as int]),
        ));
        i = i + 1;
    }
    assert(rows@.subrange(0, n as int) =~= rows@);
    LeaderboardConfigPage {
        items,
        total: #[verifier::truncate] (total as u64),
        page: page_number(offset, limit),
        page_size: #[verifier::truncate] (limit as u32),
    }
}

/// A page of ranked entries read from database rows: a row without a stored rank is
/// ranked by its place after the offset.
pub fn entry_page_from_rows(rows: Vec<LeaderboardRow>, total: i64, limit: i64, offset: i64, query: &LeaderboardQuery) -> (r: LeaderboardPage)
    requires
        0 <= offset,
        offset + rows@.len() <= i32::MAX,
    ensures
        r.items@.len() == rows@.len(),
        forall|i: int|
            0 <= i < rows@.len() ==> r.items@[i] == entry_of_row(rows@[i], (offset + i + 1) as i32),
        r.total == #[verifier::truncate] (total as u64),
        r.page == match query.page {
            Some(p) => p,
            None => 1,
        },
        r.page_size == #[verifier::truncate] (limit as u32),
{
    let mut items: Vec<LeaderboardEntry> = Vec::new();
    let n = rows.len();
    let base = offset as i32;
    let mut i: usize = 0;
    while i < n
        invariant
            n == rows@.len(),
            i <= n,
            0 <= offset,
            offset + n <= i32::MAX,
            base == offset,
            items@.len() == i,
            forall|j: int| 0 <= j < i ==> items@[j] == entry_of_row(rows@[j], (offset + j + 1) as i32),
        decreases n - i,
    {
        let rank = base + (i as i32) + 1;
        items.push(rows[i].to_entry(rank));
        i = i + 1;
    }
    LeaderboardPage {
        items,
        total: #[verifier::truncate] (total as u64),
        page: match query.page {
            Some(p) => p,
            None => 1,
        },
        page_size: #[verifier::truncate] (limit as u32),
    }
}

} // verus!
