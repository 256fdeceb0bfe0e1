//! Game modes: models, request validation, row mapping and partial updates.
use vstd::prelude::*;
use crate::paging::{
    offset_fits, page_limit, page_number, page_offset, pagination_in_bounds,
    pagination_within_bounds, query_limit, query_offset,
};
use crate::rules::{invalid_because, required, then_check, Refusal};
use crate::text::{blank, copy_opt, is_blank, push_char, required_message, text_eq, trim_text, trimmed};

verus! {

/// The largest number of players a mode, or a team of it, may hold.
pub const MAX_MODE_PLAYERS: i32 = 64;

/// One mode of a game.
#[derive(Debug, Clone, PartialEq, Eq)]
pub struct GameModeItem {
    pub id: String,
    pub game_id: String,
    pub mode_code: String,
    pub title: String,
    pub status: String,
    pub min_players: i32,
    pub max_players: i32,
    pub team_size: Option<i32>,
    pub ruleset_id: Option<String>,
    pub matchmaking_enabled: bool,
    pub room_enabled: bool,
    pub leaderboard_enabled: bool,
}

/// One page of modes.
#[derive(Debug, Clone, PartialEq, Eq)]
pub struct GameModePage {
    pub items: Vec<GameModeItem>,
    pub total: u64,
    pub page: u32,
    pub page_size: u32,
}

/// Filters and page of a mode listing.
#[derive(Debug, Clone, PartialEq, Eq)]
pub struct GameModeQuery {
    pub game_id: Option<String>,
    pub status: Option<String>,
    pub q: Option<String>,
    pub page: Option<u32>,
    pub page_size: Option<u32>,
}

impl Default for GameModeQuery {
    fn default() -> (r: Self)
        ensures
            r.game_id is None,
            r.status is None,
            r.q is None,
            r.page is None,
            r.page_size is None,
    {
        GameModeQuery { game_id: None, status: None, q: None, page: None, page_size: None }
    }
}

impl GameModeQuery {
    /// The clamped page size.
    pub fn limit(&self) -> (r: u32)
        ensures
            r == page_limit(self.page_size),
    {
        query_limit(self.page_size)
    }

    /// The number of modes before the requested page.
    pub fn offset(&self) -> (r: u32)
        requires
            offset_fits(self.page, self.page_size),
        ensures
            r == page_offset(self.page, self.page_size),
    {
        query_offset(self.page, self.page_size)
    }
}

/// A request to create a mode.
#[derive(Debug, Clone, PartialEq, Eq)]
pub struct CreateGameModeCommand {
    pub game_id: String,
    pub mode_code: String,
    pub title: String,
    pub status: String,
    pub min_players: i32,
    pub max_players: i32,
    pub team_size: Option<i32>,
    pub ruleset_id: Option<String>,
    pub matchmaking_enabled: bool,
    pub room_enabled: bool,
    pub leaderboard_enabled: bool,
}

/// A partial update of a mode: each present field replaces the stored one.
#[derive(Debug, Clone, PartialEq, Eq)]
pub struct UpdateGameModeCommand {
    pub title: Option<String>,
    pub status: Option<String>,
    pub min_players: Option<i32>,
    pub max_players: Option<i32>,
    pub team_size: Option<Option<i32>>,
    pub ruleset_id: Option<Option<String>>,
    pub matchmaking_enabled: Option<bool>,
    pub room_enabled: Option<bool>,
    pub leaderboard_enabled: Option<bool>,
}

impl Default for UpdateGameModeCommand {
    fn default() -> (r: Self)
        ensures
            r.title is None,
            r.status is None,
            r.min_players is None,
            r.max_players is None,
            r.team_size is None,
            r.ruleset_id is None,
            r.matchmaking_enabled is None,
            r.room_enabled is None,
            r.leaderboard_enabled is None,
    {
        UpdateGameModeCommand {
            title: None,
            status: None,
            min_players: None,
            max_players: None,
            team_size: None,
            ruleset_id: None,
            matchmaking_enabled: None,
            room_enabled: None,
            leaderboard_enabled: None,
        }
    }
}

/// The error of the modes service: a stable code and a message.
#[derive(Debug, PartialEq, Eq)]
pub struct GameModeError {
    code: String,
    message: String,
}

impl Clone for GameModeError {
    fn clone(&self) -> (r: Self)
        ensures
            r.error_code() == self.error_code(),
            r.error_message() == self.error_message(),
    {
        proof {
            use_type_invariant(self);
        }
        GameModeError { code: self.code.clone(), message: self.message.clone() }
    }
}

pub type GameModeResult<T> = Result<T, GameModeError>;

/// `r` is refused as `refusal` says, or is `Ok` when `refusal` is `None`.
pub open spec fn mode_outcome<T>(r: GameModeResult<T>, refusal: Refusal) -> bool {
    match refusal {
        Some((c, m)) => mode_fails_with(r, c, m),
        None => r is Ok,
    }
}

/// Whether `r` is an error with the given code and message.
pub open spec fn mode_fails_with<T>(r: GameModeResult<T>, code: Seq<char>, message: Seq<char>) -> bool {
    match r {
        Err(e) => e.error_code() == code && e.error_message() == message,
        Ok(_) => false,
    }
}

/// Whether `code` is one of the codes of the modes service.
pub open spec fn mode_error_code(code: Seq<char>) -> bool {
    code == "invalid"@ || code == "invalid_parameter"@ || code == "not_found"@
}

impl GameModeError {
    /// Every modes error carries one of the service's three codes.
    #[verifier::type_invariant]
    closed spec fn known_code(self) -> bool {
        mode_error_code(self.code@)
    }

    /// The code of the error.
    pub closed spec fn error_code(&self) -> Seq<char> {
        self.code@
    }

    /// The message of the error.
    pub closed spec fn error_message(&self) -> Seq<char> {
        self.message@
    }

    /// An `invalid` error.
    pub fn invalid(message: &str) -> (r: Self)
        ensures
            r.error_code() == "invalid"@,
            r.error_message() == message@,
    {
        GameModeError { code: String::from_str("invalid"), message: String::from_str(message) }
    }

    /// An `invalid_parameter` error.
    pub fn invalid_parameter(message: &str) -> (r: Self)
        ensures
            r.error_code() == "invalid_parameter"@,
            r.error_message() == message@,
    {
        GameModeError {
            code: String::from_str("invalid_parameter"),
            message: String::from_str(message),
        }
    }

    /// A `not_found` error.
    pub fn not_found(message: &str) -> (r: Self)
        ensures
            r.error_code() == "not_found"@,
            r.error_message() == message@,
    {
        GameModeError { code: String::from_str("not_found"), message: String::from_str(message) }
    }

    /// The code of the error: `invalid`, `invalid_parameter` or `not_found`, no other.
    pub fn code(&self) -> (r: &str)
        ensures
            r@ == self.error_code(),
            mode_error_code(r@),
    {
        proof {
            use_type_invariant(self);
        }
        self.code.as_str()
    }

    /// The message of the error.
    pub fn message(&self) -> (r: &str)
        ensures
            r@ == self.error_message(),
    {
        self.message.as_str()
    }
}

/// Refuses a blank required field.
fn validate_required(field: &str, value: &str) -> (r: GameModeResult<()>)
    ensures
        mode_outcome(r, required(field@, value@)),
{
    if is_blank(value) {
        let message = required_message(field);
        return Err(GameModeError::invalid(message.as_str()));
    }
    Ok(())
}

pub open spec fn pagination_rule(page: Option<u32>, page_size: Option<u32>) -> Refusal {
    if pagination_in_bounds(page, page_size) {
        None
    } else {
        Some(("invalid_parameter"@, "page and page_size must follow SDKWork pagination bounds"@))
    }
}

/// Refuses a page or page size outside the SDKWork bounds.
fn validate_pagination(page: Option<u32>, page_size: Option<u32>) -> (r: GameModeResult<()>)
    ensures
        mode_outcome(r, pagination_rule(page, page_size)),
{
    if !pagination_within_bounds(page, page_size) {
        return Err(
            GameModeError::invalid_parameter(
                "page and page_size must follow SDKWork pagination bounds",
            ),
        );
    }
    Ok(())
}

/// The statuses a mode may have.
pub open spec fn mode_status_rule(status: Seq<char>) -> Refusal {
    if status == "draft"@ || status == "active"@ || status == "disabled"@ || status == "archived"@ {
        None
    } else {
        invalid_because("mode status is not supported"@)
    }
}

pub open spec fn min_players_rule(value: i32) -> Refusal {
    if 1 <= value <= 64 {
        None
    } else {
        invalid_because("min_players must be between 1 and 64"@)
    }
}

pub open spec fn max_players_rule(value: i32) -> Refusal {
    if 1 <= value <= 64 {
        None
    } else {
        invalid_because("max_players must be between 1 and 64"@)
    }
}

pub open spec fn player_range_rule(min_players: i32, max_players: i32) -> Refusal {
    then_check(
        min_players_rule(min_players),
        then_check(
            max_players_rule(max_players),
            if max_players < min_players {
                invalid_because("max_players must be greater than or equal to min_players"@)
            } else {
                None
            },
        ),
    )
}

pub open spec fn team_size_rule(team_size: Option<i32>, max_players: Option<i32>) -> Refusal {
    match team_size {
        None => None,
        Some(t) => if !(1 <= t <= 64) {
            invalid_because("team_size must be between 1 and 64"@)
        } else if max_players matches Some(m) && t > m {
            invalid_because("team_size must be less than or equal to max_players"@)
        } else {
            None
        },
    }
}

/// Accepts only `draft`, `active`, `disabled` and `archived`.
pub fn validate_mode_status(status: &str) -> (r: GameModeResult<()>)
    ensures
        mode_outcome(r, mode_status_rule(status@)),
{
    if text_eq(status, "draft") || text_eq(status, "active") || text_eq(status, "disabled")
        || text_eq(status, "archived") {
        return Ok(());
    }
    Err(GameModeError::invalid("mode status is not supported"))
}

/// A minimum player count lies in `1..=64`.
pub fn validate_min_players(value: i32) -> (r: GameModeResult<()>)
    ensures
        mode_outcome(r, min_players_rule(value)),
{
    if !(1 <= value && value <= MAX_MODE_PLAYERS) {
        return Err(GameModeError::invalid("min_players must be between 1 and 64"));
    }
    Ok(())
}

/// A maximum player count lies in `1..=64`.
pub fn validate_max_players(value: i32) -> (r: GameModeResult<()>)
    ensures
        mode_outcome(r, max_players_rule(value)),
{
    if !(1 <= value && value <= MAX_MODE_PLAYERS) {
        return Err(GameModeError::invalid("max_players must be between 1 and 64"));
    }
    Ok(())
}

/// Both bounds are valid and the maximum is at least the minimum.
pub fn validate_player_range(min_players: i32, max_players: i32) -> (r: GameModeResult<()>)
    ensures
        mode_outcome(r, player_range_rule(min_players, max_players)),
{
    validate_min_players(min_players)?;
    validate_max_players(max_players)?;
    if max_players < min_players {
        return Err(GameModeError::invalid("max_players must be greater than or equal to min_players"));
    }
    Ok(())
}

/// A team size, when given, lies in `1..=64` and does not exceed a given maximum.
pub fn validate_team_size(team_size: Option<i32>, max_players: Option<i32>) -> (r: GameModeResult<()>)
    ensures
        mode_outcome(r, team_size_rule(team_size, max_players)),
{
    let t = match team_size {
        None => {
            return Ok(());
        },
        Some(t) => t,
    };
    if !(1 <= t && t <= MAX_MODE_PLAYERS) {
        return Err(GameModeError::invalid("team_size must be between 1 and 64"));
    }
    if let Some(m) = max_players {
        if t > m {
            return Err(GameModeError::invalid("team_size must be less than or equal to max_players"));
        }
    }
    Ok(())
}

/// The LIKE pattern a stored mode listing matches titles and codes with: the trimmed
/// search text between `%` signs; none when the text is absent or blank.
pub open spec fn mode_search_pattern_of(q: Option<String>) -> Option<Seq<char>> {
    match q {
        Some(text) => if blank(text@) {
            None
        } else {
            Some(seq!['%'] + trimmed(text@) + seq!['%'])
        },
        None => None,
    }
}

/// Builds the LIKE pattern of a mode listing's search text.
pub fn mode_search_pattern(q: &Option<String>) -> (r: Option<String>)
    ensures
        match r {
            Some(p) => mode_search_pattern_of(*q) == Some(p@),
            None => mode_search_pattern_of(*q) is None,
        },
{
    let text = match q {
        Some(text) => text,
        None => {
            return None;
        },
    };
    if is_blank(text.as_str()) {
        return None;
    }
    let core = trim_text(text.as_str());
    let n = core.as_str().unicode_len();
    let mut out = String::new();
    push_char(&mut out, '%');
    let mut i: usize = 0;
    while i < n
        invariant
            n == core@.len(),
            i <= n,
            out@ == seq!['%'] + core@.subrange(0, i as int),
        decreases n - i,
    {
        let c = core.as_str().get_char(i);
        push_char(&mut out, c);
        proof {
            assert(out@ =~= seq!['%'] + core@.subrange(0, i + 1));
        }
        i = i + 1;
    }
    push_char(&mut out, '%');
    assert(core@.subrange(0, n as int) =~= core@);
    assert(out@ =~= seq!['%'] + trimmed(text@) + seq!['%']);
    Some(out)
}

/// Checks a mode listing: tenant, then pagination bounds.
pub fn validate_list_modes(tenant_id: &str, query: &GameModeQuery) -> (r: GameModeResult<()>)
    ensures
        mode_outcome(
            r,
            then_check(required("tenant_id"@, tenant_id@), pagination_rule(query.page, query.page_size)),
        ),
{
    validate_required("tenant_id", tenant_id)?;
    validate_pagination(query.page, query.page_size)?;
    Ok(())
}

/// Checks a mode lookup: tenant, then mode id.
pub fn validate_get_mode(tenant_id: &str, mode_id: &str) -> (r: GameModeResult<()>)
    ensures
        mode_outcome(r, then_check(required("tenant_id"@, tenant_id@), required("mode_id"@, mode_id@))),
{
    validate_required("tenant_id", tenant_id)?;
    validate_required("mode_id", mode_id)?;
    Ok(())
}

/// The first rule a create request breaks.
pub open spec fn create_mode_refusal(tenant_id: Seq<char>, c: CreateGameModeCommand) -> Refusal {
    then_check(
        required("tenant_id"@, tenant_id),
        then_check(
            required("game_id"@, c.game_id@),
            then_check(
                required("mode_code"@, c.mode_code@),
                then_check(
                    required("title"@, c.title@),
                    then_check(
                        mode_status_rule(c.status@),
                        then_check(
                            player_range_rule(c.min_players, c.max_players),
                            team_size_rule(c.team_size, Some(c.max_players)),
                        ),
                    ),
                ),
            ),
        ),
    )
}

/// Checks a create request before the store is asked.
pub fn validate_create_mode(tenant_id: &str, command: &CreateGameModeCommand) -> (r: GameModeResult<()>)
    ensures
        mode_outcome(r, create_mode_refusal(tenant_id@, *command)),
{
    validate_required("tenant_id", tenant_id)?;
    validate_required("game_id", command.game_id.as_str())?;
    validate_required("mode_code", command.mode_code.as_str())?;
    validate_required("title", command.title.as_str())?;
    validate_mode_status(command.status.as_str())?;
    validate_player_range(command.min_players, command.max_players)?;
    validate_team_size(command.team_size, Some(command.max_players))?;
    Ok(())
}

/// The first rule an update request breaks; absent fields are not checked.
pub open spec fn update_mode_refusal(tenant_id: Seq<char>, mode_id: Seq<char>, c: UpdateGameModeCommand) -> Refusal {
    then_check(
        required("tenant_id"@, tenant_id),
        then_check(
            required("mode_id"@, mode_id),
            then_check(
                match c.title {
                    Some(t) => required("title"@, t@),
                    None => None,
                },
                then_check(
                    match c.status {
                        Some(s) => mode_status_rule(s@),
                        None => None,
                    },
                    then_check(
                        match c.min_players {
                            Some(m) => min_players_rule(m),
                            None => None,
                        },
                        then_check(
                            match c.max_players {
                                Some(m) => max_players_rule(m),
                                None => None,
                            },
                            then_check(
                                match (c.min_players, c.max_players) {
                                    (Some(lo), Some(hi)) => player_range_rule(lo, hi),
                                    _ => None,
                                },
                                match c.team_size {
                                    Some(t) => team_size_rule(t, c.max_players),
                                    None => None,
                                },
                            ),
                        ),
                    ),
                ),
            ),
        ),
    )
}

/// Checks an update request before the store is asked.
pub fn validate_update_mode(tenant_id: &str, mode_id: &str, command: &UpdateGameModeCommand) -> (r: GameModeResult<()>)
    ensures
        mode_outcome(r, update_mode_refusal(tenant_id@, mode_id@, *command)),
{
    validate_required("tenant_id", tenant_id)?;
    validate_required("mode_id", mode_id)?;
    if let Some(title) = &command.title {
        validate_required("title", title.as_str())?;
    }
    if let Some(status) = &command.status {
        validate_mode_status(status.as_str())?;
    }
    if let Some(min_players) = command.min_players {
        validate_min_players(min_players)?;
    }
    if let Some(max_players) = command.max_players {
        validate_max_players(max_players)?;
    }
    if let Some(min_players) = command.min_players {
        if let Some(max_players) = command.max_players {
            validate_player_range(min_players, max_players)?;
        }
    }
    if let Some(team_size) = command.team_size {
        validate_team_size(team_size, command.max_players)?;
    }
    Ok(())
}

/// The modes service over a storage `R`; each request is checked by the matching
/// `validate_*` function before the storage is asked.
pub struct GameModeService<R> {
    repository: R,
}

impl<R> GameModeService<R> {
    /// The storage the service uses.
    pub closed spec fn storage(&self) -> R {
        self.repository
    }

    /// A service over `repository`.
    pub fn new(repository: R) -> (r: Self)
        ensures
            r.storage() == repository,
    {
        GameModeService { repository }
    }

    /// The storage the service uses.
    pub fn repository(&self) -> (r: &R)
        ensures
            *r == self.storage(),
    {
        &self.repository
    }
}

/// A mode with the present fields of an update applied.
pub open spec fn merged(item: GameModeItem, c: UpdateGameModeCommand) -> GameModeItem {
    GameModeItem {
        id: item.id,
        game_id: item.game_id,
        mode_code: item.mode_code,
        title: match c.title {
            Some(t) => t,
            None => item.title,
        },
        status: match c.status {
            Some(s) => s,
            None => item.status,
        },
        min_players: match c.min_players {
            Some(m) => m,
            None => item.min_players,
        },
        max_players: match c.max_players {
            Some(m) => m,
            None => item.max_players,
        },
        team_size: match c.team_size {
            Some(t) => t,
            None => item.team_size,
        },
        ruleset_id: match c.ruleset_id {
            Some(r) => r,
            None => item.ruleset_id,
        },
        matchmaking_enabled: match c.matchmaking_enabled {
            Some(b) => b,
            None => item.matchmaking_enabled,
        },
        room_enabled: match c.room_enabled {
            Some(b) => b,
            None => item.room_enabled,
        },
        leaderboard_enabled: match c.leaderboard_enabled {
            Some(b) => b,
            None => item.leaderboard_enabled,
        },
    }
}

/// Applies the present fields of an update to a mode.
pub fn merge_update(item: GameModeItem, command: &UpdateGameModeCommand) -> (r: GameModeItem)
    ensures
        r == merged(item, *command),
{
    let mut item = item;
    if let Some(title) = &command.title {
        item.title = title.clone();
    }
    if let Some(status) = &command.status {
        item.status = status.clone();
    }
    if let Some(min_players) = command.min_players {
        item.min_players = min_players;
    }
    if let Some(max_players) = command.max_players {
        item.max_players = max_players;
    }
    if let Some(team_size) = command.team_size {
        item.team_size = team_size;
    }
    if let Some(ruleset_id) = &command.ruleset_id {
        item.ruleset_id = copy_opt(ruleset_id);
    }
    if let Some(matchmaking_enabled) = command.matchmaking_enabled {
        item.matchmaking_enabled = matchmaking_enabled;
    }
    if let Some(room_enabled) = command.room_enabled {
        item.room_enabled = room_enabled;
    }
    if let Some(leaderboard_enabled) = command.leaderboard_enabled {
        item.leaderboard_enabled = leaderboard_enabled;
    }
    item
}

/// Maps a database driver failure, given by its text, to an `invalid` modes error.
pub fn map_sqlx_error(error_text: &str) -> (r: GameModeError)
    ensures
        r.error_code() == "invalid"@,
        r.error_message() == error_text@,
{
    GameModeError::invalid(error_text)
}

/// One mode row as the database returns it.
#[derive(Debug, Clone, PartialEq, Eq)]
pub struct ModeRow {
    pub id: String,
    pub game_id: String,
    pub mode_code: String,
    pub title: String,
    pub status: String,
    pub min_players: i32,
    pub max_players: i32,
    pub team_size: Option<i32>,
    pub ruleset_id: Option<String>,
    pub matchmaking_enabled: bool,
    pub room_enabled: bool,
    pub leaderboard_enabled: bool,
}

/// The mode a row holds, field for field.
pub open spec fn mode_of_row(row: ModeRow) -> GameModeItem {
    GameModeItem {
        id: row.id,
        game_id: row.game_id,
        mode_code: row.mode_code,
        title: row.title,
        status: row.status,
        min_players: row.min_players,
        max_players: row.max_players,
        team_size: row.team_size,
        ruleset_id: row.ruleset_id,
        matchmaking_enabled: row.matchmaking_enabled,
        room_enabled: row.room_enabled,
        leaderboard_enabled: row.leaderboard_enabled,
    }
}

impl ModeRow {
    /// The mode the row holds.
    pub fn into_item(self) -> (r: GameModeItem)
        ensures
            r == mode_of_row(self),
    {
        GameModeItem {
            id: self.id,
            game_id: self.game_id,
            mode_code: self.mode_code,
            title: self.title,
            status: self.status,
            min_players: self.min_players,
            max_players: self.max_players,
            team_size: self.team_size,
            ruleset_id: self.ruleset_id,
            matchmaking_enabled: self.matchmaking_enabled,
            room_enabled: self.room_enabled,
            leaderboard_enabled: self.leaderboard_enabled,
        }
    }

    /// The mode the row holds, leaving the row in place.
    pub fn to_item(&self) -> (r: GameModeItem)
        ensures
            r == mode_of_row(*self),
    {
        GameModeItem {
            id: self.id.clone(),
            game_id: self.game_id.clone(),
            mode_code: self.mode_code.clone(),
            title: self.title.clone(),
            status: self.status.clone(),
            min_players: self.min_players,
            max_players: self.max_players,
            team_size: self.team_size,
            ruleset_id: copy_opt(&self.ruleset_id),
            matchmaking_enabled: self.matchmaking_enabled,
            room_enabled: self.room_enabled,
            leaderboard_enabled: self.leaderboard_enabled,
        }
    }
}

/// A page of modes read from database rows, numbered from its offset.
pub fn page_from_rows(rows: Vec<ModeRow>, total: i64, limit: i64, offset: i64) -> (r: GameModePage)
    requires
        0 <= offset,
        1 <= limit,
        offset / limit < i64::MAX,
    ensures
        r.items@ == rows@.map_values(|row: ModeRow| mode_of_row(row)),
        r.total == #[verifier::truncate] (total as u64),
        r.page == #[verifier::truncate] (((offset / limit) + 1) as u32),
        r.page_size == #[verifier::truncate] (limit as u32),
{
    let mut items: Vec<GameModeItem> = Vec::new();
    let n = rows.len();
    let mut i: usize = 0;
    while i < n
        invariant
            n == rows@.len(),
            i <= n,
            items@ == rows@.subrange(0, i as int).map_values(|row: ModeRow| mode_of_row(row)),
        decreases n - i,
    {
        items.push(rows[i].to_item());
        assert(rows@.subrange(0, i + 1).map_values(|row: ModeRow| mode_of_row(row)) =~= rows@.subrange(
            0,
            i as int,
        ).map_values(|row: ModeRow| mode_of_row(row)).push(mode_of_row(rows@[i as int])));
        i = i + 1;
    }
    assert(rows@.subrange(0, n as int) =~= rows@);
    GameModePage {
        items,
        total: #[verifier::truncate] (total as u64),
        page: page_number(offset, limit),
        page_size: #[verifier::truncate] (limit as u32),
    }
}

} // verus!
