//! Matchmaking tickets: models, request validation, and row mapping.
use vstd::prelude::*;
use crate::json::{json_reading, read_json, same_json, same_json_text};
use crate::paging::{offset_fits, page_limit, page_number, page_offset, query_limit, query_offset};
use crate::rules::{invalid_because, required, then_check, Refusal};
use crate::text::{copy_opt, is_blank, opt_text_eq, opt_view, required_message, text_eq};

verus! {

/// One matchmaking ticket. `match_attributes` is compact JSON text.
#[derive(Debug, Clone, PartialEq, Eq)]
pub struct MatchTicketItem {
    pub id: String,
    pub ticket_code: String,
    pub game_id: String,
    pub mode_id: Option<String>,
    pub ruleset_id: Option<String>,
    pub user_id: String,
    pub party_id: Option<String>,
    pub status: String,
    pub priority: i32,
    pub match_attributes: String,
    pub idempotency_key: String,
    pub queued_at: String,
    pub matched_at: Option<String>,
    pub cancelled_at: Option<String>,
    pub expires_at: Option<String>,
    pub version: i64,
}

/// One page of tickets.
#[derive(Debug, Clone, PartialEq, Eq)]
pub struct MatchTicketPage {
    pub items: Vec<MatchTicketItem>,
    pub total: u64,
    pub page: u32,
    pub page_size: u32,
}

/// Filters and page of a ticket listing.
#[derive(Debug, Clone, PartialEq, Eq)]
pub struct MatchTicketQuery {
    pub game_id: Option<String>,
    pub mode_id: Option<String>,
    pub status: Option<String>,
    pub user_id: Option<String>,
    pub page: Option<u32>,
    pub page_size: Option<u32>,
}

impl Default for MatchTicketQuery {
    fn default() -> (r: Self)
        ensures
            r.game_id is None,
            r.mode_id is None,
            r.status is None,
            r.user_id is None,
            r.page is None,
            r.page_size is None,
    {
        MatchTicketQuery {
            game_id: None,
            mode_id: None,
            status: None,
            user_id: None,
            page: None,
            page_size: None,
        }
    }
}

impl MatchTicketQuery {
    /// The clamped page size.
    pub fn limit(&self) -> (r: u32)
        ensures
            r == page_limit(self.page_size),
    {
        query_limit(self.page_size)
    }

    /// The number of tickets before the requested page.
    pub fn offset(&self) -> (r: u32)
        requires
            offset_fits(self.page, self.page_size),
        ensures
            r == page_offset(self.page, self.page_size),
    {
        query_offset(self.page, self.page_size)
    }
}

/// The queue of one game (and optionally one mode), one page of it.
#[derive(Debug, Clone, PartialEq, Eq)]
pub struct MatchmakingQueueQuery {
    pub game_id: String,
    pub mode_id: Option<String>,
    pub page: Option<u32>,
    pub page_size: Option<u32>,
}

impl Default for MatchmakingQueueQuery {
    fn default() -> (r: Self)
        ensures
            r.game_id@ == Seq::<char>::empty(),
            r.mode_id is None,
            r.page is None,
            r.page_size is None,
    {
        MatchmakingQueueQuery { game_id: String::new(), mode_id: None, page: None, page_size: None }
    }
}

impl MatchmakingQueueQuery {
    /// The clamped page size.
    pub fn limit(&self) -> (r: u32)
        ensures
            r == page_limit(self.page_size),
    {
        query_limit(self.page_size)
    }

    /// The number of tickets before the requested page.
    pub fn offset(&self) -> (r: u32)
        requires
            offset_fits(self.page, self.page_size),
        ensures
            r == page_offset(self.page, self.page_size),
    {
        query_offset(self.page, self.page_size)
    }
}

/// A request to queue a player. `match_attributes` is compact JSON text.
#[derive(Debug, Clone, PartialEq, Eq)]
pub struct CreateMatchTicketCommand {
    pub game_id: String,
    pub mode_id: Option<String>,
    pub ruleset_id: Option<String>,
    pub user_id: String,
    pub party_id: Option<String>,
    pub priority: i32,
    pub match_attributes: String,
    pub idempotency_key: String,
    pub expires_at: Option<String>,
}

/// A request by a player to leave the queue.
#[derive(Debug, Clone, PartialEq, Eq)]
pub struct CancelMatchTicketCommand {
    pub ticket_id: String,
    pub user_id: String,
    pub reason: String,
}

/// The error of the matchmaking service: a stable code and a message.
#[derive(Debug, Clone, PartialEq, Eq)]
pub struct GameMatchmakingError {
    code: String,
    message: String,
}

pub type GameMatchmakingResult<T> = Result<T, GameMatchmakingError>;

/// `r` is refused as `refusal` says, or is `Ok` when `refusal` is `None`.
pub open spec fn match_outcome<T>(r: GameMatchmakingResult<T>, refusal: Refusal) -> bool {
    match refusal {
        Some((c, m)) => match_fails_with(r, c, m),
        None => r is Ok,
    }
}

/// Whether `r` is an error with the given code and message.
pub open spec fn match_fails_with<T>(r: GameMatchmakingResult<T>, code: Seq<char>, message: Seq<char>) -> bool {
    match r {
        Err(e) => e.error_code() == code && e.error_message() == message,
        Ok(_) => false,
    }
}

impl GameMatchmakingError {
    /// The code of the error.
    pub closed spec fn error_code(&self) -> Seq<char> {
        self.code@
    }

    /// The message of the error.
    pub closed spec fn error_message(&self) -> Seq<char> {
        self.message@
    }

    /// An `invalid` error.
    pub fn invalid(message: &str) -> (r: Self)
        ensures
            r.error_code() == "invalid"@,
            r.error_message() == message@,
    {
        GameMatchmakingError { code: String::from_str("invalid"), message: String::from_str(message) }
    }

    /// A `not_found` error.
    pub fn not_found(message: &str) -> (r: Self)
        ensures
            r.error_code() == "not_found"@,
            r.error_message() == message@,
    {
        GameMatchmakingError {
            code: String::from_str("not_found"),
            message: String::from_str(message),
        }
    }

    /// A `conflict` error.
    pub fn conflict(message: &str) -> (r: Self)
        ensures
            r.error_code() == "conflict"@,
            r.error_message() == message@,
    {
        GameMatchmakingError {
            code: String::from_str("conflict"),
            message: String::from_str(message),
        }
    }

    /// The code of the error.
    pub fn code(&self) -> (r: &str)
        ensures
            r@ == self.error_code(),
    {
        self.code.as_str()
    }

    /// The message of the error.
    pub fn message(&self) -> (r: &str)
        ensures
            r@ == self.error_message(),
    {
        self.message.as_str()
    }
}

/// Refuses a blank required field.
fn validate_required(field: &str, value: &str) -> (r: GameMatchmakingResult<()>)
    ensures
        match_outcome(r, required(field@, value@)),
{
    if is_blank(value) {
        let message = required_message(field);
        return Err(GameMatchmakingError::invalid(message.as_str()));
    }
    Ok(())
}

/// The first rule a queueing request breaks.
pub open spec fn create_ticket_refusal(tenant_id: Seq<char>, c: CreateMatchTicketCommand) -> Refusal {
    then_check(
        required("tenant_id"@, tenant_id),
        then_check(
            required("game_id"@, c.game_id@),
            then_check(
                required("user_id"@, c.user_id@),
                then_check(
                    required("idempotency_key"@, c.idempotency_key@),
                    if c.priority < 0 {
                        invalid_because(
                            "match ticket priority must be greater than or equal to zero"@,
                        )
                    } else {
                        None
                    },
                ),
            ),
        ),
    )
}

/// Checks a queueing request before the store is asked.
pub fn validate_create_ticket(tenant_id: &str, command: &CreateMatchTicketCommand) -> (r: GameMatchmakingResult<()>)
    ensures
        match_outcome(r, create_ticket_refusal(tenant_id@, *command)),
{
    validate_required("tenant_id", tenant_id)?;
    validate_required("game_id", command.game_id.as_str())?;
    validate_required("user_id", command.user_id.as_str())?;
    validate_required("idempotency_key", command.idempotency_key.as_str())?;
    if command.priority < 0 {
        return Err(GameMatchmakingError::invalid(
            "match ticket priority must be greater than or equal to zero",
        ));
    }
    Ok(())
}

/// Checks a ticket lookup: tenant, then ticket id.
pub fn validate_get_ticket(tenant_id: &str, ticket_id: &str) -> (r: GameMatchmakingResult<()>)
    ensures
        match_outcome(r, then_check(required("tenant_id"@, tenant_id@), required("ticket_id"@, ticket_id@))),
{
    validate_required("tenant_id", tenant_id)?;
    validate_required("ticket_id", ticket_id)?;
    Ok(())
}

/// Checks a cancel request: tenant, ticket id, user id, then a reason.
pub fn validate_cancel_ticket(tenant_id: &str, command: &CancelMatchTicketCommand) -> (r: GameMatchmakingResult<()>)
    ensures
        match_outcome(
            r,
            then_check(
                required("tenant_id"@, tenant_id@),
                then_check(
                    required("ticket_id"@, command.ticket_id@),
                    then_check(required("user_id"@, command.user_id@), required("reason"@, command.reason@)),
                ),
            ),
        ),
{
    validate_required("tenant_id", tenant_id)?;
    validate_required("ticket_id", command.ticket_id.as_str())?;
    validate_required("user_id", command.user_id.as_str())?;
    validate_required("reason", command.reason.as_str())?;
    Ok(())
}

/// Checks a ticket listing: a tenant is required.
pub fn validate_list_tickets(tenant_id: &str, query: &MatchTicketQuery) -> (r: GameMatchmakingResult<()>)
    ensures
        match_outcome(r, required("tenant_id"@, tenant_id@)),
{
    validate_required("tenant_id", tenant_id)
}

/// Checks a queue listing: tenant, then game id.
pub fn validate_list_queue(tenant_id: &str, query: &MatchmakingQueueQuery) -> (r: GameMatchmakingResult<()>)
    ensures
        match_outcome(r, then_check(required("tenant_id"@, tenant_id@), required("game_id"@, query.game_id@))),
{
    validate_required("tenant_id", tenant_id)?;
    validate_required("game_id", query.game_id.as_str())?;
    Ok(())
}

/// The matchmaking service over a storage `R`; each request is checked by the
/// matching `validate_*` function before the storage is asked.
pub struct GameMatchmakingService<R> {
    repository: R,
}

impl<R> GameMatchmakingService<R> {
    /// The storage the service uses.
    pub closed spec fn storage(&self) -> R {
        self.repository
    }

    /// A service over `repository`.
    pub fn new(repository: R) -> (r: Self)
        ensures
            r.storage() == repository,
    {
        GameMatchmakingService { repository }
    }

    /// The storage the service uses.
    pub fn repository(&self) -> (r: &R)
        ensures
            *r == self.storage(),
    {
        &self.repository
    }
}

/// Whether a stored ticket carries what a queueing request names (all but the key).
pub open spec fn same_ticket_payload(t: MatchTicketItem, c: CreateMatchTicketCommand) -> bool {
    &&& t.game_id@ == c.game_id@
    &&& opt_view(t.mode_id) == opt_view(c.mode_id)
    &&& opt_view(t.ruleset_id) == opt_view(c.ruleset_id)
    &&& t.user_id@ == c.user_id@
    &&& opt_view(t.party_id) == opt_view(c.party_id)
    &&& t.priority == c.priority
    &&& same_json(t.match_attributes@, c.match_attributes@)
    &&& opt_view(t.expires_at) == opt_view(c.expires_at)
}

pub open spec fn ticket_conflict_message() -> Seq<char> {
    "idempotency_key already belongs to a different match ticket payload"@
}

/// A replayed queueing request must carry the same payload as the ticket its key holds.
pub fn ensure_idempotent_replay(existing: &MatchTicketItem, command: &CreateMatchTicketCommand) -> (r: GameMatchmakingResult<()>)
    ensures
        same_ticket_payload(*existing, *command) ==> r is Ok,
        !same_ticket_payload(*existing, *command) ==> match_fails_with(
            r,
            "conflict"@,
            ticket_conflict_message(),
        ),
{
    let same_payload = existing.game_id == command.game_id && opt_text_eq(
        &existing.mode_id,
        &command.mode_id,
    ) && opt_text_eq(&existing.ruleset_id, &command.ruleset_id)
        && existing.user_id == command.user_id && opt_text_eq(&existing.party_id, &command.party_id)
        && existing.priority == command.priority
        && same_json_text(existing.match_attributes.as_str(), command.match_attributes.as_str())
        && opt_text_eq(
        &existing.expires_at,
        &command.expires_at,
    );
    if !same_payload {
        return Err(GameMatchmakingError::conflict(
            "idempotency_key already belongs to a different match ticket payload",
        ));
    }
    Ok(())
}

/// Why a cancel that changed no ticket failed, given the ticket as it stands: a ticket no
/// longer queued is a `conflict`; otherwise the player does not hold it (`not_found`).
pub fn cancel_failure(existing: &MatchTicketItem) -> (r: GameMatchmakingError)
    ensures
        existing.status@ != "queued"@ ==> r.error_code() == "conflict"@ && r.error_message()
            == "only queued match tickets can be cancelled"@,
        existing.status@ == "queued"@ ==> r.error_code() == "not_found"@ && r.error_message()
            == "match ticket not found"@,
{
    if !text_eq(existing.status.as_str(), "queued") {
        return GameMatchmakingError::conflict("only queued match tickets can be cancelled");
    }
    GameMatchmakingError::not_found("match ticket not found")
}

/// Maps a database driver failure, given by its text, to an `invalid` matchmaking error.
pub fn map_sqlx_error(error_text: &str) -> (r: GameMatchmakingError)
    ensures
        r.error_code() == "invalid"@,
        r.error_message() == error_text@,
{
    GameMatchmakingError::invalid(error_text)
}

/// One ticket row as the database returns it; `match_attributes` is the stored JSON text.
#[derive(Debug, Clone, PartialEq, Eq)]
pub struct TicketRow {
    pub id: String,
    pub ticket_code: String,
    pub game_id: String,
    pub mode_id: Option<String>,
    pub ruleset_id: Option<String>,
    pub user_id: String,
    pub party_id: Option<String>,
    pub status: String,
    pub priority: i32,
    pub match_attributes: String,
    pub idempotency_key: String,
    pub queued_at: String,
    pub matched_at: Option<String>,
    pub cancelled_at: Option<String>,
    pub expires_at: Option<String>,
    pub version: i64,
}

/// The ticket a row holds, with the attributes `attributes`.
pub open spec fn ticket_of_row(row: TicketRow, attributes: Seq<char>, t: MatchTicketItem) -> bool {
    &&& t.id == row.id
    &&& t.ticket_code == row.ticket_code
    &&& t.game_id == row.game_id
    &&& t.mode_id == row.mode_id
    &&& t.ruleset_id == row.ruleset_id
    &&& t.user_id == row.user_id
    &&& t.party_id == row.party_id
    &&& t.status == row.status
    &&& t.priority == row.priority
    &&& t.match_attributes@ == attributes
    &&& t.idempotency_key == row.idempotency_key
    &&& t.queued_at == row.queued_at
    &&& t.matched_at == row.matched_at
    &&& t.cancelled_at == row.cancelled_at
    &&& t.expires_at == row.expires_at
    &&& t.version == row.version
}

impl TicketRow {
    /// The ticket the row holds, its attributes re-read as JSON; a parse failure is an
    /// `invalid` error carrying the parser's text.
    pub fn into_item(self) -> (r: GameMatchmakingResult<MatchTicketItem>)
        ensures
            match json_reading(self.match_attributes@) {
                Ok(a) => r matches Ok(t) && ticket_of_row(self, a, t),
                Err(m) => match_fails_with(r, "invalid"@, m),
            },
    {
        let match_attributes = match read_json(self.match_attributes.as_str()) {
            Ok(a) => a,
            Err(m) => {
                return Err(GameMatchmakingError::invalid(m.as_str()));
            },
        };
        Ok(ticket_from_row(&self, match_attributes))
    }
}

/// The parameters of a ticket listing statement.
#[derive(Debug, Clone, Copy, PartialEq, Eq)]
pub struct TicketListParams<'a> {
    pub tenant_id: &'a str,
    pub game_id: Option<&'a str>,
    pub mode_id: Option<&'a str>,
    pub status: Option<&'a str>,
    pub user_id: Option<&'a str>,
    pub limit: i64,
    pub offset: i64,
}


impl TicketRow {
    /// The ticket the row holds, its attributes re-read as JSON, leaving the row in place.
    pub fn to_item(&self) -> (r: GameMatchmakingResult<MatchTicketItem>)
        ensures
            match json_reading(self.match_attributes@) {
                Ok(a) => r matches Ok(t) && ticket_of_row(*self, a, t),
                Err(m) => match_fails_with(r, "invalid"@, m),
            },
    {
        let match_attributes = match read_json(self.match_attributes.as_str()) {
            Ok(a) => a,
            Err(m) => {
                return Err(GameMatchmakingError::invalid(m.as_str()));
            },
        };
        Ok(ticket_from_row(self, match_attributes))
    }
}

/// The ticket a row holds, with `match_attributes` (the row's attributes as read) in
/// place of the stored text.
pub fn ticket_from_row(row: &TicketRow, match_attributes: String) -> (t: MatchTicketItem)
    ensures
        ticket_of_row(*row, match_attributes@, t),
{
    MatchTicketItem {
        id: row.id.clone(),
        ticket_code: row.ticket_code.clone(),
        game_id: row.game_id.clone(),
        mode_id: copy_opt(&row.mode_id),
        ruleset_id: copy_opt(&row.ruleset_id),
        user_id: row.user_id.clone(),
        party_id: copy_opt(&row.party_id),
        status: row.status.clone(),
        priority: row.priority,
        match_attributes,
        idempotency_key: row.idempotency_key.clone(),
        queued_at: row.queued_at.clone(),
        matched_at: copy_opt(&row.matched_at),
        cancelled_at: copy_opt(&row.cancelled_at),
        expires_at: copy_opt(&row.expires_at),
        version: row.version,
    }
}

/// The first row whose attributes do not read as JSON, if any.
pub open spec fn first_bad_ticket_row(rows: Seq<TicketRow>, k: int) -> bool {
    &&& 0 <= k < rows.len()
    &&& json_reading(rows[k].match_attributes@) is Err
    &&& forall|i: int| 0 <= i < k ==> #[trigger] json_reading(rows[i].match_attributes@) is Ok
}

/// A page of tickets read from database rows, numbered from its offset; the first row
/// whose attributes are not JSON fails the page with the parser's text.
pub fn page_from_rows(rows: Vec<TicketRow>, total: i64, limit: i64, offset: i64) -> (r: GameMatchmakingResult<MatchTicketPage>)
    requires
        0 <= offset,
        1 <= limit,
        offset / limit < i64::MAX,
    ensures
        match r {
            Ok(page) => {
                &&& page.items@.len() == rows@.len()
                &&& forall|i: int|
                    0 <= i < rows@.len() ==> #[trigger] json_reading(rows@[i].match_attributes@) is Ok && ticket_of_row(
                        rows@[i],
                        json_reading(rows@[i].match_attributes@)->Ok_0,
                        page.items@[i],
                    )
                &&& page.total == #[verifier::truncate] (total as u64)
                &&& page.page == #[verifier::truncate] (((offset / limit) + 1) as u32)
                &&& page.page_size == #[verifier::truncate] (limit as u32)
            },
            Err(e) => exists|k: int|
                first_bad_ticket_row(rows@, k) && e.error_code() == "invalid"@ && e.error_message()
                    == json_reading(#[trigger] rows@[k].match_attributes@)->Err_0,
        },
{
    let mut items: Vec<MatchTicketItem> = Vec::new();
    let n = rows.len();
    let mut i: usize = 0;
    while i < n
        invariant
            n == rows@.len(),
            i <= n,
            items@.len() == i,
            forall|j: int|
                0 <= j < i ==> #[trigger] json_reading(rows@[j].match_attributes@) is Ok && ticket_of_row(
                    rows@[j],
                    json_reading(rows@[j].match_attributes@)->Ok_0,
                    items@[j],
                ),
        decreases n - i,
    {
        match rows[i].to_item() {
            Ok(item) => {
                items.push(item);
            },
            Err(e) => {
                proof {
                    assert(first_bad_ticket_row(rows@, i as int));
                }
                return Err(e);
            },
        }
        i = i + 1;
    }
    Ok(MatchTicketPage {
        items,
        total: #[verifier::truncate] (total as u64),
        page: page_number(offset, limit),
        page_size: #[verifier::truncate] (limit as u32),
    })
}

/// The ticket already stored under a queueing request's key, if any; a found ticket must
/// carry the same payload.
pub fn map_existing(row: Option<TicketRow>, command: &CreateMatchTicketCommand) -> (r: GameMatchmakingResult<Option<MatchTicketItem>>)
    ensures
        match row {
            None => r matches Ok(found) && found is None,
            Some(row) => match json_reading(row.match_attributes@) {
                Err(m) => match_fails_with(r, "invalid"@, m),
                Ok(a) => {
                    let same = row.game_id@ == command.game_id@ && opt_view(row.mode_id) == opt_view(command.mode_id)
                        && opt_view(row.ruleset_id) == opt_view(command.ruleset_id) && row.user_id@
                        == command.user_id@ && opt_view(row.party_id) == opt_view(command.party_id)
                        && row.priority == command.priority && same_json(a, command.match_attributes@) && opt_view(
                        row.expires_at,
                    ) == opt_view(command.expires_at);
                    if same {
                        r matches Ok(found) && found matches Some(t) && ticket_of_row(row, a, t)
                    } else {
                        match_fails_with(r, "conflict"@, ticket_conflict_message())
                    }
                },
            },
        },
{
    match row {
        None => Ok(None),
        Some(row) => {
            let item = row.into_item()?;
            ensure_idempotent_replay(&item, command)?;
            Ok(Some(item))
        },
    }
}

/// A borrowed view of an optional text.
fn borrow_opt<'a>(v: &'a Option<String>) -> (r: Option<&'a str>)
    ensures
        borrowed_as(r, *v),
{
    match v {
        Some(s) => Some(s.as_str()),
        None => None,
    }
}

/// Whether a borrowed optional text holds what an owned one does.
pub open spec fn borrowed_as(b: Option<&str>, o: Option<String>) -> bool {
    match o {
        Some(s) => b matches Some(t) && t@ == s@,
        None => b is None,
    }
}

impl<'a> TicketListParams<'a> {
    /// The statement parameters of a ticket query for `tenant_id`.
    pub fn from_query(tenant_id: &'a str, query: &'a MatchTicketQuery) -> (r: Self)
        requires
            offset_fits(query.page, query.page_size),
        ensures
            r.tenant_id@ == tenant_id@,
            borrowed_as(r.game_id, query.game_id),
            borrowed_as(r.mode_id, query.mode_id),
            borrowed_as(r.status, query.status),
            borrowed_as(r.user_id, query.user_id),
            r.limit == page_limit(query.page_size),
            r.offset == page_offset(query.page, query.page_size),
    {
        TicketListParams {
            tenant_id,
            game_id: borrow_opt(&query.game_id),
            mode_id: borrow_opt(&query.mode_id),
            status: borrow_opt(&query.status),
            user_id: borrow_opt(&query.user_id),
            limit: query.limit() as i64,
            offset: query.offset() as i64,
        }
    }
}

} // verus!
