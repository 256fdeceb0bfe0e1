//! Engine events (an outbox of domain events) and audit records: models, request
//! validation, and the decisions of the storage layer.
use vstd::prelude::*;
use crate::json::{is_json_null, json_null, json_reading, read_json, same_json, same_json_text};
use crate::paging::{
    offset_fits, page_limit, page_offset, page_number, query_limit, query_offset,
};
use crate::rules::{invalid_because, required, then_check, Refusal};
use crate::text::{blank, copy_opt, is_blank, opt_text_eq, opt_view, required_message};

verus! {

/// One event of the engine outbox. `event_payload` is compact JSON text.
#[derive(Debug, Clone, PartialEq, Eq)]
pub struct GameEngineEventItem {
    pub id: String,
    pub event_type: String,
    pub aggregate_type: String,
    pub aggregate_id: String,
    pub idempotency_key: String,
    pub event_payload: String,
    pub status: String,
    pub trace_id: String,
    pub created_at: String,
    pub published_at: Option<String>,
    pub next_retry_at: Option<String>,
    pub version: i64,
}

/// One audit record. The snapshots are compact JSON text.
#[derive(Debug, Clone, PartialEq, Eq)]
pub struct AuditRecordItem {
    pub id: String,
    pub actor_type: String,
    pub actor_id: Option<String>,
    pub action: String,
    pub target_type: String,
    pub target_id: String,
    pub reason_code: Option<String>,
    pub before_snapshot: String,
    pub after_snapshot: String,
    pub trace_id: String,
    pub created_at: String,
    pub version: i64,
}

/// One page of engine events.
#[derive(Debug, Clone, PartialEq, Eq)]
pub struct GameEngineEventPage {
    pub items: Vec<GameEngineEventItem>,
    pub total: u64,
    pub page: u32,
    pub page_size: u32,
}

/// One page of audit records.
#[derive(Debug, Clone, PartialEq, Eq)]
pub struct AuditRecordPage {
    pub items: Vec<AuditRecordItem>,
    pub total: u64,
    pub page: u32,
    pub page_size: u32,
}

/// A request to append an event to the outbox. `event_payload` is compact JSON text.
#[derive(Debug, Clone, PartialEq, Eq)]
pub struct AppendGameEngineEventCommand {
    pub event_type: String,
    pub aggregate_type: String,
    pub aggregate_id: String,
    pub idempotency_key: String,
    pub event_payload: String,
    pub trace_id: String,
}

/// A request to mark an event as published.
#[derive(Debug, Clone, PartialEq, Eq)]
pub struct MarkGameEngineEventPublishedCommand {
    pub event_id: String,
    pub expected_version: Option<i64>,
}

/// A request to mark an event as failed, to retry later or to dead-letter it.
#[derive(Debug, Clone, PartialEq, Eq)]
pub struct MarkGameEngineEventFailedCommand {
    pub event_id: String,
    pub next_retry_at: Option<String>,
    pub dead_letter: bool,
    pub expected_version: Option<i64>,
}

/// The events due for publishing at `due_at`, one page of them.
#[derive(Debug, Clone, PartialEq, Eq)]
pub struct PendingGameEngineEventQuery {
    pub due_at: String,
    pub page: Option<u32>,
    pub page_size: Option<u32>,
}

impl PendingGameEngineEventQuery {
    /// The clamped page size.
    pub fn limit(&self) -> (r: u32)
        ensures
            r == page_limit(self.page_size),
    {
        query_limit(self.page_size)
    }

    /// The number of events before the requested page.
    pub fn offset(&self) -> (r: u32)
        requires
            offset_fits(self.page, self.page_size),
        ensures
            r == page_offset(self.page, self.page_size),
    {
        query_offset(self.page, self.page_size)
    }
}

/// A request to append an audit record. The snapshots are compact JSON text.
#[derive(Debug, Clone, PartialEq, Eq)]
pub struct AppendAuditRecordCommand {
    pub actor_type: String,
    pub actor_id: Option<String>,
    pub action: String,
    pub target_type: String,
    pub target_id: String,
    pub reason_code: Option<String>,
    pub before_snapshot: String,
    pub after_snapshot: String,
    pub trace_id: String,
}

/// Filters and page of an audit search.
#[derive(Debug, Clone, PartialEq, Eq)]
pub struct AuditRecordQuery {
    pub target_type: Option<String>,
    pub target_id: Option<String>,
    pub actor_type: Option<String>,
    pub actor_id: Option<String>,
    pub action: Option<String>,
    pub page: Option<u32>,
    pub page_size: Option<u32>,
}

impl Default for AuditRecordQuery {
    fn default() -> (r: Self)
        ensures
            r.target_type is None,
            r.target_id is None,
            r.actor_type is None,
            r.actor_id is None,
            r.action is None,
            r.page is None,
            r.page_size is None,
    {
        AuditRecordQuery {
            target_type: None,
            target_id: None,
            actor_type: None,
            actor_id: None,
            action: None,
            page: None,
            page_size: None,
        }
    }
}

impl AuditRecordQuery {
    /// The clamped page size.
    pub fn limit(&self) -> (r: u32)
        ensures
            r == page_limit(self.page_size),
    {
        query_limit(self.page_size)
    }

    /// The number of records before the requested page.
    pub fn offset(&self) -> (r: u32)
        requires
            offset_fits(self.page, self.page_size),
        ensures
            r == page_offset(self.page, self.page_size),
    {
        query_offset(self.page, self.page_size)
    }
}

/// The error of the events service: a stable code and a message.
#[derive(Debug, Clone, PartialEq, Eq)]
pub struct GameEventError {
    code: String,
    message: String,
}

pub type GameEventResult<T> = Result<T, GameEventError>;

/// `r` is refused as `refusal` says, or is `Ok` when `refusal` is `None`.
pub open spec fn event_outcome<T>(r: GameEventResult<T>, refusal: Refusal) -> bool {
    match refusal {
        Some((c, m)) => match r {
            Err(e) => e.error_code() == c && e.error_message() == m,
            Ok(_) => false,
        },
        None => r is Ok,
    }
}

/// Whether `r` is an error with the given code and message.
pub open spec fn event_fails_with<T>(r: GameEventResult<T>, code: Seq<char>, message: Seq<char>) -> bool {
    match r {
        Err(e) => e.error_code() == code && e.error_message() == message,
        Ok(_) => false,
    }
}

impl GameEventError {
    /// The code of the error.
    pub closed spec fn error_code(&self) -> Seq<char> {
        self.code@
    }

    /// The message of the error.
    pub closed spec fn error_message(&self) -> Seq<char> {
        self.message@
    }

    /// An `invalid` error.
    pub fn invalid(message: &str) -> (r: Self)
        ensures
            r.error_code() == "invalid"@,
            r.error_message() == message@,
    {
        GameEventError { code: String::from_str("invalid"), message: String::from_str(message) }
    }

    /// A `not_found` error.
    pub fn not_found(message: &str) -> (r: Self)
        ensures
            r.error_code() == "not_found"@,
            r.error_message() == message@,
    {
        GameEventError { code: String::from_str("not_found"), message: String::from_str(message) }
    }

    /// A `conflict` error.
    pub fn conflict(message: &str) -> (r: Self)
        ensures
            r.error_code() == "conflict"@,
            r.error_message() == message@,
    {
        GameEventError { code: String::from_str("conflict"), message: String::from_str(message) }
    }

    /// The code of the error.
    pub fn code(&self) -> (r: &str)
        ensures
            r@ == self.error_code(),
    {
        self.code.as_str()
    }

    /// The message of the error.
    pub fn message(&self) -> (r: &str)
        ensures
            r@ == self.error_message(),
    {
        self.message.as_str()
    }
}

/// Refuses a blank required field.
fn validate_required(field: &str, value: &str) -> (r: GameEventResult<()>)
    ensures
        event_outcome(r, required(field@, value@)),
{
    if is_blank(value) {
        let message = required_message(field);
        return Err(GameEventError::invalid(message.as_str()));
    }
    Ok(())
}

/// Whether an event type reads as a stable dotted name: it holds a dot, and neither
/// starts nor ends with one.
pub open spec fn dotted_type(t: Seq<char>) -> bool {
    &&& t.contains('.')
    &&& t[0] != '.'
    &&& t.last() != '.'
}

pub open spec fn event_type_rule(t: Seq<char>) -> Refusal {
    if dotted_type(t) {
        None
    } else {
        invalid_because("event_type must be a stable dotted event type"@)
    }
}

/// The actor types an audit record may name.
pub open spec fn supported_actor(t: Seq<char>) -> bool {
    t == "user"@ || t == "operator"@ || t == "system"@ || t == "server"@ || t == "job"@
}

pub open spec fn actor_type_rule(t: Seq<char>) -> Refusal {
    if supported_actor(t) {
        None
    } else {
        invalid_because("audit actor_type is not supported"@)
    }
}

/// Accepts only a stable dotted event type.
pub fn validate_event_type(event_type: &str) -> (r: GameEventResult<()>)
    ensures
        event_outcome(r, event_type_rule(event_type@)),
{
    let n = event_type.unicode_len();
    let mut has_dot = false;
    let mut i: usize = 0;
    while i < n
        invariant
            n == event_type@.len(),
            i <= n,
            has_dot == (exists|j: int| 0 <= j < i && event_type@[j] == '.'),
        decreases n - i,
    {
        if event_type.get_char(i) == '.' {
            has_dot = true;
        }
        i = i + 1;
    }
    assert(has_dot == event_type@.contains('.'));
    if has_dot && event_type.get_char(0) != '.' && event_type.get_char(n - 1) != '.' {
        return Ok(());
    }
    Err(GameEventError::invalid("event_type must be a stable dotted event type"))
}

/// Accepts only the supported audit actor types.
pub fn validate_actor_type(actor_type: &str) -> (r: GameEventResult<()>)
    ensures
        event_outcome(r, actor_type_rule(actor_type@)),
{
    if crate::text::text_eq(actor_type, "user") || crate::text::text_eq(actor_type, "operator")
        || crate::text::text_eq(actor_type, "system") || crate::text::text_eq(actor_type, "server")
        || crate::text::text_eq(actor_type, "job") {
        return Ok(());
    }
    Err(GameEventError::invalid("audit actor_type is not supported"))
}

/// The first rule an append request breaks.
pub open spec fn append_event_refusal(tenant_id: Seq<char>, c: AppendGameEngineEventCommand) -> Refusal {
    then_check(
        required("tenant_id"@, tenant_id),
        then_check(
            required("event_type"@, c.event_type@),
            then_check(
                event_type_rule(c.event_type@),
                then_check(
                    required("aggregate_type"@, c.aggregate_type@),
                    then_check(
                        required("aggregate_id"@, c.aggregate_id@),
                        then_check(
                            required("idempotency_key"@, c.idempotency_key@),
                            then_check(
                                required("trace_id"@, c.trace_id@),
                                if json_null(c.event_payload@) {
                                    invalid_because("event_payload must not be null"@)
                                } else {
                                    None
                                },
                            ),
                        ),
                    ),
                ),
            ),
        ),
    )
}

/// Checks an append request before the outbox is asked.
pub fn validate_append_event(tenant_id: &str, command: &AppendGameEngineEventCommand) -> (r: GameEventResult<()>)
    ensures
        event_outcome(r, append_event_refusal(tenant_id@, *command)),
{
    validate_required("tenant_id", tenant_id)?;
    validate_required("event_type", command.event_type.as_str())?;
    validate_event_type(command.event_type.as_str())?;
    validate_required("aggregate_type", command.aggregate_type.as_str())?;
    validate_required("aggregate_id", command.aggregate_id.as_str())?;
    validate_required("idempotency_key", command.idempotency_key.as_str())?;
    validate_required("trace_id", command.trace_id.as_str())?;
    if is_json_null(command.event_payload.as_str()) {
        return Err(GameEventError::invalid("event_payload must not be null"));
    }
    Ok(())
}

/// Checks an event lookup: tenant, then event id.
pub fn validate_get_event(tenant_id: &str, event_id: &str) -> (r: GameEventResult<()>)
    ensures
        event_outcome(r, then_check(required("tenant_id"@, tenant_id@), required("event_id"@, event_id@))),
{
    validate_required("tenant_id", tenant_id)?;
    validate_required("event_id", event_id)?;
    Ok(())
}

/// Checks a pending-events listing: tenant, then due time.
pub fn validate_list_pending_events(tenant_id: &str, query: &PendingGameEngineEventQuery) -> (r: GameEventResult<()>)
    ensures
        event_outcome(r, then_check(required("tenant_id"@, tenant_id@), required("due_at"@, query.due_at@))),
{
    validate_required("tenant_id", tenant_id)?;
    validate_required("due_at", query.due_at.as_str())?;
    Ok(())
}

/// Checks a publish request: tenant, then event id.
pub fn validate_mark_event_published(tenant_id: &str, command: &MarkGameEngineEventPublishedCommand) -> (r: GameEventResult<()>)
    ensures
        event_outcome(r, then_check(required("tenant_id"@, tenant_id@), required("event_id"@, command.event_id@))),
{
    validate_required("tenant_id", tenant_id)?;
    validate_required("event_id", command.event_id.as_str())?;
    Ok(())
}

/// The first rule a failure report breaks.
pub open spec fn mark_failed_refusal(tenant_id: Seq<char>, c: MarkGameEngineEventFailedCommand) -> Refusal {
    then_check(
        required("tenant_id"@, tenant_id),
        then_check(
            required("event_id"@, c.event_id@),
            if !c.dead_letter && c.next_retry_at is None {
                invalid_because("next_retry_at is required unless event is dead_letter"@)
            } else {
                None
            },
        ),
    )
}

/// Checks a failure report: tenant, event id, and a retry time unless the event is dead-lettered.
pub fn validate_mark_event_failed(tenant_id: &str, command: &MarkGameEngineEventFailedCommand) -> (r: GameEventResult<()>)
    ensures
        event_outcome(r, mark_failed_refusal(tenant_id@, *command)),
{
    validate_required("tenant_id", tenant_id)?;
    validate_required("event_id", command.event_id.as_str())?;
    if !command.dead_letter && command.next_retry_at.is_none() {
        return Err(GameEventError::invalid("next_retry_at is required unless event is dead_letter"));
    }
    Ok(())
}

/// The first rule an audit append breaks.
pub open spec fn append_audit_refusal(tenant_id: Seq<char>, c: AppendAuditRecordCommand) -> Refusal {
    then_check(
        required("tenant_id"@, tenant_id),
        then_check(
            required("actor_type"@, c.actor_type@),
            then_check(
                actor_type_rule(c.actor_type@),
                then_check(
                    required("action"@, c.action@),
                    then_check(
                        required("target_type"@, c.target_type@),
                        then_check(
                            required("target_id"@, c.target_id@),
                            then_check(
                                required("trace_id"@, c.trace_id@),
                                if json_null(c.before_snapshot@) || json_null(c.after_snapshot@) {
                                    invalid_because(
                                        "audit snapshots must be objects, arrays, or empty json"@,
                                    )
                                } else {
                                    None
                                },
                            ),
                        ),
                    ),
                ),
            ),
        ),
    )
}

/// Checks an audit append before the store is asked.
pub fn validate_append_audit_record(tenant_id: &str, command: &AppendAuditRecordCommand) -> (r: GameEventResult<()>)
    ensures
        event_outcome(r, append_audit_refusal(tenant_id@, *command)),
{
    validate_required("tenant_id", tenant_id)?;
    validate_required("actor_type", command.actor_type.as_str())?;
    validate_actor_type(command.actor_type.as_str())?;
    validate_required("action", command.action.as_str())?;
    validate_required("target_type", command.target_type.as_str())?;
    validate_required("target_id", command.target_id.as_str())?;
    validate_required("trace_id", command.trace_id.as_str())?;
    if is_json_null(command.before_snapshot.as_str()) || is_json_null(command.after_snapshot.as_str()) {
        return Err(GameEventError::invalid("audit snapshots must be objects, arrays, or empty json"));
    }
    Ok(())
}

/// Checks an audit search: a tenant is required.
pub fn validate_search_audit_records(tenant_id: &str, query: &AuditRecordQuery) -> (r: GameEventResult<()>)
    ensures
        event_outcome(r, required("tenant_id"@, tenant_id@)),
{
    validate_required("tenant_id", tenant_id)
}

/// The events service over a storage `R`; each request is checked by the matching
/// `validate_*` function before the storage is asked.
pub struct GameEventsService<R> {
    repository: R,
}

impl<R> GameEventsService<R> {
    /// The storage the service uses.
    pub closed spec fn storage(&self) -> R {
        self.repository
    }

    /// A service over `repository`.
    pub fn new(repository: R) -> (r: Self)
        ensures
            r.storage() == repository,
    {
        GameEventsService { repository }
    }

    /// The storage the service uses.
    pub fn repository(&self) -> (r: &R)
        ensures
            *r == self.storage(),
    {
        &self.repository
    }
}

/// Whether a stored event carries the payload an append request names (all but the key).
pub open spec fn same_event_payload(e: GameEngineEventItem, c: AppendGameEngineEventCommand) -> bool {
    &&& e.event_type@ == c.event_type@
    &&& e.aggregate_type@ == c.aggregate_type@
    &&& e.aggregate_id@ == c.aggregate_id@
    &&& same_json(e.event_payload@, c.event_payload@)
    &&& e.trace_id@ == c.trace_id@
}

pub open spec fn idempotency_conflict_message() -> Seq<char> {
    "idempotency_key already belongs to a different engine event payload"@
}

/// A replayed append must name the same payload as the event its key already holds.
pub fn ensure_event_idempotent(existing: &GameEngineEventItem, command: &AppendGameEngineEventCommand) -> (r: GameEventResult<()>)
    ensures
        same_event_payload(*existing, *command) ==> r is Ok,
        !same_event_payload(*existing, *command) ==> event_fails_with(
            r,
            "conflict"@,
            idempotency_conflict_message(),
        ),
{
    let same_payload = existing.event_type == command.event_type
        && existing.aggregate_type == command.aggregate_type
        && existing.aggregate_id == command.aggregate_id
        && same_json_text(existing.event_payload.as_str(), command.event_payload.as_str())
        && existing.trace_id == command.trace_id;
    if !same_payload {
        return Err(GameEventError::conflict(
            "idempotency_key already belongs to a different engine event payload",
        ));
    }
    Ok(())
}

/// An update that touched no row lost a race: `conflict` with `message`.
pub fn ensure_rows_affected(rows_affected: u64, message: &str) -> (r: GameEventResult<()>)
    ensures
        rows_affected == 0 ==> event_fails_with(r, "conflict"@, message@),
        rows_affected != 0 ==> r is Ok,
{
    if rows_affected == 0 {
        return Err(GameEventError::conflict(message));
    }
    Ok(())
}

/// The status a failure report moves an event to.
pub open spec fn failed_status_of(c: MarkGameEngineEventFailedCommand) -> Seq<char> {
    if c.dead_letter {
        "dead_letter"@
    } else {
        "failed"@
    }
}

/// The status a failure report moves an event to: `dead_letter` or `failed`.
pub fn failed_status(command: &MarkGameEngineEventFailedCommand) -> (r: &'static str)
    ensures
        r@ == failed_status_of(*command),
{
    if command.dead_letter {
        "dead_letter"
    } else {
        "failed"
    }
}

/// The storage layer refuses a blank tenant.
pub fn validate_tenant(tenant_id: &str) -> (r: GameEventResult<()>)
    ensures
        event_outcome(r, required("tenant_id"@, tenant_id@)),
{
    validate_required("tenant_id", tenant_id)
}

/// Maps a database driver failure, given by its text, to an `invalid` events error.
pub fn map_sqlx_error(error_text: &str) -> (r: GameEventError)
    ensures
        r.error_code() == "invalid"@,
        r.error_message() == error_text@,
{
    GameEventError::invalid(error_text)
}

/// Reads a JSON column; a parse failure is an `invalid` error carrying the parser's text.
pub fn parse_json(value: &str) -> (r: GameEventResult<String>)
    ensures
        match json_reading(value@) {
            Ok(v) => r matches Ok(t) && t@ == v,
            Err(m) => event_fails_with(r, "invalid"@, m),
        },
{
    match read_json(value) {
        Ok(v) => Ok(v),
        Err(m) => Err(GameEventError::invalid(m.as_str())),
    }
}

/// One event row as the database returns it; `event_payload` is the stored JSON text.
#[derive(Debug, Clone, PartialEq, Eq)]
pub struct EventRow {
    pub id: String,
    pub event_type: String,
    pub aggregate_type: String,
    pub aggregate_id: String,
    pub idempotency_key: String,
    pub event_payload: String,
    pub status: String,
    pub trace_id: String,
    pub created_at: String,
    pub published_at: Option<String>,
    pub next_retry_at: Option<String>,
    pub version: i64,
}

/// The event a row holds, with the payload `payload`.
pub open spec fn event_of_row(row: EventRow, payload: Seq<char>, item: GameEngineEventItem) -> bool {
    &&& item.id == row.id
    &&& item.event_type == row.event_type
    &&& item.aggregate_type == row.aggregate_type
    &&& item.aggregate_id == row.aggregate_id
    &&& item.idempotency_key == row.idempotency_key
    &&& item.event_payload@ == payload
    &&& item.status == row.status
    &&& item.trace_id == row.trace_id
    &&& item.created_at == row.created_at
    &&& item.published_at == row.published_at
    &&& item.next_retry_at == row.next_retry_at
    &&& item.version == row.version
}

/// Whether `r` is what converting `row` gives: the row's event with its payload re-read
/// as compact JSON, or the parser's error.
pub open spec fn event_row_result(row: EventRow, r: GameEventResult<GameEngineEventItem>) -> bool {
    match json_reading(row.event_payload@) {
        Ok(p) => r matches Ok(item) && event_of_row(row, p, item),
        Err(m) => event_fails_with(r, "invalid"@, m),
    }
}

impl EventRow {
    /// The event the row holds, its payload re-read as JSON.
    pub fn into_item(self) -> (r: GameEventResult<GameEngineEventItem>)
        ensures
            event_row_result(self, r),
    {
        let payload = parse_json(self.event_payload.as_str())?;
        Ok(event_from_row(&self, payload))
    }
}

/// The event a row holds, with `payload` (the row's payload as read) in place of the
/// stored text.
pub fn event_from_row(row: &EventRow, payload: String) -> (item: GameEngineEventItem)
    ensures
        event_of_row(*row, payload@, item),
{
    GameEngineEventItem {
        id: row.id.clone(),
        event_type: row.event_type.clone(),
        aggregate_type: row.aggregate_type.clone(),
        aggregate_id: row.aggregate_id.clone(),
        idempotency_key: row.idempotency_key.clone(),
        event_payload: payload,
        status: row.status.clone(),
        trace_id: row.trace_id.clone(),
        created_at: row.created_at.clone(),
        published_at: copy_opt(&row.published_at),
        next_retry_at: copy_opt(&row.next_retry_at),
        version: row.version,
    }
}

/// One audit row as the database returns it; the snapshots are the stored JSON text.
#[derive(Debug, Clone, PartialEq, Eq)]
pub struct AuditRow {
    pub id: String,
    pub actor_type: String,
    pub actor_id: Option<String>,
    pub action: String,
    pub target_type: String,
    pub target_id: String,
    pub reason_code: Option<String>,
    pub before_snapshot: String,
    pub after_snapshot: String,
    pub trace_id: String,
    pub created_at: String,
    pub version: i64,
}

/// The audit record a row holds, with `before` and `after` (the row's snapshots as read).
pub open spec fn audit_of_row(row: AuditRow, before: Seq<char>, after: Seq<char>, item: AuditRecordItem) -> bool {
    &&& item.id == row.id
    &&& item.actor_type == row.actor_type
    &&& item.actor_id == row.actor_id
    &&& item.action == row.action
    &&& item.target_type == row.target_type
    &&& item.target_id == row.target_id
    &&& item.reason_code == row.reason_code
    &&& item.before_snapshot@ == before
    &&& item.after_snapshot@ == after
    &&& item.trace_id == row.trace_id
    &&& item.created_at == row.created_at
    &&& item.version == row.version
}

/// Whether `r` is what converting `row` gives: the record with both snapshots re-read
/// as compact JSON, or the first parser error.
pub open spec fn audit_row_result(row: AuditRow, r: GameEventResult<AuditRecordItem>) -> bool {
    match json_reading(row.before_snapshot@) {
        Err(m) => event_fails_with(r, "invalid"@, m),
        Ok(before) => match json_reading(row.after_snapshot@) {
            Err(m) => event_fails_with(r, "invalid"@, m),
            Ok(after) => r matches Ok(item) && audit_of_row(row, before, after, item),
        },
    }
}

impl AuditRow {
    /// The audit record the row holds, its snapshots re-read as JSON.
    pub fn into_item(self) -> (r: GameEventResult<AuditRecordItem>)
        ensures
            audit_row_result(self, r),
    {
        let before = parse_json(self.before_snapshot.as_str())?;
        let after = parse_json(self.after_snapshot.as_str())?;
        Ok(audit_from_row(&self, before, after))
    }
}

impl AuditRow {
    /// The audit record the row holds, its snapshots re-read as JSON, leaving the row in place.
    pub fn to_item(&self) -> (r: GameEventResult<AuditRecordItem>)
        ensures
            audit_row_result(*self, r),
    {
        let before = parse_json(self.before_snapshot.as_str())?;
        let after = parse_json(self.after_snapshot.as_str())?;
        Ok(audit_from_row(self, before, after))
    }
}

/// The audit record a row holds, with `before` and `after` (the row's snapshots as read)
/// in place of the stored texts.
pub fn audit_from_row(row: &AuditRow, before: String, after: String) -> (item: AuditRecordItem)
    ensures
        audit_of_row(*row, before@, after@, item),
{
    AuditRecordItem {
        id: row.id.clone(),
        actor_type: row.actor_type.clone(),
        actor_id: copy_opt(&row.actor_id),
        action: row.action.clone(),
        target_type: row.target_type.clone(),
        target_id: row.target_id.clone(),
        reason_code: copy_opt(&row.reason_code),
        before_snapshot: before,
        after_snapshot: after,
        trace_id: row.trace_id.clone(),
        created_at: row.created_at.clone(),
        version: row.version,
    }
}

/// Whether `items` are the records of `rows`, in order, each converted as
/// `audit_row_result` says.
pub open spec fn audits_of_rows(rows: Seq<AuditRow>, items: Seq<AuditRecordItem>) -> bool {
    &&& items.len() == rows.len()
    &&& forall|i: int|
        0 <= i < rows.len() ==> audit_row_result(#[trigger] rows[i], Ok::<AuditRecordItem, GameEventError>(items[i]))
}

/// Whether both snapshots of a row read as JSON.
pub open spec fn audit_row_reads(row: AuditRow) -> bool {
    json_reading(row.before_snapshot@) is Ok && json_reading(row.after_snapshot@) is Ok
}

/// Whether `e` is the error of the first row that does not convert.
pub open spec fn audit_rows_error(rows: Seq<AuditRow>, e: GameEventError) -> bool {
    exists|k: int|
        0 <= k < rows.len() && audit_row_result(#[trigger] rows[k], Err::<AuditRecordItem, GameEventError>(e))
            && forall|i: int| 0 <= i < k ==> audit_row_reads(#[trigger] rows[i])
}

/// A page of audit records read from database rows, numbered from its offset.
pub fn audit_page_from_rows(rows: Vec<AuditRow>, total: i64, limit: i64, offset: i64) -> (r: GameEventResult<AuditRecordPage>)
    requires
        0 <= offset,
        1 <= limit,
        offset / limit < i64::MAX,
    ensures
        match r {
            Ok(page) => {
                &&& audits_of_rows(rows@, page.items@)
                &&& page.total == #[verifier::truncate] (total as u64)
                &&& page.page == #[verifier::truncate] (((offset / limit) + 1) as u32)
                &&& page.page_size == #[verifier::truncate] (limit as u32)
            },
            Err(e) => audit_rows_error(rows@, e),
        },
{
    let mut items: Vec<AuditRecordItem> = Vec::new();
    let n = rows.len();
    let mut i: usize = 0;
    while i < n
        invariant
            n == rows@.len(),
            i <= n,
            items@.len() == i,
            forall|j: int|
                0 <= j < i ==> audit_row_result(#[trigger] rows@[j], Ok::<AuditRecordItem, GameEventError>(items@[j])),
        decreases n - i,
    {
        match rows[i].to_item() {
            Ok(item) => {
                items.push(item);
            },
            Err(e) => {
                proof {
                    assert forall|j: int| 0 <= j < i implies audit_row_reads(#[trigger] rows@[j]) by {
                        assert(audit_row_result(rows@[j], Ok::<AuditRecordItem, GameEventError>(items@[j])));
                    }
                    assert(audit_row_result(rows@[i as int], Err::<AuditRecordItem, GameEventError>(e)));
                }
                return Err(e);
            },
        }
        i = i + 1;
    }
    Ok(AuditRecordPage {
        items,
        total: #[verifier::truncate] (total as u64),
        page: page_number(offset, limit),
        page_size: #[verifier::truncate] (limit as u32),
    })
}

/// The parameters of an audit search statement.
#[derive(Debug, Clone, Copy, PartialEq, Eq)]
pub struct AuditSearchParams<'a> {
    pub tenant_id: &'a str,
    pub target_type: Option<&'a str>,
    pub target_id: Option<&'a str>,
    pub actor_type: Option<&'a str>,
    pub actor_id: Option<&'a str>,
    pub action: Option<&'a str>,
    pub limit: i64,
    pub offset: i64,
}

/// A borrowed view of an optional text.
fn borrow_opt<'a>(v: &'a Option<String>) -> (r: Option<&'a str>)
    ensures
        match *v {
            Some(s) => r matches Some(t) && t@ == s@,
            None => r is None,
        },
{
    match v {
        Some(s) => Some(s.as_str()),
        None => None,
    }
}

/// Whether a borrowed optional text holds what an owned one does.
pub open spec fn same_opt_text(b: Option<&str>, o: Option<String>) -> bool {
    match o {
        Some(s) => b matches Some(t) && t@ == s@,
        None => b is None,
    }
}

impl<'a> AuditSearchParams<'a> {
    /// The statement parameters of an audit query for `tenant_id`.
    pub fn from_query(tenant_id: &'a str, query: &'a AuditRecordQuery, limit: i64, offset: i64) -> (r: Self)
        ensures
            r.tenant_id@ == tenant_id@,
            same_opt_text(r.target_type, query.target_type),
            same_opt_text(r.target_id, query.target_id),
            same_opt_text(r.actor_type, query.actor_type),
            same_opt_text(r.actor_id, query.actor_id),
            same_opt_text(r.action, query.action),
            r.limit == limit,
            r.offset == offset,
    {
        AuditSearchParams {
            tenant_id,
            target_type: borrow_opt(&query.target_type),
            target_id: borrow_opt(&query.target_id),
            actor_type: borrow_opt(&query.actor_type),
            actor_id: borrow_opt(&query.actor_id),
            action: borrow_opt(&query.action),
            limit,
            offset,
        }
    }
}

/// Whether `items` are the rows' events, in order, each with its re-read payload.
pub open spec fn events_of_rows(rows: Seq<EventRow>, items: Seq<GameEngineEventItem>) -> bool {
    &&& items.len() == rows.len()
    &&& forall|i: int| 0 <= i < rows.len() ==> {
        &&& #[trigger] json_reading(rows[i].event_payload@) is Ok
        &&& event_of_row(rows[i], json_reading(rows[i].event_payload@)->Ok_0, items[i])
    }
}

/// The first row whose payload does not read as JSON, if any.
pub open spec fn first_bad_event_row(rows: Seq<EventRow>, k: int) -> bool {
    &&& 0 <= k < rows.len()
    &&& json_reading(rows[k].event_payload@) is Err
    &&& forall|i: int| 0 <= i < k ==> #[trigger] json_reading(rows[i].event_payload@) is Ok
}

/// `e` is the parse error of the first row whose payload is not JSON.
pub open spec fn rows_parse_error(rows: Seq<EventRow>, e: GameEventError) -> bool {
    exists|k: int|
        first_bad_event_row(rows, k) && e.error_code() == "invalid"@ && e.error_message()
            == json_reading(#[trigger] rows[k].event_payload@)->Err_0
}

/// A page of events read from database rows, numbered from its offset.
pub fn event_page_from_rows(rows: Vec<EventRow>, total: i64, limit: i64, offset: i64) -> (r: GameEventResult<GameEngineEventPage>)
    requires
        0 <= offset,
        1 <= limit,
        offset / limit < i64::MAX,
    ensures
        match r {
            Ok(page) => {
                &&& events_of_rows(rows@, page.items@)
                &&& page.total == #[verifier::truncate] (total as u64)
                &&& page.page == #[verifier::truncate] (((offset / limit) + 1) as u32)
                &&& page.page_size == #[verifier::truncate] (limit as u32)
            },
            Err(e) => rows_parse_error(rows@, e),
        },
{
    let mut items: Vec<GameEngineEventItem> = Vec::new();
    let n = rows.len();
    let mut i: usize = 0;
    while i < n
        invariant
            n == rows@.len(),
            i <= n,
            events_of_rows(rows@.subrange(0, i as int), items@),
        decreases n - i,
    {
        let row = &rows[i];
        let payload = parse_json(row.event_payload.as_str());
        match payload {
            Ok(p) => {
                let item = GameEngineEventItem {
                    id: row.id.clone(),
                    event_type: row.event_type.clone(),
                    aggregate_type: row.aggregate_type.clone(),
                    aggregate_id: row.aggregate_id.clone(),
                    idempotency_key: row.idempotency_key.clone(),
                    event_payload: p,
                    status: row.status.clone(),
                    trace_id: row.trace_id.clone(),
                    created_at: row.created_at.clone(),
                    published_at: copy_opt(&row.published_at),
                    next_retry_at: copy_opt(&row.next_retry_at),
                    version: row.version,
                };
                items.push(item);
            },
            Err(e) => {
                proof {
                    assert forall|j: int| 0 <= j < i implies #[trigger] json_reading(
                        rows@[j].event_payload@,
                    ) is Ok by {
                        assert(rows@.subrange(0, i as int)[j] == rows@[j]);
                    }
                    assert(first_bad_event_row(rows@, i as int));
                }
                return Err(e);
            },
        }
        proof {
            let pre = rows@.subrange(0, i + 1);
            assert forall|j: int| 0 <= j < pre.len() implies {
                &&& #[trigger] json_reading(pre[j].event_payload@) is Ok
                &&& event_of_row(pre[j], json_reading(pre[j].event_payload@)->Ok_0, items@[j])
            } by {
                if j < i {
                    assert(pre[j] == rows@.subrange(0, i as int)[j]);
                }
            }
        }
        i = i + 1;
    }
    assert(rows@.subrange(0, n as int) =~= rows@);
    Ok(GameEngineEventPage {
        items,
        total: #[verifier::truncate] (total as u64),
        page: page_number(offset, limit),
        page_size: #[verifier::truncate] (limit as u32),
    })
}

/// An existing event found under an append request's key, if any; a found event must
/// carry the same payload.
pub fn map_existing_event(row: Option<EventRow>, command: &AppendGameEngineEventCommand) -> (r: GameEventResult<Option<GameEngineEventItem>>)
    ensures
        match row {
            None => r matches Ok(found) && found is None,
            Some(row) => match json_reading(row.event_payload@) {
                Err(m) => event_fails_with(r, "invalid"@, m),
                Ok(p) => {
                    if same_json(p, command.event_payload@) && row.event_type@ == command.event_type@
                        && row.aggregate_type@ == command.aggregate_type@ && row.aggregate_id@
                        == command.aggregate_id@ && row.trace_id@ == command.trace_id@ {
                        r matches Ok(found) && found matches Some(item) && event_of_row(row, p, item)
                    } else {
                        event_fails_with(r, "conflict"@, idempotency_conflict_message())
                    }
                },
            },
        },
{
    match row {
        None => Ok(None),
        Some(row) => {
            let item = row.into_item()?;
            ensure_event_idempotent(&item, command)?;
            Ok(Some(item))
        },
    }
}

} // verus!
