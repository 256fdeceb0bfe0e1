//! Point ledger: models, request validation, row mapping, and the in-memory ledger whose
//! balances are the running sums of the ledger entries.
use vstd::prelude::*;
use crate::rules::{invalid_because, required, then_check, Refusal};
use crate::search::{first_index, lemma_first_index, lemma_first_index_is, lemma_first_index_none};
use crate::text::{copy_opt, is_blank, opt_text_eq, opt_view, required_message, text_eq};

verus! {

/// One movement of points on a ledger account.
#[derive(Debug, Clone, PartialEq, Eq)]
pub struct GamePointLedgerEntry {
    pub id: String,
    pub ledger_account_id: String,
    pub game_id: String,
    pub mode_id: Option<String>,
    pub season_id: Option<String>,
    pub user_id: String,
    pub direction: String,
    pub points_delta: i64,
    pub points_after: i64,
    pub source_event_id: String,
    pub reason_code: String,
    pub idempotency_key: String,
    pub created_at: String,
    pub version: i64,
}

/// The current balance of a ledger account.
#[derive(Debug, Clone, PartialEq, Eq)]
pub struct GamePointBalance {
    pub id: String,
    pub ledger_account_id: String,
    pub game_id: String,
    pub mode_id: Option<String>,
    pub season_id: Option<String>,
    pub user_id: String,
    pub points: i64,
    pub last_ledger_id: Option<String>,
    pub updated_at: String,
    pub version: i64,
}

/// A request to move points on a ledger account.
#[derive(Debug, Clone, PartialEq, Eq)]
pub struct AppendPointLedgerCommand {
    pub ledger_account_id: String,
    pub game_id: String,
    pub mode_id: Option<String>,
    pub season_id: Option<String>,
    pub user_id: String,
    pub direction: String,
    pub points_delta: i64,
    pub source_event_id: String,
    pub reason_code: String,
    pub idempotency_key: String,
}

/// The error of the points service: a stable code and a message.
#[derive(Debug, Clone, PartialEq, Eq)]
pub struct GamePointError {
    code: String,
    message: String,
}

pub type GamePointResult<T> = Result<T, GamePointError>;

/// `r` is refused as `refusal` says, or is `Ok` when `refusal` is `None`.
pub open spec fn point_outcome<T>(r: GamePointResult<T>, refusal: Refusal) -> bool {
    match refusal {
        Some((c, m)) => point_fails_with(r, c, m),
        None => r is Ok,
    }
}

/// Whether `r` is an error with the given code and message.
pub open spec fn point_fails_with<T>(r: GamePointResult<T>, code: Seq<char>, message: Seq<char>) -> bool {
    match r {
        Err(e) => e.error_code() == code && e.error_message() == message,
        Ok(_) => false,
    }
}

impl GamePointError {
    /// The code of the error.
    pub closed spec fn error_code(&self) -> Seq<char> {
        self.code@
    }

    /// The message of the error.
    pub closed spec fn error_message(&self) -> Seq<char> {
        self.message@
    }

    /// An `invalid` error.
    pub fn invalid(message: &str) -> (r: Self)
        ensures
            r.error_code() == "invalid"@,
            r.error_message() == message@,
    {
        GamePointError { code: String::from_str("invalid"), message: String::from_str(message) }
    }

    /// A `not_found` error.
    pub fn not_found(message: &str) -> (r: Self)
        ensures
            r.error_code() == "not_found"@,
            r.error_message() == message@,
    {
        GamePointError { code: String::from_str("not_found"), message: String::from_str(message) }
    }

    /// A `conflict` error.
    pub fn conflict(message: &str) -> (r: Self)
        ensures
            r.error_code() == "conflict"@,
            r.error_message() == message@,
    {
        GamePointError { code: String::from_str("conflict"), message: String::from_str(message) }
    }

    /// The code of the error.
    pub fn code(&self) -> (r: &str)
        ensures
            r@ == self.error_code(),
    {
        self.code.as_str()
    }

    /// The message of the error.
    pub fn message(&self) -> (r: &str)
        ensures
            r@ == self.error_message(),
    {
        self.message.as_str()
    }
}

/// Refuses a blank required field.
fn validate_required(field: &str, value: &str) -> (r: GamePointResult<()>)
    ensures
        point_outcome(r, required(field@, value@)),
{
    if is_blank(value) {
        let message = required_message(field);
        return Err(GamePointError::invalid(message.as_str()));
    }
    Ok(())
}

pub open spec fn direction_rule(direction: Seq<char>) -> Refusal {
    if direction == "credit"@ || direction == "debit"@ {
        None
    } else {
        invalid_because("point direction must be credit or debit"@)
    }
}

pub open spec fn points_delta_rule(points_delta: i64) -> Refusal {
    if points_delta <= 0 {
        invalid_because("points_delta must be greater than zero"@)
    } else {
        None
    }
}

/// Points move only as `credit` or `debit`.
pub fn validate_direction(direction: &str) -> (r: GamePointResult<()>)
    ensures
        point_outcome(r, direction_rule(direction@)),
{
    if text_eq(direction, "credit") || text_eq(direction, "debit") {
        return Ok(());
    }
    Err(GamePointError::invalid("point direction must be credit or debit"))
}

/// A movement moves a positive number of points.
pub fn validate_points_delta(points_delta: i64) -> (r: GamePointResult<()>)
    ensures
        point_outcome(r, points_delta_rule(points_delta)),
{
    if points_delta <= 0 {
        return Err(GamePointError::invalid("points_delta must be greater than zero"));
    }
    Ok(())
}

/// The first rule an append request breaks.
pub open spec fn append_ledger_refusal(tenant_id: Seq<char>, c: AppendPointLedgerCommand) -> Refusal {
    then_check(
        required("tenant_id"@, tenant_id),
        then_check(
            required("ledger_account_id"@, c.ledger_account_id@),
            then_check(
                required("game_id"@, c.game_id@),
                then_check(
                    required("user_id"@, c.user_id@),
                    then_check(
                        required("direction"@, c.direction@),
                        then_check(
                            direction_rule(c.direction@),
                            then_check(
                                points_delta_rule(c.points_delta),
                                then_check(
                                    required("source_event_id"@, c.source_event_id@),
                                    then_check(
                                        required("reason_code"@, c.reason_code@),
                                        required("idempotency_key"@, c.idempotency_key@),
                                    ),
                                ),
                            ),
                        ),
                    ),
                ),
            ),
        ),
    )
}

/// Checks an append request before the ledger is asked.
pub fn validate_append_ledger(tenant_id: &str, command: &AppendPointLedgerCommand) -> (r: GamePointResult<()>)
    ensures
        point_outcome(r, append_ledger_refusal(tenant_id@, *command)),
{
    validate_required("tenant_id", tenant_id)?;
    validate_required("ledger_account_id", command.ledger_account_id.as_str())?;
    validate_required("game_id", command.game_id.as_str())?;
    validate_required("user_id", command.user_id.as_str())?;
    validate_required("direction", command.direction.as_str())?;
    validate_direction(command.direction.as_str())?;
    validate_points_delta(command.points_delta)?;
    validate_required("source_event_id", command.source_event_id.as_str())?;
    validate_required("reason_code", command.reason_code.as_str())?;
    validate_required("idempotency_key", command.idempotency_key.as_str())?;
    Ok(())
}

/// Checks a balance lookup: tenant, then ledger account.
pub fn validate_get_balance(tenant_id: &str, ledger_account_id: &str) -> (r: GamePointResult<()>)
    ensures
        point_outcome(
            r,
            then_check(
                required("tenant_id"@, tenant_id@),
                required("ledger_account_id"@, ledger_account_id@),
            ),
        ),
{
    validate_required("tenant_id", tenant_id)?;
    validate_required("ledger_account_id", ledger_account_id)?;
    Ok(())
}

/// The points service over a storage `R`; each request is checked by the matching
/// `validate_*` function before the storage is asked.
pub struct GamePointService<R> {
    repository: R,
}

impl<R> GamePointService<R> {
    /// The storage the service uses.
    pub closed spec fn storage(&self) -> R {
        self.repository
    }

    /// A service over `repository`.
    pub fn new(repository: R) -> (r: Self)
        ensures
            r.storage() == repository,
    {
        GamePointService { repository }
    }

    /// The storage the service uses.
    pub fn repository(&self) -> (r: &R)
        ensures
            *r == self.storage(),
    {
        &self.repository
    }
}

/// The signed movement of a direction and an amount: negative for `debit`.
pub open spec fn signed_amount(direction: Seq<char>, points_delta: i64) -> int {
    if direction == "debit"@ {
        -points_delta
    } else {
        points_delta as int
    }
}

/// Whether the signed movement of a request fits an `i64`.
pub open spec fn signed_fits(c: AppendPointLedgerCommand) -> bool {
    i64::MIN <= signed_amount(c.direction@, c.points_delta) <= i64::MAX
}

/// The signed movement of a request: the amount, negated for `debit`.
pub fn signed_delta(command: &AppendPointLedgerCommand) -> (r: i64)
    requires
        signed_fits(*command),
    ensures
        r == signed_amount(command.direction@, command.points_delta),
{
    if text_eq(command.direction.as_str(), "debit") {
        -command.points_delta
    } else {
        command.points_delta
    }
}

/// Whether a stored entry carries what an append request names (all but the key).
pub open spec fn same_ledger_payload(e: GamePointLedgerEntry, c: AppendPointLedgerCommand) -> bool {
    &&& e.ledger_account_id@ == c.ledger_account_id@
    &&& e.game_id@ == c.game_id@
    &&& opt_view(e.mode_id) == opt_view(c.mode_id)
    &&& opt_view(e.season_id) == opt_view(c.season_id)
    &&& e.user_id@ == c.user_id@
    &&& e.direction@ == c.direction@
    &&& e.points_delta == c.points_delta
    &&& e.source_event_id@ == c.source_event_id@
    &&& e.reason_code@ == c.reason_code@
}

pub open spec fn ledger_conflict_message() -> Seq<char> {
    "idempotency_key already belongs to a different point ledger payload"@
}

/// A replayed append must carry the same payload as the entry its key already holds.
pub fn ensure_idempotent_replay(existing: &GamePointLedgerEntry, command: &AppendPointLedgerCommand) -> (r: GamePointResult<()>)
    ensures
        same_ledger_payload(*existing, *command) ==> r is Ok,
        !same_ledger_payload(*existing, *command) ==> point_fails_with(
            r,
            "conflict"@,
            ledger_conflict_message(),
        ),
{
    let same_payload = existing.ledger_account_id == command.ledger_account_id
        && existing.game_id == command.game_id && opt_text_eq(&existing.mode_id, &command.mode_id)
        && opt_text_eq(&existing.season_id, &command.season_id)
        && existing.user_id == command.user_id && existing.direction == command.direction
        && existing.points_delta == command.points_delta
        && existing.source_event_id == command.source_event_id
        && existing.reason_code == command.reason_code;
    if !same_payload {
        return Err(GamePointError::conflict(
            "idempotency_key already belongs to a different point ledger payload",
        ));
    }
    Ok(())
}

/// Maps a database driver failure, given by its text, to an `invalid` points error.
pub fn map_sqlx_error(error_text: &str) -> (r: GamePointError)
    ensures
        r.error_code() == "invalid"@,
        r.error_message() == error_text@,
{
    GamePointError::invalid(error_text)
}

/// One ledger row as the database returns it; `points_after` is unset until projected.
#[derive(Debug, Clone, PartialEq, Eq)]
pub struct LedgerRow {
    pub id: String,
    pub ledger_account_id: String,
    pub game_id: String,
    pub mode_id: Option<String>,
    pub season_id: Option<String>,
    pub user_id: String,
    pub direction: String,
    pub points_delta: i64,
    pub points_after: Option<i64>,
    pub source_event_id: String,
    pub reason_code: String,
    pub idempotency_key: String,
    pub created_at: String,
    pub version: i64,
}

/// The entry a ledger row holds; an unset `points_after` reads as zero.
pub open spec fn entry_of_row(row: LedgerRow, e: GamePointLedgerEntry) -> bool {
    &&& e.id == row.id
    &&& e.ledger_account_id == row.ledger_account_id
    &&& e.game_id == row.game_id
    &&& e.mode_id == row.mode_id
    &&& e.season_id == row.season_id
    &&& e.user_id == row.user_id
    &&& e.direction == row.direction
    &&& e.points_delta == row.points_delta
    &&& e.points_after == match row.points_after {
        Some(p) => p,
        None => 0,
    }
    &&& e.source_event_id == row.source_event_id
    &&& e.reason_code == row.reason_code
    &&& e.idempotency_key == row.idempotency_key
    &&& e.created_at == row.created_at
    &&& e.version == row.version
}

impl LedgerRow {
    /// The ledger entry the row holds.
    pub fn into_item(self) -> (r: GamePointLedgerEntry)
        ensures
            entry_of_row(self, r),
    {
        let points_after = match self.points_after {
            Some(p) => p,
            None => 0,
        };
        GamePointLedgerEntry {
            id: self.id,
            ledger_account_id: self.ledger_account_id,
            game_id: self.game_id,
            mode_id: self.mode_id,
            season_id: self.season_id,
            user_id: self.user_id,
            direction: self.direction,
            points_delta: self.points_delta,
            points_after,
            source_event_id: self.source_event_id,
            reason_code: self.reason_code,
            idempotency_key: self.idempotency_key,
            created_at: self.created_at,
            version: self.version,
        }
    }
}

/// One balance row as the database returns it.
#[derive(Debug, Clone, PartialEq, Eq)]
pub struct BalanceRow {
    pub id: String,
    pub ledger_account_id: String,
    pub game_id: String,
    pub mode_id: Option<String>,
    pub season_id: Option<String>,
    pub user_id: String,
    pub points: i64,
    pub last_ledger_id: Option<String>,
    pub updated_at: String,
    pub version: i64,
}

impl BalanceRow {
    /// The balance the row holds, field for field.
    pub fn into_item(self) -> (r: GamePointBalance)
        ensures
            r.id == self.id,
            r.ledger_account_id == self.ledger_account_id,
            r.game_id == self.game_id,
            r.mode_id == self.mode_id,
            r.season_id == self.season_id,
            r.user_id == self.user_id,
            r.points == self.points,
            r.last_ledger_id == self.last_ledger_id,
            r.updated_at == self.updated_at,
            r.version == self.version,
    {
        GamePointBalance {
            id: self.id,
            ledger_account_id: self.ledger_account_id,
            game_id: self.game_id,
            mode_id: self.mode_id,
            season_id: self.season_id,
            user_id: self.user_id,
            points: self.points,
            last_ledger_id: self.last_ledger_id,
            updated_at: self.updated_at,
            version: self.version,
        }
    }
}

/// The entry already stored under an append request's key, if any; a found entry must
/// carry the same payload.
pub fn map_existing_row(row: Option<LedgerRow>, command: &AppendPointLedgerCommand) -> (r: GamePointResult<Option<GamePointLedgerEntry>>)
    ensures
        match row {
            None => r matches Ok(found) && found is None,
            Some(row) => {
                let same = row.ledger_account_id@ == command.ledger_account_id@ && row.game_id@
                    == command.game_id@ && opt_view(row.mode_id) == opt_view(command.mode_id)
                    && opt_view(row.season_id) == opt_view(command.season_id) && row.user_id@
                    == command.user_id@ && row.direction@ == command.direction@
                    && row.points_delta == command.points_delta && row.source_event_id@
                    == command.source_event_id@ && row.reason_code@ == command.reason_code@;
                if same {
                    r matches Ok(found) && found matches Some(e) && entry_of_row(row, e)
                } else {
                    point_fails_with(r, "conflict"@, ledger_conflict_message())
                }
            },
        },
{
    match row {
        None => Ok(None),
        Some(row) => {
            let item = row.into_item();
            ensure_idempotent_replay(&item, command)?;
            Ok(Some(item))
        },
    }
}

} // verus!
