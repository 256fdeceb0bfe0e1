//! Game rooms and their seats: the models the room storage reads and writes, and the
//! decisions it takes on seats, versions and rows.
use vstd::prelude::*;
use crate::paging::{offset_fits, page_limit, page_number, page_offset, query_limit, query_offset};
use crate::text::{copy_opt, text_eq};

verus! {

/// One game room.
#[derive(Debug, Clone, PartialEq, Eq)]
pub struct GameRoomItem {
    pub id: String,
    pub game_id: String,
    pub mode_id: Option<String>,
    pub ruleset_id: Option<String>,
    pub room_code: String,
    pub host_user_id: String,
    pub visibility: String,
    pub join_policy: String,
    pub max_players: i32,
    pub current_players: i32,
    pub status: String,
    pub version: i64,
}

/// One seat of a room.
#[derive(Debug, Clone, PartialEq, Eq)]
pub struct GameRoomSeatItem {
    pub id: String,
    pub room_id: String,
    pub seat_no: i32,
    pub team_no: Option<i32>,
    pub user_id: Option<String>,
    pub display_name_snapshot: Option<String>,
    pub status: String,
    pub version: i64,
}

/// One page of rooms.
#[derive(Debug, Clone, PartialEq, Eq)]
pub struct GameRoomPage {
    pub items: Vec<GameRoomItem>,
    pub total: u64,
    pub page: u32,
    pub page_size: u32,
}

/// Filters and page of a room listing.
#[derive(Debug, Clone, PartialEq, Eq)]
pub struct GameRoomQuery {
    pub game_id: Option<String>,
    pub status: Option<String>,
    pub page: Option<u32>,
    pub page_size: Option<u32>,
}

impl Default for GameRoomQuery {
    fn default() -> (r: Self)
        ensures
            r.game_id is None,
            r.status is None,
            r.page is None,
            r.page_size is None,
    {
        GameRoomQuery { game_id: None, status: None, page: None, page_size: None }
    }
}

impl GameRoomQuery {
    /// The clamped page size.
    pub fn limit(&self) -> (r: u32)
        ensures
            r == page_limit(self.page_size),
    {
        query_limit(self.page_size)
    }

    /// The number of rooms before the requested page.
    pub fn offset(&self) -> (r: u32)
        requires
            offset_fits(self.page, self.page_size),
        ensures
            r == page_offset(self.page, self.page_size),
    {
        query_offset(self.page, self.page_size)
    }
}

/// A request to open a room.
#[derive(Debug, Clone, PartialEq, Eq)]
pub struct CreateGameRoomCommand {
    pub game_id: String,
    pub mode_id: Option<String>,
    pub ruleset_id: Option<String>,
    pub room_code: String,
    pub host_user_id: String,
    pub visibility: String,
    pub join_policy: String,
    pub max_players: i32,
}

/// A request by a player to take a seat.
#[derive(Debug, Clone, PartialEq, Eq)]
pub struct JoinGameRoomCommand {
    pub room_id: String,
    pub user_id: String,
    pub display_name_snapshot: Option<String>,
    pub expected_version: Option<i64>,
}

/// A request by a player to give up a seat.
#[derive(Debug, Clone, PartialEq, Eq)]
pub struct LeaveGameRoomCommand {
    pub room_id: String,
    pub user_id: String,
    pub expected_version: Option<i64>,
}

/// A request by a seated player to become ready, or no longer ready.
#[derive(Debug, Clone, PartialEq, Eq)]
pub struct ReadyGameRoomCommand {
    pub room_id: String,
    pub user_id: String,
    pub ready: bool,
    pub expected_version: Option<i64>,
}

/// A request to start the game of a room.
#[derive(Debug, Clone, PartialEq, Eq)]
pub struct StartGameRoomCommand {
    pub room_id: String,
    pub host_user_id: String,
    pub expected_version: Option<i64>,
}

/// A request to close a room.
#[derive(Debug, Clone, PartialEq, Eq)]
pub struct CloseGameRoomCommand {
    pub room_id: String,
    pub operator_user_id: String,
    pub reason: Option<String>,
    pub expected_version: Option<i64>,
}

/// The error of the room storage: a stable code and a message.
#[derive(Debug, Clone, PartialEq, Eq)]
pub struct GameRoomError {
    code: String,
    message: String,
}

pub type GameRoomResult<T> = Result<T, GameRoomError>;

/// Whether `r` is an error with the given code and message.
pub open spec fn room_fails_with<T>(r: GameRoomResult<T>, code: Seq<char>, message: Seq<char>) -> bool {
    match r {
        Err(e) => e.error_code() == code && e.error_message() == message,
        Ok(_) => false,
    }
}

impl GameRoomError {
    /// The code of the error.
    pub closed spec fn error_code(&self) -> Seq<char> {
        self.code@
    }

    /// The message of the error.
    pub closed spec fn error_message(&self) -> Seq<char> {
        self.message@
    }

    /// An `invalid` error.
    pub fn invalid(message: &str) -> (r: Self)
        ensures
            r.error_code() == "invalid"@,
            r.error_message() == message@,
    {
        GameRoomError { code: String::from_str("invalid"), message: String::from_str(message) }
    }

    /// A `not_found` error.
    pub fn not_found(message: &str) -> (r: Self)
        ensures
            r.error_code() == "not_found"@,
            r.error_message() == message@,
    {
        GameRoomError { code: String::from_str("not_found"), message: String::from_str(message) }
    }

    /// A `conflict` error.
    pub fn conflict(message: &str) -> (r: Self)
        ensures
            r.error_code() == "conflict"@,
            r.error_message() == message@,
    {
        GameRoomError { code: String::from_str("conflict"), message: String::from_str(message) }
    }

    /// The code of the error.
    pub fn code(&self) -> (r: &str)
        ensures
            r@ == self.error_code(),
    {
        self.code.as_str()
    }

    /// The message of the error.
    pub fn message(&self) -> (r: &str)
        ensures
            r@ == self.error_message(),
    {
        self.message.as_str()
    }
}

/// A seat in one of these states holds a player.
pub open spec fn active_status(status: Seq<char>) -> bool {
    ||| status == "reserved"@
    ||| status == "joined"@
    ||| status == "ready"@
    ||| status == "playing"@
}

/// Whether a seat status holds a player: `reserved`, `joined`, `ready` or `playing`.
pub fn is_active_seat_status(status: &str) -> (r: bool)
    ensures
        r == active_status(status@),
{
    text_eq(status, "reserved") || text_eq(status, "joined") || text_eq(status, "ready")
        || text_eq(status, "playing")
}

pub open spec fn stale_room_message() -> Seq<char> {
    "room version has changed"@
}

/// Whether a room's version is the one a request expects, when it expects one.
pub open spec fn room_version_matches(version: i64, expected: Option<i64>) -> bool {
    match expected {
        Some(v) => version == v,
        None => true,
    }
}

/// Refuses a change to a room whose version is not the expected one.
pub fn ensure_expected_version(room: &GameRoomItem, expected: Option<i64>) -> (r: GameRoomResult<()>)
    ensures
        room_version_matches(room.version, expected) ==> r is Ok,
        !room_version_matches(room.version, expected) ==> room_fails_with(r, "conflict"@, stale_room_message()),
{
    if let Some(expected) = expected {
        if room.version != expected {
            return Err(GameRoomError::conflict("room version has changed"));
        }
    }
    Ok(())
}

/// A versioned update that touched no row lost a race: `conflict`.
pub fn ensure_version_update(rows_affected: u64) -> (r: GameRoomResult<()>)
    ensures
        rows_affected == 0 ==> room_fails_with(r, "conflict"@, stale_room_message()),
        rows_affected != 0 ==> r is Ok,
{
    if rows_affected == 0 {
        return Err(GameRoomError::conflict("room version has changed"));
    }
    Ok(())
}

/// An update that touched no row found nothing: `not_found` with `message`.
pub fn ensure_rows_affected(rows_affected: u64, message: &str) -> (r: GameRoomResult<()>)
    ensures
        rows_affected == 0 ==> room_fails_with(r, "not_found"@, message@),
        rows_affected != 0 ==> r is Ok,
{
    if rows_affected == 0 {
        return Err(GameRoomError::not_found(message));
    }
    Ok(())
}

/// Whether some active seat of `seats` has number `n`.
pub open spec fn number_taken(seats: Seq<GameRoomSeatItem>, n: i32) -> bool {
    exists|j: int| 0 <= j < seats.len() && (#[trigger] seats[j]).seat_no == n && active_status(seats[j].status@)
}

/// Whether `r` is the lowest seat number in `1..=max` that `taken` leaves free, or `None`
/// when every one of them is taken.
pub open spec fn lowest_free(taken: spec_fn(i32) -> bool, max: i32, r: Option<i32>) -> bool {
    match r {
        Some(n) => 1 <= n <= max && !taken(n) && forall|m: i32| 1 <= m < n ==> #[trigger] taken(m),
        None => forall|m: i32| 1 <= m <= max ==> #[trigger] taken(m),
    }
}

/// The lowest seat number of a room that no active seat holds.
pub fn next_available_seat_no(room: &GameRoomItem, seats: &[GameRoomSeatItem]) -> (r: Option<i32>)
    ensures
        lowest_free(|n: i32| number_taken(seats@, n), room.max_players, r),
{
    let ghost taken = |n: i32| number_taken(seats@, n);
    let max = room.max_players;
    let mut n: i64 = 1;
    while n <= max as i64
        invariant
            1 <= n <= i32::MAX + 1,
            max == room.max_players,
            taken == (|n: i32| number_taken(seats@, n)),
            forall|m: i32| 1 <= m < n ==> #[trigger] taken(m),
        decreases max + 1 - n,
    {
        let candidate = n as i32;
        let mut free = true;
        let mut j: usize = 0;
        while j < seats.len()
            invariant
                j <= seats@.len(),
                free == forall|t: int| 0 <= t < j ==> !((#[trigger] seats@[t]).seat_no == candidate
                    && active_status(seats@[t].status@)),
            decreases seats@.len() - j,
        {
            if seats[j].seat_no == candidate && is_active_seat_status(seats[j].status.as_str()) {
                free = false;
            }
            j = j + 1;
        }
        if free {
            return Some(candidate);
        }
        proof {
            let t = choose|t: int| 0 <= t < seats@.len() && !!((#[trigger] seats@[t]).seat_no == candidate
                && active_status(seats@[t].status@));
            assert(number_taken(seats@, candidate));
        }
        n = n + 1;
    }
    None
}

/// The number of active seats among `seats`.
pub open spec fn active_count(seats: Seq<GameRoomSeatItem>) -> nat
    decreases seats.len(),
{
    if seats.len() == 0 {
        0
    } else {
        active_count(seats.drop_last()) + if active_status(seats.last().status@) {
            1nat
        } else {
            0nat
        }
    }
}

/// The number of active seats, as the `i32` the room carries.
pub fn active_seat_count(seats: &[GameRoomSeatItem]) -> (r: i32)
    ensures
        r == #[verifier::truncate] ((active_count(seats@) as int) as i32),
{
    let mut count: usize = 0;
    let mut j: usize = 0;
    while j < seats.len()
        invariant
            j <= seats@.len(),
            count == active_count(seats@.subrange(0, j as int)),
            count <= j,
        decreases seats@.len() - j,
    {
        proof {
            let sub = seats@.subrange(0, j + 1);
            assert(sub.drop_last() =~= seats@.subrange(0, j as int));
            assert(sub.last() == seats@[j as int]);
        }
        if is_active_seat_status(seats[j].status.as_str()) {
            count = count + 1;
        }
        j = j + 1;
    }
    assert(seats@.subrange(0, seats@.len() as int) =~= seats@);
    let ghost total: int = active_count(seats@) as int;
    assert(count as int == total);
    #[verifier::truncate] (count as i32)
}

/// Maps a database driver failure, given by its text, to an `invalid` room error.
pub fn map_sqlx_error(error_text: &str) -> (r: GameRoomError)
    ensures
        r.error_code() == "invalid"@,
        r.error_message() == error_text@,
{
    GameRoomError::invalid(error_text)
}

/// A room as a database row holds it; a missing host reads as the empty text.
#[derive(Debug, Clone, PartialEq, Eq)]
pub struct RoomRow {
    pub id: String,
    pub game_id: String,
    pub mode_id: Option<String>,
    pub ruleset_id: Option<String>,
    pub room_code: String,
    pub host_user_id: Option<String>,
    pub visibility: String,
    pub join_policy: String,
    pub max_players: i32,
    pub current_players: i32,
    pub status: String,
    pub version: i64,
}

/// Whether `item` is the room `row` holds.
pub open spec fn room_of_row(row: RoomRow, item: GameRoomItem) -> bool {
    &&& item.id == row.id
    &&& item.game_id == row.game_id
    &&& item.mode_id == row.mode_id
    &&& item.ruleset_id == row.ruleset_id
    &&& item.room_code == row.room_code
    &&& item.host_user_id@ == match row.host_user_id {
        Some(h) => h@,
        None => Seq::empty(),
    }
    &&& item.visibility == row.visibility
    &&& item.join_policy == row.join_policy
    &&& item.max_players == row.max_players
    &&& item.current_players == row.current_players
    &&& item.status == row.status
    &&& item.version == row.version
}

impl RoomRow {
    /// The room the row holds.
    pub fn into_item(self) -> (r: GameRoomItem)
        ensures
            room_of_row(self, r),
    {
        let host = match self.host_user_id {
            Some(h) => h,
            None => String::new(),
        };
        GameRoomItem {
            id: self.id,
            game_id: self.game_id,
            mode_id: self.mode_id,
            ruleset_id: self.ruleset_id,
            room_code: self.room_code,
            host_user_id: host,
            visibility: self.visibility,
            join_policy: self.join_policy,
            max_players: self.max_players,
            current_players: self.current_players,
            status: self.status,
            version: self.version,
        }
    }

    /// The room the row holds, leaving the row in place.
    pub fn to_item(&self) -> (r: GameRoomItem)
        ensures
            room_of_row(*self, r),
    {
        let host = match &self.host_user_id {
            Some(h) => h.clone(),
            None => String::new(),
        };
        GameRoomItem {
            id: self.id.clone(),
            game_id: self.game_id.clone(),
            mode_id: copy_opt(&self.mode_id),
            ruleset_id: copy_opt(&self.ruleset_id),
            room_code: self.room_code.clone(),
            host_user_id: host,
            visibility: self.visibility.clone(),
            join_policy: self.join_policy.clone(),
            max_players: self.max_players,
            current_players: self.current_players,
            status: self.status.clone(),
            version: self.version,
        }
    }
}

/// A seat as a database row holds it.
#[derive(Debug, Clone, PartialEq, Eq)]
pub struct SeatRow {
    pub id: String,
    pub room_id: String,
    pub seat_no: i32,
    pub team_no: Option<i32>,
    pub user_id: Option<String>,
    pub display_name_snapshot: Option<String>,
    pub status: String,
    pub version: i64,
}

/// The seat a row holds, field for field.
pub open spec fn seat_of_row(row: SeatRow) -> GameRoomSeatItem {
    GameRoomSeatItem {
        id: row.id,
        room_id: row.room_id,
        seat_no: row.seat_no,
        team_no: row.team_no,
        user_id: row.user_id,
        display_name_snapshot: row.display_name_snapshot,
        status: row.status,
        version: row.version,
    }
}

impl SeatRow {
    /// The seat the row holds.
    pub fn into_item(self) -> (r: GameRoomSeatItem)
        ensures
            r == seat_of_row(self),
    {
        GameRoomSeatItem {
            id: self.id,
            room_id: self.room_id,
            seat_no: self.seat_no,
            team_no: self.team_no,
            user_id: self.user_id,
            display_name_snapshot: self.display_name_snapshot,
            status: self.status,
            version: self.version,
        }
    }
}

/// A page of rooms from the rows of one database page.
pub fn page_from_rows(rows: Vec<RoomRow>, total: i64, limit: i64, offset: i64) -> (r: GameRoomPage)
    requires
        0 <= offset,
        1 <= limit,
        offset / limit < i64::MAX,
    ensures
        r.items@.len() == rows@.len(),
        forall|k: int| 0 <= k < rows@.len() ==> room_of_row(rows@[k], #[trigger] r.items@[k]),
        r.total == #[verifier::truncate] (total as u64),
        r.page == #[verifier::truncate] (((offset / limit) + 1) as u32),
        r.page_size == #[verifier::truncate] (limit as u32),
{
    let mut items: Vec<GameRoomItem> = Vec::new();
    let n = rows.len();
    let mut i: usize = 0;
    while i < n
        invariant
            n == rows@.len(),
            i <= n,
            items@.len() == i,
            forall|k: int| 0 <= k < i ==> room_of_row(rows@[k], #[trigger] items@[k]),
        decreases n - i,
    {
        items.push(rows[i].to_item());
        i = i + 1;
    }
    GameRoomPage {
        items,
        total: #[verifier::truncate] (total as u64),
        page: page_number(offset, limit),
        page_size: #[verifier::truncate] (limit as u32),
    }
}

} // verus!
