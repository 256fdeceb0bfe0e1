//! Game rooms held in memory: rooms and their seats, joining the lowest free seat,
//! leaving, readiness, starting and closing, each guarded by the room's version.
use vstd::prelude::*;
use crate::paging::{offset_fits, take_page};
use crate::rooms::{
    active_count, active_status, is_active_seat_status, room_fails_with, room_version_matches,
    stale_room_message, CloseGameRoomCommand, CreateGameRoomCommand, GameRoomError,
    GameRoomItem, GameRoomPage, GameRoomQuery, GameRoomResult, GameRoomSeatItem,
    JoinGameRoomCommand, LeaveGameRoomCommand, ReadyGameRoomCommand, StartGameRoomCommand,
};
use crate::search::{first_index, lemma_first_index, lemma_first_index_is, lemma_first_index_none};
use crate::sorting::{
    arrange, key_views, listed_page, stable_order, stable_sort_order, SortPart, SortValue,
};
use crate::text::{blank, copy_opt, is_blank, text_eq};

verus! {

/// A room with the tenant it belongs to.
#[derive(Debug, Clone, PartialEq, Eq)]
pub struct StoredRoom {
    pub tenant_id: String,
    pub item: GameRoomItem,
}

/// A seat with the tenant it belongs to.
#[derive(Debug, Clone, PartialEq, Eq)]
pub struct StoredSeat {
    pub tenant_id: String,
    pub item: GameRoomSeatItem,
}

/// Rooms and seats held in memory.
pub struct InMemoryGameRoomRepository {
    rooms: Vec<StoredRoom>,
    seats: Vec<StoredSeat>,
}

/// The room of `tenant` named `name`, by id or by room code.
pub open spec fn room_named(tenant: Seq<char>, name: Seq<char>) -> spec_fn(StoredRoom) -> bool {
    |s: StoredRoom| s.tenant_id@ == tenant && (s.item.id@ == name || s.item.room_code@ == name)
}

/// The room of `tenant` with id `id`.
pub open spec fn room_with_id(tenant: Seq<char>, id: Seq<char>) -> spec_fn(StoredRoom) -> bool {
    |s: StoredRoom| s.tenant_id@ == tenant && s.item.id@ == id
}

/// Whether an active seat of room `room` of `tenant` has number `n`.
pub open spec fn seat_held(s: Seq<StoredSeat>, tenant: Seq<char>, room: Seq<char>, n: i32) -> bool {
    exists|j: int|
        0 <= j < s.len() && (#[trigger] s[j]).tenant_id@ == tenant && s[j].item.room_id@ == room
            && s[j].item.seat_no == n && active_status(s[j].item.status@)
}

/// The lowest seat number from `n` up to `max` that no active seat of the room holds.
pub open spec fn free_seat_from(s: Seq<StoredSeat>, tenant: Seq<char>, room: Seq<char>, n: int, max: int) -> Option<i32>
    decreases max + 1 - n,
{
    if n > max || n < 1 || max > i32::MAX {
        None
    } else if !seat_held(s, tenant, room, n as i32) {
        Some(n as i32)
    } else {
        free_seat_from(s, tenant, room, n + 1, max)
    }
}

/// The seat number a join takes: the lowest free one of the room whose id the request
/// names, up to its capacity; none when no room has that id.
pub open spec fn join_seat_no(rooms: Seq<StoredRoom>, s: Seq<StoredSeat>, tenant: Seq<char>, room: Seq<char>) -> Option<i32> {
    match first_index(rooms, room_with_id(tenant, room)) {
        Some(k) => free_seat_from(s, tenant, room, 1, rooms[k].item.max_players as int),
        None => None,
    }
}

/// An inactive seat of room `room` of `tenant` with number `n`, to be reused.
pub open spec fn reusable_seat(tenant: Seq<char>, room: Seq<char>, n: i32) -> spec_fn(StoredSeat) -> bool {
    |s: StoredSeat| s.tenant_id@ == tenant && s.item.room_id@ == room && s.item.seat_no == n
        && !active_status(s.item.status@)
}

/// The active seat of `user` in room `room` of `tenant`.
pub open spec fn active_seat_of(tenant: Seq<char>, room: Seq<char>, user: Seq<char>) -> spec_fn(StoredSeat) -> bool {
    |s: StoredSeat| s.tenant_id@ == tenant && s.item.room_id@ == room && match s.item.user_id {
        Some(u) => u@ == user,
        None => false,
    } && active_status(s.item.status@)
}

/// The seats of room `room` of `tenant`, in store order.
pub open spec fn room_seats(s: Seq<StoredSeat>, tenant: Seq<char>, room: Seq<char>) -> Seq<GameRoomSeatItem>
    decreases s.len(),
{
    if s.len() == 0 {
        Seq::empty()
    } else if s.last().tenant_id@ == tenant && s.last().item.room_id@ == room {
        room_seats(s.drop_last(), tenant, room).push(s.last().item)
    } else {
        room_seats(s.drop_last(), tenant, room)
    }
}

/// The number of players a room holds: its active seats, as the `i32` it carries.
pub open spec fn player_count(s: Seq<StoredSeat>, tenant: Seq<char>, room: Seq<char>) -> i32 {
    #[verifier::truncate] ((active_count(room_seats(s, tenant, room)) as int) as i32)
}

/// Whether `new` is `old` with a new status and its version bumped.
pub open spec fn seat_moved(old: GameRoomSeatItem, new: GameRoomSeatItem, status: Seq<char>) -> bool {
    &&& new.id == old.id
    &&& new.room_id == old.room_id
    &&& new.seat_no == old.seat_no
    &&& new.team_no == old.team_no
    &&& new.user_id == old.user_id
    &&& new.display_name_snapshot == old.display_name_snapshot
    &&& new.status@ == status
    &&& new.version == old.version + 1
}

/// Whether `new` is `old` taken by the joining player.
pub open spec fn seat_taken_by(old: GameRoomSeatItem, new: GameRoomSeatItem, c: JoinGameRoomCommand) -> bool {
    &&& new.id == old.id
    &&& new.room_id == old.room_id
    &&& new.seat_no == old.seat_no
    &&& new.team_no == old.team_no
    &&& new.user_id == Some(c.user_id)
    &&& new.display_name_snapshot == c.display_name_snapshot
    &&& new.status@ == "joined"@
    &&& new.version == old.version + 1
}

/// Whether `new` is the seat a join opens: number `n`, id `id`, the player's, `joined`.
pub open spec fn seat_opened(new: GameRoomSeatItem, c: JoinGameRoomCommand, n: i32, id: String) -> bool {
    &&& new.id == id
    &&& new.room_id == c.room_id
    &&& new.seat_no == n
    &&& new.team_no is None
    &&& new.user_id == Some(c.user_id)
    &&& new.display_name_snapshot == c.display_name_snapshot
    &&& new.status@ == "joined"@
    &&& new.version == 0
}

/// Whether `new` is `old` with a new player count and its version bumped.
pub open spec fn room_recounted(old: GameRoomItem, new: GameRoomItem, players: i32) -> bool {
    &&& new.id == old.id
    &&& new.game_id == old.game_id
    &&& new.mode_id == old.mode_id
    &&& new.ruleset_id == old.ruleset_id
    &&& new.room_code == old.room_code
    &&& new.host_user_id == old.host_user_id
    &&& new.visibility == old.visibility
    &&& new.join_policy == old.join_policy
    &&& new.max_players == old.max_players
    &&& new.current_players == players
    &&& new.status == old.status
    &&& new.version == old.version + 1
}

/// Whether `new` is `old` with a new status and player count and its version bumped.
pub open spec fn room_moved(old: GameRoomItem, new: GameRoomItem, status: Seq<char>, players: i32) -> bool {
    &&& new.id == old.id
    &&& new.game_id == old.game_id
    &&& new.mode_id == old.mode_id
    &&& new.ruleset_id == old.ruleset_id
    &&& new.room_code == old.room_code
    &&& new.host_user_id == old.host_user_id
    &&& new.visibility == old.visibility
    &&& new.join_policy == old.join_policy
    &&& new.max_players == old.max_players
    &&& new.current_players == players
    &&& new.status@ == status
    &&& new.version == old.version + 1
}

pub open spec fn room_missing_message() -> Seq<char> {
    "room not found"@
}

pub open spec fn room_full_message() -> Seq<char> {
    "room is full"@
}

pub open spec fn seat_missing_message() -> Seq<char> {
    "active room seat not found"@
}

/// The checks every room change makes first: the room named by the request exists
/// (`not_found`) and has the expected version (`conflict`). When either fails, nothing
/// changes; `then` says what a change that passes them does to the room at `i`.
pub open spec fn room_change(
    r0: Seq<StoredRoom>,
    s0: Seq<StoredSeat>,
    tenant: Seq<char>,
    room: Seq<char>,
    expected: Option<i64>,
    r1: Seq<StoredRoom>,
    s1: Seq<StoredSeat>,
    result: GameRoomResult<GameRoomItem>,
    then: spec_fn(int) -> bool,
) -> bool {
    match first_index(r0, room_named(tenant, room)) {
        None => r1 == r0 && s1 == s0 && room_fails_with(result, "not_found"@, room_missing_message()),
        Some(i) => if !room_version_matches(r0[i].item.version, expected) {
            r1 == r0 && s1 == s0 && room_fails_with(result, "conflict"@, stale_room_message())
        } else {
            then(i)
        },
    }
}

/// The room at `i` replaced by `new`, which comes back.
pub open spec fn room_becomes(r0: Seq<StoredRoom>, i: int, r1: Seq<StoredRoom>, result: GameRoomResult<GameRoomItem>, new: GameRoomItem) -> bool {
    &&& r1 == r0.update(i, StoredRoom { tenant_id: r0[i].tenant_id, item: new })
    &&& result == Ok::<GameRoomItem, GameRoomError>(new)
}

/// What a join does past the common checks: no free seat is `invalid` (nothing changes);
/// otherwise the player takes the lowest free seat (reusing an inactive seat of that
/// number, or opening one with id `seat_id`), and the room is recounted.
pub open spec fn join_post(
    r0: Seq<StoredRoom>,
    s0: Seq<StoredSeat>,
    tenant: Seq<char>,
    c: JoinGameRoomCommand,
    seat_id: String,
    r1: Seq<StoredRoom>,
    s1: Seq<StoredSeat>,
    result: GameRoomResult<GameRoomItem>,
) -> bool {
    room_change(
        r0,
        s0,
        tenant,
        c.room_id@,
        c.expected_version,
        r1,
        s1,
        result,
        |i: int|
            match join_seat_no(r0, s0, tenant, c.room_id@) {
                None => r1 == r0 && s1 == s0 && room_fails_with(result, "invalid"@, room_full_message()),
                Some(n) => {
                    &&& match first_index(s0, reusable_seat(tenant, c.room_id@, n)) {
                        Some(j) => {
                            &&& s1.len() == s0.len()
                            &&& forall|m: int| 0 <= m < s0.len() && m != j ==> s1[m] == s0[m]
                            &&& s1[j].tenant_id == s0[j].tenant_id
                            &&& seat_taken_by(s0[j].item, s1[j].item, c)
                        },
                        None => {
                            &&& s1.len() == s0.len() + 1
                            &&& s1.drop_last() == s0
                            &&& s1.last().tenant_id@ == tenant
                            &&& seat_opened(s1.last().item, c, n, seat_id)
                        },
                    }
                    &&& exists|new: GameRoomItem|
                        room_recounted(
                            r0[i].item,
                            new,
                            player_count(s1, r0[i].tenant_id@, r0[i].item.id@),
                        ) && #[trigger] room_becomes(r0, i, r1, result, new)
                },
            },
    )
}

/// What a leave, or a readiness change, does past the common checks: the player's active
/// seat moves to `status` (`not_found` when there is none, nothing changing then), and
/// the room is recounted when `recount` is set.
pub open spec fn seat_change_post(
    r0: Seq<StoredRoom>,
    s0: Seq<StoredSeat>,
    tenant: Seq<char>,
    room: Seq<char>,
    user: Seq<char>,
    expected: Option<i64>,
    status: Seq<char>,
    recount: bool,
    r1: Seq<StoredRoom>,
    s1: Seq<StoredSeat>,
    result: GameRoomResult<GameRoomItem>,
) -> bool {
    room_change(
        r0,
        s0,
        tenant,
        room,
        expected,
        r1,
        s1,
        result,
        |i: int|
            match first_index(s0, active_seat_of(tenant, room, user)) {
                None => r1 == r0 && s1 == s0 && room_fails_with(result, "not_found"@, seat_missing_message()),
                Some(j) => {
                    &&& s1.len() == s0.len()
                    &&& forall|m: int| 0 <= m < s0.len() && m != j ==> s1[m] == s0[m]
                    &&& s1[j].tenant_id == s0[j].tenant_id
                    &&& seat_moved(s0[j].item, s1[j].item, status)
                    &&& exists|new: GameRoomItem|
                        room_recounted(
                            r0[i].item,
                            new,
                            if recount {
                                player_count(s1, r0[i].tenant_id@, r0[i].item.id@)
                            } else {
                                r0[i].item.current_players
                            },
                        ) && #[trigger] room_becomes(r0, i, r1, result, new)
                },
            },
    )
}

/// Whether a seat is an active seat of room `room` of `tenant`.
pub open spec fn active_in(s: StoredSeat, tenant: Seq<char>, room: Seq<char>) -> bool {
    s.tenant_id@ == tenant && s.item.room_id@ == room && active_status(s.item.status@)
}

/// What a start or a close does past the common checks: every active seat of the room
/// moves to `seat_status`, and the room to `room_status` with `players` players (its
/// own count when `players` is `None`).
pub open spec fn room_move_post(
    r0: Seq<StoredRoom>,
    s0: Seq<StoredSeat>,
    tenant: Seq<char>,
    room: Seq<char>,
    expected: Option<i64>,
    seat_status: Seq<char>,
    room_status: Seq<char>,
    players: Option<i32>,
    r1: Seq<StoredRoom>,
    s1: Seq<StoredSeat>,
    result: GameRoomResult<GameRoomItem>,
) -> bool {
    room_change(
        r0,
        s0,
        tenant,
        room,
        expected,
        r1,
        s1,
        result,
        |i: int|
            {
                &&& s1.len() == s0.len()
                &&& forall|m: int|
                    0 <= m < s0.len() ==> if active_in(#[trigger] s0[m], tenant, room) {
                        s1[m].tenant_id == s0[m].tenant_id && seat_moved(s0[m].item, s1[m].item, seat_status)
                    } else {
                        s1[m] == s0[m]
                    }
                &&& exists|new: GameRoomItem|
                    room_moved(
                        r0[i].item,
                        new,
                        room_status,
                        match players {
                            Some(p) => p,
                            None => r0[i].item.current_players,
                        },
                    ) && #[trigger] room_becomes(r0, i, r1, result, new)
            },
    )
}

/// Whether some room of `tenant` has code `code`.
pub open spec fn code_in_use(r: Seq<StoredRoom>, tenant: Seq<char>, code: Seq<char>) -> bool {
    exists|i: int| 0 <= i < r.len() && (#[trigger] r[i]).tenant_id@ == tenant && r[i].item.room_code@ == code
}

/// What opening a room does: `invalid` when the tenant uses its code already (nothing
/// changes); otherwise an `open` room with id `room_id` is added, holding its host when
/// one is named, whose seat number 1 (with id `seat_id`) is then added too.
pub open spec fn create_room_post(
    r0: Seq<StoredRoom>,
    s0: Seq<StoredSeat>,
    tenant: Seq<char>,
    c: CreateGameRoomCommand,
    room_id: String,
    seat_id: String,
    r1: Seq<StoredRoom>,
    s1: Seq<StoredSeat>,
    result: GameRoomResult<GameRoomItem>,
) -> bool {
    if code_in_use(r0, tenant, c.room_code@) {
        r1 == r0 && s1 == s0 && room_fails_with(result, "invalid"@, "room_code already exists"@)
    } else {
        match result {
            Ok(room) => {
                &&& room.id == room_id
                &&& room.game_id == c.game_id
                &&& room.mode_id == c.mode_id
                &&& room.ruleset_id == c.ruleset_id
                &&& room.room_code == c.room_code
                &&& room.host_user_id == c.host_user_id
                &&& room.visibility == c.visibility
                &&& room.join_policy == c.join_policy
                &&& room.max_players == c.max_players
                &&& room.current_players == if blank(c.host_user_id@) {
                    0i32
                } else {
                    1i32
                }
                &&& room.status@ == "open"@
                &&& room.version == 0
                &&& r1.len() == r0.len() + 1
                &&& r1.drop_last() == r0
                &&& r1.last().tenant_id@ == tenant
                &&& r1.last().item == room
                &&& if blank(c.host_user_id@) {
                    s1 == s0
                } else {
                    &&& s1.len() == s0.len() + 1
                    &&& s1.drop_last() == s0
                    &&& s1.last().tenant_id@ == tenant
                    &&& s1.last().item.id == seat_id
                    &&& s1.last().item.room_id == room_id
                    &&& s1.last().item.seat_no == 1
                    &&& s1.last().item.team_no is None
                    &&& s1.last().item.user_id == Some(c.host_user_id)
                    &&& s1.last().item.display_name_snapshot is None
                    &&& s1.last().item.status@ == "joined"@
                    &&& s1.last().item.version == 0
                }
            },
            Err(_) => false,
        }
    }
}

/// Whether the versions a join bumps can grow inside `i64`: when the join goes through,
/// the room's, and the reused seat's when a seat is reused.
pub open spec fn join_fits(r: Seq<StoredRoom>, s: Seq<StoredSeat>, tenant: Seq<char>, c: JoinGameRoomCommand) -> bool {
    match first_index(r, room_named(tenant, c.room_id@)) {
        Some(i) => room_version_matches(r[i].item.version, c.expected_version) ==> match join_seat_no(
            r,
            s,
            tenant,
            c.room_id@,
        ) {
            Some(n) => r[i].item.version < i64::MAX && match first_index(s, reusable_seat(tenant, c.room_id@, n)) {
                Some(j) => s[j].item.version < i64::MAX,
                None => true,
            },
            None => true,
        },
        None => true,
    }
}

/// Whether the versions a leave or a readiness change bumps can grow inside `i64`: when
/// it goes through, the room's and the player's seat's.
pub open spec fn seat_change_fits(
    r: Seq<StoredRoom>,
    s: Seq<StoredSeat>,
    tenant: Seq<char>,
    room: Seq<char>,
    user: Seq<char>,
    expected: Option<i64>,
) -> bool {
    match first_index(r, room_named(tenant, room)) {
        Some(i) => room_version_matches(r[i].item.version, expected) ==> match first_index(
            s,
            active_seat_of(tenant, room, user),
        ) {
            Some(j) => r[i].item.version < i64::MAX && s[j].item.version < i64::MAX,
            None => true,
        },
        None => true,
    }
}

/// Whether the versions a start or a close bumps can grow inside `i64`: when it goes
/// through, the room's and those of the room's active seats.
pub open spec fn room_move_fits(r: Seq<StoredRoom>, s: Seq<StoredSeat>, tenant: Seq<char>, room: Seq<char>, expected: Option<i64>) -> bool {
    match first_index(r, room_named(tenant, room)) {
        Some(i) => room_version_matches(r[i].item.version, expected) ==> {
            &&& r[i].item.version < i64::MAX
            &&& forall|m: int| 0 <= m < s.len() && active_in(#[trigger] s[m], tenant, room) ==> s[m].item.version < i64::MAX
        },
        None => true,
    }
}

/// Whether a room matches a listing: its game when one is named, its status when a
/// non-blank one is named.
pub open spec fn room_matches(room: GameRoomItem, q: GameRoomQuery) -> bool {
    &&& match q.game_id {
        Some(g) => room.game_id@ == g@,
        None => true,
    }
    &&& match q.status {
        Some(st) => blank(st@) || room.status@ == st@,
        None => true,
    }
}

/// The rooms of `tenant` that match a listing, in store order.
pub open spec fn matching_rooms(r: Seq<StoredRoom>, tenant: Seq<char>, q: GameRoomQuery) -> Seq<GameRoomItem>
    decreases r.len(),
{
    if r.len() == 0 {
        Seq::empty()
    } else if r.last().tenant_id@ == tenant && room_matches(r.last().item, q) {
        matching_rooms(r.drop_last(), tenant, q).push(r.last().item)
    } else {
        matching_rooms(r.drop_last(), tenant, q)
    }
}

/// Rooms are listed by version, highest first.
pub open spec fn room_sort_key(room: GameRoomItem) -> Seq<SortPart> {
    seq![SortPart { value: SortValue::Number(room.version), descending: true }]
}

/// Seats are listed by seat number.
pub open spec fn seat_sort_key(seat: GameRoomSeatItem) -> Seq<SortPart> {
    seq![SortPart { value: SortValue::Number(seat.seat_no as i64), descending: false }]
}

/// Whether no two active seats of one room share a seat number.
pub open spec fn seats_distinct(s: Seq<StoredSeat>) -> bool {
    forall|j: int, k: int|
        0 <= j < k < s.len() ==> !(active_status(#[trigger] s[j].item.status@) && active_status(
            #[trigger] s[k].item.status@,
        ) && s[j].tenant_id@ == s[k].tenant_id@ && s[j].item.room_id@ == s[k].item.room_id@
            && s[j].item.seat_no == s[k].item.seat_no)
}

/// A copy of a room.
pub fn copy_room(r: &GameRoomItem) -> (c: GameRoomItem)
    ensures
        c == *r,
{
    GameRoomItem {
        id: r.id.clone(),
        game_id: r.game_id.clone(),
        mode_id: copy_opt(&r.mode_id),
        ruleset_id: copy_opt(&r.ruleset_id),
        room_code: r.room_code.clone(),
        host_user_id: r.host_user_id.clone(),
        visibility: r.visibility.clone(),
        join_policy: r.join_policy.clone(),
        max_players: r.max_players,
        current_players: r.current_players,
        status: r.status.clone(),
        version: r.version,
    }
}

/// A copy of a seat.
pub fn copy_seat(s: &GameRoomSeatItem) -> (c: GameRoomSeatItem)
    ensures
        c == *s,
{
    GameRoomSeatItem {
        id: s.id.clone(),
        room_id: s.room_id.clone(),
        seat_no: s.seat_no,
        team_no: s.team_no,
        user_id: copy_opt(&s.user_id),
        display_name_snapshot: copy_opt(&s.display_name_snapshot),
        status: s.status.clone(),
        version: s.version,
    }
}

/// A seat with a new status and its version bumped.
fn move_seat(s: &GameRoomSeatItem, status: &str) -> (c: GameRoomSeatItem)
    requires
        s.version < i64::MAX,
    ensures
        seat_moved(*s, c, status@),
{
    GameRoomSeatItem {
        id: s.id.clone(),
        room_id: s.room_id.clone(),
        seat_no: s.seat_no,
        team_no: s.team_no,
        user_id: copy_opt(&s.user_id),
        display_name_snapshot: copy_opt(&s.display_name_snapshot),
        status: String::from_str(status),
        version: s.version + 1,
    }
}

/// A room with a new status and player count and its version bumped.
fn move_room(r: &GameRoomItem, status: Option<&str>, players: i32) -> (c: GameRoomItem)
    requires
        r.version < i64::MAX,
    ensures
        match status {
            Some(st) => room_moved(*r, c, st@, players),
            None => room_recounted(*r, c, players),
        },
{
    let new_status = match status {
        Some(st) => String::from_str(st),
        None => r.status.clone(),
    };
    GameRoomItem {
        id: r.id.clone(),
        game_id: r.game_id.clone(),
        mode_id: copy_opt(&r.mode_id),
        ruleset_id: copy_opt(&r.ruleset_id),
        room_code: r.room_code.clone(),
        host_user_id: r.host_user_id.clone(),
        visibility: r.visibility.clone(),
        join_policy: r.join_policy.clone(),
        max_players: r.max_players,
        current_players: players,
        status: new_status,
        version: r.version + 1,
    }
}

/// The seat a join picks is free: no active seat of the room holds its number.
proof fn lemma_free_seat_is_free(s: Seq<StoredSeat>, tenant: Seq<char>, room: Seq<char>, k: int, max: int)
    ensures
        free_seat_from(s, tenant, room, k, max) matches Some(n) ==> !seat_held(s, tenant, room, n)
            && k <= n <= max,
    decreases max + 1 - k,
{
    if !(k > max || k < 1 || max > i32::MAX) && seat_held(s, tenant, room, k as i32) {
        lemma_free_seat_is_free(s, tenant, room, k + 1, max);
    }
}

/// A join never seats two players on one seat: if no two active seats of a room shared
/// a number before, none do after.
pub proof fn law_join_keeps_seats_distinct(
    r0: Seq<StoredRoom>,
    s0: Seq<StoredSeat>,
    tenant: Seq<char>,
    c: JoinGameRoomCommand,
    seat_id: String,
    r1: Seq<StoredRoom>,
    s1: Seq<StoredSeat>,
    result: GameRoomResult<GameRoomItem>,
)
    requires
        seats_distinct(s0),
        join_post(r0, s0, tenant, c, seat_id, r1, s1, result),
    ensures
        seats_distinct(s1),
{
    if let Some(i) = first_index(r0, room_named(tenant, c.room_id@)) {
        if room_version_matches(r0[i].item.version, c.expected_version) {
            if let Some(n) = join_seat_no(r0, s0, tenant, c.room_id@) {
                if let Some(k) = first_index(r0, room_with_id(tenant, c.room_id@)) {
                    lemma_free_seat_is_free(s0, tenant, c.room_id@, 1, r0[k].item.max_players as int);
                }
                assert(!seat_held(s0, tenant, c.room_id@, n));
                let p = reusable_seat(tenant, c.room_id@, n);
                lemma_first_index(s0, p);
                match first_index(s0, p) {
                    Some(j) => {
                        assert forall|a: int, b: int| 0 <= a < b < s1.len() implies !(active_status(
                            #[trigger] s1[a].item.status@,
                        ) && active_status(#[trigger] s1[b].item.status@) && s1[a].tenant_id@ == s1[b].tenant_id@
                            && s1[a].item.room_id@ == s1[b].item.room_id@ && s1[a].item.seat_no == s1[b].item.seat_no) by {
                            if a == j {
                                assert(s1[b] == s0[b]);
                                if active_status(s1[b].item.status@) && s1[a].tenant_id@ == s1[b].tenant_id@
                                    && s1[a].item.room_id@ == s1[b].item.room_id@ && s1[a].item.seat_no == s1[b].item.seat_no {
                                    assert(seat_held(s0, tenant, c.room_id@, n));
                                }
                            } else if b == j {
                                assert(s1[a] == s0[a]);
                                if active_status(s1[a].item.status@) && s1[a].tenant_id@ == s1[b].tenant_id@
                                    && s1[a].item.room_id@ == s1[b].item.room_id@ && s1[a].item.seat_no == s1[b].item.seat_no {
                                    assert(seat_held(s0, tenant, c.room_id@, n));
                                }
                            } else {
                                assert(s1[a] == s0[a] && s1[b] == s0[b]);
                            }
                        }
                    },
                    None => {
                        let x = s1.last();
                        assert(s1 =~= s0.push(x));
                        assert forall|a: int, b: int| 0 <= a < b < s1.len() implies !(active_status(
                            #[trigger] s1[a].item.status@,
                        ) && active_status(#[trigger] s1[b].item.status@) && s1[a].tenant_id@ == s1[b].tenant_id@
                            && s1[a].item.room_id@ == s1[b].item.room_id@ && s1[a].item.seat_no == s1[b].item.seat_no) by {
                            assert(s1[a] == s0[a]);
                            if b == s0.len() {
                                if active_status(s1[a].item.status@) && s1[a].tenant_id@ == s1[b].tenant_id@
                                    && s1[a].item.room_id@ == s1[b].item.room_id@ && s1[a].item.seat_no == s1[b].item.seat_no {
                                    assert(seat_held(s0, tenant, c.room_id@, n));
                                }
                            } else {
                                assert(s1[b] == s0[b]);
                            }
                        }
                    },
                }
            }
        }
    }
}

/// A join that passed with an expected version bumps the room's version: the same join
/// again is refused with `conflict`, and changes nothing.
pub proof fn law_repeated_join_is_refused(
    r0: Seq<StoredRoom>,
    s0: Seq<StoredSeat>,
    tenant: Seq<char>,
    c: JoinGameRoomCommand,
    seat_id1: String,
    r1: Seq<StoredRoom>,
    s1: Seq<StoredSeat>,
    result1: GameRoomResult<GameRoomItem>,
    seat_id2: String,
    r2: Seq<StoredRoom>,
    s2: Seq<StoredSeat>,
    result2: GameRoomResult<GameRoomItem>,
)
    requires
        c.expected_version is Some,
        join_post(r0, s0, tenant, c, seat_id1, r1, s1, result1),
        result1 is Ok,
        join_post(r1, s1, tenant, c, seat_id2, r2, s2, result2),
    ensures
        r2 == r1,
        s2 == s1,
        room_fails_with(result2, "conflict"@, stale_room_message()),
{
    let p = room_named(tenant, c.room_id@);
    lemma_first_index(r0, p);
    let i = first_index(r0, p)->Some_0;
    let n = join_seat_no(r0, s0, tenant, c.room_id@)->Some_0;
    let new = choose|new: GameRoomItem|
        room_recounted(r0[i].item, new, player_count(s1, r0[i].tenant_id@, r0[i].item.id@))
            && #[trigger] room_becomes(r0, i, r1, result1, new);
    assert forall|j: int| 0 <= j < r1.len() implies p(#[trigger] r1[j]) == p(r0[j]) by {
        if j != i {
            assert(r1[j] == r0[j]);
        }
    }
    assert forall|j: int| 0 <= j < i implies !p(#[trigger] r1[j]) by {
        assert(!p(r0[j]));
    }
    lemma_first_index_is(r1, p, i);
    assert(r1[i].item == new);
}

/// A closed room holds no player: after a close, no seat of the room is active, and the
/// room reports zero players.
pub proof fn law_close_empties_room(
    r0: Seq<StoredRoom>,
    s0: Seq<StoredSeat>,
    tenant: Seq<char>,
    c: CloseGameRoomCommand,
    r1: Seq<StoredRoom>,
    s1: Seq<StoredSeat>,
    result: GameRoomResult<GameRoomItem>,
)
    requires
        room_move_post(r0, s0, tenant, c.room_id@, c.expected_version, "left"@, "closed"@, Some(0), r1, s1, result),
        result is Ok,
    ensures
        forall|m: int| 0 <= m < s1.len() ==> !active_in(#[trigger] s1[m], tenant, c.room_id@),
        result->Ok_0.current_players == 0,
        result->Ok_0.status@ == "closed"@,
{
    let p = room_named(tenant, c.room_id@);
    let i = first_index(r0, p)->Some_0;
    let new = choose|new: GameRoomItem|
        room_moved(r0[i].item, new, "closed"@, 0) && #[trigger] room_becomes(r0, i, r1, result, new);
    assert(!active_status("left"@)) by {
        reveal_strlit("left");
        reveal_strlit("reserved");
        reveal_strlit("joined");
        reveal_strlit("ready");
        reveal_strlit("playing");
        assert("left"@.len() != "reserved"@.len());
        assert("left"@.len() != "joined"@.len());
        assert("left"@[0] != "ready"@[0]);
        assert("left"@.len() != "playing"@.len());
    }
    assert forall|m: int| 0 <= m < s1.len() implies !active_in(#[trigger] s1[m], tenant, c.room_id@) by {
        if active_in(s0[m], tenant, c.room_id@) {
            assert(s1[m].item.status@ == "left"@);
        } else {
            assert(s1[m] == s0[m]);
        }
    }
}

/// Whether no two rooms of one tenant share an id.
pub open spec fn room_ids_unique(r: Seq<StoredRoom>) -> bool {
    forall|a: int, b: int|
        0 <= a < b < r.len() ==> !((#[trigger] r[a]).tenant_id@ == (#[trigger] r[b]).tenant_id@
            && r[a].item.id@ == r[b].item.id@)
}

/// Whether every active seat belongs to a room of its tenant and holds a seat number from
/// 1 up to that room's capacity.
pub open spec fn seats_within_capacity(r: Seq<StoredRoom>, s: Seq<StoredSeat>) -> bool {
    forall|j: int|
        0 <= j < s.len() && active_status((#[trigger] s[j]).item.status@) ==> exists|k: int|
            0 <= k < r.len() && (#[trigger] r[k]).tenant_id@ == s[j].tenant_id@
                && r[k].item.id@ == s[j].item.room_id@ && 1 <= s[j].item.seat_no <= r[k].item.max_players
}

/// A store of rooms as the operations keep it: room ids unique within a tenant, no two
/// active seats of a room on one number, and every active seat within its room's capacity.
pub open spec fn rooms_valid(r: Seq<StoredRoom>, s: Seq<StoredSeat>) -> bool {
    &&& room_ids_unique(r)
    &&& seats_distinct(s)
    &&& seats_within_capacity(r, s)
}

/// The seat numbers that the active seats of room `room` of `tenant` hold.
pub open spec fn held_numbers(s: Seq<StoredSeat>, tenant: Seq<char>, room: Seq<char>) -> Set<int>
    decreases s.len(),
{
    if s.len() == 0 {
        Set::empty()
    } else if active_in(s.last(), tenant, room) {
        held_numbers(s.drop_last(), tenant, room).insert(s.last().item.seat_no as int)
    } else {
        held_numbers(s.drop_last(), tenant, room)
    }
}

/// With no number held twice, a room has as many active seats as numbers held, and each
/// number held is that of one of its active seats.
proof fn lemma_held_numbers(s: Seq<StoredSeat>, tenant: Seq<char>, room: Seq<char>)
    requires
        seats_distinct(s),
    ensures
        held_numbers(s, tenant, room).finite(),
        held_numbers(s, tenant, room).len() == active_count(room_seats(s, tenant, room)),
        forall|x: int|
            #[trigger] held_numbers(s, tenant, room).contains(x) ==> exists|j: int|
                0 <= j < s.len() && active_in(#[trigger] s[j], tenant, room) && s[j].item.seat_no as int == x,
    decreases s.len(),
{
    if s.len() > 0 {
        let t = s.drop_last();
        let last = s.last();
        assert(s[s.len() - 1] == last);
        assert forall|a: int, b: int| 0 <= a < b < t.len() implies !(active_status(
            #[trigger] t[a].item.status@,
        ) && active_status(#[trigger] t[b].item.status@) && t[a].tenant_id@ == t[b].tenant_id@
            && t[a].item.room_id@ == t[b].item.room_id@ && t[a].item.seat_no == t[b].item.seat_no) by {
            assert(t[a] == s[a] && t[b] == s[b]);
        }
        lemma_held_numbers(t, tenant, room);
        let rest = held_numbers(t, tenant, room);
        if last.tenant_id@ == tenant && last.item.room_id@ == room {
            let rs = room_seats(t, tenant, room);
            assert(rs.push(last.item).drop_last() =~= rs);
            if active_status(last.item.status@) {
                let x = last.item.seat_no as int;
                if rest.contains(x) {
                    let j = choose|j: int|
                        0 <= j < t.len() && active_in(#[trigger] t[j], tenant, room) && t[j].item.seat_no as int == x;
                    assert(s[j] == t[j]);
                    assert(active_status(s[j].item.status@) && active_status(s[s.len() - 1].item.status@));
                }
            }
        }
        assert forall|x: int| #[trigger] held_numbers(s, tenant, room).contains(x) implies exists|j: int|
            0 <= j < s.len() && active_in(#[trigger] s[j], tenant, room) && s[j].item.seat_no as int == x by {
            if rest.contains(x) {
                let j = choose|j: int|
                    0 <= j < t.len() && active_in(#[trigger] t[j], tenant, room) && t[j].item.seat_no as int == x;
                assert(s[j] == t[j]);
            } else {
                assert(active_in(s[s.len() - 1], tenant, room));
            }
        }
    }
}

/// No room holds more players than it has room for: in a valid store, the active seats of
/// a room with a capacity number at most that capacity.
pub proof fn law_room_never_overfull(r: Seq<StoredRoom>, s: Seq<StoredSeat>, k: int)
    requires
        rooms_valid(r, s),
        0 <= k < r.len(),
        r[k].item.max_players >= 0,
    ensures
        active_count(room_seats(s, r[k].tenant_id@, r[k].item.id@)) <= r[k].item.max_players,
{
    let tenant = r[k].tenant_id@;
    let room = r[k].item.id@;
    let max = r[k].item.max_players as int;
    lemma_held_numbers(s, tenant, room);
    let held = held_numbers(s, tenant, room);
    let range = vstd::set_lib::set_int_range(1, max + 1);
    assert forall|x: int| held.contains(x) implies range.contains(x) by {
        let j = choose|j: int| 0 <= j < s.len() && active_in(#[trigger] s[j], tenant, room) && s[j].item.seat_no as int == x;
        assert(active_status(s[j].item.status@));
        let k2 = choose|k2: int|
            0 <= k2 < r.len() && (#[trigger] r[k2]).tenant_id@ == s[j].tenant_id@ && r[k2].item.id@ == s[j].item.room_id@
                && 1 <= s[j].item.seat_no <= r[k2].item.max_players;
        if k2 < k {
            assert(!(r[k2].tenant_id@ == r[k].tenant_id@ && r[k2].item.id@ == r[k].item.id@));
        } else if k < k2 {
            assert(!(r[k].tenant_id@ == r[k2].tenant_id@ && r[k].item.id@ == r[k2].item.id@));
        }
    }
    vstd::set_lib::lemma_int_range(1, max + 1);
    vstd::set_lib::lemma_len_subset(held, range);
}

/// Whether `r1` holds the rooms of `r0`, each with its tenant, id and capacity.
pub open spec fn rooms_kept(r0: Seq<StoredRoom>, r1: Seq<StoredRoom>) -> bool {
    &&& r1.len() == r0.len()
    &&& forall|k: int|
        0 <= k < r0.len() ==> (#[trigger] r1[k]).tenant_id == r0[k].tenant_id && r1[k].item.id == r0[k].item.id
            && r1[k].item.max_players == r0[k].item.max_players
}

/// Whether `s1` holds the seats of `s0` in their places, none of them newly active.
pub open spec fn seats_kept(s0: Seq<StoredSeat>, s1: Seq<StoredSeat>) -> bool {
    &&& s1.len() == s0.len()
    &&& forall|m: int|
        0 <= m < s0.len() ==> {
            &&& (#[trigger] s1[m]).tenant_id == s0[m].tenant_id
            &&& s1[m].item.room_id == s0[m].item.room_id
            &&& s1[m].item.seat_no == s0[m].item.seat_no
            &&& active_status(s1[m].item.status@) ==> active_status(s0[m].item.status@)
        }
}

/// Rooms kept in place keep their ids unique.
proof fn lemma_kept_ids_unique(r0: Seq<StoredRoom>, r1: Seq<StoredRoom>)
    requires
        room_ids_unique(r0),
        rooms_kept(r0, r1),
    ensures
        room_ids_unique(r1),
{
    assert forall|a: int, b: int| 0 <= a < b < r1.len() implies !((#[trigger] r1[a]).tenant_id@
        == (#[trigger] r1[b]).tenant_id@ && r1[a].item.id@ == r1[b].item.id@) by {
        assert(r1[a].tenant_id == r0[a].tenant_id && r1[b].tenant_id == r0[b].tenant_id);
        assert(!(r0[a].tenant_id@ == r0[b].tenant_id@ && r0[a].item.id@ == r0[b].item.id@));
    }
}

/// A change that keeps every room and every seat in place, making no seat newly active,
/// keeps the store valid.
proof fn lemma_kept_store_valid(r0: Seq<StoredRoom>, s0: Seq<StoredSeat>, r1: Seq<StoredRoom>, s1: Seq<StoredSeat>)
    requires
        rooms_valid(r0, s0),
        rooms_kept(r0, r1),
        seats_kept(s0, s1),
    ensures
        rooms_valid(r1, s1),
{
    lemma_kept_ids_unique(r0, r1);
    assert forall|a: int, b: int| 0 <= a < b < s1.len() implies !(active_status(
        #[trigger] s1[a].item.status@,
    ) && active_status(#[trigger] s1[b].item.status@) && s1[a].tenant_id@ == s1[b].tenant_id@
        && s1[a].item.room_id@ == s1[b].item.room_id@ && s1[a].item.seat_no == s1[b].item.seat_no) by {
        assert(s1[a].tenant_id == s0[a].tenant_id && s1[b].tenant_id == s0[b].tenant_id);
        if active_status(s1[a].item.status@) && active_status(s1[b].item.status@) {
            assert(active_status(s0[a].item.status@) && active_status(s0[b].item.status@));
        }
    }
    assert forall|j: int| 0 <= j < s1.len() && active_status((#[trigger] s1[j]).item.status@) implies exists|k: int|
        0 <= k < r1.len() && (#[trigger] r1[k]).tenant_id@ == s1[j].tenant_id@ && r1[k].item.id@ == s1[j].item.room_id@
            && 1 <= s1[j].item.seat_no <= r1[k].item.max_players by {
        assert(s1[j].tenant_id == s0[j].tenant_id);
        assert(active_status(s0[j].item.status@));
        let k = choose|k: int|
            0 <= k < r0.len() && (#[trigger] r0[k]).tenant_id@ == s0[j].tenant_id@ && r0[k].item.id@ == s0[j].item.room_id@
                && 1 <= s0[j].item.seat_no <= r0[k].item.max_players;
        assert(r1[k].tenant_id == r0[k].tenant_id);
    }
}

/// Leaving a room, or a change of readiness, keeps the store of rooms valid.
pub proof fn law_seat_change_keeps_rooms_valid(
    r0: Seq<StoredRoom>,
    s0: Seq<StoredSeat>,
    tenant: Seq<char>,
    room: Seq<char>,
    user: Seq<char>,
    expected: Option<i64>,
    status: Seq<char>,
    recount: bool,
    r1: Seq<StoredRoom>,
    s1: Seq<StoredSeat>,
    result: GameRoomResult<GameRoomItem>,
)
    requires
        rooms_valid(r0, s0),
        seat_change_post(r0, s0, tenant, room, user, expected, status, recount, r1, s1, result),
    ensures
        rooms_valid(r1, s1),
{
    lemma_first_index(r0, room_named(tenant, room));
    if let Some(i) = first_index(r0, room_named(tenant, room)) {
        if room_version_matches(r0[i].item.version, expected) {
            let p = active_seat_of(tenant, room, user);
            lemma_first_index(s0, p);
            if let Some(j) = first_index(s0, p) {
                let new = choose|new: GameRoomItem|
                    #[trigger] room_becomes(r0, i, r1, result, new) && new.id == r0[i].item.id
                        && new.max_players == r0[i].item.max_players;
                assert forall|k: int| 0 <= k < r0.len() implies (#[trigger] r1[k]).tenant_id == r0[k].tenant_id
                    && r1[k].item.id == r0[k].item.id && r1[k].item.max_players == r0[k].item.max_players by {
                    if k != i {
                        assert(r1[k] == r0[k]);
                    }
                }
                assert forall|m: int| 0 <= m < s0.len() implies {
                    &&& (#[trigger] s1[m]).tenant_id == s0[m].tenant_id
                    &&& s1[m].item.room_id == s0[m].item.room_id
                    &&& s1[m].item.seat_no == s0[m].item.seat_no
                    &&& active_status(s1[m].item.status@) ==> active_status(s0[m].item.status@)
                } by {
                    if m != j {
                        assert(s1[m] == s0[m]);
                    }
                }
                lemma_kept_store_valid(r0, s0, r1, s1);
            }
        }
    }
}

/// Starting or closing a room keeps the store of rooms valid.
pub proof fn law_room_move_keeps_rooms_valid(
    r0: Seq<StoredRoom>,
    s0: Seq<StoredSeat>,
    tenant: Seq<char>,
    room: Seq<char>,
    expected: Option<i64>,
    seat_status: Seq<char>,
    room_status: Seq<char>,
    players: Option<i32>,
    r1: Seq<StoredRoom>,
    s1: Seq<StoredSeat>,
    result: GameRoomResult<GameRoomItem>,
)
    requires
        rooms_valid(r0, s0),
        room_move_post(r0, s0, tenant, room, expected, seat_status, room_status, players, r1, s1, result),
    ensures
        rooms_valid(r1, s1),
{
    lemma_first_index(r0, room_named(tenant, room));
    if let Some(i) = first_index(r0, room_named(tenant, room)) {
        if room_version_matches(r0[i].item.version, expected) {
            let new = choose|new: GameRoomItem|
                #[trigger] room_becomes(r0, i, r1, result, new) && new.id == r0[i].item.id
                    && new.max_players == r0[i].item.max_players;
            assert forall|k: int| 0 <= k < r0.len() implies (#[trigger] r1[k]).tenant_id == r0[k].tenant_id
                && r1[k].item.id == r0[k].item.id && r1[k].item.max_players == r0[k].item.max_players by {
                if k != i {
                    assert(r1[k] == r0[k]);
                }
            }
            assert forall|m: int| 0 <= m < s0.len() implies {
                &&& (#[trigger] s1[m]).tenant_id == s0[m].tenant_id
                &&& s1[m].item.room_id == s0[m].item.room_id
                &&& s1[m].item.seat_no == s0[m].item.seat_no
                &&& active_status(s1[m].item.status@) ==> active_status(s0[m].item.status@)
            } by {
                if !active_in(s0[m], tenant, room) {
                    assert(s1[m] == s0[m]);
                }
            }
            lemma_kept_store_valid(r0, s0, r1, s1);
        }
    }
}

/// Joining a room keeps the store of rooms valid: the player takes a free seat numbered
/// within the room's capacity.
pub proof fn law_join_keeps_rooms_valid(
    r0: Seq<StoredRoom>,
    s0: Seq<StoredSeat>,
    tenant: Seq<char>,
    c: JoinGameRoomCommand,
    seat_id: String,
    r1: Seq<StoredRoom>,
    s1: Seq<StoredSeat>,
    result: GameRoomResult<GameRoomItem>,
)
    requires
        rooms_valid(r0, s0),
        join_post(r0, s0, tenant, c, seat_id, r1, s1, result),
    ensures
        rooms_valid(r1, s1),
{
    law_join_keeps_seats_distinct(r0, s0, tenant, c, seat_id, r1, s1, result);
    lemma_first_index(r0, room_named(tenant, c.room_id@));
    if let Some(i) = first_index(r0, room_named(tenant, c.room_id@)) {
        if room_version_matches(r0[i].item.version, c.expected_version) {
            if let Some(n) = join_seat_no(r0, s0, tenant, c.room_id@) {
                let q = room_with_id(tenant, c.room_id@);
                lemma_first_index(r0, q);
                let k0 = first_index(r0, q)->Some_0;
                lemma_free_seat_is_free(s0, tenant, c.room_id@, 1, r0[k0].item.max_players as int);
                assert(1 <= n <= r0[k0].item.max_players);
                let new = choose|new: GameRoomItem|
                    #[trigger] room_becomes(r0, i, r1, result, new) && new.id == r0[i].item.id
                        && new.max_players == r0[i].item.max_players;
                assert forall|k: int| 0 <= k < r0.len() implies (#[trigger] r1[k]).tenant_id == r0[k].tenant_id
                    && r1[k].item.id == r0[k].item.id && r1[k].item.max_players == r0[k].item.max_players by {
                    if k != i {
                        assert(r1[k] == r0[k]);
                    }
                }
                lemma_kept_ids_unique(r0, r1);
                assert(r1[k0].tenant_id == r0[k0].tenant_id);
                let p = reusable_seat(tenant, c.room_id@, n);
                lemma_first_index(s0, p);
                assert forall|j: int| 0 <= j < s1.len() && active_status((#[trigger] s1[j]).item.status@) implies exists|k: int|
                    0 <= k < r1.len() && (#[trigger] r1[k]).tenant_id@ == s1[j].tenant_id@ && r1[k].item.id@ == s1[j].item.room_id@
                        && 1 <= s1[j].item.seat_no <= r1[k].item.max_players by {
                    let taken = match first_index(s0, p) {
                        Some(jr) => j == jr,
                        None => j == s0.len(),
                    };
                    if taken {
                        assert(r1[k0].tenant_id@ == s1[j].tenant_id@ && r1[k0].item.id@ == s1[j].item.room_id@);
                    } else {
                        if first_index(s0, p) is None {
                            assert(s1[j] == s1.drop_last()[j]);
                        }
                        assert(s1[j] == s0[j]);
                        let k = choose|k: int|
                            0 <= k < r0.len() && (#[trigger] r0[k]).tenant_id@ == s0[j].tenant_id@
                                && r0[k].item.id@ == s0[j].item.room_id@ && 1 <= s0[j].item.seat_no <= r0[k].item.max_players;
                        assert(r1[k].tenant_id == r0[k].tenant_id);
                    }
                }
            }
        }
    }
}

/// A room a player joined never reports more players than it has room for.
pub proof fn law_joined_room_within_capacity(
    r0: Seq<StoredRoom>,
    s0: Seq<StoredSeat>,
    tenant: Seq<char>,
    c: JoinGameRoomCommand,
    seat_id: String,
    r1: Seq<StoredRoom>,
    s1: Seq<StoredSeat>,
    result: GameRoomResult<GameRoomItem>,
)
    requires
        rooms_valid(r0, s0),
        join_post(r0, s0, tenant, c, seat_id, r1, s1, result),
        result is Ok,
    ensures
        result->Ok_0.max_players >= 0 ==> 0 <= result->Ok_0.current_players <= result->Ok_0.max_players,
{
    law_join_keeps_rooms_valid(r0, s0, tenant, c, seat_id, r1, s1, result);
    lemma_first_index(r0, room_named(tenant, c.room_id@));
    let i = first_index(r0, room_named(tenant, c.room_id@))->Some_0;
    let new = choose|new: GameRoomItem|
        room_recounted(r0[i].item, new, player_count(s1, r0[i].tenant_id@, r0[i].item.id@))
            && #[trigger] room_becomes(r0, i, r1, result, new);
    assert(r1[i].item == new && r1[i].tenant_id == r0[i].tenant_id);
    if new.max_players >= 0 {
        law_room_never_overfull(r1, s1, i);
    }
}

/// Opening a room under an id that no room of the tenant has keeps the store of rooms
/// valid, when a room opened with a host has room for them.
pub proof fn law_create_keeps_rooms_valid(
    r0: Seq<StoredRoom>,
    s0: Seq<StoredSeat>,
    tenant: Seq<char>,
    c: CreateGameRoomCommand,
    room_id: String,
    seat_id: String,
    r1: Seq<StoredRoom>,
    s1: Seq<StoredSeat>,
    result: GameRoomResult<GameRoomItem>,
)
    requires
        rooms_valid(r0, s0),
        forall|k: int| 0 <= k < r0.len() ==> !((#[trigger] r0[k]).tenant_id@ == tenant && r0[k].item.id@ == room_id@),
        !blank(c.host_user_id@) ==> c.max_players >= 1,
        create_room_post(r0, s0, tenant, c, room_id, seat_id, r1, s1, result),
    ensures
        rooms_valid(r1, s1),
{
    if !code_in_use(r0, tenant, c.room_code@) {
        let last = r0.len() as int;
        assert forall|k: int| 0 <= k < r0.len() implies #[trigger] r1[k] == r0[k] by {
            assert(r1[k] == r1.drop_last()[k]);
        }
        assert(r1[last] == r1.last());
        assert forall|a: int, b: int| 0 <= a < b < r1.len() implies !((#[trigger] r1[a]).tenant_id@
            == (#[trigger] r1[b]).tenant_id@ && r1[a].item.id@ == r1[b].item.id@) by {
            assert(r1[a] == r0[a]);
            if b < last {
                assert(r1[b] == r0[b]);
            }
        }
        let host = !blank(c.host_user_id@);
        assert forall|m: int| 0 <= m < s0.len() implies #[trigger] s1[m] == s0[m] by {
            if host {
                assert(s1[m] == s1.drop_last()[m]);
            }
        }
        assert forall|a: int, b: int| 0 <= a < b < s1.len() implies !(active_status(
            #[trigger] s1[a].item.status@,
        ) && active_status(#[trigger] s1[b].item.status@) && s1[a].tenant_id@ == s1[b].tenant_id@
            && s1[a].item.room_id@ == s1[b].item.room_id@ && s1[a].item.seat_no == s1[b].item.seat_no) by {
            assert(s1[a] == s0[a]);
            if b < s0.len() {
                assert(s1[b] == s0[b]);
            } else if active_status(s0[a].item.status@) && s0[a].tenant_id@ == tenant && s0[a].item.room_id@ == room_id@ {
                let k = choose|k: int|
                    0 <= k < r0.len() && (#[trigger] r0[k]).tenant_id@ == s0[a].tenant_id@
                        && r0[k].item.id@ == s0[a].item.room_id@ && 1 <= s0[a].item.seat_no <= r0[k].item.max_players;
                assert(!(r0[k].tenant_id@ == tenant && r0[k].item.id@ == room_id@));
            }
        }
        assert forall|j: int| 0 <= j < s1.len() && active_status((#[trigger] s1[j]).item.status@) implies exists|k: int|
            0 <= k < r1.len() && (#[trigger] r1[k]).tenant_id@ == s1[j].tenant_id@ && r1[k].item.id@ == s1[j].item.room_id@
                && 1 <= s1[j].item.seat_no <= r1[k].item.max_players by {
            if j < s0.len() {
                assert(s1[j] == s0[j]);
                let k = choose|k: int|
                    0 <= k < r0.len() && (#[trigger] r0[k]).tenant_id@ == s0[j].tenant_id@
                        && r0[k].item.id@ == s0[j].item.room_id@ && 1 <= s0[j].item.seat_no <= r0[k].item.max_players;
                assert(r1[k] == r0[k]);
            } else {
                assert(s1[j] == s1.last());
                assert(r1[last].tenant_id@ == s1[j].tenant_id@ && r1[last].item.id@ == s1[j].item.room_id@);
            }
        }
    }
}

/// Closing a room just opened, at its version: the room comes back `closed`, empty and at
/// version 1, and the host's seat is `left`.
pub proof fn law_closing_a_new_room(
    r0: Seq<StoredRoom>,
    s0: Seq<StoredSeat>,
    tenant: Seq<char>,
    c: CreateGameRoomCommand,
    room_id: String,
    seat_id: String,
    r1: Seq<StoredRoom>,
    s1: Seq<StoredSeat>,
    opened: GameRoomResult<GameRoomItem>,
    r2: Seq<StoredRoom>,
    s2: Seq<StoredSeat>,
    closed: GameRoomResult<GameRoomItem>,
)
    requires
        forall|k: int| 0 <= k < r0.len() ==> !room_named(tenant, room_id@)(#[trigger] r0[k]),
        !blank(c.host_user_id@),
        create_room_post(r0, s0, tenant, c, room_id, seat_id, r1, s1, opened),
        opened is Ok,
        room_move_post(r1, s1, tenant, room_id@, Some(0), "left"@, "closed"@, Some(0), r2, s2, closed),
    ensures
        closed is Ok,
        closed->Ok_0.status@ == "closed"@,
        closed->Ok_0.current_players == 0,
        closed->Ok_0.version == 1,
        s2.len() == s1.len(),
        s2.last().item.status@ == "left"@,
        s2.last().item.user_id == Some(c.host_user_id),
{
    let p = room_named(tenant, room_id@);
    let n = r0.len() as int;
    assert forall|k: int| 0 <= k < n implies !p(#[trigger] r1[k]) by {
        assert(r1[k] == r1.drop_last()[k]);
    }
    assert(r1[n] == r1.last());
    lemma_first_index_is(r1, p, n);
    let m = s0.len() as int;
    assert(s1[m] == s1.last());
    assert(active_status("joined"@)) by {
        reveal_strlit("joined");
    }
    assert(active_in(s1[m], tenant, room_id@));
    let new = choose|new: GameRoomItem|
        room_moved(r1[n].item, new, "closed"@, 0) && #[trigger] room_becomes(r1, n, r2, closed, new);
    assert(s2[m] == s2.last());
}

impl InMemoryGameRoomRepository {
    /// The stored rooms, in the order they were added.
    pub closed spec fn room_records(&self) -> Seq<StoredRoom> {
        self.rooms@
    }

    /// The stored seats, in the order they were added.
    pub closed spec fn seat_records(&self) -> Seq<StoredSeat> {
        self.seats@
    }

    /// No rooms and no seats.
    pub fn new() -> (r: Self)
        ensures
            r.room_records().len() == 0,
            r.seat_records().len() == 0,
    {
        InMemoryGameRoomRepository { rooms: Vec::new(), seats: Vec::new() }
    }

    /// Rooms of the default tenant, in order, with no seats.
    pub fn with_seed(items: Vec<GameRoomItem>) -> (r: Self)
        ensures
            r.room_records().len() == items@.len(),
            forall|k: int|
                0 <= k < items@.len() ==> (#[trigger] r.room_records()[k]).tenant_id@ == "100001"@
                    && r.room_records()[k].item == items@[k],
            r.seat_records().len() == 0,
    {
        let mut rooms: Vec<StoredRoom> = Vec::new();
        let mut i: usize = 0;
        while i < items.len()
            invariant
                i <= items@.len(),
                rooms@.len() == i,
                forall|k: int|
                    0 <= k < i ==> (#[trigger] rooms@[k]).tenant_id@ == "100001"@ && rooms@[k].item == items@[k],
            decreases items@.len() - i,
        {
            rooms.push(StoredRoom { tenant_id: String::from_str("100001"), item: copy_room(&items[i]) });
            i = i + 1;
        }
        InMemoryGameRoomRepository { rooms, seats: Vec::new() }
    }

    /// The position of the first room of `tenant_id` named `name` (by id or code, or by
    /// id alone when `by_id`).
    fn find_room(&self, tenant_id: &str, name: &str, by_id: bool) -> (r: Option<usize>)
        ensures
            ({
                let p = if by_id {
                    room_with_id(tenant_id@, name@)
                } else {
                    room_named(tenant_id@, name@)
                };
                match r {
                    Some(i) => i < self.rooms@.len() && first_index(self.rooms@, p) == Some(i as int),
                    None => first_index(self.rooms@, p) is None,
                }
            }),
    {
        let ghost p = if by_id {
            room_with_id(tenant_id@, name@)
        } else {
            room_named(tenant_id@, name@)
        };
        let n = self.rooms.len();
        let mut i: usize = 0;
        while i < n
            invariant
                n == self.rooms@.len(),
                i <= n,
                p == (if by_id {
                    room_with_id(tenant_id@, name@)
                } else {
                    room_named(tenant_id@, name@)
                }),
                forall|j: int| 0 <= j < i ==> !p(#[trigger] self.rooms@[j]),
            decreases n - i,
        {
            let stored = &self.rooms[i];
            let hit = text_eq(stored.item.id.as_str(), name) || (!by_id && text_eq(
                stored.item.room_code.as_str(),
                name,
            ));
            if text_eq(stored.tenant_id.as_str(), tenant_id) && hit {
                proof {
                    lemma_first_index_is(self.rooms@, p, i as int);
                }
                return Some(i);
            }
            i = i + 1;
        }
        proof {
            lemma_first_index_none(self.rooms@, p);
        }
        None
    }

    /// Whether an active seat of room `room` of `tenant_id` has number `n`.
    fn number_held(&self, tenant_id: &str, room: &str, n: i32) -> (r: bool)
        ensures
            r == seat_held(self.seats@, tenant_id@, room@, n),
    {
        let m = self.seats.len();
        let mut j: usize = 0;
        while j < m
            invariant
                m == self.seats@.len(),
                j <= m,
                forall|t: int|
                    0 <= t < j ==> !((#[trigger] self.seats@[t]).tenant_id@ == tenant_id@
                        && self.seats@[t].item.room_id@ == room@ && self.seats@[t].item.seat_no == n
                        && active_status(self.seats@[t].item.status@)),
            decreases m - j,
        {
            let s = &self.seats[j];
            if text_eq(s.tenant_id.as_str(), tenant_id) && text_eq(s.item.room_id.as_str(), room)
                && s.item.seat_no == n && is_active_seat_status(s.item.status.as_str()) {
                return true;
            }
            j = j + 1;
        }
        false
    }

    /// The seat number a join takes.
    fn next_free_seat(&self, tenant_id: &str, room: &str) -> (r: Option<i32>)
        ensures
            r == join_seat_no(self.rooms@, self.seats@, tenant_id@, room@),
    {
        let k = match self.find_room(tenant_id, room, true) {
            Some(k) => k,
            None => {
                return None;
            },
        };
        let max = self.rooms[k].item.max_players;
        let ghost target = free_seat_from(self.seats@, tenant_id@, room@, 1, max as int);
        let mut n: i64 = 1;
        while n <= max as i64
            invariant
                1 <= n <= i32::MAX + 1,
                max <= i32::MAX,
                k < self.rooms@.len(),
                first_index(self.rooms@, room_with_id(tenant_id@, room@)) == Some(k as int),
                max == self.rooms@[k as int].item.max_players,
                target == free_seat_from(self.seats@, tenant_id@, room@, 1, max as int),
                target == free_seat_from(self.seats@, tenant_id@, room@, n as int, max as int),
            decreases max + 1 - n,
        {
            if !self.number_held(tenant_id, room, n as i32) {
                assert((n as int) as i32 == n as i32);
                assert(free_seat_from(self.seats@, tenant_id@, room@, n as int, max as int) == Some(n as i32));
                return Some(n as i32);
            }
            n = n + 1;
        }
        None
    }

    /// The position of the first seat that `p` picks.
    fn find_seat(&self, tenant_id: &str, room: &str, user: Option<&str>, n: i32) -> (r: Option<usize>)
        ensures
            ({
                let p = match user {
                    Some(u) => active_seat_of(tenant_id@, room@, u@),
                    None => reusable_seat(tenant_id@, room@, n),
                };
                match r {
                    Some(j) => j < self.seats@.len() && first_index(self.seats@, p) == Some(j as int),
                    None => first_index(self.seats@, p) is None,
                }
            }),
    {
        let ghost p = match user {
            Some(u) => active_seat_of(tenant_id@, room@, u@),
            None => reusable_seat(tenant_id@, room@, n),
        };
        let m = self.seats.len();
        let mut j: usize = 0;
        while j < m
            invariant
                m == self.seats@.len(),
                j <= m,
                p == (match user {
                    Some(u) => active_seat_of(tenant_id@, room@, u@),
                    None => reusable_seat(tenant_id@, room@, n),
                }),
                forall|t: int| 0 <= t < j ==> !p(#[trigger] self.seats@[t]),
            decreases m - j,
        {
            let s = &self.seats[j];
            let active = is_active_seat_status(s.item.status.as_str());
            let hit = match user {
                Some(u) => match &s.item.user_id {
                    Some(x) => text_eq(x.as_str(), u) && active,
                    None => false,
                },
                None => s.item.seat_no == n && !active,
            };
            if text_eq(s.tenant_id.as_str(), tenant_id) && text_eq(s.item.room_id.as_str(), room) && hit {
                proof {
                    lemma_first_index_is(self.seats@, p, j as int);
                }
                return Some(j);
            }
            j = j + 1;
        }
        proof {
            lemma_first_index_none(self.seats@, p);
        }
        None
    }

    /// The number of players of room `room` of `tenant_id`: its active seats.
    fn count_players(&self, tenant_id: &str, room: &str) -> (r: i32)
        ensures
            r == player_count(self.seats@, tenant_id@, room@),
    {
        let m = self.seats.len();
        let mut count: usize = 0;
        let mut j: usize = 0;
        while j < m
            invariant
                m == self.seats@.len(),
                j <= m,
                count <= j,
                count == active_count(room_seats(self.seats@.subrange(0, j as int), tenant_id@, room@)),
            decreases m - j,
        {
            let s = &self.seats[j];
            proof {
                let sub = self.seats@.subrange(0, j + 1);
                assert(sub.drop_last() =~= self.seats@.subrange(0, j as int));
                assert(sub.last() == self.seats@[j as int]);
                let seats_before = room_seats(self.seats@.subrange(0, j as int), tenant_id@, room@);
                assert(seats_before.push(s.item).drop_last() =~= seats_before);
            }
            if text_eq(s.tenant_id.as_str(), tenant_id) && text_eq(s.item.room_id.as_str(), room)
                && is_active_seat_status(s.item.status.as_str()) {
                count = count + 1;
            }
            j = j + 1;
        }
        assert(self.seats@.subrange(0, m as int) =~= self.seats@);
        let ghost total: int = active_count(room_seats(self.seats@, tenant_id@, room@)) as int;
        assert(count as int == total);
        #[verifier::truncate] (count as i32)
    }

    /// The rooms of `tenant_id` that match `query`, highest version first, one page.
    pub fn list_rooms(&self, tenant_id: &str, query: &GameRoomQuery) -> (r: GameRoomResult<GameRoomPage>)
        requires
            offset_fits(query.page, query.page_size),
        ensures
            match r {
                Ok(p) => listed_page(
                    matching_rooms(self.room_records(), tenant_id@, *query),
                    |room: GameRoomItem| room_sort_key(room),
                    query.page,
                    query.page_size,
                    p.items@,
                    p.total,
                    p.page,
                    p.page_size,
                ),
                Err(_) => false,
            },
    {
        let n = self.rooms.len();
        let mut found: Vec<GameRoomItem> = Vec::new();
        let mut i: usize = 0;
        while i < n
            invariant
                n == self.rooms@.len(),
                i <= n,
                found@ == matching_rooms(self.rooms@.subrange(0, i as int), tenant_id@, *query),
            decreases n - i,
        {
            let stored = &self.rooms[i];
            proof {
                let sub = self.rooms@.subrange(0, i + 1);
                assert(sub.drop_last() =~= self.rooms@.subrange(0, i as int));
                assert(sub.last() == self.rooms@[i as int]);
            }
            let game_ok = match &query.game_id {
                Some(g) => text_eq(stored.item.game_id.as_str(), g.as_str()),
                None => true,
            };
            let status_ok = match &query.status {
                Some(st) => is_blank(st.as_str()) || text_eq(stored.item.status.as_str(), st.as_str()),
                None => true,
            };
            if text_eq(stored.tenant_id.as_str(), tenant_id) && game_ok && status_ok {
                found.push(copy_room(&stored.item));
            }
            i = i + 1;
        }
        assert(self.rooms@.subrange(0, n as int) =~= self.rooms@);
        let ghost items = found@;
        let mut keys: Vec<Vec<SortPart>> = Vec::new();
        let mut j: usize = 0;
        while j < found.len()
            invariant
                items == found@,
                j <= found@.len(),
                keys@.len() == j,
                forall|t: int| 0 <= t < j ==> (#[trigger] keys@[t])@ == room_sort_key(found@[t]),
            decreases found@.len() - j,
        {
            let mut key: Vec<SortPart> = Vec::new();
            key.push(SortPart { value: SortValue::Number(found[j].version), descending: true });
            assert(key@ =~= room_sort_key(found@[j as int]));
            keys.push(key);
            j = j + 1;
        }
        assert(key_views(keys@) =~= items.map_values(|room: GameRoomItem| room_sort_key(room)));
        let order = stable_sort_order(&keys);
        let mut sorted: Vec<GameRoomItem> = Vec::new();
        let mut k: usize = 0;
        while k < order.len()
            invariant
                items == found@,
                order@.len() == items.len(),
                forall|t: int| 0 <= t < order@.len() ==> (#[trigger] order@[t]) < items.len(),
                k <= order@.len(),
                sorted@.len() == k,
                forall|t: int| 0 <= t < k ==> #[trigger] sorted@[t] == items[order@[t] as int],
            decreases order@.len() - k,
        {
            sorted.push(copy_room(&found[order[k]]));
            k = k + 1;
        }
        assert(sorted@ =~= arrange(items, order@));
        let limit = query.limit();
        let offset = query.offset();
        let total = found.len() as u64;
        let page_items = take_page(sorted, offset as usize, limit as usize);
        let page = match query.page {
            Some(p) => p,
            None => 1,
        };
        assert(stable_order(items.map_values(|room: GameRoomItem| room_sort_key(room)), order@));
        Ok(GameRoomPage { items: page_items, total, page, page_size: limit })
    }

    /// The room of `tenant_id` named `room_id` (its id or its code), or `not_found`.
    pub fn get_room(&self, tenant_id: &str, room_id: &str) -> (r: GameRoomResult<GameRoomItem>)
        ensures
            match first_index(self.room_records(), room_named(tenant_id@, room_id@)) {
                Some(i) => 0 <= i < self.room_records().len() && r == Ok::<GameRoomItem, GameRoomError>(self.room_records()[i].item),
                None => room_fails_with(r, "not_found"@, room_missing_message()),
            },
    {
        match self.find_room(tenant_id, room_id, false) {
            Some(i) => Ok(copy_room(&self.rooms[i].item)),
            None => Err(GameRoomError::not_found("room not found")),
        }
    }

    /// The seats of room `room_id` of `tenant_id`, by seat number.
    pub fn list_room_seats(&self, tenant_id: &str, room_id: &str) -> (r: GameRoomResult<Vec<GameRoomSeatItem>>)
        ensures
            match r {
                Ok(seats) => exists|o: Seq<usize>|
                    stable_order(
                        room_seats(self.seat_records(), tenant_id@, room_id@).map_values(
                            |seat: GameRoomSeatItem| seat_sort_key(seat),
                        ),
                        o,
                    ) && seats@ == #[trigger] arrange(room_seats(self.seat_records(), tenant_id@, room_id@), o),
                Err(_) => false,
            },
    {
        let m = self.seats.len();
        let mut found: Vec<GameRoomSeatItem> = Vec::new();
        let mut i: usize = 0;
        while i < m
            invariant
                m == self.seats@.len(),
                i <= m,
                found@ == room_seats(self.seats@.subrange(0, i as int), tenant_id@, room_id@),
            decreases m - i,
        {
            let stored = &self.seats[i];
            proof {
                let sub = self.seats@.subrange(0, i + 1);
                assert(sub.drop_last() =~= self.seats@.subrange(0, i as int));
                assert(sub.last() == self.seats@[i as int]);
            }
            if text_eq(stored.tenant_id.as_str(), tenant_id) && text_eq(stored.item.room_id.as_str(), room_id) {
                found.push(copy_seat(&stored.item));
            }
            i = i + 1;
        }
        assert(self.seats@.subrange(0, m as int) =~= self.seats@);
        let ghost items = found@;
        let mut keys: Vec<Vec<SortPart>> = Vec::new();
        let mut j: usize = 0;
        while j < found.len()
            invariant
                items == found@,
                j <= found@.len(),
                keys@.len() == j,
                forall|t: int| 0 <= t < j ==> (#[trigger] keys@[t])@ == seat_sort_key(found@[t]),
            decreases found@.len() - j,
        {
            let mut key: Vec<SortPart> = Vec::new();
            key.push(SortPart { value: SortValue::Number(found[j].seat_no as i64), descending: false });
            assert(key@ =~= seat_sort_key(found@[j as int]));
            keys.push(key);
            j = j + 1;
        }
        assert(key_views(keys@) =~= items.map_values(|seat: GameRoomSeatItem| seat_sort_key(seat)));
        let order = stable_sort_order(&keys);
        let mut sorted: Vec<GameRoomSeatItem> = Vec::new();
        let mut k: usize = 0;
        while k < order.len()
            invariant
                items == found@,
                order@.len() == items.len(),
                forall|t: int| 0 <= t < order@.len() ==> (#[trigger] order@[t]) < items.len(),
                k <= order@.len(),
                sorted@.len() == k,
                forall|t: int| 0 <= t < k ==> #[trigger] sorted@[t] == items[order@[t] as int],
            decreases order@.len() - k,
        {
            sorted.push(copy_seat(&found[order[k]]));
            k = k + 1;
        }
        assert(sorted@ =~= arrange(items, order@));
        assert(items == room_seats(self.seat_records(), tenant_id@, room_id@));
        assert(stable_order(
            room_seats(self.seat_records(), tenant_id@, room_id@).map_values(|seat: GameRoomSeatItem| seat_sort_key(seat)),
            order@,
        ) && sorted@ == arrange(room_seats(self.seat_records(), tenant_id@, room_id@), order@));
        Ok(sorted)
    }

    /// Opens a room for `tenant_id` with id `room_id`; a named host takes seat 1, with id
    /// `seat_id`.
    pub fn create_room(
        &mut self,
        tenant_id: &str,
        command: &CreateGameRoomCommand,
        room_id: String,
        seat_id: String,
    ) -> (r: GameRoomResult<GameRoomItem>)
        ensures
            create_room_post(
                old(self).room_records(),
                old(self).seat_records(),
                tenant_id@,
                *command,
                room_id,
                seat_id,
                final(self).room_records(),
                final(self).seat_records(),
                r,
            ),
    {
        let ghost r0 = self.rooms@;
        let ghost s0 = self.seats@;
        let n = self.rooms.len();
        let mut i: usize = 0;
        while i < n
            invariant
                n == self.rooms@.len(),
                i <= n,
                forall|j: int|
                    0 <= j < i ==> !((#[trigger] self.rooms@[j]).tenant_id@ == tenant_id@
                        && self.rooms@[j].item.room_code@ == command.room_code@),
            decreases n - i,
        {
            if text_eq(self.rooms[i].tenant_id.as_str(), tenant_id) && text_eq(
                self.rooms[i].item.room_code.as_str(),
                command.room_code.as_str(),
            ) {
                return Err(GameRoomError::invalid("room_code already exists"));
            }
            i = i + 1;
        }
        let hosted = !is_blank(command.host_user_id.as_str());
        let current_players: i32 = if hosted {
            1
        } else {
            0
        };
        let item = GameRoomItem {
            id: room_id.clone(),
            game_id: command.game_id.clone(),
            mode_id: copy_opt(&command.mode_id),
            ruleset_id: copy_opt(&command.ruleset_id),
            room_code: command.room_code.clone(),
            host_user_id: command.host_user_id.clone(),
            visibility: command.visibility.clone(),
            join_policy: command.join_policy.clone(),
            max_players: command.max_players,
            current_players,
            status: String::from_str("open"),
            version: 0,
        };
        self.rooms.push(StoredRoom { tenant_id: String::from_str(tenant_id), item: copy_room(&item) });
        assert(self.rooms@.drop_last() =~= r0);
        if hosted {
            let seat = GameRoomSeatItem {
                id: seat_id,
                room_id,
                seat_no: 1,
                team_no: None,
                user_id: Some(command.host_user_id.clone()),
                display_name_snapshot: None,
                status: String::from_str("joined"),
                version: 0,
            };
            self.seats.push(StoredSeat { tenant_id: String::from_str(tenant_id), item: seat });
            assert(self.seats@.drop_last() =~= s0);
        }
        Ok(item)
    }

    /// Whether the versions that `join_room` would bump can grow inside `i64`.
    pub fn join_can_grow(&self, tenant_id: &str, command: &JoinGameRoomCommand) -> (r: bool)
        ensures
            r == join_fits(self.room_records(), self.seat_records(), tenant_id@, *command),
    {
        let i = match self.find_room(tenant_id, command.room_id.as_str(), false) {
            Some(i) => i,
            None => {
                return true;
            },
        };
        if let Some(v) = command.expected_version {
            if self.rooms[i].item.version != v {
                return true;
            }
        }
        let n = match self.next_free_seat(tenant_id, command.room_id.as_str()) {
            Some(n) => n,
            None => {
                return true;
            },
        };
        if self.rooms[i].item.version == i64::MAX {
            return false;
        }
        match self.find_seat(tenant_id, command.room_id.as_str(), None, n) {
            Some(j) => self.seats[j].item.version < i64::MAX,
            None => true,
        }
    }

    /// Whether the versions that a leave or a readiness change of `user_id` in `room_id`
    /// would bump can grow inside `i64`.
    pub fn seat_change_can_grow(&self, tenant_id: &str, room_id: &str, user_id: &str, expected: Option<i64>) -> (r: bool)
        ensures
            r == seat_change_fits(self.room_records(), self.seat_records(), tenant_id@, room_id@, user_id@, expected),
    {
        let i = match self.find_room(tenant_id, room_id, false) {
            Some(i) => i,
            None => {
                return true;
            },
        };
        if let Some(v) = expected {
            if self.rooms[i].item.version != v {
                return true;
            }
        }
        match self.find_seat(tenant_id, room_id, Some(user_id), 0) {
            Some(j) => self.rooms[i].item.version < i64::MAX && self.seats[j].item.version < i64::MAX,
            None => true,
        }
    }

    /// Whether the versions that a start or a close of `room_id` would bump can grow
    /// inside `i64`.
    pub fn room_move_can_grow(&self, tenant_id: &str, room_id: &str, expected: Option<i64>) -> (r: bool)
        ensures
            r == room_move_fits(self.room_records(), self.seat_records(), tenant_id@, room_id@, expected),
    {
        let i = match self.find_room(tenant_id, room_id, false) {
            Some(i) => i,
            None => {
                return true;
            },
        };
        if let Some(v) = expected {
            if self.rooms[i].item.version != v {
                return true;
            }
        }
        if self.rooms[i].item.version == i64::MAX {
            return false;
        }
        let ghost s = self.seats@;
        let m = self.seats.len();
        let mut j: usize = 0;
        while j < m
            invariant
                m == s.len(),
                s == self.seats@,
                j <= m,
                i < self.rooms@.len(),
                first_index(self.rooms@, room_named(tenant_id@, room_id@)) == Some(i as int),
                room_version_matches(self.rooms@[i as int].item.version, expected),
                forall|t: int| 0 <= t < j && active_in(#[trigger] s[t], tenant_id@, room_id@) ==> s[t].item.version < i64::MAX,
            decreases m - j,
        {
            let seat = &self.seats[j];
            if text_eq(seat.tenant_id.as_str(), tenant_id) && text_eq(seat.item.room_id.as_str(), room_id)
                && is_active_seat_status(seat.item.status.as_str()) && seat.item.version == i64::MAX {
                assert(active_in(s[j as int], tenant_id@, room_id@) && s[j as int].item.version == i64::MAX);
                return false;
            }
            j = j + 1;
        }
        true
    }

    /// Seats the player in the lowest free seat of the room.
    pub fn join_room(&mut self, tenant_id: &str, command: &JoinGameRoomCommand, seat_id: String) -> (r: GameRoomResult<GameRoomItem>)
        requires
            join_fits(old(self).room_records(), old(self).seat_records(), tenant_id@, *command),
        ensures
            join_post(
                old(self).room_records(),
                old(self).seat_records(),
                tenant_id@,
                *command,
                seat_id,
                final(self).room_records(),
                final(self).seat_records(),
                r,
            ),
    {
        let ghost r0 = self.rooms@;
        let ghost s0 = self.seats@;
        let i = match self.find_room(tenant_id, command.room_id.as_str(), false) {
            Some(i) => i,
            None => {
                return Err(GameRoomError::not_found("room not found"));
            },
        };
        match crate::rooms::ensure_expected_version(&self.rooms[i].item, command.expected_version) {
            Err(e) => {
                return Err(e);
            },
            Ok(()) => {},
        }
        let n = match self.next_free_seat(tenant_id, command.room_id.as_str()) {
            Some(n) => n,
            None => {
                return Err(GameRoomError::invalid("room is full"));
            },
        };
        match self.find_seat(tenant_id, command.room_id.as_str(), None, n) {
            Some(j) => {
                let old = &self.seats[j];
                let seat = StoredSeat {
                    tenant_id: old.tenant_id.clone(),
                    item: GameRoomSeatItem {
                        id: old.item.id.clone(),
                        room_id: old.item.room_id.clone(),
                        seat_no: old.item.seat_no,
                        team_no: old.item.team_no,
                        user_id: Some(command.user_id.clone()),
                        display_name_snapshot: copy_opt(&command.display_name_snapshot),
                        status: String::from_str("joined"),
                        version: old.item.version + 1,
                    },
                };
                self.seats.set(j, seat);
            },
            None => {
                let seat = GameRoomSeatItem {
                    id: seat_id,
                    room_id: command.room_id.clone(),
                    seat_no: n,
                    team_no: None,
                    user_id: Some(command.user_id.clone()),
                    display_name_snapshot: copy_opt(&command.display_name_snapshot),
                    status: String::from_str("joined"),
                    version: 0,
                };
                self.seats.push(StoredSeat { tenant_id: String::from_str(tenant_id), item: seat });
                assert(self.seats@.drop_last() =~= s0);
            },
        }
        let players = self.count_players(self.rooms[i].tenant_id.as_str(), self.rooms[i].item.id.as_str());
        let room = move_room(&self.rooms[i].item, None, players);
        let stored = StoredRoom { tenant_id: self.rooms[i].tenant_id.clone(), item: copy_room(&room) };
        self.rooms.set(i, stored);
        let r = Ok(room);
        assert(room_becomes(r0, i as int, self.rooms@, r, room));
        r
    }

    /// Moves the player's active seat to `status`, recounting the room when `recount`.
    fn change_seat(
        &mut self,
        tenant_id: &str,
        room_id: &str,
        user_id: &str,
        expected: Option<i64>,
        status: &str,
        recount: bool,
    ) -> (r: GameRoomResult<GameRoomItem>)
        requires
            seat_change_fits(old(self).rooms@, old(self).seats@, tenant_id@, room_id@, user_id@, expected),
        ensures
            seat_change_post(
                old(self).rooms@,
                old(self).seats@,
                tenant_id@,
                room_id@,
                user_id@,
                expected,
                status@,
                recount,
                final(self).rooms@,
                final(self).seats@,
                r,
            ),
    {
        let ghost r0 = self.rooms@;
        let i = match self.find_room(tenant_id, room_id, false) {
            Some(i) => i,
            None => {
                return Err(GameRoomError::not_found("room not found"));
            },
        };
        match crate::rooms::ensure_expected_version(&self.rooms[i].item, expected) {
            Err(e) => {
                return Err(e);
            },
            Ok(()) => {},
        }
        let j = match self.find_seat(tenant_id, room_id, Some(user_id), 0) {
            Some(j) => j,
            None => {
                return Err(GameRoomError::not_found("active room seat not found"));
            },
        };
        let seat = StoredSeat { tenant_id: self.seats[j].tenant_id.clone(), item: move_seat(&self.seats[j].item, status) };
        self.seats.set(j, seat);
        let players = if recount {
            self.count_players(self.rooms[i].tenant_id.as_str(), self.rooms[i].item.id.as_str())
        } else {
            self.rooms[i].item.current_players
        };
        let room = move_room(&self.rooms[i].item, None, players);
        let stored = StoredRoom { tenant_id: self.rooms[i].tenant_id.clone(), item: copy_room(&room) };
        self.rooms.set(i, stored);
        let r = Ok(room);
        assert(room_becomes(r0, i as int, self.rooms@, r, room));
        r
    }

    /// The player gives up their active seat; the room is recounted.
    pub fn leave_room(&mut self, tenant_id: &str, command: &LeaveGameRoomCommand) -> (r: GameRoomResult<GameRoomItem>)
        requires
            seat_change_fits(old(self).room_records(), old(self).seat_records(), tenant_id@, command.room_id@, command.user_id@, command.expected_version),
        ensures
            seat_change_post(
                old(self).room_records(),
                old(self).seat_records(),
                tenant_id@,
                command.room_id@,
                command.user_id@,
                command.expected_version,
                "left"@,
                true,
                final(self).room_records(),
                final(self).seat_records(),
                r,
            ),
    {
        self.change_seat(tenant_id, command.room_id.as_str(), command.user_id.as_str(), command.expected_version, "left", true)
    }

    /// The player's active seat becomes `ready`, or `joined` again.
    pub fn set_ready(&mut self, tenant_id: &str, command: &ReadyGameRoomCommand) -> (r: GameRoomResult<GameRoomItem>)
        requires
            seat_change_fits(old(self).room_records(), old(self).seat_records(), tenant_id@, command.room_id@, command.user_id@, command.expected_version),
        ensures
            seat_change_post(
                old(self).room_records(),
                old(self).seat_records(),
                tenant_id@,
                command.room_id@,
                command.user_id@,
                command.expected_version,
                if command.ready {
                    "ready"@
                } else {
                    "joined"@
                },
                false,
                final(self).room_records(),
                final(self).seat_records(),
                r,
            ),
    {
        let status = if command.ready {
            "ready"
        } else {
            "joined"
        };
        self.change_seat(tenant_id, command.room_id.as_str(), command.user_id.as_str(), command.expected_version, status, false)
    }

    /// Moves every active seat of the room to `seat_status` and the room to `room_status`.
    fn move_all(
        &mut self,
        tenant_id: &str,
        room_id: &str,
        expected: Option<i64>,
        seat_status: &str,
        room_status: &str,
        players: Option<i32>,
    ) -> (r: GameRoomResult<GameRoomItem>)
        requires
            room_move_fits(old(self).rooms@, old(self).seats@, tenant_id@, room_id@, expected),
        ensures
            room_move_post(
                old(self).rooms@,
                old(self).seats@,
                tenant_id@,
                room_id@,
                expected,
                seat_status@,
                room_status@,
                players,
                final(self).rooms@,
                final(self).seats@,
                r,
            ),
    {
        let ghost r0 = self.rooms@;
        let ghost s0 = self.seats@;
        let i = match self.find_room(tenant_id, room_id, false) {
            Some(i) => i,
            None => {
                return Err(GameRoomError::not_found("room not found"));
            },
        };
        match crate::rooms::ensure_expected_version(&self.rooms[i].item, expected) {
            Err(e) => {
                return Err(e);
            },
            Ok(()) => {},
        }
        let m = self.seats.len();
        let mut j: usize = 0;
        while j < m
            invariant
                m == s0.len(),
                self.seats@.len() == m,
                j <= m,
                self.rooms@ == r0,
                forall|t: int| 0 <= t < m && active_in(#[trigger] s0[t], tenant_id@, room_id@) ==> s0[t].item.version < i64::MAX,
                forall|t: int|
                    0 <= t < j ==> if active_in(#[trigger] s0[t], tenant_id@, room_id@) {
                        self.seats@[t].tenant_id == s0[t].tenant_id && seat_moved(s0[t].item, self.seats@[t].item, seat_status@)
                    } else {
                        self.seats@[t] == s0[t]
                    },
                forall|t: int| j <= t < m ==> self.seats@[t] == #[trigger] s0[t],
            decreases m - j,
        {
            let s = &self.seats[j];
            assert(self.seats@[j as int] == s0[j as int]);
            if text_eq(s.tenant_id.as_str(), tenant_id) && text_eq(s.item.room_id.as_str(), room_id)
                && is_active_seat_status(s.item.status.as_str()) {
                let moved = StoredSeat { tenant_id: s.tenant_id.clone(), item: move_seat(&s.item, seat_status) };
                self.seats.set(j, moved);
            }
            j = j + 1;
        }
        let count = match players {
            Some(p) => p,
            None => self.rooms[i].item.current_players,
        };
        let room = move_room(&self.rooms[i].item, Some(room_status), count);
        let stored = StoredRoom { tenant_id: self.rooms[i].tenant_id.clone(), item: copy_room(&room) };
        self.rooms.set(i, stored);
        let r = Ok(room);
        assert(room_becomes(r0, i as int, self.rooms@, r, room));
        r
    }

    /// Starts the game: every active seat of the room is `playing`, the room `in_progress`.
    pub fn start_room(&mut self, tenant_id: &str, command: &StartGameRoomCommand) -> (r: GameRoomResult<GameRoomItem>)
        requires
            room_move_fits(old(self).room_records(), old(self).seat_records(), tenant_id@, command.room_id@, command.expected_version),
        ensures
            room_move_post(
                old(self).room_records(),
                old(self).seat_records(),
                tenant_id@,
                command.room_id@,
                command.expected_version,
                "playing"@,
                "in_progress"@,
                None,
                final(self).room_records(),
                final(self).seat_records(),
                r,
            ),
    {
        self.move_all(tenant_id, command.room_id.as_str(), command.expected_version, "playing", "in_progress", None)
    }

    /// Closes the room: every active seat of the room is `left`, the room `closed` and
    /// empty.
    pub fn close_room(&mut self, tenant_id: &str, command: &CloseGameRoomCommand) -> (r: GameRoomResult<GameRoomItem>)
        requires
            room_move_fits(old(self).room_records(), old(self).seat_records(), tenant_id@, command.room_id@, command.expected_version),
        ensures
            room_move_post(
                old(self).room_records(),
                old(self).seat_records(),
                tenant_id@,
                command.room_id@,
                command.expected_version,
                "left"@,
                "closed"@,
                Some(0),
                final(self).room_records(),
                final(self).seat_records(),
                r,
            ),
    {
        self.move_all(tenant_id, command.room_id.as_str(), command.expected_version, "left", "closed", Some(0))
    }

}

} // verus!
