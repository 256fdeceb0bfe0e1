//! Leaderboards held in memory: score entries whose ranks are recomputed on every write
//! (highest score first, then earliest record, then id), rankings, and configurations.
use vstd::prelude::*;
use crate::leaderboard::{
    board_fails_with, LeaderboardConfigItem, LeaderboardConfigPage, LeaderboardConfigQuery,
    LeaderboardEntriesRebuildCommand, LeaderboardEntry, LeaderboardEntryUpdateCommand,
    LeaderboardError, LeaderboardPage, LeaderboardQuery, LeaderboardResult,
};
use crate::paging::{offset_fits, page_index, page_limit, page_offset, page_window, take_page};
use crate::search::{
    count_where, first_index, lemma_first_index, lemma_first_index_is, lemma_first_index_none,
    lemma_first_index_same,
};
use crate::sorting::{
    arrange, compare_keys, key_order, key_views, lemma_smaller_key_listed_first,
    lemma_stable_order_distinct, listed_page, stable_order, stable_sort_order, SortPart,
    SortValue,
};
use crate::text::{blank, copy_opt, is_blank, opt_view, text_eq};

verus! {

/// A leaderboard configuration with the tenant it belongs to.
#[derive(Debug, Clone, PartialEq, Eq)]
pub struct StoredConfig {
    pub tenant_id: String,
    pub item: LeaderboardConfigItem,
}

/// A score entry with the tenant and leaderboard it belongs to.
#[derive(Debug, Clone, PartialEq, Eq)]
pub struct StoredEntry {
    pub tenant_id: String,
    pub leaderboard_id: String,
    pub item: LeaderboardEntry,
}

/// Leaderboards held in memory.
pub struct InMemoryLeaderboardRepository {
    configs: Vec<StoredConfig>,
    entries: Vec<StoredEntry>,
}

/// The ranking order: highest score first, then earliest record, then smallest id.
pub open spec fn rank_key(e: LeaderboardEntry) -> Seq<SortPart> {
    seq![
        SortPart { value: SortValue::Number(e.score), descending: true },
        SortPart { value: SortValue::Text(e.recorded_at), descending: false },
        SortPart { value: SortValue::Text(e.id), descending: false },
    ]
}

/// An entry with the rank of the `k`-th place (counted from 0).
pub open spec fn ranked_as(e: LeaderboardEntry, k: int) -> LeaderboardEntry {
    LeaderboardEntry {
        id: e.id,
        game_id: e.game_id,
        user_id: e.user_id,
        display_name: e.display_name,
        score: e.score,
        rank_no: Some((k + 1) as i32),
        recorded_at: e.recorded_at,
    }
}

/// Entries in ranking order, each with its place as rank.
pub open spec fn with_ranks(s: Seq<LeaderboardEntry>) -> Seq<LeaderboardEntry> {
    Seq::new(s.len(), |k: int| ranked_as(s[k], k))
}

/// Whether a stored entry belongs to leaderboard `board` of `tenant`.
pub open spec fn in_scope(s: StoredEntry, tenant: Seq<char>, board: Seq<char>) -> bool {
    s.tenant_id@ == tenant && s.leaderboard_id@ == board
}

/// The positions of the entries of leaderboard `board` of `tenant`, in order.
pub open spec fn scope_positions(s: Seq<StoredEntry>, tenant: Seq<char>, board: Seq<char>) -> Seq<int>
    decreases s.len(),
{
    if s.len() == 0 {
        Seq::empty()
    } else if in_scope(s.last(), tenant, board) {
        scope_positions(s.drop_last(), tenant, board).push(s.len() - 1)
    } else {
        scope_positions(s.drop_last(), tenant, board)
    }
}

/// The ranking keys of the entries of leaderboard `board` of `tenant`, in order.
pub open spec fn scope_keys(s: Seq<StoredEntry>, tenant: Seq<char>, board: Seq<char>) -> Seq<Seq<SortPart>> {
    scope_positions(s, tenant, board).map_values(|m: int| rank_key(s[m].item))
}

/// A stored entry with the rank of the `k`-th place.
pub open spec fn stored_ranked_as(s: StoredEntry, k: int) -> StoredEntry {
    StoredEntry { tenant_id: s.tenant_id, leaderboard_id: s.leaderboard_id, item: ranked_as(s.item, k) }
}

/// Whether `s1` is `s0` with the entries of one leaderboard ranked again: each of them
/// takes the rank of its place in the ranking order, every other entry stays.
pub open spec fn reranked(s0: Seq<StoredEntry>, s1: Seq<StoredEntry>, tenant: Seq<char>, board: Seq<char>) -> bool {
    let pos = scope_positions(s0, tenant, board);
    &&& s1.len() == s0.len()
    &&& forall|m: int| 0 <= m < s0.len() && !in_scope(#[trigger] s0[m], tenant, board) ==> s1[m] == s0[m]
    &&& exists|o: Seq<usize>|
        #[trigger] stable_order(scope_keys(s0, tenant, board), o) && forall|k: int|
            0 <= k < o.len() ==> s1[#[trigger] pos[o[k] as int]] == stored_ranked_as(s0[pos[o[k] as int]], k)
}

/// Whether a stored entry is listed by a ranking: of `tenant`, and of the leaderboard and
/// game when those are named.
pub open spec fn on_board(s: StoredEntry, tenant: Seq<char>, board: Option<Seq<char>>, game: Option<Seq<char>>) -> bool {
    &&& s.tenant_id@ == tenant
    &&& match board {
        Some(b) => s.leaderboard_id@ == b,
        None => true,
    }
    &&& match game {
        Some(g) => s.item.game_id@ == g,
        None => true,
    }
}

/// The entries a ranking lists, in store order.
pub open spec fn board_entries(s: Seq<StoredEntry>, tenant: Seq<char>, board: Option<Seq<char>>, game: Option<Seq<char>>) -> Seq<LeaderboardEntry>
    decreases s.len(),
{
    if s.len() == 0 {
        Seq::empty()
    } else if on_board(s.last(), tenant, board, game) {
        board_entries(s.drop_last(), tenant, board, game).push(s.last().item)
    } else {
        board_entries(s.drop_last(), tenant, board, game)
    }
}

/// Whether `ranked` is `items` in ranking order, each with its place as rank.
pub open spec fn ranking_of(items: Seq<LeaderboardEntry>, ranked: Seq<LeaderboardEntry>) -> bool {
    exists|o: Seq<usize>|
        stable_order(items.map_values(|e: LeaderboardEntry| rank_key(e)), o) && ranked == with_ranks(
            #[trigger] arrange(items, o),
        )
}

/// Whether a page lists `items` ranked: the window of the ranking at the query's offset,
/// the number of all items, the page number (1 when none is given) and the page size.
pub open spec fn ranked_page(items: Seq<LeaderboardEntry>, page: Option<u32>, page_size: Option<u32>, p: LeaderboardPage) -> bool {
    &&& p.total == items.len()
    &&& p.page == match page {
        Some(n) => n,
        None => 1,
    }
    &&& p.page_size == page_limit(page_size)
    &&& exists|ranked: Seq<LeaderboardEntry>|
        ranking_of(items, ranked) && p.items@ == page_window(
            ranked,
            page_offset(page, page_size),
            page_limit(page_size) as int,
        )
}

/// The entry of `user` on leaderboard `board` of `tenant`.
pub open spec fn entry_owner(tenant: Seq<char>, board: Seq<char>, user: Seq<char>) -> spec_fn(StoredEntry) -> bool {
    |s: StoredEntry| s.tenant_id@ == tenant && s.leaderboard_id@ == board && s.item.user_id@ == user
}

/// The time an entry is recorded at: the request's, or `now` when it names none.
pub open spec fn recorded_time(c: LeaderboardEntryUpdateCommand, now: String) -> String {
    match c.recorded_at {
        Some(t) => t,
        None => now,
    }
}

/// The entry a score request writes, with id `id`, before ranking.
pub open spec fn written_entry(c: LeaderboardEntryUpdateCommand, id: String, now: String) -> LeaderboardEntry {
    LeaderboardEntry {
        id: id,
        game_id: c.game_id,
        user_id: c.user_id,
        display_name: c.display_name_snapshot,
        score: c.score_value,
        rank_no: None,
        recorded_at: recorded_time(c, now),
    }
}

pub open spec fn entry_missing_message() -> Seq<char> {
    "leaderboard entry not found"@
}

/// Whether `mid` is `s0` with a score request written: the user's entry on the
/// leaderboard is replaced (keeping its id), or a new one with id `new_id` is added.
pub open spec fn score_written(
    s0: Seq<StoredEntry>,
    tenant: Seq<char>,
    c: LeaderboardEntryUpdateCommand,
    new_id: String,
    now: String,
    mid: Seq<StoredEntry>,
) -> bool {
    match first_index(s0, entry_owner(tenant, c.leaderboard_id@, c.user_id@)) {
        Some(i) => mid == s0.update(
            i,
            StoredEntry {
                tenant_id: s0[i].tenant_id,
                leaderboard_id: s0[i].leaderboard_id,
                item: written_entry(c, s0[i].item.id, now),
            },
        ),
        None => {
            &&& mid.len() == s0.len() + 1
            &&& mid.drop_last() == s0
            &&& mid.last().tenant_id@ == tenant
            &&& mid.last().leaderboard_id == c.leaderboard_id
            &&& mid.last().item == written_entry(c, new_id, now)
        },
    }
}

/// What a score write does: the entry is written, the leaderboard ranked again, and the
/// user's entry comes back as it now stands.
pub open spec fn upsert_post(
    s0: Seq<StoredEntry>,
    tenant: Seq<char>,
    c: LeaderboardEntryUpdateCommand,
    new_id: String,
    now: String,
    s1: Seq<StoredEntry>,
    r: LeaderboardResult<LeaderboardEntry>,
) -> bool {
    &&& exists|mid: Seq<StoredEntry>|
        score_written(s0, tenant, c, new_id, now, mid) && #[trigger] reranked(mid, s1, tenant, c.leaderboard_id@)
    &&& match first_index(s1, entry_owner(tenant, c.leaderboard_id@, c.user_id@)) {
        Some(i) => 0 <= i < s1.len() && r == Ok::<LeaderboardEntry, LeaderboardError>(s1[i].item),
        None => board_fails_with(r, "not_found"@, entry_missing_message()),
    }
}

/// The entries that stay when leaderboard `board` of `tenant` is rebuilt, in order.
pub open spec fn kept_entries(s: Seq<StoredEntry>, tenant: Seq<char>, board: Seq<char>) -> Seq<StoredEntry>
    decreases s.len(),
{
    if s.len() == 0 {
        Seq::empty()
    } else if in_scope(s.last(), tenant, board) {
        kept_entries(s.drop_last(), tenant, board)
    } else {
        kept_entries(s.drop_last(), tenant, board).push(s.last())
    }
}

/// Whether `mid` is `s0` with leaderboard `c.leaderboard_id` of `tenant` replaced: every
/// other entry stays in order, and the requested entries follow, in order, the `k`-th
/// with id `ids[k]`.
pub open spec fn rebuilt(
    s0: Seq<StoredEntry>,
    tenant: Seq<char>,
    c: LeaderboardEntriesRebuildCommand,
    ids: Seq<String>,
    now: String,
    mid: Seq<StoredEntry>,
) -> bool {
    let kept = kept_entries(s0, tenant, c.leaderboard_id@);
    &&& mid.len() == kept.len() + c.entries@.len()
    &&& mid.subrange(0, kept.len() as int) == kept
    &&& forall|k: int|
        0 <= k < c.entries@.len() ==> {
            &&& (#[trigger] mid[kept.len() + k]).tenant_id@ == tenant
            &&& mid[kept.len() + k].leaderboard_id == c.leaderboard_id
            &&& mid[kept.len() + k].item == written_entry(c.entries@[k], ids[k], now)
        }
}

/// The entries of `user` of `tenant`, of game `game` when one is named, in store order.
pub open spec fn user_entries(s: Seq<StoredEntry>, tenant: Seq<char>, user: Seq<char>, game: Option<Seq<char>>) -> Seq<LeaderboardEntry>
    decreases s.len(),
{
    if s.len() == 0 {
        Seq::empty()
    } else if s.last().tenant_id@ == tenant && s.last().item.user_id@ == user && match game {
        Some(g) => s.last().item.game_id@ == g,
        None => true,
    } {
        user_entries(s.drop_last(), tenant, user, game).push(s.last().item)
    } else {
        user_entries(s.drop_last(), tenant, user, game)
    }
}

/// The position of the greatest key, the last one among equals (as `Iterator::max_by`
/// picks it).
pub open spec fn last_greatest(keys: Seq<Seq<SortPart>>) -> int
    decreases keys.len(),
{
    if keys.len() <= 1 {
        0
    } else {
        let b = last_greatest(keys.drop_last());
        if key_order(keys.last(), keys[b]) >= 0 {
            keys.len() - 1
        } else {
            b
        }
    }
}

/// The entry of `user` in game `game`.
pub open spec fn user_in_game(user: Seq<char>, game: Seq<char>) -> spec_fn(LeaderboardEntry) -> bool {
    |e: LeaderboardEntry| e.user_id@ == user && e.game_id@ == game
}

/// What a user's ranking is: `not_found` when the user has no entry (in the game, when
/// one is named). Otherwise the entry that ranks last among them names a game, and the
/// user's first entry in that game's ranking comes back, ranked.
pub open spec fn user_ranking_post(
    s: Seq<StoredEntry>,
    tenant: Seq<char>,
    user: Seq<char>,
    game: Option<Seq<char>>,
    r: LeaderboardResult<LeaderboardEntry>,
) -> bool {
    let ue = user_entries(s, tenant, user, game);
    if ue.len() == 0 {
        board_fails_with(r, "not_found"@, entry_missing_message())
    } else {
        let best = ue[last_greatest(ue.map_values(|e: LeaderboardEntry| rank_key(e)))];
        exists|ranked: Seq<LeaderboardEntry>|
            #[trigger] ranking_of(board_entries(s, tenant, None, Some(best.game_id@)), ranked) && match first_index(
                ranked,
                user_in_game(user, best.game_id@),
            ) {
                Some(k) => r == Ok::<LeaderboardEntry, LeaderboardError>(ranked[k]),
                None => board_fails_with(r, "not_found"@, entry_missing_message()),
            }
    }
}

/// Whether a configuration matches a listing: its game when one is named, its status
/// when a non-blank one is named.
pub open spec fn config_matches(c: LeaderboardConfigItem, q: LeaderboardConfigQuery) -> bool {
    &&& match q.game_id {
        Some(g) => c.game_id@ == g@,
        None => true,
    }
    &&& match q.status {
        Some(st) => blank(st@) || c.status@ == st@,
        None => true,
    }
}

/// The configurations of `tenant` that match a listing, in store order.
pub open spec fn matching_configs(s: Seq<StoredConfig>, tenant: Seq<char>, q: LeaderboardConfigQuery) -> Seq<LeaderboardConfigItem>
    decreases s.len(),
{
    if s.len() == 0 {
        Seq::empty()
    } else if s.last().tenant_id@ == tenant && config_matches(s.last().item, q) {
        matching_configs(s.drop_last(), tenant, q).push(s.last().item)
    } else {
        matching_configs(s.drop_last(), tenant, q)
    }
}

/// Configurations are listed by leaderboard code.
pub open spec fn config_sort_key(c: LeaderboardConfigItem) -> Seq<SortPart> {
    seq![SortPart { value: SortValue::Text(c.leaderboard_code), descending: false }]
}

/// The configuration of `tenant` with id `id`.
pub open spec fn config_with_id(tenant: Seq<char>, id: Seq<char>) -> spec_fn(StoredConfig) -> bool {
    |s: StoredConfig| s.tenant_id@ == tenant && s.item.id@ == id
}

/// Whether seeded records belong to the default tenant and leaderboard and hold `items`.
pub open spec fn seeded_entries(records: Seq<StoredEntry>, items: Seq<LeaderboardEntry>) -> bool {
    &&& records.len() == items.len()
    &&& forall|k: int|
        0 <= k < records.len() ==> (#[trigger] records[k]).tenant_id@ == "100001"@ && records[k].leaderboard_id@
            == "default"@ && records[k].item == items[k]
}

/// Whether seeded configurations belong to the default tenant and hold `items`.
pub open spec fn seeded_configs(records: Seq<StoredConfig>, items: Seq<LeaderboardConfigItem>) -> bool {
    &&& records.len() == items.len()
    &&& forall|k: int|
        0 <= k < records.len() ==> (#[trigger] records[k]).tenant_id@ == "100001"@ && records[k].item == items[k]
}

/// A copy of a configuration.
pub fn copy_config(c: &LeaderboardConfigItem) -> (r: LeaderboardConfigItem)
    ensures
        r == *c,
{
    LeaderboardConfigItem {
        id: c.id.clone(),
        game_id: c.game_id.clone(),
        mode_id: copy_opt(&c.mode_id),
        season_id: copy_opt(&c.season_id),
        leaderboard_code: c.leaderboard_code.clone(),
        title: c.title.clone(),
        status: c.status.clone(),
        ranking_metric: c.ranking_metric.clone(),
        ranking_order: c.ranking_order.clone(),
        tie_breaker: c.tie_breaker.clone(),
        version: c.version,
    }
}

/// The entry a score request writes, with id `id`, before ranking.
fn write_entry(c: &LeaderboardEntryUpdateCommand, id: String, now: &String) -> (r: LeaderboardEntry)
    ensures
        r == written_entry(*c, id, *now),
{
    let recorded_at = match &c.recorded_at {
        Some(t) => t.clone(),
        None => now.clone(),
    };
    LeaderboardEntry {
        id,
        game_id: c.game_id.clone(),
        user_id: c.user_id.clone(),
        display_name: copy_opt(&c.display_name_snapshot),
        score: c.score_value,
        rank_no: None,
        recorded_at,
    }
}

/// The configurations taken in the order of the positions `order`.
fn arrange_configs(items: &Vec<LeaderboardConfigItem>, order: &Vec<usize>) -> (r: Vec<LeaderboardConfigItem>)
    requires
        forall|t: int| 0 <= t < order@.len() ==> (#[trigger] order@[t]) < items@.len(),
    ensures
        r@ == arrange(items@, order@),
{
    let mut sorted: Vec<LeaderboardConfigItem> = Vec::new();
    let mut k: usize = 0;
    while k < order.len()
        invariant
            forall|t: int| 0 <= t < order@.len() ==> (#[trigger] order@[t]) < items@.len(),
            k <= order@.len(),
            sorted@.len() == k,
            forall|t: int| 0 <= t < k ==> #[trigger] sorted@[t] == items@[order@[t] as int],
        decreases order@.len() - k,
    {
        sorted.push(copy_config(&items[order[k]]));
        k = k + 1;
    }
    assert(sorted@ =~= arrange(items@, order@));
    sorted
}

/// A copy of a score entry.
pub fn copy_entry(e: &LeaderboardEntry) -> (r: LeaderboardEntry)
    ensures
        r == *e,
{
    LeaderboardEntry {
        id: e.id.clone(),
        game_id: e.game_id.clone(),
        user_id: e.user_id.clone(),
        display_name: copy_opt(&e.display_name),
        score: e.score,
        rank_no: e.rank_no,
        recorded_at: e.recorded_at.clone(),
    }
}

/// A copy of a stored entry.
fn copy_stored(s: &StoredEntry) -> (r: StoredEntry)
    ensures
        r == *s,
{
    StoredEntry { tenant_id: s.tenant_id.clone(), leaderboard_id: s.leaderboard_id.clone(), item: copy_entry(&s.item) }
}

/// The ranking key of an entry.
fn rank_key_of(e: &LeaderboardEntry) -> (r: Vec<SortPart>)
    ensures
        r@ == rank_key(*e),
{
    let mut key: Vec<SortPart> = Vec::new();
    key.push(SortPart { value: SortValue::Number(e.score), descending: true });
    key.push(SortPart { value: SortValue::Text(e.recorded_at.clone()), descending: false });
    key.push(SortPart { value: SortValue::Text(e.id.clone()), descending: false });
    assert(key@ =~= rank_key(*e));
    key
}

/// An entry with the rank of the `k`-th place.
fn rank_as(e: &LeaderboardEntry, k: usize) -> (r: LeaderboardEntry)
    requires
        k < usize::MAX,
    ensures
        r == ranked_as(*e, k as int),
{
    LeaderboardEntry {
        id: e.id.clone(),
        game_id: e.game_id.clone(),
        user_id: e.user_id.clone(),
        display_name: copy_opt(&e.display_name),
        score: e.score,
        rank_no: Some(#[verifier::truncate] ((k + 1) as i32)),
        recorded_at: e.recorded_at.clone(),
    }
}

/// `items` in ranking order, each with its place as rank.
fn rank_entries(items: &Vec<LeaderboardEntry>) -> (r: Vec<LeaderboardEntry>)
    ensures
        ranking_of(items@, r@),
{
    let ghost s = items@;
    let mut keys: Vec<Vec<SortPart>> = Vec::new();
    let mut j: usize = 0;
    while j < items.len()
        invariant
            s == items@,
            j <= items@.len(),
            keys@.len() == j,
            forall|t: int| 0 <= t < j ==> (#[trigger] keys@[t])@ == rank_key(items@[t]),
        decreases items@.len() - j,
    {
        keys.push(rank_key_of(&items[j]));
        j = j + 1;
    }
    assert(key_views(keys@) =~= s.map_values(|e: LeaderboardEntry| rank_key(e)));
    let order = stable_sort_order(&keys);
    let mut ranked: Vec<LeaderboardEntry> = Vec::new();
    let mut k: usize = 0;
    while k < order.len()
        invariant
            s == items@,
            order@.len() == s.len(),
            forall|t: int| 0 <= t < order@.len() ==> (#[trigger] order@[t]) < s.len(),
            k <= order@.len(),
            ranked@.len() == k,
            forall|t: int| 0 <= t < k ==> #[trigger] ranked@[t] == ranked_as(s[order@[t] as int], t),
        decreases order@.len() - k,
    {
        ranked.push(rank_as(&items[order[k]], k));
        k = k + 1;
    }
    assert(ranked@ =~= with_ranks(arrange(s, order@)));
    assert(stable_order(s.map_values(|e: LeaderboardEntry| rank_key(e)), order@));
    ranked
}

/// Under a ranking, an entry with a higher score has a smaller rank, as long as the
/// ranks stay inside `i32`.
pub proof fn law_higher_score_ranks_first(s0: Seq<StoredEntry>, s1: Seq<StoredEntry>, tenant: Seq<char>, board: Seq<char>, a: int, b: int)
    requires
        reranked(s0, s1, tenant, board),
        scope_positions(s0, tenant, board).len() < i32::MAX,
        0 <= a < scope_positions(s0, tenant, board).len(),
        0 <= b < scope_positions(s0, tenant, board).len(),
        s0[scope_positions(s0, tenant, board)[a]].item.score > s0[scope_positions(s0, tenant, board)[b]].item.score,
    ensures
        ({
            let pos = scope_positions(s0, tenant, board);
            &&& s1[pos[a]].item.rank_no is Some
            &&& s1[pos[b]].item.rank_no is Some
            &&& s1[pos[a]].item.rank_no->0 < s1[pos[b]].item.rank_no->0
        }),
{
    let pos = scope_positions(s0, tenant, board);
    let keys = scope_keys(s0, tenant, board);
    let o = choose|o: Seq<usize>|
        stable_order(keys, o) && forall|k: int|
            0 <= k < o.len() ==> s1[#[trigger] pos[o[k] as int]] == stored_ranked_as(s0[pos[o[k] as int]], k);
    assert(o.contains(a as usize));
    assert(o.contains(b as usize));
    let ka = choose|k: int| 0 <= k < o.len() && o[k] == a as usize;
    let kb = choose|k: int| 0 <= k < o.len() && o[k] == b as usize;
    assert(keys[a] == rank_key(s0[pos[a]].item));
    assert(keys[b] == rank_key(s0[pos[b]].item));
    assert(key_order(keys[a], keys[b]) < 0);
    lemma_smaller_key_listed_first(keys, o, ka, kb);
    assert(s1[pos[o[ka] as int]] == stored_ranked_as(s0[pos[o[ka] as int]], ka));
    assert(s1[pos[o[kb] as int]] == stored_ranked_as(s0[pos[o[kb] as int]], kb));
}

/// Where the entries of one leaderboard sit: every listed position holds one of its
/// entries, and every one of its entries is listed.
proof fn lemma_scope_positions(s: Seq<StoredEntry>, tenant: Seq<char>, board: Seq<char>)
    ensures
        forall|t: int|
            0 <= t < scope_positions(s, tenant, board).len() ==> 0 <= #[trigger] scope_positions(s, tenant, board)[t] < s.len()
                && in_scope(s[scope_positions(s, tenant, board)[t]], tenant, board),
        forall|m: int| 0 <= m < s.len() && in_scope(#[trigger] s[m], tenant, board) ==> scope_positions(s, tenant, board).contains(m),
        scope_positions(s, tenant, board).len() <= s.len(),
        forall|t: int| 0 <= t < scope_positions(s, tenant, board).len() ==> t <= #[trigger] scope_positions(s, tenant, board)[t],
    decreases s.len(),
{
    if s.len() > 0 {
        let d = s.drop_last();
        lemma_scope_positions(d, tenant, board);
        let pd = scope_positions(d, tenant, board);
        let ps = scope_positions(s, tenant, board);
        assert forall|t: int| 0 <= t < ps.len() implies 0 <= #[trigger] ps[t] < s.len() && in_scope(s[ps[t]], tenant, board) && t <= ps[t] by {
            if t < pd.len() {
                assert(ps[t] == pd[t]);
                assert(s[pd[t]] == d[pd[t]]);
            }
        }
        assert forall|m: int| 0 <= m < s.len() && in_scope(#[trigger] s[m], tenant, board) implies ps.contains(m) by {
            if m < s.len() - 1 {
                assert(s[m] == d[m]);
                assert(pd.contains(m));
                let t = choose|t: int| 0 <= t < pd.len() && pd[t] == m;
                assert(ps[t] == pd[t]);
            } else {
                assert(ps[ps.len() - 1] == m);
            }
        }
    }
}

/// A score write is read back: the entry that comes back is the user's, with the
/// requested game, score and time, and a rank.
pub proof fn law_upsert_returns_written_score(
    s0: Seq<StoredEntry>,
    tenant: Seq<char>,
    c: LeaderboardEntryUpdateCommand,
    new_id: String,
    now: String,
    s1: Seq<StoredEntry>,
    r: LeaderboardResult<LeaderboardEntry>,
)
    requires
        upsert_post(s0, tenant, c, new_id, now, s1, r),
        s0.len() < usize::MAX,
    ensures
        r is Ok,
        r->Ok_0.user_id == c.user_id,
        r->Ok_0.game_id == c.game_id,
        r->Ok_0.score == c.score_value,
        r->Ok_0.display_name == c.display_name_snapshot,
        r->Ok_0.recorded_at == recorded_time(c, now),
        r->Ok_0.rank_no is Some,
{
    let board = c.leaderboard_id@;
    let p = entry_owner(tenant, board, c.user_id@);
    let mid = choose|mid: Seq<StoredEntry>|
        score_written(s0, tenant, c, new_id, now, mid) && #[trigger] reranked(mid, s1, tenant, board);
    lemma_first_index(s0, p);
    let i: int = match first_index(s0, p) {
        Some(i) => i,
        None => s0.len() as int,
    };
    // The user's entry sits at `i` in the written store.
    assert(0 <= i < mid.len());
    assert(p(mid[i]));
    assert forall|j: int| 0 <= j < i implies !p(#[trigger] mid[j]) by {
        assert(mid[j] == s0[j]);
    }
    lemma_first_index_is(mid, p, i);
    // Ranking keeps who owns each entry.
    let pos = scope_positions(mid, tenant, board);
    let keys = scope_keys(mid, tenant, board);
    let o = choose|o: Seq<usize>|
        #[trigger] stable_order(keys, o) && forall|k: int|
            0 <= k < o.len() ==> s1[#[trigger] pos[o[k] as int]] == stored_ranked_as(mid[pos[o[k] as int]], k);
    lemma_scope_positions(mid, tenant, board);
    assert(s1.len() == mid.len());
    assert forall|j: int| 0 <= j < mid.len() implies p(#[trigger] mid[j]) == p(s1[j]) by {
        if in_scope(mid[j], tenant, board) {
            assert(pos.contains(j));
            let t = choose|t: int| 0 <= t < pos.len() && pos[t] == j;
            assert(t <= pos[t]);
            assert(0 <= t < keys.len());
            assert(o.contains(t as usize));
            let k = choose|k: int| 0 <= k < o.len() && o[k] == t as usize;
            assert(s1[pos[o[k] as int]] == stored_ranked_as(mid[pos[o[k] as int]], k));
            assert(s1[j] == stored_ranked_as(mid[j], k));
        } else {
            assert(s1[j] == mid[j]);
        }
    }
    lemma_first_index_same(mid, p, s1, p);
    assert(in_scope(mid[i], tenant, board));
    assert(pos.contains(i));
    let t = choose|t: int| 0 <= t < pos.len() && pos[t] == i;
    assert(t <= pos[t]);
    assert(0 <= t < keys.len());
    assert(o.contains(t as usize));
    let k = choose|k: int| 0 <= k < o.len() && o[k] == t as usize;
    assert(s1[pos[o[k] as int]] == stored_ranked_as(mid[pos[o[k] as int]], k));
}

/// The entries a rebuild keeps are none of the rebuilt leaderboard's.
proof fn lemma_kept_out_of_scope(s: Seq<StoredEntry>, tenant: Seq<char>, board: Seq<char>)
    ensures
        forall|j: int|
            0 <= j < kept_entries(s, tenant, board).len() ==> !in_scope(#[trigger] kept_entries(s, tenant, board)[j], tenant, board),
    decreases s.len(),
{
    if s.len() > 0 {
        lemma_kept_out_of_scope(s.drop_last(), tenant, board);
        let kd = kept_entries(s.drop_last(), tenant, board);
        let ks = kept_entries(s, tenant, board);
        assert forall|j: int| 0 <= j < ks.len() implies !in_scope(#[trigger] ks[j], tenant, board) by {
            if j < kd.len() {
                assert(ks[j] == kd[j]);
            }
        }
    }
}

/// A store whose first `p` entries are outside a leaderboard and whose others are inside
/// it lists `len - p` of its entries there.
proof fn lemma_scope_count_split(s: Seq<StoredEntry>, tenant: Seq<char>, board: Seq<char>, p: int)
    requires
        0 <= p,
        forall|j: int| 0 <= j < s.len() && j < p ==> !in_scope(#[trigger] s[j], tenant, board),
        forall|j: int| p <= j < s.len() ==> in_scope(#[trigger] s[j], tenant, board),
    ensures
        scope_positions(s, tenant, board).len() == if s.len() > p {
            s.len() - p
        } else {
            0
        },
    decreases s.len(),
{
    if s.len() > 0 {
        let d = s.drop_last();
        assert forall|j: int| 0 <= j < d.len() && j < p implies !in_scope(#[trigger] d[j], tenant, board) by {
            assert(d[j] == s[j]);
        }
        assert forall|j: int| p <= j < d.len() implies in_scope(#[trigger] d[j], tenant, board) by {
            assert(d[j] == s[j]);
        }
        lemma_scope_count_split(d, tenant, board, p);
        assert(s.last() == s[s.len() - 1]);
    }
}

/// Stores that agree entry by entry on membership in a leaderboard list the same positions.
proof fn lemma_scope_positions_same(a: Seq<StoredEntry>, b: Seq<StoredEntry>, tenant: Seq<char>, board: Seq<char>)
    requires
        a.len() == b.len(),
        forall|j: int| 0 <= j < a.len() ==> in_scope(#[trigger] a[j], tenant, board) == in_scope(b[j], tenant, board),
    ensures
        scope_positions(a, tenant, board) == scope_positions(b, tenant, board),
    decreases a.len(),
{
    if a.len() > 0 {
        let da = a.drop_last();
        let db = b.drop_last();
        assert forall|j: int| 0 <= j < da.len() implies in_scope(#[trigger] da[j], tenant, board) == in_scope(db[j], tenant, board) by {
            assert(da[j] == a[j] && db[j] == b[j]);
        }
        lemma_scope_positions_same(da, db, tenant, board);
        assert(a.last() == a[a.len() - 1] && b.last() == b[b.len() - 1]);
    }
}

/// The entries a leaderboard ranking lists are as many as its positions.
proof fn lemma_board_count(s: Seq<StoredEntry>, tenant: Seq<char>, board: Seq<char>)
    ensures
        board_entries(s, tenant, Some(board), None).len() == scope_positions(s, tenant, board).len(),
    decreases s.len(),
{
    if s.len() > 0 {
        lemma_board_count(s.drop_last(), tenant, board);
    }
}

/// Ranking again keeps which entries belong to the ranked leaderboard.
proof fn lemma_rerank_keeps_scope(s0: Seq<StoredEntry>, s1: Seq<StoredEntry>, tenant: Seq<char>, board: Seq<char>)
    requires
        reranked(s0, s1, tenant, board),
        s0.len() < usize::MAX,
    ensures
        s1.len() == s0.len(),
        forall|j: int| 0 <= j < s0.len() ==> in_scope(#[trigger] s0[j], tenant, board) == in_scope(s1[j], tenant, board),
{
    let pos = scope_positions(s0, tenant, board);
    let keys = scope_keys(s0, tenant, board);
    let o = choose|o: Seq<usize>|
        #[trigger] stable_order(keys, o) && forall|k: int|
            0 <= k < o.len() ==> s1[#[trigger] pos[o[k] as int]] == stored_ranked_as(s0[pos[o[k] as int]], k);
    lemma_scope_positions(s0, tenant, board);
    assert forall|j: int| 0 <= j < s0.len() implies in_scope(#[trigger] s0[j], tenant, board) == in_scope(s1[j], tenant, board) by {
        if in_scope(s0[j], tenant, board) {
            assert(pos.contains(j));
            let t = choose|t: int| 0 <= t < pos.len() && pos[t] == j;
            assert(t <= pos[t]);
            assert(0 <= t < keys.len());
            assert(o.contains(t as usize));
            let k = choose|k: int| 0 <= k < o.len() && o[k] == t as usize;
            assert(s1[pos[o[k] as int]] == stored_ranked_as(s0[pos[o[k] as int]], k));
        } else {
            assert(s1[j] == s0[j]);
        }
    }
}

/// A rebuild replaces the leaderboard: its ranking then lists exactly as many entries as
/// the request names, whatever it held before.
pub proof fn law_rebuild_replaces_scope(
    s0: Seq<StoredEntry>,
    tenant: Seq<char>,
    c: LeaderboardEntriesRebuildCommand,
    ids: Seq<String>,
    now: String,
    s1: Seq<StoredEntry>,
)
    requires
        exists|mid: Seq<StoredEntry>|
            rebuilt(s0, tenant, c, ids, now, mid) && #[trigger] reranked(mid, s1, tenant, c.leaderboard_id@),
        s0.len() + c.entries@.len() < usize::MAX,
    ensures
        board_entries(s1, tenant, Some(c.leaderboard_id@), None).len() == c.entries@.len(),
{
    let board = c.leaderboard_id@;
    let mid = choose|mid: Seq<StoredEntry>|
        rebuilt(s0, tenant, c, ids, now, mid) && #[trigger] reranked(mid, s1, tenant, board);
    let kept = kept_entries(s0, tenant, board);
    lemma_kept_out_of_scope(s0, tenant, board);
    lemma_kept_no_longer(s0, tenant, board);
    assert forall|j: int| 0 <= j < mid.len() && j < kept.len() implies !in_scope(#[trigger] mid[j], tenant, board) by {
        assert(mid[j] == mid.subrange(0, kept.len() as int)[j]);
    }
    assert forall|j: int| kept.len() <= j < mid.len() implies in_scope(#[trigger] mid[j], tenant, board) by {
        let k = j - kept.len();
        assert(mid[kept.len() + k].tenant_id@ == tenant);
    }
    lemma_scope_count_split(mid, tenant, board, kept.len() as int);
    lemma_rerank_keeps_scope(mid, s1, tenant, board);
    lemma_scope_positions_same(mid, s1, tenant, board);
    lemma_board_count(s1, tenant, board);
}

/// A rebuild keeps no more entries than the store held.
proof fn lemma_kept_no_longer(s: Seq<StoredEntry>, tenant: Seq<char>, board: Seq<char>)
    ensures
        kept_entries(s, tenant, board).len() <= s.len(),
    decreases s.len(),
{
    if s.len() > 0 {
        lemma_kept_no_longer(s.drop_last(), tenant, board);
    }
}

/// Entries of the default leaderboard of the default tenant.
fn seed_entries(items: &Vec<LeaderboardEntry>) -> (r: Vec<StoredEntry>)
    ensures
        seeded_entries(r@, items@),
{
    let mut stored: Vec<StoredEntry> = Vec::new();
    let mut i: usize = 0;
    while i < items.len()
        invariant
            i <= items@.len(),
            stored@.len() == i,
            forall|k: int|
                0 <= k < i ==> (#[trigger] stored@[k]).tenant_id@ == "100001"@ && stored@[k].leaderboard_id@
                    == "default"@ && stored@[k].item == items@[k],
        decreases items@.len() - i,
    {
        stored.push(
            StoredEntry {
                tenant_id: String::from_str("100001"),
                leaderboard_id: String::from_str("default"),
                item: copy_entry(&items[i]),
            },
        );
        i = i + 1;
    }
    stored
}

/// The greatest key's position is a position of the keys.
proof fn lemma_last_greatest(keys: Seq<Seq<SortPart>>)
    requires
        keys.len() >= 1,
    ensures
        0 <= last_greatest(keys) < keys.len(),
    decreases keys.len(),
{
    if keys.len() > 1 {
        lemma_last_greatest(keys.drop_last());
    }
}

/// The entries a ranking takes are entries of the board, and there are as many as the
/// stored entries on the board.
proof fn lemma_board_entries(s: Seq<StoredEntry>, tenant: Seq<char>, board: Option<Seq<char>>, game: Option<Seq<char>>)
    ensures
        forall|m: int|
            0 <= m < board_entries(s, tenant, board, game).len() ==> exists|j: int|
                0 <= j < s.len() && on_board(s[j], tenant, board, game)
                    && s[j].item == #[trigger] board_entries(s, tenant, board, game)[m],
        board_entries(s, tenant, board, game).len() == count_where(
            s,
            |x: StoredEntry| on_board(x, tenant, board, game),
        ),
    decreases s.len(),
{
    if s.len() > 0 {
        let t = s.drop_last();
        lemma_board_entries(t, tenant, board, game);
        let prev = board_entries(t, tenant, board, game);
        assert forall|m: int| 0 <= m < board_entries(s, tenant, board, game).len() implies exists|j: int|
            0 <= j < s.len() && on_board(s[j], tenant, board, game)
                && s[j].item == #[trigger] board_entries(s, tenant, board, game)[m] by {
            if m < prev.len() {
                assert(board_entries(s, tenant, board, game)[m] == prev[m]);
                let j = choose|j: int|
                    0 <= j < t.len() && on_board(t[j], tenant, board, game) && t[j].item == #[trigger] prev[m];
                assert(s[j] == t[j]);
            } else {
                assert(s[s.len() - 1] == s.last());
            }
        }
    }
}

/// A user's entries are the user's, and of the game when one is named.
proof fn lemma_user_entries(s: Seq<StoredEntry>, tenant: Seq<char>, user: Seq<char>, game: Option<Seq<char>>)
    ensures
        forall|m: int|
            0 <= m < user_entries(s, tenant, user, game).len() ==> (#[trigger] user_entries(s, tenant, user, game)[m]).user_id@
                == user && (game matches Some(g) ==> user_entries(s, tenant, user, game)[m].game_id@ == g),
    decreases s.len(),
{
    if s.len() > 0 {
        lemma_user_entries(s.drop_last(), tenant, user, game);
    }
}

/// A ranking lists only entries of the tenant's board it names: of the leaderboard and
/// of the game when those are named, each ranked by its place; its total counts exactly
/// the stored entries on that board.
pub proof fn law_ranking_lists_only_its_board(
    s: Seq<StoredEntry>,
    tenant: Seq<char>,
    board: Option<Seq<char>>,
    game: Option<Seq<char>>,
    page: Option<u32>,
    page_size: Option<u32>,
    p: LeaderboardPage,
)
    requires
        ranked_page(board_entries(s, tenant, board, game), page, page_size, p),
    ensures
        forall|m: int|
            0 <= m < p.items@.len() ==> {
                &&& exists|j: int|
                    0 <= j < s.len() && s[j].tenant_id@ == tenant && (board matches Some(b) ==> s[j].leaderboard_id@ == b)
                        && s[j].item.id == (#[trigger] p.items@[m]).id && s[j].item.user_id == p.items@[m].user_id
                        && s[j].item.game_id == p.items@[m].game_id && s[j].item.score == p.items@[m].score
                &&& (game matches Some(g) ==> p.items@[m].game_id@ == g)
                &&& p.items@[m].rank_no == Some((page_offset(page, page_size) + m + 1) as i32)
            },
        p.total == count_where(
            s,
            |x: StoredEntry|
                x.tenant_id@ == tenant && (board matches Some(b) ==> x.leaderboard_id@ == b)
                    && (game matches Some(g) ==> x.item.game_id@ == g),
        ),
{
    let items = board_entries(s, tenant, board, game);
    lemma_board_entries(s, tenant, board, game);
    let ranked = choose|ranked: Seq<LeaderboardEntry>|
        ranking_of(items, ranked) && p.items@ == page_window(ranked, page_offset(page, page_size), page_limit(page_size) as int);
    let o = choose|o: Seq<usize>|
        stable_order(items.map_values(|e: LeaderboardEntry| rank_key(e)), o) && ranked == with_ranks(
            #[trigger] arrange(items, o),
        );
    let offset = page_offset(page, page_size);
    let start = if offset < ranked.len() { offset } else { ranked.len() as int };
    assert forall|m: int| 0 <= m < p.items@.len() implies {
        &&& exists|j: int|
            0 <= j < s.len() && s[j].tenant_id@ == tenant && (board matches Some(b) ==> s[j].leaderboard_id@ == b)
                && s[j].item.id == (#[trigger] p.items@[m]).id && s[j].item.user_id == p.items@[m].user_id
                && s[j].item.game_id == p.items@[m].game_id && s[j].item.score == p.items@[m].score
        &&& (game matches Some(g) ==> p.items@[m].game_id@ == g)
        &&& p.items@[m].rank_no == Some((page_offset(page, page_size) + m + 1) as i32)
    } by {
        let k = start + m;
        assert(p.items@[m] == ranked[k]);
        let x = items[o[k] as int];
        assert(ranked[k] == ranked_as(x, k));
        let j = choose|j: int|
            0 <= j < s.len() && on_board(s[j], tenant, board, game) && s[j].item == #[trigger] items[o[k] as int];
        assert(s[j].item == x);
    }
    let spec_pred = |x: StoredEntry| on_board(x, tenant, board, game);
    let direct = |x: StoredEntry|
        x.tenant_id@ == tenant && (board matches Some(b) ==> x.leaderboard_id@ == b)
            && (game matches Some(g) ==> x.item.game_id@ == g);
    assert(spec_pred =~= direct);
}

/// A user's ranking is the user's entry, in the game asked for when one is named, and its
/// rank is a place among the tenant's entries of that game alone.
pub proof fn law_user_rank_counts_only_its_game(
    s: Seq<StoredEntry>,
    tenant: Seq<char>,
    user: Seq<char>,
    game: Option<Seq<char>>,
    r: LeaderboardResult<LeaderboardEntry>,
)
    requires
        user_ranking_post(s, tenant, user, game, r),
        r is Ok,
    ensures
        r->Ok_0.user_id@ == user,
        game matches Some(g) ==> r->Ok_0.game_id@ == g,
        count_where(s, |x: StoredEntry| x.tenant_id@ == tenant && x.item.game_id@ == r->Ok_0.game_id@) <= i32::MAX
            ==> (r->Ok_0.rank_no matches Some(n) && 1 <= n <= count_where(
            s,
            |x: StoredEntry| x.tenant_id@ == tenant && x.item.game_id@ == r->Ok_0.game_id@,
        )),
{
    let ue = user_entries(s, tenant, user, game);
    let keys = ue.map_values(|e: LeaderboardEntry| rank_key(e));
    lemma_last_greatest(keys);
    lemma_user_entries(s, tenant, user, game);
    let best = ue[last_greatest(keys)];
    let g = best.game_id@;
    let items = board_entries(s, tenant, None, Some(g));
    lemma_board_entries(s, tenant, None, Some(g));
    let ranked = choose|ranked: Seq<LeaderboardEntry>|
        #[trigger] ranking_of(items, ranked) && match first_index(ranked, user_in_game(user, g)) {
            Some(k) => r == Ok::<LeaderboardEntry, LeaderboardError>(ranked[k]),
            None => board_fails_with(r, "not_found"@, entry_missing_message()),
        };
    let o = choose|o: Seq<usize>|
        stable_order(items.map_values(|e: LeaderboardEntry| rank_key(e)), o) && ranked == with_ranks(
            #[trigger] arrange(items, o),
        );
    lemma_first_index(ranked, user_in_game(user, g));
    let k = first_index(ranked, user_in_game(user, g))->Some_0;
    assert(r->Ok_0 == ranked[k]);
    assert(ranked[k] == ranked_as(arrange(items, o)[k], k));
    let spec_pred = |x: StoredEntry| on_board(x, tenant, None, Some(g));
    let direct = |x: StoredEntry| x.tenant_id@ == tenant && x.item.game_id@ == r->Ok_0.game_id@;
    assert(spec_pred =~= direct);
}

impl InMemoryLeaderboardRepository {
    /// The stored configurations.
    pub closed spec fn config_records(&self) -> Seq<StoredConfig> {
        self.configs@
    }

    /// The stored entries, in the order they were added.
    pub closed spec fn entry_records(&self) -> Seq<StoredEntry> {
        self.entries@
    }

    /// No configurations and no entries.
    pub fn new() -> (r: Self)
        ensures
            r.config_records().len() == 0,
            r.entry_records().len() == 0,
    {
        InMemoryLeaderboardRepository { configs: Vec::new(), entries: Vec::new() }
    }

    /// Entries of the default leaderboard of the default tenant, in order.
    pub fn with_seed(items: Vec<LeaderboardEntry>) -> (r: Self)
        ensures
            seeded_entries(r.entry_records(), items@),
            r.config_records().len() == 0,
    {
        let entries = seed_entries(&items);
        InMemoryLeaderboardRepository { configs: Vec::new(), entries }
    }

    /// Configurations of the default tenant and entries of its default leaderboard.
    pub fn with_configs(configs: Vec<LeaderboardConfigItem>, items: Vec<LeaderboardEntry>) -> (r: Self)
        ensures
            seeded_configs(r.config_records(), configs@),
            seeded_entries(r.entry_records(), items@),
    {
        let entries = seed_entries(&items);
        let mut stored: Vec<StoredConfig> = Vec::new();
        let mut i: usize = 0;
        while i < configs.len()
            invariant
                i <= configs@.len(),
                stored@.len() == i,
                forall|k: int|
                    0 <= k < i ==> (#[trigger] stored@[k]).tenant_id@ == "100001"@ && stored@[k].item == configs@[k],
            decreases configs@.len() - i,
        {
            stored.push(StoredConfig { tenant_id: String::from_str("100001"), item: copy_config(&configs[i]) });
            i = i + 1;
        }
        InMemoryLeaderboardRepository { configs: stored, entries }
    }

    /// The position of the first entry of `user` on leaderboard `board` of `tenant_id`.
    fn find_entry(&self, tenant_id: &str, board: &str, user: &str) -> (r: Option<usize>)
        ensures
            match r {
                Some(i) => i < self.entries@.len() && first_index(self.entries@, entry_owner(tenant_id@, board@, user@)) == Some(i as int),
                None => first_index(self.entries@, entry_owner(tenant_id@, board@, user@)) is None,
            },
    {
        let ghost p = entry_owner(tenant_id@, board@, user@);
        let n = self.entries.len();
        let mut i: usize = 0;
        while i < n
            invariant
                n == self.entries@.len(),
                i <= n,
                p == entry_owner(tenant_id@, board@, user@),
                forall|j: int| 0 <= j < i ==> !p(#[trigger] self.entries@[j]),
            decreases n - i,
        {
            let stored = &self.entries[i];
            if text_eq(stored.tenant_id.as_str(), tenant_id) && text_eq(stored.leaderboard_id.as_str(), board)
                && text_eq(stored.item.user_id.as_str(), user) {
                proof {
                    lemma_first_index_is(self.entries@, p, i as int);
                }
                return Some(i);
            }
            i = i + 1;
        }
        proof {
            lemma_first_index_none(self.entries@, p);
        }
        None
    }

    /// The entries a ranking lists, in store order.
    fn collect_board(&self, tenant_id: &str, board: Option<&str>, game: Option<&str>) -> (r: Vec<LeaderboardEntry>)
        ensures
            r@ == board_entries(
                self.entries@,
                tenant_id@,
                match board {
                    Some(b) => Some(b@),
                    None => None,
                },
                match game {
                    Some(g) => Some(g@),
                    None => None,
                },
            ),
    {
        let ghost bv: Option<Seq<char>> = match board {
            Some(b) => Some(b@),
            None => None,
        };
        let ghost gv: Option<Seq<char>> = match game {
            Some(g) => Some(g@),
            None => None,
        };
        let n = self.entries.len();
        let mut found: Vec<LeaderboardEntry> = Vec::new();
        let mut i: usize = 0;
        while i < n
            invariant
                n == self.entries@.len(),
                i <= n,
                bv == (match board {
                    Some(b) => Some(b@),
                    None => None::<Seq<char>>,
                }),
                gv == (match game {
                    Some(g) => Some(g@),
                    None => None::<Seq<char>>,
                }),
                found@ == board_entries(self.entries@.subrange(0, i as int), tenant_id@, bv, gv),
            decreases n - i,
        {
            let stored = &self.entries[i];
            proof {
                let sub = self.entries@.subrange(0, i + 1);
                assert(sub.drop_last() =~= self.entries@.subrange(0, i as int));
                assert(sub.last() == self.entries@[i as int]);
            }
            let on_board_lb = match board {
                Some(b) => text_eq(stored.leaderboard_id.as_str(), b),
                None => true,
            };
            let on_board_game = match game {
                Some(g) => text_eq(stored.item.game_id.as_str(), g),
                None => true,
            };
            if text_eq(stored.tenant_id.as_str(), tenant_id) && on_board_lb && on_board_game {
                found.push(copy_entry(&stored.item));
            }
            i = i + 1;
        }
        assert(self.entries@.subrange(0, n as int) =~= self.entries@);
        found
    }

    /// The ranking of `tenant_id`'s entries, of the leaderboard and game the query names,
    /// one page of it.
    pub fn list_rankings(&self, tenant_id: &str, query: &LeaderboardQuery) -> (r: LeaderboardResult<LeaderboardPage>)
        requires
            offset_fits(query.page, query.page_size),
        ensures
            match r {
                Ok(p) => ranked_page(
                    board_entries(self.entry_records(), tenant_id@, opt_view(query.leaderboard_id), opt_view(query.game_id)),
                    query.page,
                    query.page_size,
                    p,
                ),
                Err(_) => false,
            },
    {
        let board = match &query.leaderboard_id {
            Some(b) => Some(b.as_str()),
            None => None,
        };
        let game = match &query.game_id {
            Some(g) => Some(g.as_str()),
            None => None,
        };
        let items = self.collect_board(tenant_id, board, game);
        let ranked = rank_entries(&items);
        let limit = query.limit();
        let offset = query.offset();
        let total = items.len() as u64;
        let ghost all = ranked@;
        let page_items = take_page(ranked, offset as usize, limit as usize);
        let page = match query.page {
            Some(p) => p,
            None => 1,
        };
        let r = LeaderboardPage { items: page_items, total, page, page_size: limit };
        assert(ranking_of(items@, all) && r.items@ == page_window(
            all,
            page_offset(query.page, query.page_size),
            page_limit(query.page_size) as int,
        ));
        Ok(r)
    }

    /// Records a user's score on a leaderboard of `tenant_id`: replaces the user's entry
    /// there (keeping its id) or adds one with id `entry_id`, recorded at the request's
    /// time or at `now`, then ranks the leaderboard again.
    pub fn upsert_entry(
        &mut self,
        tenant_id: &str,
        command: &LeaderboardEntryUpdateCommand,
        entry_id: String,
        now: String,
    ) -> (r: LeaderboardResult<LeaderboardEntry>)
        ensures
            upsert_post(old(self).entry_records(), tenant_id@, *command, entry_id, now, final(self).entry_records(), r),
            final(self).config_records() == old(self).config_records(),
    {
        let ghost s0 = self.entries@;
        match self.find_entry(tenant_id, command.leaderboard_id.as_str(), command.user_id.as_str()) {
            Some(i) => {
                let old = &self.entries[i];
                let item = write_entry(command, old.item.id.clone(), &now);
                let stored = StoredEntry {
                    tenant_id: old.tenant_id.clone(),
                    leaderboard_id: old.leaderboard_id.clone(),
                    item,
                };
                self.entries.set(i, stored);
            },
            None => {
                let item = write_entry(command, entry_id, &now);
                self.entries.push(
                    StoredEntry {
                        tenant_id: String::from_str(tenant_id),
                        leaderboard_id: command.leaderboard_id.clone(),
                        item,
                    },
                );
                assert(self.entries@.drop_last() =~= s0);
            },
        }
        let ghost mid = self.entries@;
        assert(score_written(s0, tenant_id@, *command, entry_id, now, mid));
        self.recompute_ranks(tenant_id, command.leaderboard_id.as_str());
        assert(reranked(mid, self.entries@, tenant_id@, command.leaderboard_id@));
        match self.find_entry(tenant_id, command.leaderboard_id.as_str(), command.user_id.as_str()) {
            Some(i) => Ok(copy_entry(&self.entries[i].item)),
            None => Err(LeaderboardError::not_found("leaderboard entry not found")),
        }
    }

    /// Replaces every entry of leaderboard `command.leaderboard_id` of `tenant_id` with the
    /// requested ones (the `k`-th taking id `entry_ids[k]`, recorded at its request's time
    /// or at `now`), ranks the leaderboard, and returns the first page of its ranking
    /// (page size 200).
    pub fn rebuild_entries(
        &mut self,
        tenant_id: &str,
        command: &LeaderboardEntriesRebuildCommand,
        entry_ids: Vec<String>,
        now: String,
    ) -> (r: LeaderboardResult<LeaderboardPage>)
        requires
            entry_ids@.len() == command.entries@.len(),
        ensures
            exists|mid: Seq<StoredEntry>|
                rebuilt(old(self).entry_records(), tenant_id@, *command, entry_ids@, now, mid) && #[trigger] reranked(
                    mid,
                    final(self).entry_records(),
                    tenant_id@,
                    command.leaderboard_id@,
                ),
            match r {
                Ok(p) => ranked_page(
                    board_entries(final(self).entry_records(), tenant_id@, Some(command.leaderboard_id@), None),
                    None,
                    Some(200),
                    p,
                ),
                Err(_) => false,
            },
            final(self).config_records() == old(self).config_records(),
    {
        let ghost s0 = self.entries@;
        let ghost tenant = tenant_id@;
        let ghost board = command.leaderboard_id@;
        let n = self.entries.len();
        let mut kept: Vec<StoredEntry> = Vec::new();
        let mut i: usize = 0;
        while i < n
            invariant
                n == s0.len(),
                s0 == self.entries@,
                tenant == tenant_id@,
                board == command.leaderboard_id@,
                i <= n,
                kept@ == kept_entries(s0.subrange(0, i as int), tenant, board),
            decreases n - i,
        {
            let stored = &self.entries[i];
            proof {
                let sub = s0.subrange(0, i + 1);
                assert(sub.drop_last() =~= s0.subrange(0, i as int));
                assert(sub.last() == s0[i as int]);
            }
            if !(text_eq(stored.tenant_id.as_str(), tenant_id) && text_eq(
                stored.leaderboard_id.as_str(),
                command.leaderboard_id.as_str(),
            )) {
                kept.push(copy_stored(stored));
            }
            i = i + 1;
        }
        assert(s0.subrange(0, n as int) =~= s0);
        let ghost kept_len = kept@.len();
        let ghost kept_view = kept@;
        let mut k: usize = 0;
        while k < command.entries.len()
            invariant
                kept_view == kept_entries(s0, tenant, board),
                kept_len == kept_view.len(),
                tenant == tenant_id@,
                board == command.leaderboard_id@,
                entry_ids@.len() == command.entries@.len(),
                k <= command.entries@.len(),
                kept@.len() == kept_len + k,
                kept@.subrange(0, kept_len as int) == kept_view,
                forall|t: int|
                    0 <= t < k ==> {
                        &&& (#[trigger] kept@[kept_len + t]).tenant_id@ == tenant
                        &&& kept@[kept_len + t].leaderboard_id == command.leaderboard_id
                        &&& kept@[kept_len + t].item == written_entry(command.entries@[t], entry_ids@[t], now)
                    },
            decreases command.entries@.len() - k,
        {
            let item = write_entry(&command.entries[k], entry_ids[k].clone(), &now);
            let ghost before = kept@;
            kept.push(
                StoredEntry {
                    tenant_id: String::from_str(tenant_id),
                    leaderboard_id: command.leaderboard_id.clone(),
                    item,
                },
            );
            proof {
                assert(kept@.subrange(0, kept_len as int) =~= before.subrange(0, kept_len as int));
                assert forall|t: int| 0 <= t < k + 1 implies {
                    &&& (#[trigger] kept@[kept_len + t]).tenant_id@ == tenant
                    &&& kept@[kept_len + t].leaderboard_id == command.leaderboard_id
                    &&& kept@[kept_len + t].item == written_entry(command.entries@[t], entry_ids@[t], now)
                } by {
                    if t < k {
                        assert(kept@[kept_len + t] == before[kept_len + t]);
                    }
                }
            }
            k = k + 1;
        }
        self.entries = kept;
        let ghost mid = self.entries@;
        assert(rebuilt(s0, tenant, *command, entry_ids@, now, mid));
        self.recompute_ranks(tenant_id, command.leaderboard_id.as_str());
        assert(reranked(mid, self.entries@, tenant, board));
        let query = LeaderboardQuery {
            leaderboard_id: Some(command.leaderboard_id.clone()),
            game_id: None,
            page: None,
            page_size: Some(200),
        };
        assert(page_index(query.page) == 1);
        assert((page_index(query.page) - 1) * page_limit(query.page_size) == 0) by (nonlinear_arith)
            requires
                page_index(query.page) == 1,
        ;
        self.list_rankings(tenant_id, &query)
    }

    /// The ranking of a user: see `user_ranking_post`.
    pub fn get_user_ranking(&self, tenant_id: &str, user_id: &str, game_id: Option<&str>) -> (r: LeaderboardResult<LeaderboardEntry>)
        ensures
            user_ranking_post(
                self.entry_records(),
                tenant_id@,
                user_id@,
                match game_id {
                    Some(g) => Some(g@),
                    None => None,
                },
                r,
            ),
    {
        let ghost gv: Option<Seq<char>> = match game_id {
            Some(g) => Some(g@),
            None => None,
        };
        let n = self.entries.len();
        let mut mine: Vec<LeaderboardEntry> = Vec::new();
        let mut i: usize = 0;
        while i < n
            invariant
                n == self.entries@.len(),
                i <= n,
                gv == (match game_id {
                    Some(g) => Some(g@),
                    None => None::<Seq<char>>,
                }),
                mine@ == user_entries(self.entries@.subrange(0, i as int), tenant_id@, user_id@, gv),
            decreases n - i,
        {
            let stored = &self.entries[i];
            proof {
                let sub = self.entries@.subrange(0, i + 1);
                assert(sub.drop_last() =~= self.entries@.subrange(0, i as int));
                assert(sub.last() == self.entries@[i as int]);
            }
            let in_game = match game_id {
                Some(g) => text_eq(stored.item.game_id.as_str(), g),
                None => true,
            };
            if text_eq(stored.tenant_id.as_str(), tenant_id) && text_eq(stored.item.user_id.as_str(), user_id)
                && in_game {
                mine.push(copy_entry(&stored.item));
            }
            i = i + 1;
        }
        assert(self.entries@.subrange(0, n as int) =~= self.entries@);
        if mine.len() == 0 {
            return Err(LeaderboardError::not_found("leaderboard entry not found"));
        }
        let ghost mkeys = mine@.map_values(|e: LeaderboardEntry| rank_key(e));
        let mut best: usize = 0;
        let mut best_key = rank_key_of(&mine[0]);
        let mut j: usize = 1;
        while j < mine.len()
            invariant
                mkeys == mine@.map_values(|e: LeaderboardEntry| rank_key(e)),
                1 <= j <= mine@.len(),
                best < j,
                best as int == last_greatest(mkeys.subrange(0, j as int)),
                best_key@ == rank_key(mine@[best as int]),
            decreases mine@.len() - j,
        {
            let key = rank_key_of(&mine[j]);
            proof {
                let sub = mkeys.subrange(0, j + 1);
                assert(sub.drop_last() =~= mkeys.subrange(0, j as int));
                assert(sub.last() == key@);
                assert(sub[best as int] == best_key@);
            }
            if compare_keys(&key, &best_key) >= 0 {
                best = j;
                best_key = key;
            }
            j = j + 1;
        }
        assert(mkeys.subrange(0, mine@.len() as int) =~= mkeys);
        assert(mine@.subrange(0, mine@.len() as int) =~= mine@);
        let game = mine[best].game_id.as_str();
        let items = self.collect_board(tenant_id, None, Some(game));
        let ranked = rank_entries(&items);
        let ghost p = user_in_game(user_id@, game@);
        assert(ranking_of(board_entries(self.entries@, tenant_id@, None, Some(game@)), ranked@));
        let mut k: usize = 0;
        while k < ranked.len()
            invariant
                k <= ranked@.len(),
                p == user_in_game(user_id@, game@),
                forall|t: int| 0 <= t < k ==> !p(#[trigger] ranked@[t]),
                gv == (match game_id {
                    Some(g) => Some(g@),
                    None => None::<Seq<char>>,
                }),
                mine@ == user_entries(self.entries@, tenant_id@, user_id@, gv),
                mkeys == mine@.map_values(|e: LeaderboardEntry| rank_key(e)),
                best < mine@.len(),
                best as int == last_greatest(mkeys),
                game@ == mine@[best as int].game_id@,
                ranking_of(board_entries(self.entries@, tenant_id@, None, Some(game@)), ranked@),
            decreases ranked@.len() - k,
        {
            if text_eq(ranked[k].user_id.as_str(), user_id) && text_eq(ranked[k].game_id.as_str(), game) {
                proof {
                    lemma_first_index_is(ranked@, p, k as int);
                    let ue = user_entries(self.entries@, tenant_id@, user_id@, gv);
                    assert(ue == mine@);
                    assert(ue.map_values(|e: LeaderboardEntry| rank_key(e)) == mkeys);
                    let best_e = ue[last_greatest(ue.map_values(|e: LeaderboardEntry| rank_key(e)))];
                    assert(best_e == mine@[best as int]);
                    assert(best_e.game_id@ == game@);
                }
                return Ok(copy_entry(&ranked[k]));
            }
            k = k + 1;
        }
        proof {
            lemma_first_index_none(ranked@, p);
        }
        Err(LeaderboardError::not_found("leaderboard entry not found"))
    }

    /// The configurations of `tenant_id` that match `query`, by leaderboard code, one page.
    pub fn list_configs(&self, tenant_id: &str, query: &LeaderboardConfigQuery) -> (r: LeaderboardResult<LeaderboardConfigPage>)
        requires
            offset_fits(query.page, query.page_size),
        ensures
            match r {
                Ok(p) => listed_page(
                    matching_configs(self.config_records(), tenant_id@, *query),
                    |c: LeaderboardConfigItem| config_sort_key(c),
                    query.page,
                    query.page_size,
                    p.items@,
                    p.total,
                    p.page,
                    p.page_size,
                ),
                Err(_) => false,
            },
    {
        let n = self.configs.len();
        let mut found: Vec<LeaderboardConfigItem> = Vec::new();
        let mut i: usize = 0;
        while i < n
            invariant
                n == self.configs@.len(),
                i <= n,
                found@ == matching_configs(self.configs@.subrange(0, i as int), tenant_id@, *query),
            decreases n - i,
        {
            let stored = &self.configs[i];
            proof {
                let sub = self.configs@.subrange(0, i + 1);
                assert(sub.drop_last() =~= self.configs@.subrange(0, i as int));
                assert(sub.last() == self.configs@[i as int]);
            }
            let game_ok = match &query.game_id {
                Some(g) => text_eq(stored.item.game_id.as_str(), g.as_str()),
                None => true,
            };
            let status_ok = match &query.status {
                Some(st) => is_blank(st.as_str()) || text_eq(stored.item.status.as_str(), st.as_str()),
                None => true,
            };
            if text_eq(stored.tenant_id.as_str(), tenant_id) && game_ok && status_ok {
                found.push(copy_config(&stored.item));
            }
            i = i + 1;
        }
        assert(self.configs@.subrange(0, n as int) =~= self.configs@);
        let ghost items = found@;
        let mut keys: Vec<Vec<SortPart>> = Vec::new();
        let mut j: usize = 0;
        while j < found.len()
            invariant
                items == found@,
                j <= found@.len(),
                keys@.len() == j,
                forall|t: int| 0 <= t < j ==> (#[trigger] keys@[t])@ == config_sort_key(found@[t]),
            decreases found@.len() - j,
        {
            let mut key: Vec<SortPart> = Vec::new();
            key.push(SortPart { value: SortValue::Text(found[j].leaderboard_code.clone()), descending: false });
            assert(key@ =~= config_sort_key(found@[j as int]));
            keys.push(key);
            j = j + 1;
        }
        assert(key_views(keys@) =~= items.map_values(|c: LeaderboardConfigItem| config_sort_key(c)));
        let order = stable_sort_order(&keys);
        let sorted = arrange_configs(&found, &order);
        let limit = query.limit();
        let offset = query.offset();
        let total = found.len() as u64;
        let page_items = take_page(sorted, offset as usize, limit as usize);
        let page = match query.page {
            Some(p) => p,
            None => 1,
        };
        assert(stable_order(items.map_values(|c: LeaderboardConfigItem| config_sort_key(c)), order@));
        Ok(LeaderboardConfigPage { items: page_items, total, page, page_size: limit })
    }

    /// The configuration `leaderboard_id` of `tenant_id`, or `not_found`.
    pub fn get_config(&self, tenant_id: &str, leaderboard_id: &str) -> (r: LeaderboardResult<LeaderboardConfigItem>)
        ensures
            match first_index(self.config_records(), config_with_id(tenant_id@, leaderboard_id@)) {
                Some(i) => 0 <= i < self.config_records().len() && r == Ok::<LeaderboardConfigItem, LeaderboardError>(self.config_records()[i].item),
                None => board_fails_with(r, "not_found"@, "leaderboard config not found"@),
            },
    {
        let ghost p = config_with_id(tenant_id@, leaderboard_id@);
        let n = self.configs.len();
        let mut i: usize = 0;
        while i < n
            invariant
                n == self.configs@.len(),
                i <= n,
                p == config_with_id(tenant_id@, leaderboard_id@),
                forall|j: int| 0 <= j < i ==> !p(#[trigger] self.configs@[j]),
            decreases n - i,
        {
            if text_eq(self.configs[i].tenant_id.as_str(), tenant_id) && text_eq(self.configs[i].item.id.as_str(), leaderboard_id) {
                proof {
                    lemma_first_index_is(self.configs@, p, i as int);
                }
                return Ok(copy_config(&self.configs[i].item));
            }
            i = i + 1;
        }
        proof {
            lemma_first_index_none(self.configs@, p);
        }
        Err(LeaderboardError::not_found("leaderboard config not found"))
    }

    /// Ranks the entries of leaderboard `leaderboard_id` of `tenant_id` again.
    fn recompute_ranks(&mut self, tenant_id: &str, leaderboard_id: &str)
        ensures
            reranked(old(self).entries@, final(self).entries@, tenant_id@, leaderboard_id@),
            final(self).configs@ == old(self).configs@,
    {
        let ghost s0 = self.entries@;
        let ghost tenant = tenant_id@;
        let ghost board = leaderboard_id@;
        let n = self.entries.len();
        let mut pos: Vec<usize> = Vec::new();
        let mut keys: Vec<Vec<SortPart>> = Vec::new();
        let mut i: usize = 0;
        while i < n
            invariant
                n == s0.len(),
                s0 == self.entries@,
                tenant == tenant_id@,
                board == leaderboard_id@,
                i <= n,
                pos@.map_values(|x: usize| x as int) == scope_positions(s0.subrange(0, i as int), tenant, board),
                keys@.len() == pos@.len(),
                pos@.len() <= i,
                forall|t: int| 0 <= t < pos@.len() ==> #[trigger] pos@[t] < i,
                forall|t: int| 0 <= t < pos@.len() ==> in_scope(s0[#[trigger] pos@[t] as int], tenant, board),
                forall|a: int, b: int| 0 <= a < b < pos@.len() ==> #[trigger] pos@[a] < #[trigger] pos@[b],
                forall|t: int| 0 <= t < keys@.len() ==> (#[trigger] keys@[t])@ == rank_key(s0[pos@[t] as int].item),
            decreases n - i,
        {
            let stored = &self.entries[i];
            proof {
                let sub = s0.subrange(0, i + 1);
                assert(sub.drop_last() =~= s0.subrange(0, i as int));
                assert(sub.last() == s0[i as int]);
            }
            if text_eq(stored.tenant_id.as_str(), tenant_id) && text_eq(stored.leaderboard_id.as_str(), leaderboard_id) {
                let ghost before = pos@;
                pos.push(i);
                keys.push(rank_key_of(&stored.item));
                assert(pos@.map_values(|x: usize| x as int) =~= before.map_values(|x: usize| x as int).push(i as int));
            }
            i = i + 1;
        }
        assert(s0.subrange(0, n as int) =~= s0);
        let ghost positions = scope_positions(s0, tenant, board);
        assert forall|t: int| 0 <= t < pos@.len() implies positions[t] == #[trigger] pos@[t] as int by {
            assert(pos@.map_values(|x: usize| x as int)[t] == pos@[t] as int);
        }
        assert(positions.len() == pos@.len());
        assert(key_views(keys@) =~= scope_keys(s0, tenant, board));
        let order = stable_sort_order(&keys);
        proof {
            lemma_stable_order_distinct(key_views(keys@), order@);
        }
        let mut k: usize = 0;
        while k < order.len()
            invariant
                s0.len() == n,
                self.entries@.len() == n,
                positions.len() == pos@.len(),
                pos@.len() <= n,
                order@.len() == pos@.len(),
                forall|t: int| 0 <= t < pos@.len() ==> positions[t] == #[trigger] pos@[t] as int,
                forall|t: int| 0 <= t < pos@.len() ==> #[trigger] pos@[t] < n,
                forall|a: int, b: int| 0 <= a < b < pos@.len() ==> #[trigger] pos@[a] < #[trigger] pos@[b],
                forall|t: int| 0 <= t < order@.len() ==> (#[trigger] order@[t]) < pos@.len(),
                forall|a: int, b: int|
                    0 <= a < order@.len() && 0 <= b < order@.len() && a != b ==> order@[a] != order@[b],
                k <= order@.len(),
                forall|t: int| 0 <= t < k ==> self.entries@[#[trigger] pos@[order@[t] as int] as int] == stored_ranked_as(s0[pos@[order@[t] as int] as int], t),
                forall|m: int|
                    0 <= m < n && (forall|t: int| 0 <= t < k ==> #[trigger] pos@[order@[t] as int] != m) ==> self.entries@[m] == s0[m],
                self.configs@ == old(self).configs@,
            decreases order@.len() - k,
        {
            let m = pos[order[k]];
            let ghost e0 = self.entries@;
            proof {
                assert forall|t: int| 0 <= t < k implies #[trigger] pos@[order@[t] as int] != m by {
                    assert(order@[t] != order@[k as int]);
                    let x = order@[t] as int;
                    let y = order@[k as int] as int;
                    if x < y {
                        assert(pos@[x] < pos@[y]);
                    } else {
                        assert(pos@[y] < pos@[x]);
                    }
                }
                assert(self.entries@[m as int] == s0[m as int]);
            }
            let stored = &self.entries[m];
            let updated = StoredEntry {
                tenant_id: stored.tenant_id.clone(),
                leaderboard_id: stored.leaderboard_id.clone(),
                item: rank_as(&stored.item, k),
            };
            self.entries.set(m, updated);
            proof {
                assert forall|t: int| 0 <= t < k + 1 implies self.entries@[#[trigger] pos@[order@[t] as int] as int] == stored_ranked_as(
                    s0[pos@[order@[t] as int] as int],
                    t,
                ) by {
                    if t < k {
                        assert(pos@[order@[t] as int] != m);
                        assert(self.entries@[pos@[order@[t] as int] as int] == e0[pos@[order@[t] as int] as int]);
                    }
                }
                assert forall|j: int|
                    0 <= j < n && (forall|t: int| 0 <= t < k + 1 ==> #[trigger] pos@[order@[t] as int] != j) implies self.entries@[j] == s0[j] by {
                    assert(pos@[order@[k as int] as int] != j);
                    assert forall|t: int| 0 <= t < k implies #[trigger] pos@[order@[t] as int] != j by {}
                }
            }
            k = k + 1;
        }
        proof {
            let keys_v = key_views(keys@);
            assert forall|m: int| 0 <= m < s0.len() && !in_scope(#[trigger] s0[m], tenant, board) implies self.entries@[m] == s0[m] by {
                assert forall|t: int| 0 <= t < order@.len() implies #[trigger] pos@[order@[t] as int] != m by {
                    assert(in_scope(s0[pos@[order@[t] as int] as int], tenant, board));
                }
            }
            assert forall|k2: int| 0 <= k2 < order@.len() implies self.entries@[#[trigger] positions[order@[k2] as int]]
                == stored_ranked_as(s0[positions[order@[k2] as int]], k2) by {
                assert(positions[order@[k2] as int] == pos@[order@[k2] as int] as int);
            }
            assert(stable_order(scope_keys(s0, tenant, board), order@));
        }
    }
}

} // verus!
