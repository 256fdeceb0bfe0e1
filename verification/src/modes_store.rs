//! Game modes held in memory: one mode code per game, partial updates, and listings
//! filtered by game, status and a search text, ordered by mode code.
use vstd::prelude::*;
use crate::modes::{
    merge_update, merged, mode_fails_with, CreateGameModeCommand, GameModeError, GameModeItem,
    GameModePage, GameModeQuery, GameModeResult, UpdateGameModeCommand,
};
use crate::paging::{offset_fits, take_page};
use crate::search::{
    first_index, lemma_first_index, lemma_first_index_is, lemma_first_index_none, lemma_first_index_same,
};
use crate::sorting::{
    arrange, key_views, listed_page, stable_order, stable_sort_order, SortPart, SortValue,
};
use crate::text::{
    blank, contains_text, copy_opt, is_blank, occurs_in, text_eq, to_lowercase, trim_text,
    trimmed, unicode_lowercase,
};

verus! {

/// A mode with the tenant it belongs to.
#[derive(Debug, Clone, PartialEq, Eq)]
pub struct StoredGameMode {
    pub tenant_id: String,
    pub item: GameModeItem,
}

/// Game modes held in memory.
pub struct InMemoryGameModeRepository {
    items: Vec<StoredGameMode>,
}

/// The mode of `tenant` named `name`, by id or by mode code.
pub open spec fn mode_named(tenant: Seq<char>, name: Seq<char>) -> spec_fn(StoredGameMode) -> bool {
    |s: StoredGameMode| s.tenant_id@ == tenant && (s.item.id@ == name || s.item.mode_code@ == name)
}

/// The mode of `tenant` with id `id`.
pub open spec fn mode_with_id(tenant: Seq<char>, id: Seq<char>) -> spec_fn(StoredGameMode) -> bool {
    |s: StoredGameMode| s.tenant_id@ == tenant && s.item.id@ == id
}

/// Whether `tenant` already has a mode with `code` for game `game`.
pub open spec fn code_taken(s: Seq<StoredGameMode>, tenant: Seq<char>, game: Seq<char>, code: Seq<char>) -> bool {
    exists|i: int|
        0 <= i < s.len() && (#[trigger] s[i]).tenant_id@ == tenant && s[i].item.game_id@ == game
            && s[i].item.mode_code@ == code
}

/// No tenant has two modes with one code for one game.
pub open spec fn mode_codes_unique(s: Seq<StoredGameMode>) -> bool {
    forall|j: int, k: int|
        0 <= j < k < s.len() ==> !(#[trigger] s[j].tenant_id@ == #[trigger] s[k].tenant_id@
            && s[j].item.game_id@ == s[k].item.game_id@ && s[j].item.mode_code@ == s[k].item.mode_code@)
}

pub open spec fn code_taken_message() -> Seq<char> {
    "mode_code already exists for game"@
}

pub open spec fn mode_missing_message() -> Seq<char> {
    "mode not found"@
}

/// The mode a create request stores: its fields copied, with the given id.
pub open spec fn created_mode(m: GameModeItem, c: CreateGameModeCommand, id: String) -> bool {
    &&& m.id == id
    &&& m.game_id == c.game_id
    &&& m.mode_code == c.mode_code
    &&& m.title == c.title
    &&& m.status == c.status
    &&& m.min_players == c.min_players
    &&& m.max_players == c.max_players
    &&& m.team_size == c.team_size
    &&& m.ruleset_id == c.ruleset_id
    &&& m.matchmaking_enabled == c.matchmaking_enabled
    &&& m.room_enabled == c.room_enabled
    &&& m.leaderboard_enabled == c.leaderboard_enabled
}

/// What a create does: `invalid` when the tenant has the code for the game already,
/// otherwise the new mode is stored at the end and comes back.
pub open spec fn create_mode_post(
    s0: Seq<StoredGameMode>,
    tenant: Seq<char>,
    c: CreateGameModeCommand,
    id: String,
    s1: Seq<StoredGameMode>,
    r: GameModeResult<GameModeItem>,
) -> bool {
    if code_taken(s0, tenant, c.game_id@, c.mode_code@) {
        s1 == s0 && mode_fails_with(r, "invalid"@, code_taken_message())
    } else {
        match r {
            Ok(m) => {
                &&& created_mode(m, c, id)
                &&& s1.len() == s0.len() + 1
                &&& s1.drop_last() == s0
                &&& s1.last().tenant_id@ == tenant
                &&& s1.last().item == m
            },
            Err(_) => false,
        }
    }
}

/// What an update does: `not_found` when the tenant has no mode with the id, otherwise
/// the mode is replaced by its merge with the request, which comes back.
pub open spec fn update_mode_post(
    s0: Seq<StoredGameMode>,
    tenant: Seq<char>,
    mode_id: Seq<char>,
    c: UpdateGameModeCommand,
    s1: Seq<StoredGameMode>,
    r: GameModeResult<GameModeItem>,
) -> bool {
    match first_index(s0, mode_with_id(tenant, mode_id)) {
        None => s1 == s0 && mode_fails_with(r, "not_found"@, mode_missing_message()),
        Some(i) => {
            &&& r == Ok::<GameModeItem, GameModeError>(merged(s0[i].item, c))
            &&& s1 == s0.update(i, StoredGameMode { tenant_id: s0[i].tenant_id, item: merged(s0[i].item, c) })
        },
    }
}

/// Whether an optional filter is set to a non-blank value other than `actual`.
pub open spec fn filter_excludes(filter: Option<String>, actual: Seq<char>) -> bool {
    match filter {
        Some(v) => !blank(v@) && v@ != actual,
        None => false,
    }
}

/// Whether a mode matches a listing: its game and status when those filters are set,
/// and, when a search text is set, the trimmed text in lower case occurs in the title
/// or the mode code in lower case.
pub open spec fn mode_matches(m: GameModeItem, q: GameModeQuery) -> bool {
    &&& !filter_excludes(q.game_id, m.game_id@)
    &&& !filter_excludes(q.status, m.status@)
    &&& match q.q {
        Some(text) => blank(text@) || {
            let needle = unicode_lowercase(trimmed(text@));
            occurs_in(needle, unicode_lowercase(m.title@)) || occurs_in(
                needle,
                unicode_lowercase(m.mode_code@),
            )
        },
        None => true,
    }
}

/// The modes of `tenant` that match a listing, in the order they were stored.
pub open spec fn matching_modes(s: Seq<StoredGameMode>, tenant: Seq<char>, q: GameModeQuery) -> Seq<GameModeItem>
    decreases s.len(),
{
    if s.len() == 0 {
        Seq::empty()
    } else if s.last().tenant_id@ == tenant && mode_matches(s.last().item, q) {
        matching_modes(s.drop_last(), tenant, q).push(s.last().item)
    } else {
        matching_modes(s.drop_last(), tenant, q)
    }
}

/// Modes are listed by mode code.
pub open spec fn mode_sort_key(m: GameModeItem) -> Seq<SortPart> {
    seq![SortPart { value: SortValue::Text(m.mode_code), descending: false }]
}

/// The records a seed list holds.
pub open spec fn seeded(seed: Seq<(String, GameModeItem)>) -> Seq<StoredGameMode> {
    seed.map_values(|p: (String, GameModeItem)| StoredGameMode { tenant_id: p.0, item: p.1 })
}

/// A copy of a mode.
pub fn copy_mode(m: &GameModeItem) -> (r: GameModeItem)
    ensures
        r == *m,
{
    GameModeItem {
        id: m.id.clone(),
        game_id: m.game_id.clone(),
        mode_code: m.mode_code.clone(),
        title: m.title.clone(),
        status: m.status.clone(),
        min_players: m.min_players,
        max_players: m.max_players,
        team_size: m.team_size,
        ruleset_id: copy_opt(&m.ruleset_id),
        matchmaking_enabled: m.matchmaking_enabled,
        room_enabled: m.room_enabled,
        leaderboard_enabled: m.leaderboard_enabled,
    }
}

/// Whether an optional filter excludes `actual`.
fn excludes(filter: &Option<String>, actual: &str) -> (r: bool)
    ensures
        r == filter_excludes(*filter, actual@),
{
    match filter {
        Some(v) => !is_blank(v.as_str()) && !text_eq(v.as_str(), actual),
        None => false,
    }
}

/// Whether a mode matches a listing.
fn mode_matches_query(m: &GameModeItem, q: &GameModeQuery) -> (r: bool)
    ensures
        r == mode_matches(*m, *q),
{
    if excludes(&q.game_id, m.game_id.as_str()) || excludes(&q.status, m.status.as_str()) {
        return false;
    }
    match &q.q {
        Some(text) => {
            if is_blank(text.as_str()) {
                return true;
            }
            let trimmed_text = trim_text(text.as_str());
            let needle = to_lowercase(trimmed_text.as_str());
            let title = to_lowercase(m.title.as_str());
            let code = to_lowercase(m.mode_code.as_str());
            contains_text(title.as_str(), needle.as_str()) || contains_text(code.as_str(), needle.as_str())
        },
        None => true,
    }
}

/// The modes taken in the order of the positions `order`.
fn arrange_modes(items: &Vec<GameModeItem>, order: &Vec<usize>) -> (r: Vec<GameModeItem>)
    requires
        forall|t: int| 0 <= t < order@.len() ==> (#[trigger] order@[t]) < items@.len(),
    ensures
        r@ == arrange(items@, order@),
{
    let mut sorted: Vec<GameModeItem> = Vec::new();
    let mut k: usize = 0;
    while k < order.len()
        invariant
            forall|t: int| 0 <= t < order@.len() ==> (#[trigger] order@[t]) < items@.len(),
            k <= order@.len(),
            sorted@.len() == k,
            forall|t: int| 0 <= t < k ==> #[trigger] sorted@[t] == items@[order@[t] as int],
        decreases order@.len() - k,
    {
        sorted.push(copy_mode(&items[order[k]]));
        k = k + 1;
    }
    assert(sorted@ =~= arrange(items@, order@));
    sorted
}

/// Creating and updating modes keeps each tenant's mode codes unique per game.
pub proof fn law_mode_codes_stay_unique(
    s0: Seq<StoredGameMode>,
    tenant: Seq<char>,
    c: CreateGameModeCommand,
    id: String,
    s1: Seq<StoredGameMode>,
    r1: GameModeResult<GameModeItem>,
    mode_id: Seq<char>,
    u: UpdateGameModeCommand,
    s2: Seq<StoredGameMode>,
    r2: GameModeResult<GameModeItem>,
)
    requires
        mode_codes_unique(s0),
        create_mode_post(s0, tenant, c, id, s1, r1),
        update_mode_post(s1, tenant, mode_id, u, s2, r2),
    ensures
        mode_codes_unique(s1),
        mode_codes_unique(s2),
{
    if !code_taken(s0, tenant, c.game_id@, c.mode_code@) {
        let x = s1.last();
        assert(s1 =~= s0.push(x));
        assert forall|j: int, k: int| 0 <= j < k < s1.len() implies !(#[trigger] s1[j].tenant_id@
            == #[trigger] s1[k].tenant_id@ && s1[j].item.game_id@ == s1[k].item.game_id@
            && s1[j].item.mode_code@ == s1[k].item.mode_code@) by {
            assert(s1[j] == s0[j]);
            if k < s0.len() {
                assert(s1[k] == s0[k]);
            } else if s1[j].tenant_id@ == tenant && s1[j].item.game_id@ == c.game_id@
                && s1[j].item.mode_code@ == c.mode_code@ {
                assert(code_taken(s0, tenant, c.game_id@, c.mode_code@));
            }
        }
    }
    lemma_first_index(s1, mode_with_id(tenant, mode_id));
    if let Some(i) = first_index(s1, mode_with_id(tenant, mode_id)) {
        assert forall|j: int, k: int| 0 <= j < k < s2.len() implies !(#[trigger] s2[j].tenant_id@
            == #[trigger] s2[k].tenant_id@ && s2[j].item.game_id@ == s2[k].item.game_id@
            && s2[j].item.mode_code@ == s2[k].item.mode_code@) by {
            assert(s2[j].tenant_id == s1[j].tenant_id && s2[j].item.game_id == s1[j].item.game_id
                && s2[j].item.mode_code == s1[j].item.mode_code);
            assert(s2[k].tenant_id == s1[k].tenant_id && s2[k].item.game_id == s1[k].item.game_id
                && s2[k].item.mode_code == s1[k].item.mode_code);
        }
    }
}

/// What an update wrote is what a get of the same id reads back, when no other mode of
/// the tenant carries that id as its mode code (a get looks a mode up by id or by code).
pub proof fn law_updated_mode_reads_back(
    s0: Seq<StoredGameMode>,
    tenant: Seq<char>,
    mode_id: Seq<char>,
    c: UpdateGameModeCommand,
    s1: Seq<StoredGameMode>,
    r: GameModeResult<GameModeItem>,
)
    requires
        update_mode_post(s0, tenant, mode_id, c, s1, r),
        r is Ok,
        forall|k: int|
            0 <= k < s0.len() && (#[trigger] s0[k]).tenant_id@ == tenant && s0[k].item.mode_code@ == mode_id
                ==> s0[k].item.id@ == mode_id,
    ensures
        match first_index(s1, mode_named(tenant, mode_id)) {
            Some(k) => 0 <= k < s1.len() && s1[k].item == r->Ok_0,
            None => false,
        },
{
    let with_id = mode_with_id(tenant, mode_id);
    let named = mode_named(tenant, mode_id);
    lemma_first_index(s0, with_id);
    let i = first_index(s0, with_id)->Some_0;
    assert forall|j: int| 0 <= j < s0.len() implies with_id(s0[j]) == with_id(s1[j]) && named(s1[j]) == with_id(s1[j]) by {
        assert(s1[j].tenant_id == s0[j].tenant_id && s1[j].item.id == s0[j].item.id
            && s1[j].item.mode_code == s0[j].item.mode_code);
    }
    lemma_first_index_same(s0, with_id, s1, with_id);
    lemma_first_index_same(s1, named, s1, with_id);
}

/// A mode just created is what a get of its id reads back, when no mode of the tenant was
/// named by that id before.
pub proof fn law_created_mode_reads_back(
    s0: Seq<StoredGameMode>,
    tenant: Seq<char>,
    c: CreateGameModeCommand,
    id: String,
    s1: Seq<StoredGameMode>,
    r: GameModeResult<GameModeItem>,
)
    requires
        create_mode_post(s0, tenant, c, id, s1, r),
        r is Ok,
        forall|k: int| 0 <= k < s0.len() ==> !mode_named(tenant, id@)(#[trigger] s0[k]),
    ensures
        match first_index(s1, mode_named(tenant, id@)) {
            Some(k) => 0 <= k < s1.len() && s1[k].item == r->Ok_0,
            None => false,
        },
{
    let named = mode_named(tenant, id@);
    assert forall|j: int| 0 <= j < s0.len() implies !named(#[trigger] s1[j]) by {
        assert(s1[j] == s1.drop_last()[j]);
    }
    assert(s1[s0.len() as int] == s1.last());
    lemma_first_index_is(s1, named, s0.len() as int);
}

/// An update sets exactly the fields it names: the mode with the requested id comes back,
/// and is stored in its place, with each field the update carries set to the update's
/// value and every other field (id, game and code included) as it was.
pub proof fn law_update_sets_the_named_fields(
    s0: Seq<StoredGameMode>,
    tenant: Seq<char>,
    mode_id: Seq<char>,
    c: UpdateGameModeCommand,
    s1: Seq<StoredGameMode>,
    r: GameModeResult<GameModeItem>,
)
    requires
        update_mode_post(s0, tenant, mode_id, c, s1, r),
        r is Ok,
    ensures
        match first_index(s0, mode_with_id(tenant, mode_id)) {
            Some(i) => {
                let old = s0[i].item;
                let new = r->Ok_0;
                &&& 0 <= i < s0.len()
                &&& s0[i].tenant_id@ == tenant && old.id@ == mode_id
                &&& s1.len() == s0.len()
                &&& s1[i].tenant_id == s0[i].tenant_id && s1[i].item == new
                &&& forall|k: int| #![trigger s1[k]] 0 <= k < s0.len() && k != i ==> s1[k] == s0[k]
                &&& new.id == old.id && new.game_id == old.game_id && new.mode_code == old.mode_code
                &&& new.title == match c.title { Some(v) => v, None => old.title }
                &&& new.status == match c.status { Some(v) => v, None => old.status }
                &&& new.min_players == match c.min_players { Some(v) => v, None => old.min_players }
                &&& new.max_players == match c.max_players { Some(v) => v, None => old.max_players }
                &&& new.team_size == match c.team_size { Some(v) => v, None => old.team_size }
                &&& new.ruleset_id == match c.ruleset_id { Some(v) => v, None => old.ruleset_id }
                &&& new.matchmaking_enabled == match c.matchmaking_enabled { Some(v) => v, None => old.matchmaking_enabled }
                &&& new.room_enabled == match c.room_enabled { Some(v) => v, None => old.room_enabled }
                &&& new.leaderboard_enabled == match c.leaderboard_enabled { Some(v) => v, None => old.leaderboard_enabled }
            },
            None => false,
        },
{
    lemma_first_index(s0, mode_with_id(tenant, mode_id));
}

impl InMemoryGameModeRepository {
    /// The stored modes, in the order they were added.
    pub closed spec fn mode_records(&self) -> Seq<StoredGameMode> {
        self.items@
    }

    /// No modes.
    pub fn new() -> (r: Self)
        ensures
            r.mode_records().len() == 0,
    {
        InMemoryGameModeRepository { items: Vec::new() }
    }

    /// Modes given as pairs of tenant and mode, in order.
    pub fn with_seed(items: Vec<(String, GameModeItem)>) -> (r: Self)
        ensures
            r.mode_records() == seeded(items@),
    {
        let mut stored: Vec<StoredGameMode> = Vec::new();
        let mut i: usize = 0;
        while i < items.len()
            invariant
                i <= items@.len(),
                stored@ =~= seeded(items@.subrange(0, i as int)),
            decreases items@.len() - i,
        {
            let pair = &items[i];
            stored.push(StoredGameMode { tenant_id: pair.0.clone(), item: copy_mode(&pair.1) });
            assert(seeded(items@.subrange(0, i + 1)) =~= seeded(items@.subrange(0, i as int)).push(
                StoredGameMode { tenant_id: items@[i as int].0, item: items@[i as int].1 },
            ));
            i = i + 1;
        }
        assert(items@.subrange(0, items@.len() as int) =~= items@);
        InMemoryGameModeRepository { items: stored }
    }

    /// The position of the first mode that `by_name` looks up by id or code, otherwise
    /// by id alone.
    fn find_mode(&self, tenant_id: &str, name: &str, by_name: bool) -> (r: Option<usize>)
        ensures
            ({
                let p = if by_name {
                    mode_named(tenant_id@, name@)
                } else {
                    mode_with_id(tenant_id@, name@)
                };
                match r {
                    Some(i) => i < self.items@.len() && first_index(self.items@, p) == Some(i as int),
                    None => first_index(self.items@, p) is None,
                }
            }),
    {
        let ghost p = if by_name {
            mode_named(tenant_id@, name@)
        } else {
            mode_with_id(tenant_id@, name@)
        };
        let n = self.items.len();
        let mut i: usize = 0;
        while i < n
            invariant
                n == self.items@.len(),
                i <= n,
                p == (if by_name {
                    mode_named(tenant_id@, name@)
                } else {
                    mode_with_id(tenant_id@, name@)
                }),
                forall|j: int| 0 <= j < i ==> !p(#[trigger] self.items@[j]),
            decreases n - i,
        {
            let stored = &self.items[i];
            let hit = text_eq(stored.item.id.as_str(), name) || (by_name && text_eq(
                stored.item.mode_code.as_str(),
                name,
            ));
            if text_eq(stored.tenant_id.as_str(), tenant_id) && hit {
                proof {
                    lemma_first_index_is(self.items@, p, i as int);
                }
                return Some(i);
            }
            i = i + 1;
        }
        proof {
            lemma_first_index_none(self.items@, p);
        }
        None
    }

    /// The modes of `tenant_id` that match `query`, by mode code, one page of them.
    pub fn list_modes(&self, tenant_id: &str, query: &GameModeQuery) -> (r: GameModeResult<GameModePage>)
        requires
            offset_fits(query.page, query.page_size),
        ensures
            match r {
                Ok(p) => listed_page(
                    matching_modes(self.mode_records(), tenant_id@, *query),
                    |m: GameModeItem| mode_sort_key(m),
                    query.page,
                    query.page_size,
                    p.items@,
                    p.total,
                    p.page,
                    p.page_size,
                ),
                Err(_) => false,
            },
    {
        let ghost tenant = tenant_id@;
        let n = self.items.len();
        let mut found: Vec<GameModeItem> = Vec::new();
        let mut i: usize = 0;
        while i < n
            invariant
                n == self.items@.len(),
                i <= n,
                tenant == tenant_id@,
                found@ == matching_modes(self.items@.subrange(0, i as int), tenant, *query),
            decreases n - i,
        {
            let stored = &self.items[i];
            proof {
                let sub = self.items@.subrange(0, i + 1);
                assert(sub.drop_last() =~= self.items@.subrange(0, i as int));
                assert(sub.last() == self.items@[i as int]);
            }
            if text_eq(stored.tenant_id.as_str(), tenant_id) && mode_matches_query(&stored.item, query) {
                found.push(copy_mode(&stored.item));
            }
            i = i + 1;
        }
        assert(self.items@.subrange(0, n as int) =~= self.items@);
        let ghost items = found@;
        let mut keys: Vec<Vec<SortPart>> = Vec::new();
        let mut j: usize = 0;
        while j < found.len()
            invariant
                items == found@,
                j <= found@.len(),
                keys@.len() == j,
                forall|t: int| 0 <= t < j ==> (#[trigger] keys@[t])@ == mode_sort_key(found@[t]),
            decreases found@.len() - j,
        {
            let mut key: Vec<SortPart> = Vec::new();
            key.push(SortPart { value: SortValue::Text(found[j].mode_code.clone()), descending: false });
            assert(key@ =~= mode_sort_key(found@[j as int]));
            keys.push(key);
            j = j + 1;
        }
        assert(key_views(keys@) =~= items.map_values(|m: GameModeItem| mode_sort_key(m)));
        let order = stable_sort_order(&keys);
        let sorted = arrange_modes(&found, &order);
        let limit = query.limit();
        let offset = query.offset();
        let total = found.len() as u64;
        let page_items = take_page(sorted, offset as usize, limit as usize);
        let page = match query.page {
            Some(p) => p,
            None => 1,
        };
        assert(stable_order(items.map_values(|m: GameModeItem| mode_sort_key(m)), order@));
        Ok(GameModePage { items: page_items, total, page, page_size: limit })
    }

    /// The mode of `tenant_id` named `mode_id` (its id or its code), or `not_found`.
    pub fn get_mode(&self, tenant_id: &str, mode_id: &str) -> (r: GameModeResult<GameModeItem>)
        ensures
            match first_index(self.mode_records(), mode_named(tenant_id@, mode_id@)) {
                Some(i) => 0 <= i < self.mode_records().len() && r == Ok::<GameModeItem, GameModeError>(self.mode_records()[i].item),
                None => mode_fails_with(r, "not_found"@, mode_missing_message()),
            },
    {
        match self.find_mode(tenant_id, mode_id, true) {
            Some(i) => Ok(copy_mode(&self.items[i].item)),
            None => Err(GameModeError::not_found("mode not found")),
        }
    }

    /// Creates a mode for `tenant_id` with id `mode_id`, unless the tenant has its code for
    /// the game already.
    pub fn create_mode(
        &mut self,
        tenant_id: &str,
        command: &CreateGameModeCommand,
        mode_id: String,
    ) -> (r: GameModeResult<GameModeItem>)
        ensures
            create_mode_post(old(self).mode_records(), tenant_id@, *command, mode_id, final(self).mode_records(), r),
    {
        let ghost s0 = self.items@;
        let n = self.items.len();
        let mut i: usize = 0;
        while i < n
            invariant
                n == self.items@.len(),
                i <= n,
                forall|j: int|
                    0 <= j < i ==> !((#[trigger] self.items@[j]).tenant_id@ == tenant_id@
                        && self.items@[j].item.game_id@ == command.game_id@
                        && self.items@[j].item.mode_code@ == command.mode_code@),
            decreases n - i,
        {
            let stored = &self.items[i];
            if text_eq(stored.tenant_id.as_str(), tenant_id) && text_eq(
                stored.item.game_id.as_str(),
                command.game_id.as_str(),
            ) && text_eq(stored.item.mode_code.as_str(), command.mode_code.as_str()) {
                return Err(GameModeError::invalid("mode_code already exists for game"));
            }
            i = i + 1;
        }
        let item = GameModeItem {
            id: mode_id,
            game_id: command.game_id.clone(),
            mode_code: command.mode_code.clone(),
            title: command.title.clone(),
            status: command.status.clone(),
            min_players: command.min_players,
            max_players: command.max_players,
            team_size: command.team_size,
            ruleset_id: copy_opt(&command.ruleset_id),
            matchmaking_enabled: command.matchmaking_enabled,
            room_enabled: command.room_enabled,
            leaderboard_enabled: command.leaderboard_enabled,
        };
        self.items.push(StoredGameMode { tenant_id: String::from_str(tenant_id), item: copy_mode(&item) });
        assert(self.items@.drop_last() =~= s0);
        Ok(item)
    }

    /// Applies a partial update to the mode `mode_id` of `tenant_id`.
    pub fn update_mode(
        &mut self,
        tenant_id: &str,
        mode_id: &str,
        command: &UpdateGameModeCommand,
    ) -> (r: GameModeResult<GameModeItem>)
        ensures
            update_mode_post(old(self).mode_records(), tenant_id@, mode_id@, *command, final(self).mode_records(), r),
    {
        let i = match self.find_mode(tenant_id, mode_id, false) {
            Some(i) => i,
            None => {
                return Err(GameModeError::not_found("mode not found"));
            },
        };
        let old = &self.items[i];
        let item = merge_update(copy_mode(&old.item), command);
        let stored = StoredGameMode { tenant_id: old.tenant_id.clone(), item: copy_mode(&item) };
        self.items.set(i, stored);
        Ok(item)
    }
}

} // verus!
