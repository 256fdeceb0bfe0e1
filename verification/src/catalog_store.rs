//! The game catalog held in memory: listings filtered by status, genre and a search
//! text, ordered by title or newest first, and lookups by id or game code.
use vstd::prelude::*;
use crate::catalog::{
    GameCatalogItem, GameCatalogPage, GameCatalogQuery, GameError, GameResult,
};
use crate::paging::{offset_fits, take_page};
use crate::search::{first_index, lemma_first_index_is, lemma_first_index_none};
use crate::sorting::{
    arrange, key_views, listed_page, stable_order, stable_sort_order, SortPart, SortValue,
};
use crate::text::{
    blank, contains_text, copy_opt, is_blank, occurs_in, text_eq, to_lowercase, trim_text,
    trimmed, unicode_lowercase,
};

verus! {

/// A catalog held in memory.
pub struct InMemoryGameCatalogRepository {
    items: Vec<GameCatalogItem>,
}

/// Whether a catalog item matches a listing: its status when one is named, its genre
/// when a non-blank one is named, and, when a non-blank search text is named, the trimmed
/// text in lower case occurs in the title, the game code or the summary in lower case.
pub open spec fn catalog_matches(item: GameCatalogItem, q: GameCatalogQuery) -> bool {
    &&& match q.status {
        Some(s) => item.status@ == s@,
        None => true,
    }
    &&& match q.genre {
        Some(g) => blank(g@) || match item.genre {
            Some(x) => x@ == g@,
            None => false,
        },
        None => true,
    }
    &&& match q.q {
        Some(text) => blank(text@) || {
            let needle = unicode_lowercase(trimmed(text@));
            ||| occurs_in(needle, unicode_lowercase(item.title@))
            ||| occurs_in(needle, unicode_lowercase(item.game_code@))
            ||| occurs_in(
                needle,
                unicode_lowercase(
                    match item.summary {
                        Some(s) => s@,
                        None => Seq::empty(),
                    },
                ),
            )
        },
        None => true,
    }
}

/// The catalog items that match a listing, in catalog order.
pub open spec fn matching_games(s: Seq<GameCatalogItem>, q: GameCatalogQuery) -> Seq<GameCatalogItem>
    decreases s.len(),
{
    if s.len() == 0 {
        Seq::empty()
    } else if catalog_matches(s.last(), q) {
        matching_games(s.drop_last(), q).push(s.last())
    } else {
        matching_games(s.drop_last(), q)
    }
}

/// Whether a listing asks for the newest games first.
pub open spec fn newest_first(q: GameCatalogQuery) -> bool {
    match q.sort {
        Some(s) => s@ == "newest"@,
        None => false,
    }
}

/// The listing order: newest first orders by game code, descending; any other order
/// by title.
pub open spec fn catalog_sort_key(q: GameCatalogQuery) -> spec_fn(GameCatalogItem) -> Seq<SortPart> {
    |g: GameCatalogItem|
        if newest_first(q) {
            seq![SortPart { value: SortValue::Text(g.game_code), descending: true }]
        } else {
            seq![SortPart { value: SortValue::Text(g.title), descending: false }]
        }
}

/// The catalog item named `name`, by id or by game code.
pub open spec fn game_named(name: Seq<char>) -> spec_fn(GameCatalogItem) -> bool {
    |g: GameCatalogItem| g.id@ == name || g.game_code@ == name
}

/// The message of a missing game.
pub open spec fn game_missing_message(name: Seq<char>) -> Seq<char> {
    "game "@ + name + " not found"@
}

/// A copy of a catalog item.
pub fn copy_game(g: &GameCatalogItem) -> (r: GameCatalogItem)
    ensures
        r == *g,
{
    GameCatalogItem {
        id: g.id.clone(),
        game_code: g.game_code.clone(),
        title: g.title.clone(),
        summary: copy_opt(&g.summary),
        genre: copy_opt(&g.genre),
        status: g.status.clone(),
    }
}

/// Whether a catalog item matches a listing.
fn catalog_matches_query(item: &GameCatalogItem, q: &GameCatalogQuery) -> (r: bool)
    ensures
        r == catalog_matches(*item, *q),
{
    if let Some(s) = &q.status {
        if !text_eq(item.status.as_str(), s.as_str()) {
            return false;
        }
    }
    if let Some(g) = &q.genre {
        if !is_blank(g.as_str()) {
            match &item.genre {
                Some(x) => {
                    if !text_eq(x.as_str(), g.as_str()) {
                        return false;
                    }
                },
                None => {
                    return false;
                },
            }
        }
    }
    match &q.q {
        Some(text) => {
            if is_blank(text.as_str()) {
                return true;
            }
            let trimmed_text = trim_text(text.as_str());
            let needle = to_lowercase(trimmed_text.as_str());
            let title = to_lowercase(item.title.as_str());
            let code = to_lowercase(item.game_code.as_str());
            let summary_text = match &item.summary {
                Some(s) => s.as_str(),
                None => "",
            };
            proof {
                reveal_strlit("");
            }
            assert(summary_text@ == match item.summary {
                Some(s) => s@,
                None => Seq::<char>::empty(),
            });
            let summary = to_lowercase(summary_text);
            contains_text(title.as_str(), needle.as_str()) || contains_text(code.as_str(), needle.as_str())
                || contains_text(summary.as_str(), needle.as_str())
        },
        None => true,
    }
}

/// The catalog items taken in the order of the positions `order`.
fn arrange_games(items: &Vec<GameCatalogItem>, order: &Vec<usize>) -> (r: Vec<GameCatalogItem>)
    requires
        forall|t: int| 0 <= t < order@.len() ==> (#[trigger] order@[t]) < items@.len(),
    ensures
        r@ == arrange(items@, order@),
{
    let mut sorted: Vec<GameCatalogItem> = Vec::new();
    let mut k: usize = 0;
    while k < order.len()
        invariant
            forall|t: int| 0 <= t < order@.len() ==> (#[trigger] order@[t]) < items@.len(),
            k <= order@.len(),
            sorted@.len() == k,
            forall|t: int| 0 <= t < k ==> #[trigger] sorted@[t] == items@[order@[t] as int],
        decreases order@.len() - k,
    {
        sorted.push(copy_game(&items[order[k]]));
        k = k + 1;
    }
    assert(sorted@ =~= arrange(items@, order@));
    sorted
}

impl InMemoryGameCatalogRepository {
    /// The catalog items, in catalog order.
    pub closed spec fn game_records(&self) -> Seq<GameCatalogItem> {
        self.items@
    }

    /// An empty catalog.
    pub fn new() -> (r: Self)
        ensures
            r.game_records().len() == 0,
    {
        InMemoryGameCatalogRepository { items: Vec::new() }
    }

    /// A catalog holding `items`, in order.
    pub fn with_seed(items: Vec<GameCatalogItem>) -> (r: Self)
        ensures
            r.game_records() == items@,
    {
        InMemoryGameCatalogRepository { items }
    }

    /// The catalog items that match `query`, in the order it names, one page of them.
    /// The catalog is shared by every tenant.
    pub fn list_catalog(&self, tenant_id: &str, query: &GameCatalogQuery) -> (r: GameResult<GameCatalogPage>)
        requires
            offset_fits(query.page, query.page_size),
        ensures
            match r {
                Ok(p) => listed_page(
                    matching_games(self.game_records(), *query),
                    catalog_sort_key(*query),
                    query.page,
                    query.page_size,
                    p.items@,
                    p.total,
                    p.page,
                    p.page_size,
                ),
                Err(_) => false,
            },
    {
        let n = self.items.len();
        let mut found: Vec<GameCatalogItem> = Vec::new();
        let mut i: usize = 0;
        while i < n
            invariant
                n == self.items@.len(),
                i <= n,
                found@ == matching_games(self.items@.subrange(0, i as int), *query),
            decreases n - i,
        {
            proof {
                let sub = self.items@.subrange(0, i + 1);
                assert(sub.drop_last() =~= self.items@.subrange(0, i as int));
                assert(sub.last() == self.items@[i as int]);
            }
            if catalog_matches_query(&self.items[i], query) {
                found.push(copy_game(&self.items[i]));
            }
            i = i + 1;
        }
        assert(self.items@.subrange(0, n as int) =~= self.items@);
        let newest = match &query.sort {
            Some(s) => text_eq(s.as_str(), "newest"),
            None => false,
        };
        let ghost key = catalog_sort_key(*query);
        let ghost items = found@;
        let mut keys: Vec<Vec<SortPart>> = Vec::new();
        let mut j: usize = 0;
        while j < found.len()
            invariant
                items == found@,
                key == catalog_sort_key(*query),
                newest == newest_first(*query),
                j <= found@.len(),
                keys@.len() == j,
                forall|t: int| 0 <= t < j ==> (#[trigger] keys@[t])@ == key(found@[t]),
            decreases found@.len() - j,
        {
            let mut k: Vec<SortPart> = Vec::new();
            if newest {
                k.push(SortPart { value: SortValue::Text(found[j].game_code.clone()), descending: true });
            } else {
                k.push(SortPart { value: SortValue::Text(found[j].title.clone()), descending: false });
            }
            assert(k@ =~= key(found@[j as int]));
            keys.push(k);
            j = j + 1;
        }
        assert(key_views(keys@) =~= items.map_values(key));
        let order = stable_sort_order(&keys);
        let sorted = arrange_games(&found, &order);
        let limit = query.limit();
        let offset = query.offset();
        let total = found.len() as u64;
        let page_items = take_page(sorted, offset as usize, limit as usize);
        let page = match query.page {
            Some(p) => p,
            None => 1,
        };
        assert(stable_order(items.map_values(key), order@));
        Ok(GameCatalogPage { items: page_items, total, page, page_size: limit })
    }

    /// The catalog item named `game_id` (its id or its game code), or `not_found`.
    pub fn get_catalog_item(&self, tenant_id: &str, game_id: &str) -> (r: GameResult<GameCatalogItem>)
        ensures
            match first_index(self.game_records(), game_named(game_id@)) {
                Some(i) => 0 <= i < self.game_records().len() && r == Ok::<GameCatalogItem, GameError>(self.game_records()[i]),
                None => match r {
                    Err(e) => e.error_code() == "not_found"@ && e.error_message() == game_missing_message(game_id@),
                    Ok(_) => false,
                },
            },
    {
        let ghost p = game_named(game_id@);
        let n = self.items.len();
        let mut i: usize = 0;
        while i < n
            invariant
                n == self.items@.len(),
                i <= n,
                p == game_named(game_id@),
                forall|j: int| 0 <= j < i ==> !p(#[trigger] self.items@[j]),
            decreases n - i,
        {
            if text_eq(self.items[i].id.as_str(), game_id) || text_eq(self.items[i].game_code.as_str(), game_id) {
                proof {
                    lemma_first_index_is(self.items@, p, i as int);
                }
                return Ok(copy_game(&self.items[i]));
            }
            i = i + 1;
        }
        proof {
            lemma_first_index_none(self.items@, p);
        }
        let message = String::from_str("game ").concat(game_id).concat(" not found");
        Err(GameError::not_found(message.as_str()))
    }
}

} // verus!
