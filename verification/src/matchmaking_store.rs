//! Matchmaking tickets held in memory: idempotent queueing, cancellation of queued
//! tickets only, and sorted, paginated listings of tickets and of a game's queue.
use vstd::prelude::*;
use crate::matchmaking::{
    ensure_idempotent_replay, match_fails_with, same_ticket_payload, ticket_conflict_message,
    CancelMatchTicketCommand, CreateMatchTicketCommand, GameMatchmakingError,
    GameMatchmakingResult, MatchTicketItem, MatchTicketPage, MatchTicketQuery,
    MatchmakingQueueQuery,
};
use crate::paging::{offset_fits, take_page};
use crate::search::{count_where, first_index, lemma_first_index, lemma_first_index_is, lemma_first_index_none};
use crate::sorting::{
    arrange, key_views, lemma_listed_items_come_from, listed_page, stable_order, stable_sort_order, SortPart,
    SortValue,
};
use crate::text::{blank, copy_opt, is_blank, text_eq};

verus! {

/// A ticket with the tenant it belongs to.
#[derive(Debug, Clone, PartialEq, Eq)]
pub struct StoredTicket {
    pub tenant_id: String,
    pub item: MatchTicketItem,
}

/// Matchmaking tickets held in memory.
pub struct InMemoryGameMatchmakingRepository {
    tickets: Vec<StoredTicket>,
}

/// The ticket of `tenant` stored under idempotency key `key`.
pub open spec fn ticket_key_owner(tenant: Seq<char>, key: Seq<char>) -> spec_fn(StoredTicket) -> bool {
    |s: StoredTicket| s.tenant_id@ == tenant && s.item.idempotency_key@ == key
}

/// The ticket of `tenant` named `name`, by id or by ticket code.
pub open spec fn ticket_named(tenant: Seq<char>, name: Seq<char>) -> spec_fn(StoredTicket) -> bool {
    |s: StoredTicket| s.tenant_id@ == tenant && (s.item.id@ == name || s.item.ticket_code@ == name)
}

/// The ticket of `tenant` named `name` and held by `user`.
pub open spec fn ticket_held(tenant: Seq<char>, user: Seq<char>, name: Seq<char>) -> spec_fn(StoredTicket) -> bool {
    |s: StoredTicket| s.tenant_id@ == tenant && s.item.user_id@ == user && (s.item.id@ == name
        || s.item.ticket_code@ == name)
}

/// No tenant holds two tickets under one idempotency key.
pub open spec fn ticket_keys_unique(s: Seq<StoredTicket>) -> bool {
    forall|j: int, k: int|
        0 <= j < k < s.len() ==> !(#[trigger] s[j].tenant_id@ == #[trigger] s[k].tenant_id@
            && s[j].item.idempotency_key@ == s[k].item.idempotency_key@)
}

/// The code of the ticket with id `id`.
pub open spec fn ticket_code_of(id: Seq<char>) -> Seq<char> {
    "MT-"@ + id
}

/// The ticket a queueing request stores: its fields copied, `queued` at the given time,
/// with the given id, the code derived from it, and version 0.
pub open spec fn queued_ticket(t: MatchTicketItem, c: CreateMatchTicketCommand, id: String, ts: String) -> bool {
    &&& t.id == id
    &&& t.ticket_code@ == ticket_code_of(id@)
    &&& t.game_id == c.game_id
    &&& t.mode_id == c.mode_id
    &&& t.ruleset_id == c.ruleset_id
    &&& t.user_id == c.user_id
    &&& t.party_id == c.party_id
    &&& t.status@ == "queued"@
    &&& t.priority == c.priority
    &&& t.match_attributes == c.match_attributes
    &&& t.idempotency_key == c.idempotency_key
    &&& t.queued_at == ts
    &&& t.matched_at is None
    &&& t.cancelled_at is None
    &&& t.expires_at == c.expires_at
    &&& t.version == 0
}

/// What queueing does. A key the tenant already holds replays: the stored ticket comes
/// back when the payload matches, a `conflict` otherwise, and nothing changes. A new key
/// stores a new queued ticket at the end.
pub open spec fn create_ticket_post(
    s0: Seq<StoredTicket>,
    tenant: Seq<char>,
    c: CreateMatchTicketCommand,
    id: String,
    ts: String,
    s1: Seq<StoredTicket>,
    r: GameMatchmakingResult<MatchTicketItem>,
) -> bool {
    match first_index(s0, ticket_key_owner(tenant, c.idempotency_key@)) {
        Some(i) => {
            &&& s1 == s0
            &&& if same_ticket_payload(s0[i].item, c) {
                r == Ok::<MatchTicketItem, GameMatchmakingError>(s0[i].item)
            } else {
                match_fails_with(r, "conflict"@, ticket_conflict_message())
            }
        },
        None => match r {
            Ok(t) => {
                &&& queued_ticket(t, c, id, ts)
                &&& s1.len() == s0.len() + 1
                &&& s1.drop_last() == s0
                &&& s1.last().tenant_id@ == tenant
                &&& s1.last().item == t
            },
            Err(_) => false,
        },
    }
}

pub open spec fn ticket_missing_message() -> Seq<char> {
    "match ticket not found"@
}

pub open spec fn not_queued_message() -> Seq<char> {
    "only queued match tickets can be cancelled"@
}

/// The ticket after a cancel: `cancelled` at `at`, its version bumped.
pub open spec fn cancelled_ticket(old: MatchTicketItem, new: MatchTicketItem, at: String) -> bool {
    &&& new.id == old.id
    &&& new.ticket_code == old.ticket_code
    &&& new.game_id == old.game_id
    &&& new.mode_id == old.mode_id
    &&& new.ruleset_id == old.ruleset_id
    &&& new.user_id == old.user_id
    &&& new.party_id == old.party_id
    &&& new.status@ == "cancelled"@
    &&& new.priority == old.priority
    &&& new.match_attributes == old.match_attributes
    &&& new.idempotency_key == old.idempotency_key
    &&& new.queued_at == old.queued_at
    &&& new.matched_at == old.matched_at
    &&& new.cancelled_at == Some(at)
    &&& new.expires_at == old.expires_at
    &&& new.version == old.version + 1
}

/// What a cancel does: `not_found` when the player holds no such ticket, `conflict` when
/// it is no longer queued (nothing changes then), and otherwise the ticket is cancelled.
pub open spec fn cancel_ticket_post(
    s0: Seq<StoredTicket>,
    tenant: Seq<char>,
    c: CancelMatchTicketCommand,
    at: String,
    s1: Seq<StoredTicket>,
    r: GameMatchmakingResult<MatchTicketItem>,
) -> bool {
    match first_index(s0, ticket_held(tenant, c.user_id@, c.ticket_id@)) {
        None => s1 == s0 && match_fails_with(r, "not_found"@, ticket_missing_message()),
        Some(i) => if s0[i].item.status@ != "queued"@ {
            s1 == s0 && match_fails_with(r, "conflict"@, not_queued_message())
        } else {
            match r {
                Ok(t) => {
                    &&& cancelled_ticket(s0[i].item, t, at)
                    &&& s1 == s0.update(i, StoredTicket { tenant_id: s0[i].tenant_id, item: t })
                },
                Err(_) => false,
            }
        },
    }
}

/// Whether a cancel keeps the ticket's version inside `i64`.
pub open spec fn cancel_fits(s0: Seq<StoredTicket>, tenant: Seq<char>, c: CancelMatchTicketCommand) -> bool {
    match first_index(s0, ticket_held(tenant, c.user_id@, c.ticket_id@)) {
        Some(i) => s0[i].item.version < i64::MAX,
        None => true,
    }
}

/// Whether an optional filter admits `actual`: a missing or blank filter admits anything.
pub open spec fn filter_holds(expected: Option<String>, actual: Seq<char>) -> bool {
    match expected {
        Some(v) => blank(v@) || v@ == actual,
        None => true,
    }
}

/// Whether a ticket matches the filters of a listing; a ticket with no mode counts as
/// the empty mode.
pub open spec fn ticket_matches(t: MatchTicketItem, q: MatchTicketQuery) -> bool {
    &&& filter_holds(q.game_id, t.game_id@)
    &&& filter_holds(
        q.mode_id,
        match t.mode_id {
            Some(m) => m@,
            None => Seq::empty(),
        },
    )
    &&& filter_holds(q.status, t.status@)
    &&& filter_holds(q.user_id, t.user_id@)
}

/// The tickets of `tenant` that match a listing, in the order they were stored.
pub open spec fn matching_tickets(s: Seq<StoredTicket>, tenant: Seq<char>, q: MatchTicketQuery) -> Seq<MatchTicketItem>
    decreases s.len(),
{
    if s.len() == 0 {
        Seq::empty()
    } else if s.last().tenant_id@ == tenant && ticket_matches(s.last().item, q) {
        matching_tickets(s.drop_last(), tenant, q).push(s.last().item)
    } else {
        matching_tickets(s.drop_last(), tenant, q)
    }
}

/// Tickets are listed newest first.
pub open spec fn ticket_sort_key(t: MatchTicketItem) -> Seq<SortPart> {
    seq![SortPart { value: SortValue::Text(t.queued_at), descending: true }]
}

/// Whether a ticket waits in the queue a query names: queued, of the game, and of the
/// mode when a non-blank one is named.
pub open spec fn in_queue(t: MatchTicketItem, q: MatchmakingQueueQuery) -> bool {
    &&& t.status@ == "queued"@
    &&& t.game_id@ == q.game_id@
    &&& match q.mode_id {
        Some(m) => blank(m@) || match t.mode_id {
            Some(x) => x@ == m@,
            None => false,
        },
        None => true,
    }
}

/// The tickets of `tenant` waiting in a queue, in the order they were stored.
pub open spec fn queued_tickets(s: Seq<StoredTicket>, tenant: Seq<char>, q: MatchmakingQueueQuery) -> Seq<MatchTicketItem>
    decreases s.len(),
{
    if s.len() == 0 {
        Seq::empty()
    } else if s.last().tenant_id@ == tenant && in_queue(s.last().item, q) {
        queued_tickets(s.drop_last(), tenant, q).push(s.last().item)
    } else {
        queued_tickets(s.drop_last(), tenant, q)
    }
}

/// The queue is listed by priority, highest first, then by queueing time, oldest first.
pub open spec fn queue_sort_key(t: MatchTicketItem) -> Seq<SortPart> {
    seq![
        SortPart { value: SortValue::Number(t.priority as i64), descending: true },
        SortPart { value: SortValue::Text(t.queued_at), descending: false },
    ]
}

/// A copy of a ticket.
pub fn copy_ticket(t: &MatchTicketItem) -> (r: MatchTicketItem)
    ensures
        r == *t,
{
    MatchTicketItem {
        id: t.id.clone(),
        ticket_code: t.ticket_code.clone(),
        game_id: t.game_id.clone(),
        mode_id: copy_opt(&t.mode_id),
        ruleset_id: copy_opt(&t.ruleset_id),
        user_id: t.user_id.clone(),
        party_id: copy_opt(&t.party_id),
        status: t.status.clone(),
        priority: t.priority,
        match_attributes: t.match_attributes.clone(),
        idempotency_key: t.idempotency_key.clone(),
        queued_at: t.queued_at.clone(),
        matched_at: copy_opt(&t.matched_at),
        cancelled_at: copy_opt(&t.cancelled_at),
        expires_at: copy_opt(&t.expires_at),
        version: t.version,
    }
}

/// Whether an optional filter admits `actual`.
fn filter_admits(expected: &Option<String>, actual: &str) -> (r: bool)
    ensures
        r == filter_holds(*expected, actual@),
{
    match expected {
        Some(v) => is_blank(v.as_str()) || text_eq(v.as_str(), actual),
        None => true,
    }
}

/// Whether a ticket matches the filters of a listing.
fn ticket_matches_query(t: &MatchTicketItem, q: &MatchTicketQuery) -> (r: bool)
    ensures
        r == ticket_matches(*t, *q),
{
    let mode = match &t.mode_id {
        Some(m) => m.as_str(),
        None => "",
    };
    proof {
        reveal_strlit("");
    }
    filter_admits(&q.game_id, t.game_id.as_str()) && filter_admits(&q.mode_id, mode)
        && filter_admits(&q.status, t.status.as_str()) && filter_admits(&q.user_id, t.user_id.as_str())
}

/// Whether a ticket waits in a queue.
fn ticket_in_queue(t: &MatchTicketItem, q: &MatchmakingQueueQuery) -> (r: bool)
    ensures
        r == in_queue(*t, *q),
{
    if !text_eq(t.status.as_str(), "queued") || !text_eq(t.game_id.as_str(), q.game_id.as_str()) {
        return false;
    }
    match &q.mode_id {
        Some(m) => is_blank(m.as_str()) || match &t.mode_id {
            Some(x) => text_eq(x.as_str(), m.as_str()),
            None => false,
        },
        None => true,
    }
}

/// Queueing the same request again changes nothing: the second request comes back with
/// the ticket the first one stored.
pub proof fn law_replayed_ticket_changes_nothing(
    s0: Seq<StoredTicket>,
    tenant: Seq<char>,
    c: CreateMatchTicketCommand,
    id1: String,
    ts1: String,
    s1: Seq<StoredTicket>,
    r1: GameMatchmakingResult<MatchTicketItem>,
    id2: String,
    ts2: String,
    s2: Seq<StoredTicket>,
    r2: GameMatchmakingResult<MatchTicketItem>,
)
    requires
        create_ticket_post(s0, tenant, c, id1, ts1, s1, r1),
        r1 is Ok,
        create_ticket_post(s1, tenant, c, id2, ts2, s2, r2),
    ensures
        s2 == s1,
        r2 == r1,
{
    let p = ticket_key_owner(tenant, c.idempotency_key@);
    if first_index(s0, p) is None {
        lemma_first_index(s0, p);
        let x = s1.last();
        assert(s1 =~= s0.push(x));
        assert forall|j: int| 0 <= j < s0.len() implies !p(#[trigger] s1[j]) by {
            assert(s1[j] == s0[j]);
        }
        lemma_first_index_is(s1, p, s0.len() as int);
    }
}

/// Queueing keeps each tenant's idempotency keys unique.
pub proof fn law_create_keeps_ticket_keys_unique(
    s0: Seq<StoredTicket>,
    tenant: Seq<char>,
    c: CreateMatchTicketCommand,
    id: String,
    ts: String,
    s1: Seq<StoredTicket>,
    r: GameMatchmakingResult<MatchTicketItem>,
)
    requires
        ticket_keys_unique(s0),
        create_ticket_post(s0, tenant, c, id, ts, s1, r),
    ensures
        ticket_keys_unique(s1),
{
    let p = ticket_key_owner(tenant, c.idempotency_key@);
    if first_index(s0, p) is None {
        lemma_first_index(s0, p);
        let x = s1.last();
        assert(s1 =~= s0.push(x));
        assert forall|j: int, k: int| 0 <= j < k < s1.len() implies !(#[trigger] s1[j].tenant_id@
            == #[trigger] s1[k].tenant_id@ && s1[j].item.idempotency_key@ == s1[k].item.idempotency_key@) by {
            assert(s1[j] == s0[j]);
            if k < s0.len() {
                assert(s1[k] == s0[k]);
            } else {
                assert(!p(s0[j]));
            }
        }
    }
}

/// A ticket is cancelled at most once: cancelling it again is a `conflict` and changes
/// nothing.
pub proof fn law_cancel_happens_once(
    s0: Seq<StoredTicket>,
    tenant: Seq<char>,
    c: CancelMatchTicketCommand,
    at1: String,
    s1: Seq<StoredTicket>,
    r1: GameMatchmakingResult<MatchTicketItem>,
    at2: String,
    s2: Seq<StoredTicket>,
    r2: GameMatchmakingResult<MatchTicketItem>,
)
    requires
        cancel_ticket_post(s0, tenant, c, at1, s1, r1),
        r1 is Ok,
        cancel_ticket_post(s1, tenant, c, at2, s2, r2),
    ensures
        s2 == s1,
        match_fails_with(r2, "conflict"@, not_queued_message()),
{
    let p = ticket_held(tenant, c.user_id@, c.ticket_id@);
    lemma_first_index(s0, p);
    let i = first_index(s0, p)->Some_0;
    let t = r1->Ok_0;
    assert forall|j: int| 0 <= j < s1.len() implies p(#[trigger] s1[j]) == p(s0[j]) by {
        if j != i {
            assert(s1[j] == s0[j]);
        }
    }
    assert forall|j: int| 0 <= j < i implies !p(#[trigger] s1[j]) by {
        assert(!p(s0[j]));
    }
    lemma_first_index_is(s1, p, i);
    assert(s1[i].item == t);
    assert("cancelled"@ != "queued"@) by {
        reveal_strlit("cancelled");
        reveal_strlit("queued");
        assert("cancelled"@.len() != "queued"@.len());
    }
}

/// A ticket queued under a new idempotency key is what a get of its id then reads back,
/// when no ticket of the tenant was named by that id before.
pub proof fn law_queued_ticket_reads_back(
    s0: Seq<StoredTicket>,
    tenant: Seq<char>,
    c: CreateMatchTicketCommand,
    id: String,
    ts: String,
    s1: Seq<StoredTicket>,
    r: GameMatchmakingResult<MatchTicketItem>,
)
    requires
        create_ticket_post(s0, tenant, c, id, ts, s1, r),
        first_index(s0, ticket_key_owner(tenant, c.idempotency_key@)) is None,
        forall|k: int| 0 <= k < s0.len() ==> !ticket_named(tenant, id@)(#[trigger] s0[k]),
    ensures
        r is Ok,
        match first_index(s1, ticket_named(tenant, id@)) {
            Some(k) => 0 <= k < s1.len() && s1[k].item == r->Ok_0,
            None => false,
        },
{
    let p = ticket_named(tenant, id@);
    assert forall|j: int| 0 <= j < s0.len() implies !p(#[trigger] s1[j]) by {
        assert(s1[j] == s1.drop_last()[j]);
    }
    assert(s1[s0.len() as int] == s1.last());
    lemma_first_index_is(s1, p, s0.len() as int);
}

/// The tickets a queue keeps are tickets of the tenant waiting in it, and there are as
/// many as the stored tickets of the tenant waiting in it.
proof fn lemma_queued_tickets(s: Seq<StoredTicket>, tenant: Seq<char>, q: MatchmakingQueueQuery)
    ensures
        forall|m: int|
            0 <= m < queued_tickets(s, tenant, q).len() ==> exists|j: int|
                0 <= j < s.len() && s[j].tenant_id@ == tenant && in_queue(s[j].item, q)
                    && s[j].item == #[trigger] queued_tickets(s, tenant, q)[m],
        queued_tickets(s, tenant, q).len() == count_where(
            s,
            |x: StoredTicket| x.tenant_id@ == tenant && in_queue(x.item, q),
        ),
    decreases s.len(),
{
    if s.len() > 0 {
        let t = s.drop_last();
        lemma_queued_tickets(t, tenant, q);
        let prev = queued_tickets(t, tenant, q);
        assert forall|m: int| 0 <= m < queued_tickets(s, tenant, q).len() implies exists|j: int|
            0 <= j < s.len() && s[j].tenant_id@ == tenant && in_queue(s[j].item, q)
                && s[j].item == #[trigger] queued_tickets(s, tenant, q)[m] by {
            if m < prev.len() {
                assert(queued_tickets(s, tenant, q)[m] == prev[m]);
                let j = choose|j: int|
                    0 <= j < t.len() && t[j].tenant_id@ == tenant && in_queue(t[j].item, q)
                        && t[j].item == #[trigger] prev[m];
                assert(s[j] == t[j]);
            } else {
                assert(s[s.len() - 1] == s.last());
            }
        }
    }
}

/// A queue lists only tickets of the tenant that still wait: `queued`, of the game the
/// query names, and of its mode when a non-blank one is named; its total counts exactly
/// the stored tickets of the tenant that wait so.
pub proof fn law_queue_lists_only_waiting_tickets(
    s: Seq<StoredTicket>,
    tenant: Seq<char>,
    q: MatchmakingQueueQuery,
    listed: Seq<MatchTicketItem>,
    total: u64,
    number: u32,
    size: u32,
)
    requires
        listed_page(queued_tickets(s, tenant, q), |t: MatchTicketItem| queue_sort_key(t), q.page, q.page_size, listed, total, number, size),
    ensures
        forall|m: int|
            0 <= m < listed.len() ==> {
                &&& exists|j: int| 0 <= j < s.len() && s[j].tenant_id@ == tenant && s[j].item == #[trigger] listed[m]
                &&& listed[m].status@ == "queued"@
                &&& listed[m].game_id@ == q.game_id@
                &&& (match q.mode_id {
                    Some(md) => blank(md@) || (listed[m].mode_id matches Some(x) && x@ == md@),
                    None => true,
                })
            },
        total == count_where(
            s,
            |x: StoredTicket|
                x.tenant_id@ == tenant && x.item.status@ == "queued"@ && x.item.game_id@ == q.game_id@
                    && (match q.mode_id {
                    Some(md) => blank(md@) || (x.item.mode_id matches Some(y) && y@ == md@),
                    None => true,
                }),
        ),
{
    let items = queued_tickets(s, tenant, q);
    lemma_queued_tickets(s, tenant, q);
    lemma_listed_items_come_from(items, |t: MatchTicketItem| queue_sort_key(t), q.page, q.page_size, listed, total, number, size);
    assert forall|m: int| 0 <= m < listed.len() implies {
        &&& exists|j: int| 0 <= j < s.len() && s[j].tenant_id@ == tenant && s[j].item == #[trigger] listed[m]
        &&& listed[m].status@ == "queued"@
        &&& listed[m].game_id@ == q.game_id@
        &&& (match q.mode_id {
                    Some(md) => blank(md@) || (listed[m].mode_id matches Some(x) && x@ == md@),
                    None => true,
                })
    } by {
        assert(items.contains(listed[m]));
        let k = choose|k: int| 0 <= k < items.len() && items[k] == listed[m];
        let j = choose|j: int|
            0 <= j < s.len() && s[j].tenant_id@ == tenant && in_queue(s[j].item, q) && s[j].item == #[trigger] items[k];
        assert(s[j].item == listed[m]);
    }
    let spec_pred = |x: StoredTicket| x.tenant_id@ == tenant && in_queue(x.item, q);
    let direct = |x: StoredTicket|
        x.tenant_id@ == tenant && x.item.status@ == "queued"@ && x.item.game_id@ == q.game_id@
            && (match q.mode_id {
                    Some(md) => blank(md@) || (x.item.mode_id matches Some(y) && y@ == md@),
                    None => true,
                });
    assert(spec_pred =~= direct);
}

/// A cancelled ticket leaves the queue: after a cancel that went through, the ticket it
/// returns is `cancelled`, and no queue listing shows the ticket at its place any more.
pub proof fn law_cancelled_ticket_leaves_queue(
    s0: Seq<StoredTicket>,
    tenant: Seq<char>,
    c: CancelMatchTicketCommand,
    at: String,
    s1: Seq<StoredTicket>,
    r: GameMatchmakingResult<MatchTicketItem>,
    q: MatchmakingQueueQuery,
    listed: Seq<MatchTicketItem>,
    total: u64,
    number: u32,
    size: u32,
)
    requires
        cancel_ticket_post(s0, tenant, c, at, s1, r),
        r is Ok,
        listed_page(queued_tickets(s1, tenant, q), |t: MatchTicketItem| queue_sort_key(t), q.page, q.page_size, listed, total, number, size),
    ensures
        r->Ok_0.status@ == "cancelled"@,
        exists|i: int| 0 <= i < s1.len() && s1[i].tenant_id@ == tenant && s1[i].item == r->Ok_0,
        forall|m: int| 0 <= m < listed.len() ==> #[trigger] listed[m] != r->Ok_0,
{
    let p = ticket_held(tenant, c.user_id@, c.ticket_id@);
    lemma_first_index(s0, p);
    let i = first_index(s0, p)->Some_0;
    assert(s1[i].item == r->Ok_0);
    law_queue_lists_only_waiting_tickets(s1, tenant, q, listed, total, number, size);
    assert("cancelled"@ != "queued"@) by {
        reveal_strlit("cancelled");
        reveal_strlit("queued");
        assert("cancelled"@.len() != "queued"@.len());
    }
}

impl InMemoryGameMatchmakingRepository {
    /// The stored tickets, in the order they were queued.
    pub closed spec fn ticket_records(&self) -> Seq<StoredTicket> {
        self.tickets@
    }

    /// No tickets.
    pub fn new() -> (r: Self)
        ensures
            r.ticket_records().len() == 0,
    {
        InMemoryGameMatchmakingRepository { tickets: Vec::new() }
    }

    /// The position of the first ticket of `tenant_id` held under `key`.
    fn find_by_key(&self, tenant_id: &str, key: &str) -> (r: Option<usize>)
        ensures
            match r {
                Some(i) => i < self.tickets@.len() && first_index(self.tickets@, ticket_key_owner(tenant_id@, key@)) == Some(i as int),
                None => first_index(self.tickets@, ticket_key_owner(tenant_id@, key@)) is None,
            },
    {
        let ghost p = ticket_key_owner(tenant_id@, key@);
        let n = self.tickets.len();
        let mut i: usize = 0;
        while i < n
            invariant
                n == self.tickets@.len(),
                i <= n,
                p == ticket_key_owner(tenant_id@, key@),
                forall|j: int| 0 <= j < i ==> !p(#[trigger] self.tickets@[j]),
            decreases n - i,
        {
            let stored = &self.tickets[i];
            if text_eq(stored.tenant_id.as_str(), tenant_id) && text_eq(stored.item.idempotency_key.as_str(), key) {
                proof {
                    lemma_first_index_is(self.tickets@, p, i as int);
                }
                return Some(i);
            }
            i = i + 1;
        }
        proof {
            lemma_first_index_none(self.tickets@, p);
        }
        None
    }

    /// The position of the first ticket of `tenant_id` named `name`, held by `user` when
    /// one is given.
    fn find_by_name(&self, tenant_id: &str, user: Option<&str>, name: &str) -> (r: Option<usize>)
        ensures
            ({
                let p = match user {
                    Some(u) => ticket_held(tenant_id@, u@, name@),
                    None => ticket_named(tenant_id@, name@),
                };
                match r {
                    Some(i) => i < self.tickets@.len() && first_index(self.tickets@, p) == Some(i as int),
                    None => first_index(self.tickets@, p) is None,
                }
            }),
    {
        let ghost p = match user {
            Some(u) => ticket_held(tenant_id@, u@, name@),
            None => ticket_named(tenant_id@, name@),
        };
        let n = self.tickets.len();
        let mut i: usize = 0;
        while i < n
            invariant
                n == self.tickets@.len(),
                i <= n,
                p == (match user {
                    Some(u) => ticket_held(tenant_id@, u@, name@),
                    None => ticket_named(tenant_id@, name@),
                }),
                forall|j: int| 0 <= j < i ==> !p(#[trigger] self.tickets@[j]),
            decreases n - i,
        {
            let stored = &self.tickets[i];
            let holder = match user {
                Some(u) => text_eq(stored.item.user_id.as_str(), u),
                None => true,
            };
            if text_eq(stored.tenant_id.as_str(), tenant_id) && holder && (text_eq(
                stored.item.id.as_str(),
                name,
            ) || text_eq(stored.item.ticket_code.as_str(), name)) {
                proof {
                    lemma_first_index_is(self.tickets@, p, i as int);
                }
                return Some(i);
            }
            i = i + 1;
        }
        proof {
            lemma_first_index_none(self.tickets@, p);
        }
        None
    }

    /// Queues a player for `tenant_id`, idempotently by the request's key. A new ticket
    /// takes `ticket_id` and is queued at `queued_at`.
    pub fn create_ticket(
        &mut self,
        tenant_id: &str,
        command: &CreateMatchTicketCommand,
        ticket_id: String,
        queued_at: String,
    ) -> (r: GameMatchmakingResult<MatchTicketItem>)
        ensures
            create_ticket_post(old(self).ticket_records(), tenant_id@, *command, ticket_id, queued_at, final(self).ticket_records(), r),
    {
        if let Some(i) = self.find_by_key(tenant_id, command.idempotency_key.as_str()) {
            let existing = &self.tickets[i].item;
            match ensure_idempotent_replay(existing, command) {
                Err(e) => {
                    return Err(e);
                },
                Ok(()) => {},
            }
            return Ok(copy_ticket(existing));
        }
        let ghost s0 = self.tickets@;
        let code = String::from_str("MT-").concat(ticket_id.as_str());
        proof {
            reveal_strlit("MT-");
        }
        let item = MatchTicketItem {
            id: ticket_id,
            ticket_code: code,
            game_id: command.game_id.clone(),
            mode_id: copy_opt(&command.mode_id),
            ruleset_id: copy_opt(&command.ruleset_id),
            user_id: command.user_id.clone(),
            party_id: copy_opt(&command.party_id),
            status: String::from_str("queued"),
            priority: command.priority,
            match_attributes: command.match_attributes.clone(),
            idempotency_key: command.idempotency_key.clone(),
            queued_at,
            matched_at: None,
            cancelled_at: None,
            expires_at: copy_opt(&command.expires_at),
            version: 0,
        };
        self.tickets.push(StoredTicket { tenant_id: String::from_str(tenant_id), item: copy_ticket(&item) });
        assert(self.tickets@.drop_last() =~= s0);
        Ok(item)
    }

    /// The ticket of `tenant_id` named `ticket_id` (its id or its code), or `not_found`.
    pub fn get_ticket(&self, tenant_id: &str, ticket_id: &str) -> (r: GameMatchmakingResult<MatchTicketItem>)
        ensures
            match first_index(self.ticket_records(), ticket_named(tenant_id@, ticket_id@)) {
                Some(i) => 0 <= i < self.ticket_records().len() && r == Ok::<MatchTicketItem, GameMatchmakingError>(self.ticket_records()[i].item),
                None => match_fails_with(r, "not_found"@, ticket_missing_message()),
            },
    {
        match self.find_by_name(tenant_id, None, ticket_id) {
            Some(i) => Ok(copy_ticket(&self.tickets[i].item)),
            None => Err(GameMatchmakingError::not_found("match ticket not found")),
        }
    }

    /// Whether a cancel keeps the ticket's version inside `i64`.
    pub fn version_can_grow(&self, tenant_id: &str, command: &CancelMatchTicketCommand) -> (r: bool)
        ensures
            r == cancel_fits(self.ticket_records(), tenant_id@, *command),
    {
        match self.find_by_name(tenant_id, Some(command.user_id.as_str()), command.ticket_id.as_str()) {
            Some(i) => self.tickets[i].item.version < i64::MAX,
            None => true,
        }
    }

    /// Cancels the player's queued ticket at `cancelled_at`.
    pub fn cancel_ticket(
        &mut self,
        tenant_id: &str,
        command: &CancelMatchTicketCommand,
        cancelled_at: String,
    ) -> (r: GameMatchmakingResult<MatchTicketItem>)
        requires
            cancel_fits(old(self).ticket_records(), tenant_id@, *command),
        ensures
            cancel_ticket_post(old(self).ticket_records(), tenant_id@, *command, cancelled_at, final(self).ticket_records(), r),
    {
        let i = match self.find_by_name(tenant_id, Some(command.user_id.as_str()), command.ticket_id.as_str()) {
            Some(i) => i,
            None => {
                return Err(GameMatchmakingError::not_found("match ticket not found"));
            },
        };
        let old = &self.tickets[i];
        if !text_eq(old.item.status.as_str(), "queued") {
            return Err(GameMatchmakingError::conflict("only queued match tickets can be cancelled"));
        }
        let item = MatchTicketItem {
            id: old.item.id.clone(),
            ticket_code: old.item.ticket_code.clone(),
            game_id: old.item.game_id.clone(),
            mode_id: copy_opt(&old.item.mode_id),
            ruleset_id: copy_opt(&old.item.ruleset_id),
            user_id: old.item.user_id.clone(),
            party_id: copy_opt(&old.item.party_id),
            status: String::from_str("cancelled"),
            priority: old.item.priority,
            match_attributes: old.item.match_attributes.clone(),
            idempotency_key: old.item.idempotency_key.clone(),
            queued_at: old.item.queued_at.clone(),
            matched_at: copy_opt(&old.item.matched_at),
            cancelled_at: Some(cancelled_at),
            expires_at: copy_opt(&old.item.expires_at),
            version: old.item.version + 1,
        };
        let stored = StoredTicket { tenant_id: old.tenant_id.clone(), item: copy_ticket(&item) };
        self.tickets.set(i, stored);
        Ok(item)
    }

    /// The tickets of `tenant_id` that match `query`, newest first, one page of them.
    pub fn list_tickets(&self, tenant_id: &str, query: &MatchTicketQuery) -> (r: GameMatchmakingResult<MatchTicketPage>)
        requires
            offset_fits(query.page, query.page_size),
        ensures
            match r {
                Ok(p) => listed_page(
                    matching_tickets(self.ticket_records(), tenant_id@, *query),
                    |t: MatchTicketItem| ticket_sort_key(t),
                    query.page,
                    query.page_size,
                    p.items@,
                    p.total,
                    p.page,
                    p.page_size,
                ),
                Err(_) => false,
            },
    {
        let ghost tenant = tenant_id@;
        let n = self.tickets.len();
        let mut found: Vec<MatchTicketItem> = Vec::new();
        let mut i: usize = 0;
        while i < n
            invariant
                n == self.tickets@.len(),
                i <= n,
                tenant == tenant_id@,
                found@ == matching_tickets(self.tickets@.subrange(0, i as int), tenant, *query),
            decreases n - i,
        {
            let stored = &self.tickets[i];
            proof {
                let sub = self.tickets@.subrange(0, i + 1);
                assert(sub.drop_last() =~= self.tickets@.subrange(0, i as int));
                assert(sub.last() == self.tickets@[i as int]);
            }
            if text_eq(stored.tenant_id.as_str(), tenant_id) && ticket_matches_query(&stored.item, query) {
                found.push(copy_ticket(&stored.item));
            }
            i = i + 1;
        }
        assert(self.tickets@.subrange(0, n as int) =~= self.tickets@);
        let ghost items = found@;
        let mut keys: Vec<Vec<SortPart>> = Vec::new();
        let mut j: usize = 0;
        while j < found.len()
            invariant
                items == found@,
                j <= found@.len(),
                keys@.len() == j,
                forall|t: int| 0 <= t < j ==> (#[trigger] keys@[t])@ == ticket_sort_key(found@[t]),
            decreases found@.len() - j,
        {
            let mut key: Vec<SortPart> = Vec::new();
            key.push(SortPart { value: SortValue::Text(found[j].queued_at.clone()), descending: true });
            assert(key@ =~= ticket_sort_key(found@[j as int]));
            keys.push(key);
            j = j + 1;
        }
        assert(key_views(keys@) =~= items.map_values(|t: MatchTicketItem| ticket_sort_key(t)));
        let order = stable_sort_order(&keys);
        let sorted = arrange_tickets(&found, &order);
        let limit = query.limit();
        let offset = query.offset();
        let total = found.len() as u64;
        let page_items = take_page(sorted, offset as usize, limit as usize);
        let page = match query.page {
            Some(p) => p,
            None => 1,
        };
        assert(stable_order(items.map_values(|t: MatchTicketItem| ticket_sort_key(t)), order@));
        Ok(MatchTicketPage { items: page_items, total, page, page_size: limit })
    }

    /// The tickets of `tenant_id` waiting in the queue `query` names, by priority then by
    /// queueing time, one page of them.
    pub fn list_queue(&self, tenant_id: &str, query: &MatchmakingQueueQuery) -> (r: GameMatchmakingResult<MatchTicketPage>)
        requires
            offset_fits(query.page, query.page_size),
        ensures
            match r {
                Ok(p) => listed_page(
                    queued_tickets(self.ticket_records(), tenant_id@, *query),
                    |t: MatchTicketItem| queue_sort_key(t),
                    query.page,
                    query.page_size,
                    p.items@,
                    p.total,
                    p.page,
                    p.page_size,
                ),
                Err(_) => false,
            },
    {
        let ghost tenant = tenant_id@;
        let n = self.tickets.len();
        let mut found: Vec<MatchTicketItem> = Vec::new();
        let mut i: usize = 0;
        while i < n
            invariant
                n == self.tickets@.len(),
                i <= n,
                tenant == tenant_id@,
                found@ == queued_tickets(self.tickets@.subrange(0, i as int), tenant, *query),
            decreases n - i,
        {
            let stored = &self.tickets[i];
            proof {
                let sub = self.tickets@.subrange(0, i + 1);
                assert(sub.drop_last() =~= self.tickets@.subrange(0, i as int));
                assert(sub.last() == self.tickets@[i as int]);
            }
            if text_eq(stored.tenant_id.as_str(), tenant_id) && ticket_in_queue(&stored.item, query) {
                found.push(copy_ticket(&stored.item));
            }
            i = i + 1;
        }
        assert(self.tickets@.subrange(0, n as int) =~= self.tickets@);
        let ghost items = found@;
        let mut keys: Vec<Vec<SortPart>> = Vec::new();
        let mut j: usize = 0;
        while j < found.len()
            invariant
                items == found@,
                j <= found@.len(),
                keys@.len() == j,
                forall|t: int| 0 <= t < j ==> (#[trigger] keys@[t])@ == queue_sort_key(found@[t]),
            decreases found@.len() - j,
        {
            let mut key: Vec<SortPart> = Vec::new();
            key.push(SortPart { value: SortValue::Number(found[j].priority as i64), descending: true });
            key.push(SortPart { value: SortValue::Text(found[j].queued_at.clone()), descending: false });
            assert(key@ =~= queue_sort_key(found@[j as int]));
            keys.push(key);
            j = j + 1;
        }
        assert(key_views(keys@) =~= items.map_values(|t: MatchTicketItem| queue_sort_key(t)));
        let order = stable_sort_order(&keys);
        let sorted = arrange_tickets(&found, &order);
        let limit = query.limit();
        let offset = query.offset();
        let total = found.len() as u64;
        let page_items = take_page(sorted, offset as usize, limit as usize);
        let page = match query.page {
            Some(p) => p,
            None => 1,
        };
        assert(stable_order(items.map_values(|t: MatchTicketItem| queue_sort_key(t)), order@));
        Ok(MatchTicketPage { items: page_items, total, page, page_size: limit })
    }
}

/// The tickets taken in the order of the positions `order`.
fn arrange_tickets(items: &Vec<MatchTicketItem>, order: &Vec<usize>) -> (r: Vec<MatchTicketItem>)
    requires
        forall|t: int| 0 <= t < order@.len() ==> (#[trigger] order@[t]) < items@.len(),
    ensures
        r@ == arrange(items@, order@),
{
    let mut sorted: Vec<MatchTicketItem> = Vec::new();
    let mut k: usize = 0;
    while k < order.len()
        invariant
            forall|t: int| 0 <= t < order@.len() ==> (#[trigger] order@[t]) < items@.len(),
            k <= order@.len(),
            sorted@.len() == k,
            forall|t: int| 0 <= t < k ==> #[trigger] sorted@[t] == items@[order@[t] as int],
        decreases order@.len() - k,
    {
        sorted.push(copy_ticket(&items[order[k]]));
        k = k + 1;
    }
    assert(sorted@ =~= arrange(items@, order@));
    sorted
}

} // verus!
