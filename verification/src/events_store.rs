//! The engine event outbox and the audit trail held in memory: idempotent appends,
//! optimistic version checks on status changes, and sorted, paginated listings.
use vstd::prelude::*;
use crate::events::{
    ensure_event_idempotent, event_fails_with, same_event_payload, idempotency_conflict_message,
    failed_status, failed_status_of, AppendAuditRecordCommand, AppendGameEngineEventCommand,
    AuditRecordItem, AuditRecordPage, AuditRecordQuery, GameEngineEventItem, GameEngineEventPage,
    GameEventError, GameEventResult, MarkGameEngineEventFailedCommand,
    MarkGameEngineEventPublishedCommand, PendingGameEngineEventQuery,
};
use crate::paging::{offset_fits, take_page};
use crate::search::{count_where, first_index, lemma_first_index, lemma_first_index_is, lemma_first_index_none};
use crate::sorting::{
    arrange, compare_text, key_views, lemma_listed_items_come_from, listed_page, stable_order, stable_sort_order, text_order,
    SortPart, SortValue,
};
use crate::text::{copy_opt, text_eq};

verus! {

/// An engine event with the tenant it belongs to.
#[derive(Debug, Clone, PartialEq, Eq)]
pub struct StoredEvent {
    pub tenant_id: String,
    pub item: GameEngineEventItem,
}

/// An audit record with the tenant it belongs to.
#[derive(Debug, Clone, PartialEq, Eq)]
pub struct StoredAudit {
    pub tenant_id: String,
    pub item: AuditRecordItem,
}

/// An event outbox and audit trail held in memory.
pub struct InMemoryGameEventsRepository {
    events: Vec<StoredEvent>,
    audits: Vec<StoredAudit>,
}

/// The event of `tenant` stored under idempotency key `key`.
pub open spec fn event_key_owner(tenant: Seq<char>, key: Seq<char>) -> spec_fn(StoredEvent) -> bool {
    |s: StoredEvent| s.tenant_id@ == tenant && s.item.idempotency_key@ == key
}

/// The event of `tenant` with id `id`.
pub open spec fn event_id_owner(tenant: Seq<char>, id: Seq<char>) -> spec_fn(StoredEvent) -> bool {
    |s: StoredEvent| s.tenant_id@ == tenant && s.item.id@ == id
}

/// No tenant holds two events under one idempotency key.
pub open spec fn event_keys_unique(s: Seq<StoredEvent>) -> bool {
    forall|j: int, k: int|
        0 <= j < k < s.len() ==> !(#[trigger] s[j].tenant_id@ == #[trigger] s[k].tenant_id@
            && s[j].item.idempotency_key@ == s[k].item.idempotency_key@)
}

/// The event an append request stores: its fields copied from the request, `pending`,
/// with the given id and time, and version 0.
pub open spec fn appended_event(e: GameEngineEventItem, c: AppendGameEngineEventCommand, id: String, ts: String) -> bool {
    &&& e.id == id
    &&& e.event_type == c.event_type
    &&& e.aggregate_type == c.aggregate_type
    &&& e.aggregate_id == c.aggregate_id
    &&& e.idempotency_key == c.idempotency_key
    &&& e.event_payload == c.event_payload
    &&& e.status@ == "pending"@
    &&& e.trace_id == c.trace_id
    &&& e.created_at == ts
    &&& e.published_at is None
    &&& e.next_retry_at is None
    &&& e.version == 0
}

/// What an append does. A key the tenant already holds replays: the stored event comes
/// back when the payload matches, a `conflict` otherwise, and nothing changes. A new key
/// stores a new pending event at the end of the outbox.
pub open spec fn append_event_post(
    s0: Seq<StoredEvent>,
    tenant: Seq<char>,
    c: AppendGameEngineEventCommand,
    id: String,
    ts: String,
    s1: Seq<StoredEvent>,
    r: GameEventResult<GameEngineEventItem>,
) -> bool {
    match first_index(s0, event_key_owner(tenant, c.idempotency_key@)) {
        Some(i) => {
            &&& s1 == s0
            &&& if same_event_payload(s0[i].item, c) {
                r == Ok::<GameEngineEventItem, GameEventError>(s0[i].item)
            } else {
                event_fails_with(r, "conflict"@, idempotency_conflict_message())
            }
        },
        None => match r {
            Ok(e) => {
                &&& appended_event(e, c, id, ts)
                &&& s1.len() == s0.len() + 1
                &&& s1.drop_last() == s0
                &&& s1.last().tenant_id@ == tenant
                &&& s1.last().item == e
            },
            Err(_) => false,
        },
    }
}

/// Whether an event's version is the one a request expects, when it expects one.
pub open spec fn version_matches(version: i64, expected: Option<i64>) -> bool {
    match expected {
        Some(v) => version == v,
        None => true,
    }
}

pub open spec fn stale_version_message() -> Seq<char> {
    "engine event version has changed"@
}

pub open spec fn event_missing_message() -> Seq<char> {
    "engine event not found"@
}

/// The event after a publish: `published` at `at`, no retry, and its version bumped.
pub open spec fn published_event(old: GameEngineEventItem, new: GameEngineEventItem, at: String) -> bool {
    &&& new.id == old.id
    &&& new.event_type == old.event_type
    &&& new.aggregate_type == old.aggregate_type
    &&& new.aggregate_id == old.aggregate_id
    &&& new.idempotency_key == old.idempotency_key
    &&& new.event_payload == old.event_payload
    &&& new.status@ == "published"@
    &&& new.trace_id == old.trace_id
    &&& new.created_at == old.created_at
    &&& new.published_at == Some(at)
    &&& new.next_retry_at is None
    &&& new.version == old.version + 1
}

/// The event after a failure report: `failed` or `dead_letter`, the requested retry time,
/// and its version bumped.
pub open spec fn failed_event(old: GameEngineEventItem, new: GameEngineEventItem, c: MarkGameEngineEventFailedCommand) -> bool {
    &&& new.id == old.id
    &&& new.event_type == old.event_type
    &&& new.aggregate_type == old.aggregate_type
    &&& new.aggregate_id == old.aggregate_id
    &&& new.idempotency_key == old.idempotency_key
    &&& new.event_payload == old.event_payload
    &&& new.status@ == failed_status_of(c)
    &&& new.trace_id == old.trace_id
    &&& new.created_at == old.created_at
    &&& new.published_at == old.published_at
    &&& new.next_retry_at == c.next_retry_at
    &&& new.version == old.version + 1
}

/// What a status change does to the event `event_id` of `tenant`: `not_found` when there
/// is none, `conflict` when its version is not the expected one (nothing changes then),
/// and otherwise the event is replaced by one that `changed` relates to it, which comes back.
pub open spec fn status_change_post(
    s0: Seq<StoredEvent>,
    tenant: Seq<char>,
    event_id: Seq<char>,
    expected: Option<i64>,
    changed: spec_fn(GameEngineEventItem, GameEngineEventItem) -> bool,
    s1: Seq<StoredEvent>,
    r: GameEventResult<GameEngineEventItem>,
) -> bool {
    match first_index(s0, event_id_owner(tenant, event_id)) {
        None => s1 == s0 && event_fails_with(r, "not_found"@, event_missing_message()),
        Some(i) => if !version_matches(s0[i].item.version, expected) {
            s1 == s0 && event_fails_with(r, "conflict"@, stale_version_message())
        } else {
            match r {
                Ok(e) => {
                    &&& changed(s0[i].item, e)
                    &&& s1 == s0.update(i, StoredEvent { tenant_id: s0[i].tenant_id, item: e })
                },
                Err(_) => false,
            }
        },
    }
}

/// Whether a status change of `event_id` keeps the version inside `i64`.
pub open spec fn status_change_fits(s0: Seq<StoredEvent>, tenant: Seq<char>, event_id: Seq<char>) -> bool {
    match first_index(s0, event_id_owner(tenant, event_id)) {
        Some(i) => s0[i].item.version < i64::MAX,
        None => true,
    }
}

/// Whether an event is due at `due_at`: pending, or failed with a retry time that is not
/// after `due_at` (texts compare by code point).
pub open spec fn is_due(e: GameEngineEventItem, due_at: Seq<char>) -> bool {
    ||| e.status@ == "pending"@
    ||| e.status@ == "failed"@ && match e.next_retry_at {
        Some(t) => text_order(t@, due_at) <= 0,
        None => false,
    }
}

/// The events of `tenant` due at `due_at`, in the order they were stored.
pub open spec fn due_events(s: Seq<StoredEvent>, tenant: Seq<char>, due_at: Seq<char>) -> Seq<GameEngineEventItem>
    decreases s.len(),
{
    if s.len() == 0 {
        Seq::empty()
    } else if s.last().tenant_id@ == tenant && is_due(s.last().item, due_at) {
        due_events(s.drop_last(), tenant, due_at).push(s.last().item)
    } else {
        due_events(s.drop_last(), tenant, due_at)
    }
}

/// The time an event is due: its retry time, or its creation time when it has none.
pub open spec fn due_time(e: GameEngineEventItem) -> String {
    match e.next_retry_at {
        Some(t) => t,
        None => e.created_at,
    }
}

/// Due events are listed by due time, then by creation time.
pub open spec fn due_sort_key(e: GameEngineEventItem) -> Seq<SortPart> {
    seq![
        SortPart { value: SortValue::Text(due_time(e)), descending: false },
        SortPart { value: SortValue::Text(e.created_at), descending: false },
    ]
}

/// Whether a filter on an optional value admits `value`.
pub open spec fn filter_admits(filter: Option<String>, value: Seq<char>) -> bool {
    match filter {
        Some(f) => value == f@,
        None => true,
    }
}

/// Whether an audit record matches every filter of a search.
pub open spec fn audit_matches(a: AuditRecordItem, q: AuditRecordQuery) -> bool {
    &&& filter_admits(q.target_type, a.target_type@)
    &&& filter_admits(q.target_id, a.target_id@)
    &&& filter_admits(q.actor_type, a.actor_type@)
    &&& match q.actor_id {
        Some(f) => match a.actor_id {
            Some(x) => x@ == f@,
            None => false,
        },
        None => true,
    }
    &&& filter_admits(q.action, a.action@)
}

/// The audit records of `tenant` that match a search, in the order they were stored.
pub open spec fn matching_audits(s: Seq<StoredAudit>, tenant: Seq<char>, q: AuditRecordQuery) -> Seq<AuditRecordItem>
    decreases s.len(),
{
    if s.len() == 0 {
        Seq::empty()
    } else if s.last().tenant_id@ == tenant && audit_matches(s.last().item, q) {
        matching_audits(s.drop_last(), tenant, q).push(s.last().item)
    } else {
        matching_audits(s.drop_last(), tenant, q)
    }
}

/// Audit records are listed newest first.
pub open spec fn audit_sort_key(a: AuditRecordItem) -> Seq<SortPart> {
    seq![SortPart { value: SortValue::Text(a.created_at), descending: true }]
}

/// The record an audit request stores: its fields copied, the given id and time, version 0.
pub open spec fn appended_audit(a: AuditRecordItem, c: AppendAuditRecordCommand, id: String, ts: String) -> bool {
    &&& a.id == id
    &&& a.actor_type == c.actor_type
    &&& a.actor_id == c.actor_id
    &&& a.action == c.action
    &&& a.target_type == c.target_type
    &&& a.target_id == c.target_id
    &&& a.reason_code == c.reason_code
    &&& a.before_snapshot == c.before_snapshot
    &&& a.after_snapshot == c.after_snapshot
    &&& a.trace_id == c.trace_id
    &&& a.created_at == ts
    &&& a.version == 0
}

/// A copy of an engine event.
pub fn copy_event(e: &GameEngineEventItem) -> (r: GameEngineEventItem)
    ensures
        r == *e,
{
    GameEngineEventItem {
        id: e.id.clone(),
        event_type: e.event_type.clone(),
        aggregate_type: e.aggregate_type.clone(),
        aggregate_id: e.aggregate_id.clone(),
        idempotency_key: e.idempotency_key.clone(),
        event_payload: e.event_payload.clone(),
        status: e.status.clone(),
        trace_id: e.trace_id.clone(),
        created_at: e.created_at.clone(),
        published_at: copy_opt(&e.published_at),
        next_retry_at: copy_opt(&e.next_retry_at),
        version: e.version,
    }
}

/// A copy of an audit record.
pub fn copy_audit(a: &AuditRecordItem) -> (r: AuditRecordItem)
    ensures
        r == *a,
{
    AuditRecordItem {
        id: a.id.clone(),
        actor_type: a.actor_type.clone(),
        actor_id: copy_opt(&a.actor_id),
        action: a.action.clone(),
        target_type: a.target_type.clone(),
        target_id: a.target_id.clone(),
        reason_code: copy_opt(&a.reason_code),
        before_snapshot: a.before_snapshot.clone(),
        after_snapshot: a.after_snapshot.clone(),
        trace_id: a.trace_id.clone(),
        created_at: a.created_at.clone(),
        version: a.version,
    }
}

/// Refuses a change to an event whose version is not the expected one.
fn ensure_expected_version(item: &GameEngineEventItem, expected: Option<i64>) -> (r: GameEventResult<()>)
    ensures
        version_matches(item.version, expected) ==> r is Ok,
        !version_matches(item.version, expected) ==> event_fails_with(r, "conflict"@, stale_version_message()),
{
    if let Some(expected) = expected {
        if item.version != expected {
            return Err(GameEventError::conflict("engine event version has changed"));
        }
    }
    Ok(())
}

/// Whether an event is due at `due_at`.
fn event_is_due(item: &GameEngineEventItem, due_at: &str) -> (r: bool)
    ensures
        r == is_due(*item, due_at@),
{
    if text_eq(item.status.as_str(), "pending") {
        return true;
    }
    if !text_eq(item.status.as_str(), "failed") {
        return false;
    }
    match &item.next_retry_at {
        Some(t) => compare_text(t.as_str(), due_at) <= 0,
        None => false,
    }
}

/// The sort key of a due event.
fn due_key_of(e: &GameEngineEventItem) -> (r: Vec<SortPart>)
    ensures
        r@ == due_sort_key(*e),
{
    let due = match &e.next_retry_at {
        Some(t) => t.clone(),
        None => e.created_at.clone(),
    };
    let mut key: Vec<SortPart> = Vec::new();
    key.push(SortPart { value: SortValue::Text(due), descending: false });
    key.push(SortPart { value: SortValue::Text(e.created_at.clone()), descending: false });
    assert(key@ =~= due_sort_key(*e));
    key
}

/// Whether an optional filter admits `value`.
fn admits(filter: &Option<String>, value: &str) -> (r: bool)
    ensures
        r == filter_admits(*filter, value@),
{
    match filter {
        Some(f) => text_eq(value, f.as_str()),
        None => true,
    }
}

/// Whether an audit record matches a search.
fn audit_matches_query(a: &AuditRecordItem, q: &AuditRecordQuery) -> (r: bool)
    ensures
        r == audit_matches(*a, *q),
{
    let actor = match &q.actor_id {
        Some(f) => match &a.actor_id {
            Some(x) => text_eq(x.as_str(), f.as_str()),
            None => false,
        },
        None => true,
    };
    admits(&q.target_type, a.target_type.as_str()) && admits(&q.target_id, a.target_id.as_str())
        && admits(&q.actor_type, a.actor_type.as_str()) && actor && admits(&q.action, a.action.as_str())
}

/// Events appended again under a key the tenant holds change nothing: the second append
/// comes back with the event the first one stored.
pub proof fn law_replayed_event_append_changes_nothing(
    s0: Seq<StoredEvent>,
    tenant: Seq<char>,
    c: AppendGameEngineEventCommand,
    id1: String,
    ts1: String,
    s1: Seq<StoredEvent>,
    r1: GameEventResult<GameEngineEventItem>,
    id2: String,
    ts2: String,
    s2: Seq<StoredEvent>,
    r2: GameEventResult<GameEngineEventItem>,
)
    requires
        append_event_post(s0, tenant, c, id1, ts1, s1, r1),
        r1 is Ok,
        append_event_post(s1, tenant, c, id2, ts2, s2, r2),
    ensures
        s2 == s1,
        r2 == r1,
{
    let p = event_key_owner(tenant, c.idempotency_key@);
    if first_index(s0, p) is None {
        lemma_first_index(s0, p);
        let x = s1.last();
        assert(s1 =~= s0.push(x));
        assert forall|j: int| 0 <= j < s0.len() implies !p(#[trigger] s1[j]) by {
            assert(s1[j] == s0[j]);
        }
        lemma_first_index_is(s1, p, s0.len() as int);
    }
}

/// An append keeps each tenant's idempotency keys unique in the outbox.
pub proof fn law_append_keeps_event_keys_unique(
    s0: Seq<StoredEvent>,
    tenant: Seq<char>,
    c: AppendGameEngineEventCommand,
    id: String,
    ts: String,
    s1: Seq<StoredEvent>,
    r: GameEventResult<GameEngineEventItem>,
)
    requires
        event_keys_unique(s0),
        append_event_post(s0, tenant, c, id, ts, s1, r),
    ensures
        event_keys_unique(s1),
{
    let p = event_key_owner(tenant, c.idempotency_key@);
    if first_index(s0, p) is None {
        lemma_first_index(s0, p);
        let x = s1.last();
        assert(s1 =~= s0.push(x));
        assert forall|j: int, k: int| 0 <= j < k < s1.len() implies !(#[trigger] s1[j].tenant_id@
            == #[trigger] s1[k].tenant_id@ && s1[j].item.idempotency_key@ == s1[k].item.idempotency_key@) by {
            assert(s1[j] == s0[j]);
            if k < s0.len() {
                assert(s1[k] == s0[k]);
            } else {
                assert(!p(s0[j]));
            }
        }
    }
}

/// A status change that succeeded with an expected version is not repeated: a second
/// change of the same event that expects the same version is refused with `conflict`,
/// and changes nothing.
pub proof fn law_stale_version_is_refused(
    s0: Seq<StoredEvent>,
    tenant: Seq<char>,
    event_id: Seq<char>,
    expected: i64,
    changed: spec_fn(GameEngineEventItem, GameEngineEventItem) -> bool,
    s1: Seq<StoredEvent>,
    r1: GameEventResult<GameEngineEventItem>,
    changed2: spec_fn(GameEngineEventItem, GameEngineEventItem) -> bool,
    s2: Seq<StoredEvent>,
    r2: GameEventResult<GameEngineEventItem>,
)
    requires
        forall|a: GameEngineEventItem, b: GameEngineEventItem| #[trigger] changed(a, b) ==> b.version == a.version + 1 && b.id == a.id,
        status_change_post(s0, tenant, event_id, Some(expected), changed, s1, r1),
        r1 is Ok,
        status_change_post(s1, tenant, event_id, Some(expected), changed2, s2, r2),
    ensures
        s2 == s1,
        event_fails_with(r2, "conflict"@, stale_version_message()),
{
    let p = event_id_owner(tenant, event_id);
    lemma_first_index(s0, p);
    let i = first_index(s0, p)->Some_0;
    let e = r1->Ok_0;
    assert(changed(s0[i].item, e));
    assert forall|j: int| 0 <= j < s1.len() implies p(#[trigger] s1[j]) == p(s0[j]) by {
        if j == i {
            assert(s1[j].item.id == s0[j].item.id);
        } else {
            assert(s1[j] == s0[j]);
        }
    }
    assert forall|j: int| 0 <= j < i implies !p(#[trigger] s1[j]) by {
        assert(!p(s0[j]));
    }
    lemma_first_index_is(s1, p, i);
}

/// A published event is no longer due: whatever time a pending listing asks about, the
/// event that a publish changed is not among the due ones.
pub proof fn law_published_event_is_not_due(
    s0: Seq<StoredEvent>,
    tenant: Seq<char>,
    c: MarkGameEngineEventPublishedCommand,
    at: String,
    s1: Seq<StoredEvent>,
    r: GameEventResult<GameEngineEventItem>,
    due_at: Seq<char>,
)
    requires
        status_change_post(
            s0,
            tenant,
            c.event_id@,
            c.expected_version,
            |a: GameEngineEventItem, b: GameEngineEventItem| published_event(a, b, at),
            s1,
            r,
        ),
        r is Ok,
    ensures
        !is_due(r->Ok_0, due_at),
{
    assert(r->Ok_0.status@ == "published"@);
    reveal_strlit("published");
    reveal_strlit("pending");
    reveal_strlit("failed");
    assert("published"@[1] != "pending"@[1]);
    assert("published"@[0] != "failed"@[0]);
}

/// An event appended under a new idempotency key is what a get of its id then reads back,
/// when no event of the tenant had that id before.
pub proof fn law_appended_event_reads_back(
    s0: Seq<StoredEvent>,
    tenant: Seq<char>,
    c: AppendGameEngineEventCommand,
    id: String,
    ts: String,
    s1: Seq<StoredEvent>,
    r: GameEventResult<GameEngineEventItem>,
)
    requires
        append_event_post(s0, tenant, c, id, ts, s1, r),
        first_index(s0, event_key_owner(tenant, c.idempotency_key@)) is None,
        forall|k: int| 0 <= k < s0.len() ==> !event_id_owner(tenant, id@)(#[trigger] s0[k]),
    ensures
        r is Ok,
        match first_index(s1, event_id_owner(tenant, id@)) {
            Some(k) => 0 <= k < s1.len() && s1[k].item == r->Ok_0,
            None => false,
        },
{
    let p = event_id_owner(tenant, id@);
    assert forall|j: int| 0 <= j < s0.len() implies !p(#[trigger] s1[j]) by {
        assert(s1[j] == s1.drop_last()[j]);
    }
    assert(s1[s0.len() as int] == s1.last());
    lemma_first_index_is(s1, p, s0.len() as int);
}

/// The records a search keeps are records of the tenant that match it, and there are as
/// many as the stored records of the tenant that match it.
proof fn lemma_matching_audits(s: Seq<StoredAudit>, tenant: Seq<char>, q: AuditRecordQuery)
    ensures
        forall|m: int|
            0 <= m < matching_audits(s, tenant, q).len() ==> exists|j: int|
                0 <= j < s.len() && s[j].tenant_id@ == tenant && audit_matches(s[j].item, q)
                    && s[j].item == #[trigger] matching_audits(s, tenant, q)[m],
        matching_audits(s, tenant, q).len() == count_where(
            s,
            |x: StoredAudit| x.tenant_id@ == tenant && audit_matches(x.item, q),
        ),
    decreases s.len(),
{
    if s.len() > 0 {
        let t = s.drop_last();
        lemma_matching_audits(t, tenant, q);
        let prev = matching_audits(t, tenant, q);
        assert forall|m: int| 0 <= m < matching_audits(s, tenant, q).len() implies exists|j: int|
            0 <= j < s.len() && s[j].tenant_id@ == tenant && audit_matches(s[j].item, q)
                && s[j].item == #[trigger] matching_audits(s, tenant, q)[m] by {
            if m < prev.len() {
                assert(matching_audits(s, tenant, q)[m] == prev[m]);
                let j = choose|j: int|
                    0 <= j < t.len() && t[j].tenant_id@ == tenant && audit_matches(t[j].item, q)
                        && t[j].item == #[trigger] prev[m];
                assert(s[j] == t[j]);
            } else {
                assert(s[s.len() - 1] == s.last());
            }
        }
    }
}

/// A search of the audit trail lists only records of the tenant that meet every filter it
/// names (target type, target id, actor type, actor id, action), and its total counts
/// exactly the stored records of the tenant that meet them.
pub proof fn law_audit_search_lists_only_matches(
    s: Seq<StoredAudit>,
    tenant: Seq<char>,
    q: AuditRecordQuery,
    listed: Seq<AuditRecordItem>,
    total: u64,
    number: u32,
    size: u32,
)
    requires
        listed_page(matching_audits(s, tenant, q), |a: AuditRecordItem| audit_sort_key(a), q.page, q.page_size, listed, total, number, size),
    ensures
        forall|m: int|
            0 <= m < listed.len() ==> {
                &&& exists|j: int| 0 <= j < s.len() && s[j].tenant_id@ == tenant && s[j].item == #[trigger] listed[m]
                &&& (q.target_type matches Some(v) ==> listed[m].target_type@ == v@)
                &&& (q.target_id matches Some(v) ==> listed[m].target_id@ == v@)
                &&& (q.actor_type matches Some(v) ==> listed[m].actor_type@ == v@)
                &&& (q.actor_id matches Some(v) ==> listed[m].actor_id matches Some(a) && a@ == v@)
                &&& (q.action matches Some(v) ==> listed[m].action@ == v@)
            },
        total == count_where(
            s,
            |x: StoredAudit|
                x.tenant_id@ == tenant && (q.target_type matches Some(v) ==> x.item.target_type@ == v@)
                    && (q.target_id matches Some(v) ==> x.item.target_id@ == v@)
                    && (q.actor_type matches Some(v) ==> x.item.actor_type@ == v@)
                    && (q.actor_id matches Some(v) ==> x.item.actor_id matches Some(a) && a@ == v@)
                    && (q.action matches Some(v) ==> x.item.action@ == v@),
        ),
{
    let items = matching_audits(s, tenant, q);
    lemma_matching_audits(s, tenant, q);
    lemma_listed_items_come_from(items, |a: AuditRecordItem| audit_sort_key(a), q.page, q.page_size, listed, total, number, size);
    assert forall|m: int| 0 <= m < listed.len() implies {
        &&& exists|j: int| 0 <= j < s.len() && s[j].tenant_id@ == tenant && s[j].item == #[trigger] listed[m]
        &&& (q.target_type matches Some(v) ==> listed[m].target_type@ == v@)
        &&& (q.target_id matches Some(v) ==> listed[m].target_id@ == v@)
        &&& (q.actor_type matches Some(v) ==> listed[m].actor_type@ == v@)
        &&& (q.actor_id matches Some(v) ==> listed[m].actor_id matches Some(a) && a@ == v@)
        &&& (q.action matches Some(v) ==> listed[m].action@ == v@)
    } by {
        assert(items.contains(listed[m]));
        let k = choose|k: int| 0 <= k < items.len() && items[k] == listed[m];
        let j = choose|j: int|
            0 <= j < s.len() && s[j].tenant_id@ == tenant && audit_matches(s[j].item, q) && s[j].item == #[trigger] items[k];
        assert(s[j].item == listed[m]);
    }
    let spec_pred = |x: StoredAudit| x.tenant_id@ == tenant && audit_matches(x.item, q);
    let direct = |x: StoredAudit|
        x.tenant_id@ == tenant && (q.target_type matches Some(v) ==> x.item.target_type@ == v@)
            && (q.target_id matches Some(v) ==> x.item.target_id@ == v@)
            && (q.actor_type matches Some(v) ==> x.item.actor_type@ == v@)
            && (q.actor_id matches Some(v) ==> x.item.actor_id matches Some(a) && a@ == v@)
            && (q.action matches Some(v) ==> x.item.action@ == v@);
    assert(spec_pred =~= direct);
}

impl InMemoryGameEventsRepository {
    /// The stored events, in the order they were appended.
    pub closed spec fn event_records(&self) -> Seq<StoredEvent> {
        self.events@
    }

    /// The stored audit records, in the order they were appended.
    pub closed spec fn audit_records(&self) -> Seq<StoredAudit> {
        self.audits@
    }

    /// An empty outbox and audit trail.
    pub fn new() -> (r: Self)
        ensures
            r.event_records().len() == 0,
            r.audit_records().len() == 0,
    {
        InMemoryGameEventsRepository { events: Vec::new(), audits: Vec::new() }
    }

    /// The position of the first event that `p` picks: `by_key` picks by idempotency key,
    /// otherwise by id.
    fn find_event(&self, tenant_id: &str, value: &str, by_key: bool) -> (r: Option<usize>)
        ensures
            ({
                let p = if by_key {
                    event_key_owner(tenant_id@, value@)
                } else {
                    event_id_owner(tenant_id@, value@)
                };
                match r {
                    Some(i) => i < self.events@.len() && first_index(self.events@, p) == Some(i as int),
                    None => first_index(self.events@, p) is None,
                }
            }),
    {
        let ghost p = if by_key {
            event_key_owner(tenant_id@, value@)
        } else {
            event_id_owner(tenant_id@, value@)
        };
        let n = self.events.len();
        let mut i: usize = 0;
        while i < n
            invariant
                n == self.events@.len(),
                i <= n,
                p == (if by_key {
                    event_key_owner(tenant_id@, value@)
                } else {
                    event_id_owner(tenant_id@, value@)
                }),
                forall|j: int| 0 <= j < i ==> !p(#[trigger] self.events@[j]),
            decreases n - i,
        {
            let stored = &self.events[i];
            let field = if by_key {
                stored.item.idempotency_key.as_str()
            } else {
                stored.item.id.as_str()
            };
            if text_eq(stored.tenant_id.as_str(), tenant_id) && text_eq(field, value) {
                proof {
                    lemma_first_index_is(self.events@, p, i as int);
                }
                return Some(i);
            }
            i = i + 1;
        }
        proof {
            lemma_first_index_none(self.events@, p);
        }
        None
    }

    /// Whether a status change of the event `event_id` of `tenant_id` keeps its version
    /// inside `i64`.
    pub fn version_can_grow(&self, tenant_id: &str, event_id: &str) -> (r: bool)
        ensures
            r == status_change_fits(self.event_records(), tenant_id@, event_id@),
    {
        match self.find_event(tenant_id, event_id, false) {
            Some(i) => self.events[i].item.version < i64::MAX,
            None => true,
        }
    }

    /// Appends an event for `tenant_id`, idempotently by the request's key. A new event
    /// takes `event_id` and `created_at`.
    pub fn append_event(
        &mut self,
        tenant_id: &str,
        command: &AppendGameEngineEventCommand,
        event_id: String,
        created_at: String,
    ) -> (r: GameEventResult<GameEngineEventItem>)
        ensures
            append_event_post(old(self).event_records(), tenant_id@, *command, event_id, created_at, final(self).event_records(), r),
            final(self).audit_records() == old(self).audit_records(),
    {
        if let Some(i) = self.find_event(tenant_id, command.idempotency_key.as_str(), true) {
            let existing = &self.events[i].item;
            match ensure_event_idempotent(existing, command) {
                Err(e) => {
                    return Err(e);
                },
                Ok(()) => {},
            }
            return Ok(copy_event(existing));
        }
        let ghost s0 = self.events@;
        let item = GameEngineEventItem {
            id: event_id,
            event_type: command.event_type.clone(),
            aggregate_type: command.aggregate_type.clone(),
            aggregate_id: command.aggregate_id.clone(),
            idempotency_key: command.idempotency_key.clone(),
            event_payload: command.event_payload.clone(),
            status: String::from_str("pending"),
            trace_id: command.trace_id.clone(),
            created_at,
            published_at: None,
            next_retry_at: None,
            version: 0,
        };
        self.events.push(StoredEvent { tenant_id: String::from_str(tenant_id), item: copy_event(&item) });
        assert(self.events@.drop_last() =~= s0);
        Ok(item)
    }

    /// The event `event_id` of `tenant_id`, or `not_found`.
    pub fn get_event(&self, tenant_id: &str, event_id: &str) -> (r: GameEventResult<GameEngineEventItem>)
        ensures
            match first_index(self.event_records(), event_id_owner(tenant_id@, event_id@)) {
                Some(i) => 0 <= i < self.event_records().len() && r == Ok::<GameEngineEventItem, GameEventError>(self.event_records()[i].item),
                None => event_fails_with(r, "not_found"@, event_missing_message()),
            },
    {
        match self.find_event(tenant_id, event_id, false) {
            Some(i) => Ok(copy_event(&self.events[i].item)),
            None => Err(GameEventError::not_found("engine event not found")),
        }
    }

    /// Marks the event `command.event_id` of `tenant_id` as published at `published_at`,
    /// when its version is the expected one.
    pub fn mark_event_published(
        &mut self,
        tenant_id: &str,
        command: &MarkGameEngineEventPublishedCommand,
        published_at: String,
    ) -> (r: GameEventResult<GameEngineEventItem>)
        requires
            status_change_fits(old(self).event_records(), tenant_id@, command.event_id@),
        ensures
            status_change_post(
                old(self).event_records(),
                tenant_id@,
                command.event_id@,
                command.expected_version,
                |a: GameEngineEventItem, b: GameEngineEventItem| published_event(a, b, published_at),
                final(self).event_records(),
                r,
            ),
            final(self).audit_records() == old(self).audit_records(),
    {
        let i = match self.find_event(tenant_id, command.event_id.as_str(), false) {
            Some(i) => i,
            None => {
                return Err(GameEventError::not_found("engine event not found"));
            },
        };
        let old = &self.events[i];
        match ensure_expected_version(&old.item, command.expected_version) {
            Err(e) => {
                return Err(e);
            },
            Ok(()) => {},
        }
        let item = GameEngineEventItem {
            id: old.item.id.clone(),
            event_type: old.item.event_type.clone(),
            aggregate_type: old.item.aggregate_type.clone(),
            aggregate_id: old.item.aggregate_id.clone(),
            idempotency_key: old.item.idempotency_key.clone(),
            event_payload: old.item.event_payload.clone(),
            status: String::from_str("published"),
            trace_id: old.item.trace_id.clone(),
            created_at: old.item.created_at.clone(),
            published_at: Some(published_at),
            next_retry_at: None,
            version: old.item.version + 1,
        };
        let stored = StoredEvent { tenant_id: old.tenant_id.clone(), item: copy_event(&item) };
        self.events.set(i, stored);
        Ok(item)
    }

    /// Marks the event `command.event_id` of `tenant_id` as failed (or dead-lettered), when
    /// its version is the expected one.
    pub fn mark_event_failed(
        &mut self,
        tenant_id: &str,
        command: &MarkGameEngineEventFailedCommand,
    ) -> (r: GameEventResult<GameEngineEventItem>)
        requires
            status_change_fits(old(self).event_records(), tenant_id@, command.event_id@),
        ensures
            status_change_post(
                old(self).event_records(),
                tenant_id@,
                command.event_id@,
                command.expected_version,
                |a: GameEngineEventItem, b: GameEngineEventItem| failed_event(a, b, *command),
                final(self).event_records(),
                r,
            ),
            final(self).audit_records() == old(self).audit_records(),
    {
        let i = match self.find_event(tenant_id, command.event_id.as_str(), false) {
            Some(i) => i,
            None => {
                return Err(GameEventError::not_found("engine event not found"));
            },
        };
        let old = &self.events[i];
        match ensure_expected_version(&old.item, command.expected_version) {
            Err(e) => {
                return Err(e);
            },
            Ok(()) => {},
        }
        let item = GameEngineEventItem {
            id: old.item.id.clone(),
            event_type: old.item.event_type.clone(),
            aggregate_type: old.item.aggregate_type.clone(),
            aggregate_id: old.item.aggregate_id.clone(),
            idempotency_key: old.item.idempotency_key.clone(),
            event_payload: old.item.event_payload.clone(),
            status: String::from_str(failed_status(command)),
            trace_id: old.item.trace_id.clone(),
            created_at: old.item.created_at.clone(),
            published_at: copy_opt(&old.item.published_at),
            next_retry_at: copy_opt(&command.next_retry_at),
            version: old.item.version + 1,
        };
        let stored = StoredEvent { tenant_id: old.tenant_id.clone(), item: copy_event(&item) };
        self.events.set(i, stored);
        Ok(item)
    }

    /// The events of `tenant_id` due at `query.due_at`, by due time then creation time,
    /// one page of them.
    pub fn list_pending_events(
        &self,
        tenant_id: &str,
        query: &PendingGameEngineEventQuery,
    ) -> (r: GameEventResult<GameEngineEventPage>)
        requires
            offset_fits(query.page, query.page_size),
        ensures
            match r {
                Ok(p) => listed_page(
                    due_events(self.event_records(), tenant_id@, query.due_at@),
                    |e: GameEngineEventItem| due_sort_key(e),
                    query.page,
                    query.page_size,
                    p.items@,
                    p.total,
                    p.page,
                    p.page_size,
                ),
                Err(_) => false,
            },
    {
        let ghost tenant = tenant_id@;
        let ghost due_at = query.due_at@;
        let n = self.events.len();
        let mut due: Vec<GameEngineEventItem> = Vec::new();
        let mut i: usize = 0;
        while i < n
            invariant
                n == self.events@.len(),
                i <= n,
                tenant == tenant_id@,
                due_at == query.due_at@,
                due@ == due_events(self.events@.subrange(0, i as int), tenant, due_at),
            decreases n - i,
        {
            let stored = &self.events[i];
            proof {
                let sub = self.events@.subrange(0, i + 1);
                assert(sub.drop_last() =~= self.events@.subrange(0, i as int));
                assert(sub.last() == self.events@[i as int]);
            }
            if text_eq(stored.tenant_id.as_str(), tenant_id) && event_is_due(&stored.item, query.due_at.as_str()) {
                due.push(copy_event(&stored.item));
            }
            i = i + 1;
        }
        assert(self.events@.subrange(0, n as int) =~= self.events@);
        let ghost items = due@;
        let mut keys: Vec<Vec<SortPart>> = Vec::new();
        let mut j: usize = 0;
        while j < due.len()
            invariant
                items == due@,
                j <= due@.len(),
                keys@.len() == j,
                forall|t: int| 0 <= t < j ==> (#[trigger] keys@[t])@ == due_sort_key(due@[t]),
            decreases due@.len() - j,
        {
            keys.push(due_key_of(&due[j]));
            j = j + 1;
        }
        assert(key_views(keys@) =~= items.map_values(|e: GameEngineEventItem| due_sort_key(e)));
        let order = stable_sort_order(&keys);
        let mut sorted: Vec<GameEngineEventItem> = Vec::new();
        let mut k: usize = 0;
        while k < order.len()
            invariant
                items == due@,
                order@.len() == items.len(),
                forall|t: int| 0 <= t < order@.len() ==> (#[trigger] order@[t]) < items.len(),
                k <= order@.len(),
                sorted@.len() == k,
                forall|t: int| 0 <= t < k ==> #[trigger] sorted@[t] == items[order@[t] as int],
            decreases order@.len() - k,
        {
            sorted.push(copy_event(&due[order[k]]));
            k = k + 1;
        }
        assert(sorted@ =~= arrange(items, order@));
        let limit = query.limit();
        let offset = query.offset();
        let total = due.len() as u64;
        let page_items = take_page(sorted, offset as usize, limit as usize);
        let page = match query.page {
            Some(p) => p,
            None => 1,
        };
        assert(stable_order(items.map_values(|e: GameEngineEventItem| due_sort_key(e)), order@));
        Ok(GameEngineEventPage { items: page_items, total, page, page_size: limit })
    }

    /// Appends an audit record for `tenant_id`, with `audit_id` and `created_at`.
    pub fn append_audit_record(
        &mut self,
        tenant_id: &str,
        command: &AppendAuditRecordCommand,
        audit_id: String,
        created_at: String,
    ) -> (r: GameEventResult<AuditRecordItem>)
        ensures
            match r {
                Ok(a) => {
                    &&& appended_audit(a, *command, audit_id, created_at)
                    &&& final(self).audit_records() == old(self).audit_records().push(
                        StoredAudit { tenant_id: final(self).audit_records().last().tenant_id, item: a },
                    )
                    &&& final(self).audit_records().last().tenant_id@ == tenant_id@
                },
                Err(_) => false,
            },
            final(self).event_records() == old(self).event_records(),
    {
        let ghost a0 = self.audits@;
        let item = AuditRecordItem {
            id: audit_id,
            actor_type: command.actor_type.clone(),
            actor_id: copy_opt(&command.actor_id),
            action: command.action.clone(),
            target_type: command.target_type.clone(),
            target_id: command.target_id.clone(),
            reason_code: copy_opt(&command.reason_code),
            before_snapshot: command.before_snapshot.clone(),
            after_snapshot: command.after_snapshot.clone(),
            trace_id: command.trace_id.clone(),
            created_at,
            version: 0,
        };
        self.audits.push(StoredAudit { tenant_id: String::from_str(tenant_id), item: copy_audit(&item) });
        assert(self.audits@ =~= a0.push(self.audits@.last()));
        Ok(item)
    }

    /// The audit records of `tenant_id` that match `query`, newest first, one page of them.
    pub fn search_audit_records(
        &self,
        tenant_id: &str,
        query: &AuditRecordQuery,
    ) -> (r: GameEventResult<AuditRecordPage>)
        requires
            offset_fits(query.page, query.page_size),
        ensures
            match r {
                Ok(p) => listed_page(
                    matching_audits(self.audit_records(), tenant_id@, *query),
                    |a: AuditRecordItem| audit_sort_key(a),
                    query.page,
                    query.page_size,
                    p.items@,
                    p.total,
                    p.page,
                    p.page_size,
                ),
                Err(_) => false,
            },
    {
        let ghost tenant = tenant_id@;
        let n = self.audits.len();
        let mut found: Vec<AuditRecordItem> = Vec::new();
        let mut i: usize = 0;
        while i < n
            invariant
                n == self.audits@.len(),
                i <= n,
                tenant == tenant_id@,
                found@ == matching_audits(self.audits@.subrange(0, i as int), tenant, *query),
            decreases n - i,
        {
            let stored = &self.audits[i];
            proof {
                let sub = self.audits@.subrange(0, i + 1);
                assert(sub.drop_last() =~= self.audits@.subrange(0, i as int));
                assert(sub.last() == self.audits@[i as int]);
            }
            if text_eq(stored.tenant_id.as_str(), tenant_id) && audit_matches_query(&stored.item, query) {
                found.push(copy_audit(&stored.item));
            }
            i = i + 1;
        }
        assert(self.audits@.subrange(0, n as int) =~= self.audits@);
        let ghost items = found@;
        let mut keys: Vec<Vec<SortPart>> = Vec::new();
        let mut j: usize = 0;
        while j < found.len()
            invariant
                items == found@,
                j <= found@.len(),
                keys@.len() == j,
                forall|t: int| 0 <= t < j ==> (#[trigger] keys@[t])@ == audit_sort_key(found@[t]),
            decreases found@.len() - j,
        {
            let mut key: Vec<SortPart> = Vec::new();
            key.push(SortPart { value: SortValue::Text(found[j].created_at.clone()), descending: true });
            assert(key@ =~= audit_sort_key(found@[j as int]));
            keys.push(key);
            j = j + 1;
        }
        assert(key_views(keys@) =~= items.map_values(|a: AuditRecordItem| audit_sort_key(a)));
        let order = stable_sort_order(&keys);
        let mut sorted: Vec<AuditRecordItem> = Vec::new();
        let mut k: usize = 0;
        while k < order.len()
            invariant
                items == found@,
                order@.len() == items.len(),
                forall|t: int| 0 <= t < order@.len() ==> (#[trigger] order@[t]) < items.len(),
                k <= order@.len(),
                sorted@.len() == k,
                forall|t: int| 0 <= t < k ==> #[trigger] sorted@[t] == items[order@[t] as int],
            decreases order@.len() - k,
        {
            sorted.push(copy_audit(&found[order[k]]));
            k = k + 1;
        }
        assert(sorted@ =~= arrange(items, order@));
        let limit = query.limit();
        let offset = query.offset();
        let total = found.len() as u64;
        let page_items = take_page(sorted, offset as usize, limit as usize);
        let page = match query.page {
            Some(p) => p,
            None => 1,
        };
        assert(stable_order(items.map_values(|a: AuditRecordItem| audit_sort_key(a)), order@));
        Ok(AuditRecordPage { items: page_items, total, page, page_size: limit })
    }
}

} // verus!
