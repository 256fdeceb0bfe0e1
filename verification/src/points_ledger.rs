//! The in-memory point ledger: idempotent appends, and balances that are the running sums
//! of the entries recorded on each account.
use vstd::prelude::*;
use crate::points::{
    point_fails_with, same_ledger_payload, signed_amount, signed_delta, signed_fits,
    ensure_idempotent_replay, ledger_conflict_message, AppendPointLedgerCommand,
    GamePointBalance, GamePointError, GamePointLedgerEntry, GamePointResult,
};
use crate::search::{
    first_index, lemma_first_index, lemma_first_index_is, lemma_first_index_none,
    lemma_first_index_same,
};
use crate::text::{copy_opt, text_eq};

verus! {

/// A ledger entry with the tenant it belongs to.
#[derive(Debug, Clone, PartialEq, Eq)]
pub struct StoredLedger {
    pub tenant_id: String,
    pub item: GamePointLedgerEntry,
}

/// A balance with the tenant it belongs to.
#[derive(Debug, Clone, PartialEq, Eq)]
pub struct StoredBalance {
    pub tenant_id: String,
    pub item: GamePointBalance,
}

/// A point ledger held in memory.
pub struct InMemoryGamePointRepository {
    ledgers: Vec<StoredLedger>,
    balances: Vec<StoredBalance>,
}

/// The entry of `tenant` stored under idempotency key `key`.
pub open spec fn key_owner(tenant: Seq<char>, key: Seq<char>) -> spec_fn(StoredLedger) -> bool {
    |l: StoredLedger| l.tenant_id@ == tenant && l.item.idempotency_key@ == key
}

/// The balance of ledger account `account` of `tenant`.
pub open spec fn account_owner(tenant: Seq<char>, account: Seq<char>) -> spec_fn(StoredBalance) -> bool {
    |b: StoredBalance| b.tenant_id@ == tenant && b.item.ledger_account_id@ == account
}

/// The points an account holds: those of its balance, or zero when it has none.
pub open spec fn current_points(b: Seq<StoredBalance>, tenant: Seq<char>, account: Seq<char>) -> int {
    match first_index(b, account_owner(tenant, account)) {
        Some(k) => b[k].item.points as int,
        None => 0,
    }
}

/// The sum of the signed movements recorded on an account.
pub open spec fn ledger_total(l: Seq<StoredLedger>, tenant: Seq<char>, account: Seq<char>) -> int
    decreases l.len(),
{
    if l.len() == 0 {
        0
    } else {
        ledger_total(l.drop_last(), tenant, account) + if l.last().tenant_id@ == tenant
            && l.last().item.ledger_account_id@ == account {
            signed_amount(l.last().item.direction@, l.last().item.points_delta)
        } else {
            0
        }
    }
}

/// The ledger invariant: each balance is the sum of its account's movements, no account has
/// two balances, every account with a movement has a balance, and each entry records the
/// sum of its account's movements up to and including itself.
pub open spec fn balances_follow_ledger(l: Seq<StoredLedger>, b: Seq<StoredBalance>) -> bool {
    &&& forall|k: int|
        0 <= k < b.len() ==> (#[trigger] b[k]).item.points == ledger_total(
            l,
            b[k].tenant_id@,
            b[k].item.ledger_account_id@,
        )
    &&& forall|j: int, k: int|
        0 <= j < k < b.len() ==> !(b[j].tenant_id@ == b[k].tenant_id@
            && b[j].item.ledger_account_id@ == b[k].item.ledger_account_id@)
    &&& forall|i: int|
        0 <= i < l.len() ==> first_index(
            b,
            account_owner((#[trigger] l[i]).tenant_id@, l[i].item.ledger_account_id@),
        ) is Some
    &&& forall|i: int|
        0 <= i < l.len() ==> (#[trigger] l[i]).item.points_after == ledger_total(
            l.subrange(0, i + 1),
            l[i].tenant_id@,
            l[i].item.ledger_account_id@,
        )
}

/// The entry an append request records: its fields copied from the request, with the
/// given id and time, version 0 and the account's new balance.
pub open spec fn recorded_entry(
    e: GamePointLedgerEntry,
    c: AppendPointLedgerCommand,
    id: String,
    ts: String,
    after: int,
) -> bool {
    &&& e.id == id
    &&& e.ledger_account_id == c.ledger_account_id
    &&& e.game_id == c.game_id
    &&& e.mode_id == c.mode_id
    &&& e.season_id == c.season_id
    &&& e.user_id == c.user_id
    &&& e.direction == c.direction
    &&& e.points_delta == c.points_delta
    &&& e.points_after == after
    &&& e.source_event_id == c.source_event_id
    &&& e.reason_code == c.reason_code
    &&& e.idempotency_key == c.idempotency_key
    &&& e.created_at == ts
    &&& e.version == 0
}

/// A balance moved by a recorded entry: new points, last entry, time, and a version bump.
pub open spec fn moved_balance(old: GamePointBalance, new: GamePointBalance, e: GamePointLedgerEntry, ts: String) -> bool {
    &&& new.id == old.id
    &&& new.ledger_account_id == old.ledger_account_id
    &&& new.game_id == old.game_id
    &&& new.mode_id == old.mode_id
    &&& new.season_id == old.season_id
    &&& new.user_id == old.user_id
    &&& new.points == e.points_after
    &&& new.last_ledger_id == Some(e.id)
    &&& new.updated_at == ts
    &&& new.version == old.version + 1
}

/// The first balance of an account, opened by a recorded entry.
pub open spec fn opened_balance(new: GamePointBalance, c: AppendPointLedgerCommand, id: String, e: GamePointLedgerEntry, ts: String) -> bool {
    &&& new.id == id
    &&& new.ledger_account_id == c.ledger_account_id
    &&& new.game_id == c.game_id
    &&& new.mode_id == c.mode_id
    &&& new.season_id == c.season_id
    &&& new.user_id == c.user_id
    &&& new.points == e.points_after
    &&& new.last_ledger_id == Some(e.id)
    &&& new.updated_at == ts
    &&& new.version == 0
}

/// What an append does. A key already held by the tenant replays: the stored entry comes
/// back when the payload matches, a `conflict` otherwise, and nothing changes. A new key
/// records an entry on the account, whose points move by the signed amount, and opens the
/// account's balance or moves it.
pub open spec fn append_ledger_post(
    l0: Seq<StoredLedger>,
    b0: Seq<StoredBalance>,
    tenant: Seq<char>,
    c: AppendPointLedgerCommand,
    ledger_id: String,
    balance_id: String,
    ts: String,
    l1: Seq<StoredLedger>,
    b1: Seq<StoredBalance>,
    r: GamePointResult<GamePointLedgerEntry>,
) -> bool {
    match first_index(l0, key_owner(tenant, c.idempotency_key@)) {
        Some(i) => {
            &&& l1 == l0
            &&& b1 == b0
            &&& if same_ledger_payload(l0[i].item, c) {
                r == Ok::<GamePointLedgerEntry, GamePointError>(l0[i].item)
            } else {
                point_fails_with(r, "conflict"@, ledger_conflict_message())
            }
        },
        None => match r {
            Err(_) => false,
            Ok(e) => {
                &&& recorded_entry(
                    e,
                    c,
                    ledger_id,
                    ts,
                    current_points(b0, tenant, c.ledger_account_id@) + signed_amount(
                        c.direction@,
                        c.points_delta,
                    ),
                )
                &&& l1.len() == l0.len() + 1
                &&& l1.drop_last() == l0
                &&& l1.last().tenant_id@ == tenant
                &&& l1.last().item == e
                &&& match first_index(b0, account_owner(tenant, c.ledger_account_id@)) {
                    Some(k) => {
                        &&& b1.len() == b0.len()
                        &&& forall|m: int| 0 <= m < b0.len() && m != k ==> b1[m] == b0[m]
                        &&& b1[k].tenant_id == b0[k].tenant_id
                        &&& moved_balance(b0[k].item, b1[k].item, e, ts)
                    },
                    None => {
                        &&& b1.len() == b0.len() + 1
                        &&& b1.drop_last() == b0
                        &&& b1.last().tenant_id@ == tenant
                        &&& opened_balance(b1.last().item, c, balance_id, e, ts)
                    },
                }
            },
        },
    }
}

/// Whether an append keeps its arithmetic inside `i64`: the signed amount, the new
/// balance, and the balance's version bump.
pub open spec fn append_fits(l0: Seq<StoredLedger>, b0: Seq<StoredBalance>, tenant: Seq<char>, c: AppendPointLedgerCommand) -> bool {
    first_index(l0, key_owner(tenant, c.idempotency_key@)) is None ==> {
        &&& signed_fits(c)
        &&& i64::MIN <= current_points(b0, tenant, c.ledger_account_id@) + signed_amount(
            c.direction@,
            c.points_delta,
        ) <= i64::MAX
        &&& match first_index(b0, account_owner(tenant, c.ledger_account_id@)) {
            Some(k) => b0[k].item.version < i64::MAX,
            None => true,
        }
    }
}

/// A copy of a ledger entry.
pub fn copy_entry(e: &GamePointLedgerEntry) -> (r: GamePointLedgerEntry)
    ensures
        r == *e,
{
    GamePointLedgerEntry {
        id: e.id.clone(),
        ledger_account_id: e.ledger_account_id.clone(),
        game_id: e.game_id.clone(),
        mode_id: copy_opt(&e.mode_id),
        season_id: copy_opt(&e.season_id),
        user_id: e.user_id.clone(),
        direction: e.direction.clone(),
        points_delta: e.points_delta,
        points_after: e.points_after,
        source_event_id: e.source_event_id.clone(),
        reason_code: e.reason_code.clone(),
        idempotency_key: e.idempotency_key.clone(),
        created_at: e.created_at.clone(),
        version: e.version,
    }
}

/// A copy of a balance.
pub fn copy_balance(b: &GamePointBalance) -> (r: GamePointBalance)
    ensures
        r == *b,
{
    GamePointBalance {
        id: b.id.clone(),
        ledger_account_id: b.ledger_account_id.clone(),
        game_id: b.game_id.clone(),
        mode_id: copy_opt(&b.mode_id),
        season_id: copy_opt(&b.season_id),
        user_id: b.user_id.clone(),
        points: b.points,
        last_ledger_id: copy_opt(&b.last_ledger_id),
        updated_at: b.updated_at.clone(),
        version: b.version,
    }
}

/// A first index found in a prefix stays the first index of the longer sequence.
proof fn lemma_first_index_push<A>(s: Seq<A>, p: spec_fn(A) -> bool, x: A)
    ensures
        first_index(s, p) is Some ==> first_index(s.push(x), p) == first_index(s, p),
        first_index(s, p) is None ==> first_index(s.push(x), p) == if p(x) {
            Some(s.len() as int)
        } else {
            None::<int>
        },
{
    assert(s.push(x).drop_last() =~= s);
}

/// An account with no movement sums to zero.
proof fn lemma_total_zero(l: Seq<StoredLedger>, tenant: Seq<char>, account: Seq<char>)
    requires
        forall|i: int|
            0 <= i < l.len() ==> !((#[trigger] l[i]).tenant_id@ == tenant
                && l[i].item.ledger_account_id@ == account),
    ensures
        ledger_total(l, tenant, account) == 0,
    decreases l.len(),
{
    if l.len() > 0 {
        let t = l.drop_last();
        assert forall|i: int|
            0 <= i < t.len() implies !((#[trigger] t[i]).tenant_id@ == tenant
            && t[i].item.ledger_account_id@ == account) by {
            assert(t[i] == l[i]);
        }
        lemma_total_zero(t, tenant, account);
        assert(l.last() == l[l.len() - 1]);
    }
}

/// Under the invariant, the points of an account are the sum of its movements.
proof fn lemma_current_is_total(l: Seq<StoredLedger>, b: Seq<StoredBalance>, tenant: Seq<char>, account: Seq<char>)
    requires
        balances_follow_ledger(l, b),
    ensures
        current_points(b, tenant, account) == ledger_total(l, tenant, account),
{
    let p = account_owner(tenant, account);
    lemma_first_index(b, p);
    match first_index(b, p) {
        Some(k) => {
            assert(b[k].item.points == ledger_total(l, b[k].tenant_id@, b[k].item.ledger_account_id@));
        },
        None => {
            assert forall|i: int|
                0 <= i < l.len() implies !((#[trigger] l[i]).tenant_id@ == tenant
                && l[i].item.ledger_account_id@ == account) by {
                if l[i].tenant_id@ == tenant && l[i].item.ledger_account_id@ == account {
                    assert(first_index(
                        b,
                        account_owner(l[i].tenant_id@, l[i].item.ledger_account_id@),
                    ) is Some);
                    assert(account_owner(l[i].tenant_id@, l[i].item.ledger_account_id@) == p);
                }
            }
            lemma_total_zero(l, tenant, account);
        },
    }
}

/// Every append keeps each balance equal to the sum of the movements recorded on its
/// account, and each entry equal to the running sum up to itself.
pub proof fn law_append_keeps_balances_summed(
    l0: Seq<StoredLedger>,
    b0: Seq<StoredBalance>,
    tenant: Seq<char>,
    c: AppendPointLedgerCommand,
    ledger_id: String,
    balance_id: String,
    ts: String,
    l1: Seq<StoredLedger>,
    b1: Seq<StoredBalance>,
    r: GamePointResult<GamePointLedgerEntry>,
)
    requires
        balances_follow_ledger(l0, b0),
        append_ledger_post(l0, b0, tenant, c, ledger_id, balance_id, ts, l1, b1, r),
    ensures
        balances_follow_ledger(l1, b1),
{
    if first_index(l0, key_owner(tenant, c.idempotency_key@)) is None {
        let e = r->Ok_0;
        let account = c.ledger_account_id@;
        let s = signed_amount(c.direction@, c.points_delta);
        let x = l1.last();
        assert(l1 =~= l0.push(x));
        lemma_current_is_total(l0, b0, tenant, account);
        assert(x.item.ledger_account_id@ == account);
        assert(x.item.direction@ == c.direction@);
        // Totals move only on the appended account.
        assert forall|t: Seq<char>, a: Seq<char>|
            ledger_total(l1, t, a) == ledger_total(l0, t, a) + if t == tenant && a == account {
                s
            } else {
                0
            } by {
            assert(l1.drop_last() == l0);
        }
        let p = account_owner(tenant, account);
        lemma_first_index(b0, p);
        match first_index(b0, p) {
            Some(k) => {
                assert forall|m: int| 0 <= m < b1.len() implies (#[trigger] b1[m]).item.points
                    == ledger_total(l1, b1[m].tenant_id@, b1[m].item.ledger_account_id@) by {
                    if m != k {
                        assert(b1[m] == b0[m]);
                        if m < k {
                            assert(!(b0[m].tenant_id@ == b0[k].tenant_id@
                                && b0[m].item.ledger_account_id@ == b0[k].item.ledger_account_id@));
                        } else {
                            assert(!(b0[k].tenant_id@ == b0[m].tenant_id@
                                && b0[k].item.ledger_account_id@ == b0[m].item.ledger_account_id@));
                        }
                    }
                }
                assert forall|j: int, m: int|
                    0 <= j < m < b1.len() implies !(b1[j].tenant_id@ == b1[m].tenant_id@
                    && b1[j].item.ledger_account_id@ == b1[m].item.ledger_account_id@) by {
                    assert(b1[j].tenant_id@ == b0[j].tenant_id@);
                    assert(b1[m].tenant_id@ == b0[m].tenant_id@);
                    assert(b1[j].item.ledger_account_id@ == b0[j].item.ledger_account_id@);
                    assert(b1[m].item.ledger_account_id@ == b0[m].item.ledger_account_id@);
                }
                assert forall|i: int| 0 <= i < l1.len() implies first_index(
                    b1,
                    account_owner((#[trigger] l1[i]).tenant_id@, l1[i].item.ledger_account_id@),
                ) is Some by {
                    let q = account_owner(l1[i].tenant_id@, l1[i].item.ledger_account_id@);
                    assert forall|j: int| 0 <= j < b0.len() implies q(b0[j]) == q(b1[j]) by {
                        assert(b1[j].tenant_id@ == b0[j].tenant_id@);
                        assert(b1[j].item.ledger_account_id@ == b0[j].item.ledger_account_id@);
                    }
                    lemma_first_index_same(b0, q, b1, q);
                    if i < l0.len() {
                        assert(l1[i] == l0[i]);
                    } else {
                        assert(l1[i] == x);
                        assert(q == p);
                    }
                }
            },
            None => {
                let y = b1.last();
                assert(b1 =~= b0.push(y));
                assert(y.item.ledger_account_id@ == account);
                assert forall|m: int| 0 <= m < b1.len() implies (#[trigger] b1[m]).item.points
                    == ledger_total(l1, b1[m].tenant_id@, b1[m].item.ledger_account_id@) by {
                    if m < b0.len() {
                        assert(b1[m] == b0[m]);
                        assert(!p(b0[m]));
                    } else {
                        assert(b1[m] == y);
                    }
                }
                assert forall|j: int, m: int|
                    0 <= j < m < b1.len() implies !(b1[j].tenant_id@ == b1[m].tenant_id@
                    && b1[j].item.ledger_account_id@ == b1[m].item.ledger_account_id@) by {
                    assert(b1[j] == b0[j]);
                    if m == b0.len() {
                        assert(b1[m] == y);
                        assert(!p(b0[j]));
                    } else {
                        assert(b1[m] == b0[m]);
                    }
                }
                assert forall|i: int| 0 <= i < l1.len() implies first_index(
                    b1,
                    account_owner((#[trigger] l1[i]).tenant_id@, l1[i].item.ledger_account_id@),
                ) is Some by {
                    let q = account_owner(l1[i].tenant_id@, l1[i].item.ledger_account_id@);
                    lemma_first_index_push(b0, q, y);
                    if i < l0.len() {
                        assert(l1[i] == l0[i]);
                    } else {
                        assert(l1[i] == x);
                        assert(q(y));
                    }
                }
            },
        }
        assert forall|i: int| 0 <= i < l1.len() implies (#[trigger] l1[i]).item.points_after
            == ledger_total(l1.subrange(0, i + 1), l1[i].tenant_id@, l1[i].item.ledger_account_id@) by {
            if i < l0.len() {
                assert(l1[i] == l0[i]);
                assert(l1.subrange(0, i + 1) =~= l0.subrange(0, i + 1));
            } else {
                assert(l1.subrange(0, i + 1) =~= l1);
            }
        }
    }
}

/// An append for one tenant leaves the balances of every other tenant as they were:
/// the same balance is found for each of their accounts.
pub proof fn law_append_leaves_other_tenants_alone(
    l0: Seq<StoredLedger>,
    b0: Seq<StoredBalance>,
    tenant: Seq<char>,
    c: AppendPointLedgerCommand,
    ledger_id: String,
    balance_id: String,
    ts: String,
    l1: Seq<StoredLedger>,
    b1: Seq<StoredBalance>,
    r: GamePointResult<GamePointLedgerEntry>,
    other: Seq<char>,
    account: Seq<char>,
)
    requires
        append_ledger_post(l0, b0, tenant, c, ledger_id, balance_id, ts, l1, b1, r),
        other != tenant,
    ensures
        first_index(b1, account_owner(other, account)) == first_index(b0, account_owner(other, account)),
        match first_index(b0, account_owner(other, account)) {
            Some(k) => b1[k] == b0[k],
            None => true,
        },
{
    let q = account_owner(other, account);
    lemma_first_index(b0, q);
    if first_index(l0, key_owner(tenant, c.idempotency_key@)) is None {
        let p = account_owner(tenant, c.ledger_account_id@);
        match first_index(b0, p) {
            Some(k) => {
                lemma_first_index(b0, p);
                assert forall|j: int| 0 <= j < b0.len() implies q(b0[j]) == q(b1[j]) by {
                    if j != k {
                        assert(b1[j] == b0[j]);
                    } else {
                        assert(b1[j].tenant_id == b0[j].tenant_id);
                    }
                }
                lemma_first_index_same(b0, q, b1, q);
                if let Some(m) = first_index(b0, q) {
                    if m == k {
                        assert(b0[k].tenant_id@ == tenant);
                    }
                }
            },
            None => {
                let y = b1.last();
                assert(b1 =~= b0.push(y));
                lemma_first_index_push(b0, q, y);
            },
        }
    }
}

/// The position of the latest entry recorded on account `account` of `tenant`, if any.
pub open spec fn latest_entry(l: Seq<StoredLedger>, tenant: Seq<char>, account: Seq<char>) -> Option<int>
    decreases l.len(),
{
    if l.len() == 0 {
        None
    } else if l.last().tenant_id@ == tenant && l.last().item.ledger_account_id@ == account {
        Some(l.len() - 1)
    } else {
        latest_entry(l.drop_last(), tenant, account)
    }
}

/// Each balance belongs to an account with an entry, and names its latest entry.
pub open spec fn balances_name_latest(l: Seq<StoredLedger>, b: Seq<StoredBalance>) -> bool {
    forall|k: int|
        0 <= k < b.len() ==> match latest_entry(l, (#[trigger] b[k]).tenant_id@, b[k].item.ledger_account_id@) {
            Some(i) => b[k].item.last_ledger_id == Some(l[i].item.id),
            None => false,
        }
}

/// `latest_entry` is an entry of the account, and no later one is.
proof fn lemma_latest_entry(l: Seq<StoredLedger>, tenant: Seq<char>, account: Seq<char>)
    ensures
        match latest_entry(l, tenant, account) {
            Some(i) => 0 <= i < l.len() && l[i].tenant_id@ == tenant && l[i].item.ledger_account_id@ == account
                && forall|j: int| i < j < l.len() ==> !((#[trigger] l[j]).tenant_id@ == tenant
                    && l[j].item.ledger_account_id@ == account),
            None => forall|j: int| 0 <= j < l.len() ==> !((#[trigger] l[j]).tenant_id@ == tenant
                && l[j].item.ledger_account_id@ == account),
        },
    decreases l.len(),
{
    if l.len() > 0 {
        let t = l.drop_last();
        lemma_latest_entry(t, tenant, account);
        assert forall|j: int| 0 <= j < t.len() implies #[trigger] l[j] == t[j] by {}
        assert(l[l.len() - 1] == l.last());
    }
}

/// An append keeps every balance naming the latest entry of its account: the balance it
/// opens or moves names the new entry, and the others keep theirs.
pub proof fn law_append_keeps_latest_entry_named(
    l0: Seq<StoredLedger>,
    b0: Seq<StoredBalance>,
    tenant: Seq<char>,
    c: AppendPointLedgerCommand,
    ledger_id: String,
    balance_id: String,
    ts: String,
    l1: Seq<StoredLedger>,
    b1: Seq<StoredBalance>,
    r: GamePointResult<GamePointLedgerEntry>,
)
    requires
        balances_follow_ledger(l0, b0),
        balances_name_latest(l0, b0),
        append_ledger_post(l0, b0, tenant, c, ledger_id, balance_id, ts, l1, b1, r),
    ensures
        balances_name_latest(l1, b1),
{
    if first_index(l0, key_owner(tenant, c.idempotency_key@)) is None {
        let e = r->Ok_0;
        let acct = c.ledger_account_id@;
        let n = l0.len() as int;
        assert(l1[n] == l1.last());
        let p = account_owner(tenant, acct);
        lemma_first_index(b0, p);
        assert forall|k: int| 0 <= k < b1.len() implies match latest_entry(
            l1,
            (#[trigger] b1[k]).tenant_id@,
            b1[k].item.ledger_account_id@,
        ) {
            Some(i) => b1[k].item.last_ledger_id == Some(l1[i].item.id),
            None => false,
        } by {
            let fresh = match first_index(b0, p) {
                Some(k0) => k == k0,
                None => k == b0.len(),
            };
            if fresh {
                if first_index(b0, p) is None {
                    assert(b1[k] == b1.last());
                }
            } else {
                if first_index(b0, p) is None {
                    assert(b1[k] == b1.drop_last()[k]);
                }
                assert(b1[k] == b0[k]);
                if let Some(k0) = first_index(b0, p) {
                    if k < k0 {
                        assert(!p(b0[k]));
                    } else {
                        assert(!(b0[k0].tenant_id@ == b0[k].tenant_id@
                            && b0[k0].item.ledger_account_id@ == b0[k].item.ledger_account_id@));
                    }
                }
                assert(!(b0[k].tenant_id@ == tenant && b0[k].item.ledger_account_id@ == acct));
                assert(l1.drop_last() == l0);
                let i0 = latest_entry(l0, b0[k].tenant_id@, b0[k].item.ledger_account_id@)->Some_0;
                lemma_latest_entry(l0, b0[k].tenant_id@, b0[k].item.ledger_account_id@);
                assert(l1[i0] == l0[i0]);
            }
        }
    }
}

/// In a ledger kept by appends, an account has a balance exactly when an entry has been
/// recorded on it.
pub proof fn law_balance_exists_with_an_entry(
    l: Seq<StoredLedger>,
    b: Seq<StoredBalance>,
    tenant: Seq<char>,
    account: Seq<char>,
)
    requires
        balances_follow_ledger(l, b),
        balances_name_latest(l, b),
    ensures
        (first_index(b, account_owner(tenant, account)) is Some) == (latest_entry(l, tenant, account) is Some),
{
    lemma_latest_entry(l, tenant, account);
    lemma_first_index(b, account_owner(tenant, account));
    if let Some(i) = latest_entry(l, tenant, account) {
        assert(first_index(b, account_owner(l[i].tenant_id@, l[i].item.ledger_account_id@)) is Some);
    }
    if let Some(k) = first_index(b, account_owner(tenant, account)) {
        assert(latest_entry(l, b[k].tenant_id@, b[k].item.ledger_account_id@) is Some);
    }
}

/// A replayed append returns the entry the first append recorded, and changes nothing.
pub proof fn law_replayed_append_changes_nothing(
    l0: Seq<StoredLedger>,
    b0: Seq<StoredBalance>,
    tenant: Seq<char>,
    c: AppendPointLedgerCommand,
    ledger_id: String,
    balance_id: String,
    ts: String,
    l1: Seq<StoredLedger>,
    b1: Seq<StoredBalance>,
    r1: GamePointResult<GamePointLedgerEntry>,
    ledger_id2: String,
    balance_id2: String,
    ts2: String,
    l2: Seq<StoredLedger>,
    b2: Seq<StoredBalance>,
    r2: GamePointResult<GamePointLedgerEntry>,
)
    requires
        append_ledger_post(l0, b0, tenant, c, ledger_id, balance_id, ts, l1, b1, r1),
        r1 is Ok,
        append_ledger_post(l1, b1, tenant, c, ledger_id2, balance_id2, ts2, l2, b2, r2),
    ensures
        l2 == l1,
        b2 == b1,
        r2 == r1,
{
    let p = key_owner(tenant, c.idempotency_key@);
    if first_index(l0, p) is None {
        lemma_first_index(l0, p);
        let x = l1.last();
        assert(l1 =~= l0.push(x));
        assert forall|j: int| 0 <= j < l0.len() implies !p(#[trigger] l1[j]) by {
            assert(l1[j] == l0[j]);
        }
        assert(p(l1[l0.len() as int]));
        lemma_first_index_is(l1, p, l0.len() as int);
        assert(same_ledger_payload(l1[l0.len() as int].item, c));
    }
}

impl InMemoryGamePointRepository {
    /// The stored entries, in the order they were recorded.
    pub closed spec fn ledger_records(&self) -> Seq<StoredLedger> {
        self.ledgers@
    }

    /// The stored balances.
    pub closed spec fn balance_records(&self) -> Seq<StoredBalance> {
        self.balances@
    }

    /// An empty ledger.
    pub fn new() -> (r: Self)
        ensures
            r.ledger_records().len() == 0,
            r.balance_records().len() == 0,
            balances_follow_ledger(r.ledger_records(), r.balance_records()),
    {
        InMemoryGamePointRepository { ledgers: Vec::new(), balances: Vec::new() }
    }

    /// The position of the entry that `tenant_id` stored under `key`.
    fn find_ledger(&self, tenant_id: &str, key: &str) -> (r: Option<usize>)
        ensures
            match r {
                Some(i) => i < self.ledgers@.len() && first_index(self.ledgers@, key_owner(tenant_id@, key@)) == Some(i as int),
                None => first_index(self.ledgers@, key_owner(tenant_id@, key@)) is None,
            },
    {
        let ghost p = key_owner(tenant_id@, key@);
        let n = self.ledgers.len();
        let mut i: usize = 0;
        while i < n
            invariant
                n == self.ledgers@.len(),
                i <= n,
                p == key_owner(tenant_id@, key@),
                forall|j: int| 0 <= j < i ==> !p(#[trigger] self.ledgers@[j]),
            decreases n - i,
        {
            let stored = &self.ledgers[i];
            if text_eq(stored.tenant_id.as_str(), tenant_id) && text_eq(
                stored.item.idempotency_key.as_str(),
                key,
            ) {
                proof {
                    lemma_first_index_is(self.ledgers@, p, i as int);
                }
                return Some(i);
            }
            i = i + 1;
        }
        proof {
            lemma_first_index_none(self.ledgers@, p);
        }
        None
    }

    /// The position of the balance of `tenant_id`'s ledger account `account`.
    fn find_balance(&self, tenant_id: &str, account: &str) -> (r: Option<usize>)
        ensures
            match r {
                Some(k) => k < self.balances@.len() && first_index(self.balances@, account_owner(tenant_id@, account@)) == Some(k as int),
                None => first_index(self.balances@, account_owner(tenant_id@, account@)) is None,
            },
    {
        let ghost p = account_owner(tenant_id@, account@);
        let n = self.balances.len();
        let mut k: usize = 0;
        while k < n
            invariant
                n == self.balances@.len(),
                k <= n,
                p == account_owner(tenant_id@, account@),
                forall|j: int| 0 <= j < k ==> !p(#[trigger] self.balances@[j]),
            decreases n - k,
        {
            let stored = &self.balances[k];
            if text_eq(stored.tenant_id.as_str(), tenant_id) && text_eq(
                stored.item.ledger_account_id.as_str(),
                account,
            ) {
                proof {
                    lemma_first_index_is(self.balances@, p, k as int);
                }
                return Some(k);
            }
            k = k + 1;
        }
        proof {
            lemma_first_index_none(self.balances@, p);
        }
        None
    }

    /// Appends a movement for `tenant_id`, idempotently by the request's key. The new
    /// entry takes `ledger_id` and `timestamp`; an account's first balance takes
    /// `balance_id`.
    pub fn append_ledger(
        &mut self,
        tenant_id: &str,
        command: &AppendPointLedgerCommand,
        ledger_id: String,
        balance_id: String,
        timestamp: String,
    ) -> (r: GamePointResult<GamePointLedgerEntry>)
        requires
            append_fits(old(self).ledger_records(), old(self).balance_records(), tenant_id@, *command),
        ensures
            append_ledger_post(
                old(self).ledger_records(),
                old(self).balance_records(),
                tenant_id@,
                *command,
                ledger_id,
                balance_id,
                timestamp,
                final(self).ledger_records(),
                final(self).balance_records(),
                r,
            ),
            balances_follow_ledger(old(self).ledger_records(), old(self).balance_records())
                ==> balances_follow_ledger(final(self).ledger_records(), final(self).balance_records()),
    {
        let ghost l0 = self.ledgers@;
        let ghost b0 = self.balances@;
        if let Some(i) = self.find_ledger(tenant_id, command.idempotency_key.as_str()) {
            let existing = &self.ledgers[i].item;
            match ensure_idempotent_replay(existing, command) {
                Err(e) => {
                    return Err(e);
                },
                Ok(()) => {},
            }
            return Ok(copy_entry(existing));
        }
        let signed = signed_delta(command);
        let balance_index = self.find_balance(tenant_id, command.ledger_account_id.as_str());
        let current: i64 = match balance_index {
            Some(k) => self.balances[k].item.points,
            None => 0,
        };
        let points_after = current + signed;
        let entry = GamePointLedgerEntry {
            id: ledger_id,
            ledger_account_id: command.ledger_account_id.clone(),
            game_id: command.game_id.clone(),
            mode_id: copy_opt(&command.mode_id),
            season_id: copy_opt(&command.season_id),
            user_id: command.user_id.clone(),
            direction: command.direction.clone(),
            points_delta: command.points_delta,
            points_after,
            source_event_id: command.source_event_id.clone(),
            reason_code: command.reason_code.clone(),
            idempotency_key: command.idempotency_key.clone(),
            created_at: timestamp.clone(),
            version: 0,
        };
        match balance_index {
            Some(k) => {
                let old = &self.balances[k];
                let moved = StoredBalance {
                    tenant_id: old.tenant_id.clone(),
                    item: GamePointBalance {
                        id: old.item.id.clone(),
                        ledger_account_id: old.item.ledger_account_id.clone(),
                        game_id: old.item.game_id.clone(),
                        mode_id: copy_opt(&old.item.mode_id),
                        season_id: copy_opt(&old.item.season_id),
                        user_id: old.item.user_id.clone(),
                        points: points_after,
                        last_ledger_id: Some(entry.id.clone()),
                        updated_at: timestamp,
                        version: old.item.version + 1,
                    },
                };
                self.balances.set(k, moved);
            },
            None => {
                let opened = StoredBalance {
                    tenant_id: String::from_str(tenant_id),
                    item: GamePointBalance {
                        id: balance_id,
                        ledger_account_id: command.ledger_account_id.clone(),
                        game_id: command.game_id.clone(),
                        mode_id: copy_opt(&command.mode_id),
                        season_id: copy_opt(&command.season_id),
                        user_id: command.user_id.clone(),
                        points: points_after,
                        last_ledger_id: Some(entry.id.clone()),
                        updated_at: timestamp,
                        version: 0,
                    },
                };
                self.balances.push(opened);
            },
        }
        self.ledgers.push(StoredLedger { tenant_id: String::from_str(tenant_id), item: copy_entry(&entry) });
        proof {
            assert(self.ledgers@.drop_last() =~= l0);
            if balance_index is None {
                assert(self.balances@.drop_last() =~= b0);
            }
        }
        let r = Ok(entry);
        proof {
            if balances_follow_ledger(l0, b0) {
                law_append_keeps_balances_summed(
                    l0,
                    b0,
                    tenant_id@,
                    *command,
                    ledger_id,
                    balance_id,
                    timestamp,
                    self.ledgers@,
                    self.balances@,
                    r,
                );
            }
        }
        r
    }

    /// Whether an append for `tenant_id` keeps its arithmetic inside `i64`.
    pub fn append_in_range(&self, tenant_id: &str, command: &AppendPointLedgerCommand) -> (r: bool)
        ensures
            r == append_fits(self.ledger_records(), self.balance_records(), tenant_id@, *command),
    {
        if self.find_ledger(tenant_id, command.idempotency_key.as_str()).is_some() {
            return true;
        }
        let debit = text_eq(command.direction.as_str(), "debit");
        if debit && command.points_delta == i64::MIN {
            return false;
        }
        let signed = signed_delta(command);
        match self.find_balance(tenant_id, command.ledger_account_id.as_str()) {
            Some(k) => {
                let points = self.balances[k].item.points;
                points.checked_add(signed).is_some() && self.balances[k].item.version < i64::MAX
            },
            None => true,
        }
    }

    /// The balance of `tenant_id`'s ledger account, or `not_found`.
    pub fn get_balance(&self, tenant_id: &str, ledger_account_id: &str) -> (r: GamePointResult<GamePointBalance>)
        ensures
            match first_index(self.balance_records(), account_owner(tenant_id@, ledger_account_id@)) {
                Some(k) => 0 <= k < self.balance_records().len() && r == Ok::<GamePointBalance, GamePointError>(self.balance_records()[k].item),
                None => point_fails_with(r, "not_found"@, "point balance not found"@),
            },
    {
        match self.find_balance(tenant_id, ledger_account_id) {
            Some(k) => Ok(copy_balance(&self.balances[k].item)),
            None => Err(GamePointError::not_found("point balance not found")),
        }
    }
}

} // verus!
