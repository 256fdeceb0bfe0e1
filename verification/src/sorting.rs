//! Stable ordering of listing results by composite sort keys.
//!
//! A sort key is a sequence of parts, each a text or a number, ascending or descending.
//! Texts compare character by character by code point (the order of `str`'s `Ord`, since
//! UTF-8 preserves code point order); keys compare part by part. A stable sort orders
//! items by key and keeps items with equal keys in the order they came in, which is the
//! strict order "smaller key, or equal key and smaller position".
use vstd::prelude::*;
use crate::paging::{page_limit, page_offset, page_window};

verus! {

/// The value of one sort key part.
#[derive(Debug, Clone, PartialEq, Eq)]
pub enum SortValue {
    Text(String),
    Number(i64),
}

/// One part of a sort key.
#[derive(Debug, Clone, PartialEq, Eq)]
pub struct SortPart {
    pub value: SortValue,
    pub descending: bool,
}

/// Three-way comparison of texts, by code point, a proper prefix first.
pub open spec fn text_order(a: Seq<char>, b: Seq<char>) -> int
    decreases a.len(),
{
    if a.len() == 0 {
        if b.len() == 0 {
            0
        } else {
            -1
        }
    } else if b.len() == 0 {
        1
    } else if a[0] < b[0] {
        -1
    } else if a[0] > b[0] {
        1
    } else {
        text_order(a.drop_first(), b.drop_first())
    }
}

/// Three-way comparison of values: numbers before texts.
pub open spec fn value_order(a: SortValue, b: SortValue) -> int {
    match (a, b) {
        (SortValue::Text(x), SortValue::Text(y)) => text_order(x@, y@),
        (SortValue::Number(x), SortValue::Number(y)) => if x < y {
            -1
        } else if x > y {
            1
        } else {
            0
        },
        (SortValue::Number(_), SortValue::Text(_)) => -1,
        (SortValue::Text(_), SortValue::Number(_)) => 1,
    }
}

/// Three-way comparison of key parts, reversed for descending parts.
pub open spec fn part_order(a: SortPart, b: SortPart) -> int {
    if a.descending != b.descending {
        if a.descending {
            1
        } else {
            -1
        }
    } else if a.descending {
        -value_order(a.value, b.value)
    } else {
        value_order(a.value, b.value)
    }
}

/// Three-way lexicographic comparison of keys.
pub open spec fn key_order(a: Seq<SortPart>, b: Seq<SortPart>) -> int
    decreases a.len(),
{
    if a.len() == 0 {
        if b.len() == 0 {
            0
        } else {
            -1
        }
    } else if b.len() == 0 {
        1
    } else if part_order(a[0], b[0]) != 0 {
        part_order(a[0], b[0])
    } else {
        key_order(a.drop_first(), b.drop_first())
    }
}

/// Two values are the same for ordering purposes.
pub open spec fn same_value(a: SortValue, b: SortValue) -> bool {
    match (a, b) {
        (SortValue::Text(x), SortValue::Text(y)) => x@ == y@,
        (SortValue::Number(x), SortValue::Number(y)) => x == y,
        _ => false,
    }
}

/// Two keys are the same for ordering purposes.
pub open spec fn same_key(a: Seq<SortPart>, b: Seq<SortPart>) -> bool {
    a.len() == b.len() && forall|i: int|
        0 <= i < a.len() ==> same_value(#[trigger] a[i].value, b[i].value) && a[i].descending
            == b[i].descending
}

proof fn lemma_text_order(a: Seq<char>, b: Seq<char>, c: Seq<char>)
    ensures
        -1 <= text_order(a, b) <= 1,
        text_order(a, b) == -text_order(b, a),
        text_order(a, b) == 0 <==> a == b,
        text_order(a, b) < 0 && text_order(b, c) < 0 ==> text_order(a, c) < 0,
    decreases a.len(),
{
    if a.len() > 0 && b.len() > 0 {
        lemma_text_order(a.drop_first(), b.drop_first(), c.drop_first());
        if a[0] == b[0] && a.drop_first() =~= b.drop_first() {
            assert forall|i: int| 0 <= i < a.len() implies a[i] == b[i] by {
                if i > 0 {
                    assert(a[i] == a.drop_first()[i - 1]);
                    assert(b[i] == b.drop_first()[i - 1]);
                }
            }
            assert(a =~= b);
        }
        if a == b {
            assert(a.drop_first() =~= b.drop_first());
        }
        if text_order(a, b) < 0 && text_order(b, c) < 0 && c.len() > 0 {
            if a[0] == b[0] && b[0] == c[0] {
                assert(text_order(a.drop_first(), b.drop_first()) < 0);
            }
        }
    } else if a.len() == 0 && b.len() == 0 {
        assert(a =~= b);
    }
}

proof fn lemma_value_order(a: SortValue, b: SortValue, c: SortValue)
    ensures
        -1 <= value_order(a, b) <= 1,
        value_order(a, b) == -value_order(b, a),
        value_order(a, b) == 0 <==> same_value(a, b),
        value_order(a, b) < 0 && value_order(b, c) < 0 ==> value_order(a, c) < 0,
        value_order(a, b) > 0 && value_order(b, c) > 0 ==> value_order(a, c) > 0,
        same_value(a, b) ==> value_order(a, c) == value_order(b, c),
{
    match (a, b, c) {
        (SortValue::Text(x), SortValue::Text(y), SortValue::Text(z)) => {
            lemma_text_order(x@, y@, z@);
            lemma_text_order(z@, y@, x@);
            lemma_text_order(x@, z@, y@);
            lemma_text_order(y@, x@, z@);
        },
        (SortValue::Text(x), SortValue::Text(y), _) => {
            lemma_text_order(x@, y@, y@);
        },
        _ => {},
    }
}

proof fn lemma_part_order(a: SortPart, b: SortPart, c: SortPart)
    ensures
        -1 <= part_order(a, b) <= 1,
        part_order(a, b) == -part_order(b, a),
        part_order(a, b) == 0 <==> (same_value(a.value, b.value) && a.descending == b.descending),
        part_order(a, b) < 0 && part_order(b, c) < 0 ==> part_order(a, c) < 0,
        part_order(a, b) == 0 ==> part_order(a, c) == part_order(b, c),
{
    lemma_value_order(a.value, b.value, c.value);
}

proof fn lemma_key_order(a: Seq<SortPart>, b: Seq<SortPart>, c: Seq<SortPart>)
    ensures
        -1 <= key_order(a, b) <= 1,
        key_order(a, b) == -key_order(b, a),
        key_order(a, b) == 0 <==> same_key(a, b),
        key_order(a, b) < 0 && key_order(b, c) < 0 ==> key_order(a, c) < 0,
        key_order(a, b) == 0 ==> key_order(a, c) == key_order(b, c),
    decreases a.len(),
{
    if a.len() > 0 && b.len() > 0 {
        lemma_key_order(a.drop_first(), b.drop_first(), c.drop_first());
        lemma_part_order(a[0], b[0], b[0]);
        if c.len() > 0 {
            lemma_part_order(a[0], b[0], c[0]);
            lemma_part_order(b[0], c[0], a[0]);
            lemma_part_order(a[0], c[0], b[0]);
        }
        if same_key(a, b) {
            assert(same_key(a.drop_first(), b.drop_first())) by {
                assert forall|i: int| 0 <= i < a.drop_first().len() implies same_value(
                    #[trigger] a.drop_first()[i].value,
                    b.drop_first()[i].value,
                ) && a.drop_first()[i].descending == b.drop_first()[i].descending by {
                    assert(a.drop_first()[i] == a[i + 1]);
                    assert(b.drop_first()[i] == b[i + 1]);
                }
            }
            assert(same_value(a[0].value, b[0].value));
        }
        if part_order(a[0], b[0]) == 0 && same_key(a.drop_first(), b.drop_first()) {
            assert forall|i: int| 0 <= i < a.len() implies same_value(
                #[trigger] a[i].value,
                b[i].value,
            ) && a[i].descending == b[i].descending by {
                if i > 0 {
                    assert(a[i] == a.drop_first()[i - 1]);
                    assert(b[i] == b.drop_first()[i - 1]);
                }
            }
        }
    }
}

/// Whether item `i` comes before item `j` in the stable order of `keys`.
pub open spec fn before(keys: Seq<Seq<SortPart>>, i: int, j: int) -> bool {
    key_order(keys[i], keys[j]) < 0 || (key_order(keys[i], keys[j]) == 0 && i < j)
}

/// Whether `order` lists the positions of `keys` in their stable order: each position
/// once, and each before the next.
pub open spec fn stable_order(keys: Seq<Seq<SortPart>>, order: Seq<usize>) -> bool {
    &&& order.len() == keys.len()
    &&& forall|k: int| 0 <= k < order.len() ==> (#[trigger] order[k]) < keys.len()
    &&& forall|i: int| 0 <= i < keys.len() ==> #[trigger] order.contains(i as usize)
    &&& forall|a: int, b: int|
        0 <= a < b < order.len() ==> before(keys, #[trigger] order[a] as int, #[trigger] order[b] as int)
}

/// `before` is a strict order: never both ways.
proof fn lemma_before_asymmetric(keys: Seq<Seq<SortPart>>, x: int, y: int)
    ensures
        !(before(keys, x, y) && before(keys, y, x)),
{
    lemma_key_order(keys[x], keys[y], keys[y]);
}

/// Two stable orders of the same keys agree on their first `k` positions.
proof fn lemma_orders_agree(keys: Seq<Seq<SortPart>>, o1: Seq<usize>, o2: Seq<usize>, k: int)
    requires
        stable_order(keys, o1),
        stable_order(keys, o2),
        0 <= k <= o1.len(),
    ensures
        forall|j: int| 0 <= j < k ==> o1[j] == o2[j],
    decreases k,
{
    if k > 0 {
        lemma_orders_agree(keys, o1, o2, k - 1);
        let c = k - 1;
        let x = o1[c];
        let y = o2[c];
        if x != y {
            let yi: int = y as int;
            assert(0 <= yi < keys.len());
            assert(o1.contains(yi as usize));
            let p = choose|p: int| 0 <= p < o1.len() && o1[p] == y;
            let xi: int = x as int;
            assert(0 <= xi < keys.len());
            assert(o2.contains(xi as usize));
            let q = choose|q: int| 0 <= q < o2.len() && o2[q] == x;
            if p < c {
                assert(o2[p] == y);
                assert(before(keys, o2[p] as int, o2[c] as int));
                lemma_before_asymmetric(keys, y as int, y as int);
            } else if q < c {
                assert(o1[q] == x);
                assert(before(keys, o1[q] as int, o1[c] as int));
                lemma_before_asymmetric(keys, x as int, x as int);
            } else {
                assert(p != c && q != c);
                assert(before(keys, o1[c] as int, o1[p] as int));
                assert(before(keys, o2[c] as int, o2[q] as int));
                lemma_before_asymmetric(keys, x as int, y as int);
            }
        }
    }
}

/// A stable order lists each position once.
pub proof fn lemma_stable_order_distinct(keys: Seq<Seq<SortPart>>, o: Seq<usize>)
    requires
        stable_order(keys, o),
    ensures
        forall|a: int, b: int| 0 <= a < o.len() && 0 <= b < o.len() && a != b ==> o[a] != o[b],
{
    assert forall|a: int, b: int| 0 <= a < o.len() && 0 <= b < o.len() && a != b implies o[a] != o[b] by {
        if a < b {
            assert(before(keys, o[a] as int, o[b] as int));
        } else {
            assert(before(keys, o[b] as int, o[a] as int));
        }
        lemma_before_asymmetric(keys, o[a] as int, o[a] as int);
    }
}

/// In a stable order, a position with a smaller key is listed earlier.
pub proof fn lemma_smaller_key_listed_first(keys: Seq<Seq<SortPart>>, o: Seq<usize>, a: int, b: int)
    requires
        stable_order(keys, o),
        0 <= a < o.len(),
        0 <= b < o.len(),
        key_order(keys[o[a] as int], keys[o[b] as int]) < 0,
    ensures
        a < b,
{
    if b < a {
        assert(before(keys, o[b] as int, o[a] as int));
        lemma_key_order(keys[o[a] as int], keys[o[b] as int], keys[o[b] as int]);
    } else if a == b {
        lemma_key_order(keys[o[a] as int], keys[o[a] as int], keys[o[a] as int]);
    }
}

/// The stable order of a list of keys is unique: two orders that both list the keys'
/// positions in their stable order are the same.
pub proof fn law_stable_order_is_unique(keys: Seq<Seq<SortPart>>, o1: Seq<usize>, o2: Seq<usize>)
    requires
        stable_order(keys, o1),
        stable_order(keys, o2),
    ensures
        o1 == o2,
{
    lemma_orders_agree(keys, o1, o2, o1.len() as int);
    assert(o1 =~= o2);
}

/// The items of `items` taken in the order of the positions `order`.
pub open spec fn arrange<T>(items: Seq<T>, order: Seq<usize>) -> Seq<T> {
    order.map_values(|i: usize| items[i as int])
}

/// Whether `p` is the requested page of `items` listed in the stable order of `key`:
/// the window at the query's offset, the number of all items, the page number (1 when
/// none is given) and the clamped page size.
pub open spec fn listed_page<T>(
    items: Seq<T>,
    key: spec_fn(T) -> Seq<SortPart>,
    page: Option<u32>,
    page_size: Option<u32>,
    listed: Seq<T>,
    total: u64,
    number: u32,
    size: u32,
) -> bool {
    &&& total == items.len()
    &&& number == match page {
        Some(n) => n,
        None => 1,
    }
    &&& size == page_limit(page_size)
    &&& exists|o: Seq<usize>|
        stable_order(items.map_values(key), o) && listed == page_window(
            #[trigger] arrange(items, o),
            page_offset(page, page_size),
            page_limit(page_size) as int,
        )
}

/// Every item a listed page holds is one of the items it was listed from.
pub proof fn lemma_listed_items_come_from<T>(
    items: Seq<T>,
    key: spec_fn(T) -> Seq<SortPart>,
    page: Option<u32>,
    page_size: Option<u32>,
    listed: Seq<T>,
    total: u64,
    number: u32,
    size: u32,
)
    requires
        listed_page(items, key, page, page_size, listed, total, number, size),
    ensures
        forall|m: int| 0 <= m < listed.len() ==> items.contains(#[trigger] listed[m]),
{
    let o = choose|o: Seq<usize>|
        stable_order(items.map_values(key), o) && listed == page_window(
            #[trigger] arrange(items, o),
            page_offset(page, page_size),
            page_limit(page_size) as int,
        );
    let all = arrange(items, o);
    assert forall|m: int| 0 <= m < listed.len() implies items.contains(#[trigger] listed[m]) by {
        let offset = page_offset(page, page_size);
        let start = if offset < all.len() { offset } else { all.len() as int };
        assert(listed[m] == all[start + m]);
        let j = o[start + m] as int;
        assert(items[j] == listed[m]);
    }
}

/// The views of a list of keys.
pub open spec fn key_views(keys: Seq<Vec<SortPart>>) -> Seq<Seq<SortPart>> {
    keys.map_values(|k: Vec<SortPart>| k@)
}

/// Three-way comparison of two texts.
pub fn compare_text(a: &str, b: &str) -> (r: i8)
    ensures
        r == text_order(a@, b@),
{
    let n = a.unicode_len();
    let m = b.unicode_len();
    let mut i: usize = 0;
    proof {
        assert(a@.subrange(0, n as int) =~= a@);
        assert(b@.subrange(0, m as int) =~= b@);
    }
    while i < n && i < m
        invariant
            n == a@.len(),
            m == b@.len(),
            i <= n,
            i <= m,
            text_order(a@, b@) == text_order(a@.subrange(i as int, n as int), b@.subrange(i as int, m as int)),
        decreases n - i,
    {
        let x = a.get_char(i);
        let y = b.get_char(i);
        let ghost sa = a@.subrange(i as int, n as int);
        let ghost sb = b@.subrange(i as int, m as int);
        assert(sa[0] == x);
        assert(sb[0] == y);
        if x < y {
            return -1;
        }
        if x > y {
            return 1;
        }
        assert(sa.drop_first() =~= a@.subrange(i + 1, n as int));
        assert(sb.drop_first() =~= b@.subrange(i + 1, m as int));
        i = i + 1;
    }
    if i == n && i == m {
        0
    } else if i == n {
        -1
    } else {
        1
    }
}

/// Three-way comparison of two key parts.
pub fn compare_part(a: &SortPart, b: &SortPart) -> (r: i8)
    ensures
        r == part_order(*a, *b),
{
    if a.descending != b.descending {
        return if a.descending {
            1
        } else {
            -1
        };
    }
    let v: i8 = match (&a.value, &b.value) {
        (SortValue::Text(x), SortValue::Text(y)) => compare_text(x.as_str(), y.as_str()),
        (SortValue::Number(x), SortValue::Number(y)) => if *x < *y {
            -1
        } else if *x > *y {
            1
        } else {
            0
        },
        (SortValue::Number(_), SortValue::Text(_)) => -1,
        (SortValue::Text(_), SortValue::Number(_)) => 1,
    };
    proof {
        lemma_value_order(a.value, b.value, b.value);
    }
    if a.descending {
        -v
    } else {
        v
    }
}

/// Three-way comparison of two keys.
pub fn compare_keys(a: &Vec<SortPart>, b: &Vec<SortPart>) -> (r: i8)
    ensures
        r == key_order(a@, b@),
{
    let n = a.len();
    let m = b.len();
    let mut i: usize = 0;
    proof {
        assert(a@.subrange(0, n as int) =~= a@);
        assert(b@.subrange(0, m as int) =~= b@);
    }
    while i < n && i < m
        invariant
            n == a@.len(),
            m == b@.len(),
            i <= n,
            i <= m,
            key_order(a@, b@) == key_order(a@.subrange(i as int, n as int), b@.subrange(i as int, m as int)),
        decreases n - i,
    {
        let c = compare_part(&a[i], &b[i]);
        let ghost sa = a@.subrange(i as int, n as int);
        let ghost sb = b@.subrange(i as int, m as int);
        assert(sa[0] == a@[i as int]);
        assert(sb[0] == b@[i as int]);
        if c != 0 {
            return c;
        }
        assert(sa.drop_first() =~= a@.subrange(i + 1, n as int));
        assert(sb.drop_first() =~= b@.subrange(i + 1, m as int));
        i = i + 1;
    }
    if i == n && i == m {
        0
    } else if i == n {
        -1
    } else {
        1
    }
}

/// The positions of `keys` in their stable order.
pub fn stable_sort_order(keys: &Vec<Vec<SortPart>>) -> (order: Vec<usize>)
    ensures
        stable_order(key_views(keys@), order@),
{
    let ghost kv = key_views(keys@);
    let n = keys.len();
    let mut order: Vec<usize> = Vec::new();
    let mut k: usize = 0;
    while k < n
        invariant
            n == keys@.len(),
            kv == key_views(keys@),
            kv.len() == n,
            k <= n,
            order@.len() == k,
            forall|t: int| 0 <= t < order@.len() ==> (#[trigger] order@[t]) < k,
            forall|i: int| 0 <= i < k ==> #[trigger] order@.contains(i as usize),
            forall|a: int, b: int|
                0 <= a < b < order@.len() ==> before(kv, #[trigger] order@[a] as int, #[trigger] order@[b] as int),
        decreases n - k,
    {
        let mut pos: usize = 0;
        while pos < order.len() && compare_keys(&keys[k], &keys[order[pos]]) >= 0
            invariant
                n == keys@.len(),
                kv == key_views(keys@),
                kv.len() == n,
                k < n,
                pos <= order@.len(),
                forall|t: int| 0 <= t < order@.len() ==> (#[trigger] order@[t]) < k,
                forall|j: int| 0 <= j < pos ==> key_order(kv[k as int], kv[#[trigger] order@[j] as int]) >= 0,
            decreases order@.len() - pos,
        {
            pos = pos + 1;
        }
        let ghost old_order = order@;
        proof {
            assert(kv[k as int] == keys@[k as int]@);
            assert forall|t: int| 0 <= t < old_order.len() implies kv[old_order[t] as int]
                == keys@[old_order[t] as int]@ by {}
        }
        order.insert(pos, k);
        proof {
            assert(order@[pos as int] == k);
            assert forall|i: int| 0 <= i < k + 1 implies #[trigger] order@.contains(i as usize) by {
                if i < k {
                    assert(old_order.contains(i as usize));
                    let w = choose|w: int| 0 <= w < old_order.len() && old_order[w] == i as usize;
                    if w < pos {
                        assert(order@[w] == old_order[w]);
                    } else {
                        assert(order@[w + 1] == old_order[w]);
                    }
                }
            }
            assert forall|t: int| 0 <= t < order@.len() implies (#[trigger] order@[t]) < k + 1 by {
                if t < pos {
                    assert(order@[t] == old_order[t]);
                } else if t > pos {
                    assert(order@[t] == old_order[t - 1]);
                }
            }
            assert forall|a: int, b: int|
                0 <= a < b < order@.len() implies before(kv, #[trigger] order@[a] as int, #[trigger] order@[b] as int) by {
                let x = order@[a] as int;
                let y = order@[b] as int;
                if a < pos && b < pos {
                    assert(order@[a] == old_order[a] && order@[b] == old_order[b]);
                } else if a > pos && b > pos {
                    assert(order@[a] == old_order[a - 1] && order@[b] == old_order[b - 1]);
                } else if a < pos && b > pos {
                    assert(order@[a] == old_order[a] && order@[b] == old_order[b - 1]);
                } else if a == pos {
                    // k goes before every later element.
                    assert(y == old_order[b - 1]);
                    let w = old_order[pos as int] as int;
                    assert(key_order(kv[k as int], kv[w]) < 0);
                    if b - 1 > pos {
                        assert(before(kv, w, y));
                        lemma_key_order(kv[k as int], kv[w], kv[y]);
                        lemma_key_order(kv[w], kv[y], kv[k as int]);
                        lemma_key_order(kv[k as int], kv[y], kv[w]);
                    }
                    assert(key_order(kv[k as int], kv[y]) < 0);
                } else {
                    // every earlier element goes before k.
                    assert(b == pos);
                    assert(x == old_order[a]);
                    assert(key_order(kv[k as int], kv[x]) >= 0);
                    lemma_key_order(kv[x], kv[k as int], kv[k as int]);
                    assert(x < k);
                }
            }
        }
        k = k + 1;
    }
    order
}

} // verus!
