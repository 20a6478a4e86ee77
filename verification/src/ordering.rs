//! Orders: of texts, byte by byte as strings are compared; of optional
//! numeric keys; and the stable sorting of a list by a key of a class, a
//! number and two texts.

use vstd::prelude::*;
use vstd::utf8::encode_utf8;
use crate::number::is_digit;

verus! {

/// How two keys stand to each other.
#[derive(Clone, Copy, Debug, PartialEq, Eq)]
pub enum KeyOrder {
    /// The first comes first.
    Less,
    /// Neither comes first.
    Equal,
    /// The second comes first.
    Greater,
    /// Neither has a key: something else must decide.
    Unkeyed,
}

/// How two optional keys stand to each other: two keys by their numbers, a
/// key before no key, and without keys nothing is decided.
pub open spec fn key_order(a: Option<u64>, b: Option<u64>) -> KeyOrder {
    match (a, b) {
        (Some(x), Some(y)) => if x < y {
            KeyOrder::Less
        } else if x == y {
            KeyOrder::Equal
        } else {
            KeyOrder::Greater
        },
        (Some(_), None) => KeyOrder::Less,
        (None, Some(_)) => KeyOrder::Greater,
        (None, None) => KeyOrder::Unkeyed,
    }
}

/// The digits among the characters of `s`, in their order.
pub open spec fn digits_in(s: Seq<char>) -> Seq<char>
    decreases s.len(),
{
    if s.len() == 0 {
        Seq::empty()
    } else if is_digit(s.last()) {
        digits_in(s.drop_last()).push(s.last())
    } else {
        digits_in(s.drop_last())
    }
}

/// The numeric key of a name: the number that its digits write, read in
/// their order and without what stands between them; none for a name
/// without digits or with a number beyond 64 bits.
pub open spec fn numeric_key_of(name: Seq<char>) -> Option<u64> {
    let digits = digits_in(name);
    if digits.len() > 0 && crate::number::number_of(digits) <= u64::MAX {
        Some(crate::number::number_of(digits) as u64)
    } else {
        None
    }
}

/// The digits among the characters of a name are digits.
pub proof fn lemma_digits_in_are_digits(s: Seq<char>)
    ensures
        crate::number::all_digits(digits_in(s)),
        digits_in(s).len() <= s.len(),
    decreases s.len(),
{
    if s.len() > 0 {
        lemma_digits_in_are_digits(s.drop_last());
    }
}

/// The numeric key of a name.
pub fn numeric_key(name: &str) -> (r: Option<u64>)
    ensures
        r == numeric_key_of(name@),
{
    let chars = crate::text::chars_of(name);
    let mut digits: Vec<char> = Vec::new();
    let mut i: usize = 0;
    assert(chars@.take(0) =~= Seq::<char>::empty());
    while i < chars.len()
        invariant
            0 <= i <= chars@.len(),
            digits@ == digits_in(chars@.take(i as int)),
        decreases chars@.len() - i,
    {
        assert(chars@.take(i + 1).drop_last() =~= chars@.take(i as int));
        if crate::number::digit(chars[i]) {
            digits.push(chars[i]);
        }
        i += 1;
    }
    assert(chars@.take(chars@.len() as int) =~= chars@);
    proof {
        lemma_digits_in_are_digits(chars@);
    }
    if digits.len() == 0 {
        return None;
    }
    let n = digits.len();
    assert(digits@.subrange(0, n as int) =~= digits@);
    let value = crate::number::capped_number(&digits, 0, n, 0x1_0000_0000_0000_0000);
    if value <= u64::MAX as u128 {
        Some(value as u64)
    } else {
        None
    }
}

/// Whether `a` comes before `b` as strings are ordered: at the first byte
/// in which they differ `a` has the smaller one, or `a` ends there and `b`
/// goes on. `from` is the index from which the two are compared.
pub open spec fn bytes_before(a: Seq<u8>, b: Seq<u8>, from: int) -> bool
    decreases a.len() - from,
{
    if from >= b.len() {
        false
    } else if from >= a.len() {
        true
    } else if a[from] != b[from] {
        a[from] < b[from]
    } else {
        bytes_before(a, b, from + 1)
    }
}

/// Whether `a` and `b` hold the same bytes from index `from` on.
pub open spec fn bytes_same(a: Seq<u8>, b: Seq<u8>, from: int) -> bool {
    a.len() == b.len() && forall|i: int| from <= i < a.len() ==> a[i] == b[i]
}

/// Of two texts one comes before the other, or they are the same; never
/// two of these.
pub proof fn lemma_bytes_order_is_total(a: Seq<u8>, b: Seq<u8>, from: int)
    requires
        0 <= from <= a.len(),
        from <= b.len(),
    ensures
        bytes_before(a, b, from) || bytes_before(b, a, from) || bytes_same(a, b, from),
        !(bytes_before(a, b, from) && bytes_before(b, a, from)),
        !(bytes_before(a, b, from) && bytes_same(a, b, from)),
        !(bytes_before(b, a, from) && bytes_same(a, b, from)),
    decreases a.len() + b.len() - from,
{
    if from < a.len() && from < b.len() && a[from] == b[from] {
        lemma_bytes_order_is_total(a, b, from + 1);
        if bytes_same(a, b, from + 1) {
            assert(bytes_same(a, b, from));
        }
        if bytes_same(a, b, from) {
            assert(bytes_same(a, b, from + 1));
        }
    } else if from < a.len() && from < b.len() {
        if bytes_same(a, b, from) {
            assert(a[from] == b[from]);
        }
    }
}

/// The order of texts is transitive, also through texts that are the same.
pub proof fn lemma_bytes_order_is_transitive(a: Seq<u8>, b: Seq<u8>, c: Seq<u8>, from: int)
    requires
        0 <= from,
    ensures
        bytes_before(a, b, from) && bytes_before(b, c, from) ==> bytes_before(a, c, from),
        bytes_before(a, b, from) && bytes_same(b, c, from) ==> bytes_before(a, c, from),
        bytes_same(a, b, from) && bytes_before(b, c, from) ==> bytes_before(a, c, from),
    decreases a.len() + b.len() + c.len() - from,
{
    if from < a.len() && from < b.len() && from < c.len() {
        if a[from] == b[from] && b[from] == c[from] {
            lemma_bytes_order_is_transitive(a, b, c, from + 1);
            if bytes_same(b, c, from) {
                assert(bytes_same(b, c, from + 1));
            }
            if bytes_same(a, b, from) {
                assert(bytes_same(a, b, from + 1));
            }
        } else {
            if bytes_same(b, c, from) {
                assert(b[from] == c[from]);
            }
            if bytes_same(a, b, from) {
                assert(a[from] == b[from]);
            }
        }
    } else {
        if bytes_same(b, c, from) && from < b.len() {
            assert(b[from] == c[from]);
        }
        if bytes_same(a, b, from) && from < a.len() {
            assert(a[from] == b[from]);
        }
    }
}

/// Compares two texts byte by byte.
pub fn compare_bytes(a: &[u8], b: &[u8]) -> (r: KeyOrder)
    ensures
        r == KeyOrder::Less <==> bytes_before(a@, b@, 0),
        r == KeyOrder::Greater <==> bytes_before(b@, a@, 0),
        r == KeyOrder::Equal <==> a@ == b@,
        !(r is Unkeyed),
{
    let mut i: usize = 0;
    loop
        invariant
            0 <= i <= a@.len(),
            i <= b@.len(),
            forall|j: int| 0 <= j < i ==> a@[j] == b@[j],
            bytes_before(a@, b@, 0) == bytes_before(a@, b@, i as int),
            bytes_before(b@, a@, 0) == bytes_before(b@, a@, i as int),
        decreases a@.len() - i,
    {
        if i >= a.len() || i >= b.len() {
            proof {
                lemma_bytes_order_is_total(a@, b@, i as int);
                if a@.len() == b@.len() {
                    assert(a@ =~= b@);
                }
            }
            if a.len() < b.len() {
                return KeyOrder::Less;
            } else if a.len() > b.len() {
                return KeyOrder::Greater;
            } else {
                return KeyOrder::Equal;
            }
        }
        if a[i] < b[i] {
            return KeyOrder::Less;
        }
        if a[i] > b[i] {
            return KeyOrder::Greater;
        }
        i += 1;
    }
}

/// The key by which a row is sorted: its class first, then a number, then
/// two texts.
pub struct RowKey {
    pub class: nat,
    pub number: nat,
    pub first: Seq<u8>,
    pub second: Seq<u8>,
}

/// Whether the key `a` comes before the key `b`: by class, then by number,
/// then by the first text, then by the second.
pub open spec fn key_before(a: RowKey, b: RowKey) -> bool {
    ||| a.class < b.class
    ||| a.class == b.class && a.number < b.number
    ||| a.class == b.class && a.number == b.number && bytes_before(a.first, b.first, 0)
    ||| a.class == b.class && a.number == b.number && a.first == b.first && bytes_before(
        a.second,
        b.second,
        0,
    )
}

/// Whether two keys are the same.
pub open spec fn key_same(a: RowKey, b: RowKey) -> bool {
    a.class == b.class && a.number == b.number && a.first == b.first && a.second == b.second
}

/// Whether row `i` comes before row `j` in the sorted list: by key, and
/// among rows of the same key the one that stood first.
pub open spec fn row_before(keys: Seq<RowKey>, i: int, j: int) -> bool {
    key_before(keys[i], keys[j]) || (key_same(keys[i], keys[j]) && i < j)
}

/// Whether `order` lists the rows `0..keys.len()` sorted by their keys,
/// rows of the same key in the order in which they stood: every row once,
/// and each before all that follow it.
pub open spec fn is_sorted_order(keys: Seq<RowKey>, order: Seq<usize>) -> bool {
    &&& order.len() == keys.len()
    &&& forall|p: int| 0 <= p < order.len() ==> 0 <= #[trigger] order[p] < keys.len()
    &&& forall|p: int, q: int|
        0 <= p < q < order.len() ==> row_before(keys, #[trigger] order[p] as int, #[trigger] order[q] as int)
}

/// A row with its key: a class, a number and two texts.
#[derive(Clone, Debug, PartialEq, Eq)]
pub struct Row {
    pub class: usize,
    pub number: u64,
    pub first: String,
    pub second: String,
}

impl View for Row {
    type V = RowKey;

    open spec fn view(&self) -> RowKey {
        RowKey {
            class: self.class as nat,
            number: self.number as nat,
            first: encode_utf8(self.first@),
            second: encode_utf8(self.second@),
        }
    }
}

/// The keys of the rows.
pub open spec fn keys_of(rows: Seq<Row>) -> Seq<RowKey> {
    rows.map_values(|r: Row| r@)
}

/// Whether the key of row `i` comes before the key of row `j`.
fn key_less(rows: &Vec<Row>, i: usize, j: usize) -> (r: bool)
    requires
        i < rows@.len(),
        j < rows@.len(),
    ensures
        r == key_before(keys_of(rows@)[i as int], keys_of(rows@)[j as int]),
{
    let a = &rows[i];
    let b = &rows[j];
    if a.class != b.class {
        return a.class < b.class;
    }
    if a.number != b.number {
        return a.number < b.number;
    }
    match compare_bytes(a.first.as_str().as_bytes(), b.first.as_str().as_bytes()) {
        KeyOrder::Less => true,
        KeyOrder::Equal => {
            proof {
                lemma_bytes_order_is_total(encode_utf8(a.first@), encode_utf8(b.first@), 0);
            }
            match compare_bytes(a.second.as_str().as_bytes(), b.second.as_str().as_bytes()) {
                KeyOrder::Less => true,
                _ => false,
            }
        },
        _ => {
            proof {
                lemma_bytes_order_is_total(encode_utf8(a.first@), encode_utf8(b.first@), 0);
            }
            false
        },
    }
}

/// Sorts the rows by their keys and returns their indices in the sorted
/// order. Rows of the same key keep the order in which they stand.
pub fn sort_rows(rows: &Vec<Row>) -> (order: Vec<usize>)
    ensures
        is_sorted_order(keys_of(rows@), order@),
{
    let ghost keys = keys_of(rows@);
    let n = rows.len();
    let mut order: Vec<usize> = Vec::new();
    let mut k: usize = 0;
    while k < n
        invariant
            n == rows@.len(),
            keys == keys_of(rows@),
            keys.len() == n,
            0 <= k <= n,
            order@.len() == k,
            forall|p: int| 0 <= p < order@.len() ==> 0 <= #[trigger] order@[p] < k,
            forall|p: int, q: int|
                0 <= p < q < order@.len() ==> row_before(
                    keys,
                    #[trigger] order@[p] as int,
                    #[trigger] order@[q] as int,
                ),
        decreases n - k,
    {
        let mut at: usize = 0;
        while at < order.len() && !key_less(rows, k, order[at])
            invariant
                n == rows@.len(),
                keys == keys_of(rows@),
                keys.len() == n,
                k < n,
                order@.len() == k,
                0 <= at <= order@.len(),
                forall|p: int| 0 <= p < order@.len() ==> 0 <= #[trigger] order@[p] < k,
                forall|p: int| 0 <= p < at ==> !key_before(keys[k as int], keys[#[trigger] order@[p] as int]),
            decreases order@.len() - at,
        {
            at += 1;
        }
        let ghost before = order@;
        order.insert(at, k);
        proof {
            assert forall|p: int, q: int| 0 <= p < q < order@.len() implies row_before(
                keys,
                #[trigger] order@[p] as int,
                #[trigger] order@[q] as int,
            ) by {
                if q < at {
                    assert(order@[p] == before[p] && order@[q] == before[q]);
                } else if q == at {
                    // A row that stands before the new one in the list.
                    assert(order@[p] == before[p]);
                    lemma_rows_are_ordered(keys, before[p] as int, k as int);
                } else if p < at {
                    assert(order@[p] == before[p] && order@[q] == before[q - 1]);
                } else if p == at {
                    // A row that stands behind the new one in the list.
                    assert(order@[q] == before[q - 1]);
                    assert(key_before(keys[k as int], keys[before[at as int] as int]));
                    if q - 1 > at {
                        assert(row_before(keys, before[at as int] as int, before[q - 1] as int));
                        lemma_rows_are_transitive(
                            keys,
                            k as int,
                            before[at as int] as int,
                            before[q - 1] as int,
                        );
                    }
                } else {
                    assert(order@[p] == before[p - 1] && order@[q] == before[q - 1]);
                }
            }
            assert forall|p: int| 0 <= p < order@.len() implies 0 <= #[trigger] order@[p] < k
                + 1 by {
                if p < at {
                    assert(order@[p] == before[p]);
                } else if p > at {
                    assert(order@[p] == before[p - 1]);
                }
            }
        }
        k += 1;
    }
    order
}

/// Of two different rows exactly one comes before the other.
pub proof fn lemma_rows_are_ordered(keys: Seq<RowKey>, i: int, j: int)
    requires
        0 <= i < keys.len(),
        0 <= j < keys.len(),
    ensures
        i != j ==> (row_before(keys, i, j) <==> !row_before(keys, j, i)),
        !row_before(keys, i, i),
{
    let a = keys[i];
    let b = keys[j];
    lemma_bytes_order_is_total(a.first, b.first, 0);
    lemma_bytes_order_is_total(a.second, b.second, 0);
    lemma_bytes_order_is_total(a.first, a.first, 0);
    lemma_bytes_order_is_total(a.second, a.second, 0);
    if bytes_same(a.first, b.first, 0) {
        assert(a.first =~= b.first);
    }
    if bytes_same(a.second, b.second, 0) {
        assert(a.second =~= b.second);
    }
    if a.first == b.first {
        assert(bytes_same(a.first, b.first, 0));
    }
    if a.second == b.second {
        assert(bytes_same(a.second, b.second, 0));
    }
}

/// If one row comes before a second and that before a third, the first
/// comes before the third.
pub proof fn lemma_rows_are_transitive(keys: Seq<RowKey>, i: int, j: int, k: int)
    requires
        0 <= i < keys.len(),
        0 <= j < keys.len(),
        0 <= k < keys.len(),
        row_before(keys, i, j),
        row_before(keys, j, k),
    ensures
        row_before(keys, i, k),
{
    let a = keys[i];
    let b = keys[j];
    let c = keys[k];
    lemma_bytes_order_is_transitive(a.first, b.first, c.first, 0);
    lemma_bytes_order_is_transitive(a.second, b.second, c.second, 0);
    lemma_bytes_order_is_total(a.first, b.first, 0);
    lemma_bytes_order_is_total(b.first, c.first, 0);
    lemma_bytes_order_is_total(a.second, b.second, 0);
    lemma_bytes_order_is_total(b.second, c.second, 0);
    if a.first == b.first {
        assert(bytes_same(a.first, b.first, 0));
    }
    if b.first == c.first {
        assert(bytes_same(b.first, c.first, 0));
    }
    if a.second == b.second {
        assert(bytes_same(a.second, b.second, 0));
    }
    if b.second == c.second {
        assert(bytes_same(b.second, c.second, 0));
    }
}

/// Only one order is the sorted order of the rows.
pub proof fn lemma_sorted_order_is_unique(keys: Seq<RowKey>, a: Seq<usize>, b: Seq<usize>)
    requires
        is_sorted_order(keys, a),
        is_sorted_order(keys, b),
    ensures
        a == b,
{
    assert forall|p: int| 0 <= p < a.len() implies a[p] == b[p] by {
        lemma_position_is_rank(keys, a, p);
        lemma_position_is_rank(keys, b, p);
        // Both orders hold every row once, so the row at place p of a
        // stands somewhere in b; there as many rows precede it as in a.
        lemma_order_holds_every_row(keys, b, a[p] as int);
        let q = choose|q: int| 0 <= q < b.len() && b[q] == a[p];
        lemma_position_is_rank(keys, b, q);
    }
    assert(a =~= b);
}

/// Number of rows that come before row `r`.
spec fn rank(keys: Seq<RowKey>, r: int) -> nat {
    Set::new(|i: int| 0 <= i < keys.len() && row_before(keys, i, r)).len()
}

/// In a sorted order the rows listed before a place are different rows.
proof fn lemma_order_has_no_repeats(keys: Seq<RowKey>, order: Seq<usize>, p: int, q: int)
    requires
        is_sorted_order(keys, order),
        0 <= p < q < order.len(),
    ensures
        order[p] != order[q],
{
    lemma_rows_are_ordered(keys, order[p] as int, order[q] as int);
}

/// The rows of a sorted order at the places before `upto`.
spec fn placed(order: Seq<usize>, upto: int) -> Set<int> {
    Set::new(|i: int| exists|p: int| 0 <= p < upto && order[p] == i)
}

proof fn lemma_placed_len(keys: Seq<RowKey>, order: Seq<usize>, upto: int)
    requires
        is_sorted_order(keys, order),
        0 <= upto <= order.len(),
    ensures
        placed(order, upto).finite(),
        placed(order, upto).len() == upto,
    decreases upto,
{
    if upto == 0 {
        assert(placed(order, 0) =~= Set::empty());
    } else {
        lemma_placed_len(keys, order, upto - 1);
        let row = order[upto - 1] as int;
        assert(!placed(order, upto - 1).contains(row)) by {
            if placed(order, upto - 1).contains(row) {
                let p = choose|p: int| 0 <= p < upto - 1 && order[p] == row;
                lemma_order_has_no_repeats(keys, order, p, upto - 1);
            }
        }
        assert(placed(order, upto) =~= placed(order, upto - 1).insert(row)) by {
            assert forall|i: int| placed(order, upto).contains(i) implies placed(
                order,
                upto - 1,
            ).insert(row).contains(i) by {
                let p = choose|p: int| 0 <= p < upto && order[p] == i;
                if p < upto - 1 {
                    assert(placed(order, upto - 1).contains(i));
                }
            }
            assert forall|i: int| placed(order, upto - 1).insert(row).contains(i) implies placed(
                order,
                upto,
            ).contains(i) by {
                if i == row {
                    assert(order[upto - 1] == i);
                } else {
                    let p = choose|p: int| 0 <= p < upto - 1 && order[p] == i;
                    assert(order[p] == i);
                }
            }
        }
    }
}

/// A sorted order holds every row.
proof fn lemma_order_holds_every_row(keys: Seq<RowKey>, order: Seq<usize>, row: int)
    requires
        is_sorted_order(keys, order),
        0 <= row < keys.len(),
    ensures
        exists|q: int| 0 <= q < order.len() && order[q] == row,
{
    let n = keys.len() as int;
    lemma_placed_len(keys, order, n);
    let all = Set::new(|i: int| 0 <= i < n);
    assert(all =~= vstd::set_lib::set_int_range(0, n));
    vstd::set_lib::lemma_int_range(0, n);
    assert(placed(order, n).subset_of(all)) by {
        assert forall|i: int| placed(order, n).contains(i) implies all.contains(i) by {
            let p = choose|p: int| 0 <= p < n && order[p] == i;
        }
    }
    vstd::set_lib::lemma_subset_equality(placed(order, n), all);
    assert(placed(order, n).contains(row));
}

/// In a sorted order the place of a row is the number of rows that come
/// before it.
proof fn lemma_position_is_rank(keys: Seq<RowKey>, order: Seq<usize>, p: int)
    requires
        is_sorted_order(keys, order),
        0 <= p < order.len(),
    ensures
        rank(keys, order[p] as int) == p,
{
    let row = order[p] as int;
    let before = Set::new(|i: int| 0 <= i < keys.len() && row_before(keys, i, row));
    lemma_placed_len(keys, order, p);
    assert(before =~= placed(order, p)) by {
        assert forall|i: int| before.contains(i) implies placed(order, p).contains(i) by {
            lemma_order_holds_every_row(keys, order, i);
            let q = choose|q: int| 0 <= q < order.len() && order[q] == i;
            lemma_rows_are_ordered(keys, i, row);
            if q > p {
                assert(row_before(keys, order[p] as int, order[q] as int));
            }
            assert(q != p);
        }
        assert forall|i: int| placed(order, p).contains(i) implies before.contains(i) by {
            let q = choose|q: int| 0 <= q < p && order[q] == i;
            assert(row_before(keys, order[q] as int, order[p] as int));
        }
    }
}

} // verus!
