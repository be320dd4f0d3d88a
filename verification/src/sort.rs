//! Stable sorting by keys made of a number and two texts.
use crate::text::chars_of;
use vstd::prelude::*;

verus! {

/// The lexicographic order of texts by the values of their characters.
pub open spec fn text_le(a: Seq<char>, b: Seq<char>) -> bool
    decreases a.len(),
{
    if a.len() == 0 {
        true
    } else if b.len() == 0 {
        false
    } else if a[0] == b[0] {
        text_le(a.skip(1), b.skip(1))
    } else {
        (a[0] as u32) < (b[0] as u32)
    }
}

/// The order is total.
pub proof fn text_le_total(a: Seq<char>, b: Seq<char>)
    ensures
        text_le(a, b) || text_le(b, a),
        text_le(a, b) && text_le(b, a) ==> a == b,
    decreases a.len(),
{
    if a.len() > 0 && b.len() > 0 && a[0] == b[0] {
        text_le_total(a.skip(1), b.skip(1));
        if text_le(a, b) && text_le(b, a) {
            assert(a =~= seq![a[0]] + a.skip(1));
            assert(b =~= seq![b[0]] + b.skip(1));
        }
    } else if a.len() == 0 && b.len() == 0 {
        assert(a =~= b);
    } else if a.len() > 0 && b.len() > 0 {
        vstd::utf8::char_u32_cast(a[0], a[0] as u32);
        vstd::utf8::char_u32_cast(b[0], b[0] as u32);
    }
}

/// The order is transitive.
pub proof fn text_le_transitive(a: Seq<char>, b: Seq<char>, c: Seq<char>)
    requires
        text_le(a, b),
        text_le(b, c),
    ensures
        text_le(a, c),
    decreases a.len(),
{
    if a.len() > 0 && b.len() > 0 && c.len() > 0 && a[0] == b[0] && b[0] == c[0] {
        text_le_transitive(a.skip(1), b.skip(1), c.skip(1));
    }
}

/// A sort key: a number first, then two texts.
pub struct SortKey {
    pub number: i64,
    pub major: String,
    pub minor: String,
}

/// The content of a [`SortKey`].
pub struct KeyView {
    pub number: int,
    pub major: Seq<char>,
    pub minor: Seq<char>,
}

impl View for SortKey {
    type V = KeyView;

    open spec fn view(&self) -> KeyView {
        KeyView { number: self.number as int, major: self.major@, minor: self.minor@ }
    }
}

/// The contents of a run of keys.
pub open spec fn key_views(keys: Seq<SortKey>) -> Seq<KeyView> {
    Seq::new(keys.len(), |i: int| keys[i]@)
}

/// The order of keys.
pub open spec fn key_le(a: KeyView, b: KeyView) -> bool {
    if a.number != b.number {
        a.number < b.number
    } else if a.major != b.major {
        text_le(a.major, b.major)
    } else {
        text_le(a.minor, b.minor)
    }
}

proof fn key_le_total(a: KeyView, b: KeyView)
    ensures
        key_le(a, b) || key_le(b, a),
        key_le(a, b) && key_le(b, a) ==> a == b,
{
    text_le_total(a.major, b.major);
    text_le_total(a.minor, b.minor);
}

proof fn key_le_transitive(a: KeyView, b: KeyView, c: KeyView)
    requires
        key_le(a, b),
        key_le(b, c),
    ensures
        key_le(a, c),
{
    if a.number == b.number && b.number == c.number {
        if a.major == b.major || b.major == c.major {
            if a.major == b.major && b.major == c.major {
                text_le_transitive(a.minor, b.minor, c.minor);
            }
        } else {
            text_le_transitive(a.major, b.major, c.major);
            text_le_total(a.major, b.major);
        }
    }
}

/// Whether `order` lists the positions `0..n` once each.
pub open spec fn permutation(order: Seq<int>, n: nat) -> bool {
    &&& order.len() == n
    &&& forall|a: int| 0 <= a < order.len() ==> 0 <= #[trigger] order[a] < n
    &&& forall|a: int, b: int|
        #![trigger order[a], order[b]]
        0 <= a < b < order.len() ==> order[a] != order[b]
}

/// Whether `order` lists the positions of the keys so that keys ascend and equal
/// keys keep their order.
pub open spec fn stably_sorted(keys: Seq<KeyView>, order: Seq<int>) -> bool {
    &&& permutation(order, keys.len())
    &&& forall|a: int, b: int|
        #![trigger order[a], order[b]]
        0 <= a < b < order.len() ==> key_le(keys[order[a]], keys[order[b]]) && (
        keys[order[a]] == keys[order[b]] ==> order[a] < order[b])
}

/// Positions as numbers.
pub open spec fn positions(order: Seq<usize>) -> Seq<int> {
    Seq::new(order.len(), |i: int| order[i] as int)
}

/// Compares two texts.
pub fn text_not_after(a: &str, b: &str) -> (r: bool)
    ensures
        r == text_le(a@, b@),
{
    let x = chars_of(a);
    let y = chars_of(b);
    let mut i: usize = 0;
    assert(x@.skip(0) =~= x@);
    assert(y@.skip(0) =~= y@);
    while i < x.len() && i < y.len()
        invariant
            i <= x@.len(),
            i <= y@.len(),
            x@ == a@,
            y@ == b@,
            text_le(x@, y@) == text_le(x@.skip(i as int), y@.skip(i as int)),
        decreases x.len() - i,
    {
        assert(x@.skip(i as int)[0] == x@[i as int]);
        assert(y@.skip(i as int)[0] == y@[i as int]);
        if x[i] != y[i] {
            return (x[i] as u32) < (y[i] as u32);
        }
        assert(x@.skip(i as int).skip(1) =~= x@.skip(i + 1));
        assert(y@.skip(i as int).skip(1) =~= y@.skip(i + 1));
        i = i + 1;
    }
    i == x.len()
}

fn key_not_after(a: &SortKey, b: &SortKey) -> (r: bool)
    ensures
        r == key_le(a@, b@),
{
    if a.number != b.number {
        return a.number < b.number;
    }
    if a.major != b.major {
        return text_not_after(a.major.as_str(), b.major.as_str());
    }
    text_not_after(a.minor.as_str(), b.minor.as_str())
}

/// The positions of the keys in ascending order, equal keys in their given order.
pub fn sorted_positions(keys: &Vec<SortKey>) -> (r: Vec<usize>)
    ensures
        stably_sorted(key_views(keys@), positions(r@)),
{
    let ghost all = key_views(keys@);
    let mut order: Vec<usize> = Vec::with_capacity(keys.len());
    let mut i: usize = 0;
    assert(all.take(0) =~= Seq::<KeyView>::empty());
    while i < keys.len()
        invariant
            i <= keys@.len(),
            all == key_views(keys@),
            stably_sorted(all.take(i as int), positions(order@)),
        decreases keys.len() - i,
    {
        // Insert behind every key that is not greater.
        let ghost before = positions(order@);
        assert(before.len() == order@.len());
        assert forall|a: int| 0 <= a < order@.len() implies (#[trigger] order@[a]) < i by {
            assert(before[a] == order@[a]);
        }
        let mut at: usize = order.len();
        while at > 0 && !key_not_after(&keys[order[at - 1]], &keys[i])
            invariant
                at <= order@.len(),
                i < keys@.len(),
                all == key_views(keys@),
                forall|a: int| 0 <= a < order@.len() ==> (#[trigger] order@[a]) < i,
                forall|a: int|
                    at <= a < order@.len() ==> !key_le(
                        all[#[trigger] order@[a] as int],
                        all[i as int],
                    ),
            decreases at,
        {
            at = at - 1;
        }
        proof {
            if at > 0 {
                assert(key_le(all[order@[at - 1] as int], all[i as int]));
            }
            inserted_stays_sorted(all, i as int, before, at as int);
        }
        order.insert(at, i);
        assert(positions(order@) =~= before.insert(at as int, i as int));
        i = i + 1;
    }
    assert(all.take(all.len() as int) =~= all);
    order
}

/// Inserting the next position behind the keys that are not greater keeps the
/// order sorted and stable.
proof fn inserted_stays_sorted(all: Seq<KeyView>, i: int, order: Seq<int>, at: int)
    requires
        0 <= i < all.len(),
        stably_sorted(all.take(i), order),
        0 <= at <= order.len(),
        at > 0 ==> key_le(all[order[at - 1]], all[i]),
        forall|a: int| at <= a < order.len() ==> !key_le(all[#[trigger] order[a]], all[i]),
    ensures
        stably_sorted(all.take(i + 1), order.insert(at, i)),
{
    let keys = all.take(i);
    let longer = all.take(i + 1);
    let after = order.insert(at, i);
    assert forall|a: int| 0 <= a < after.len() implies 0 <= #[trigger] after[a] < i + 1 by {
        if a < at {
            assert(after[a] == order[a]);
        } else if a > at {
            assert(after[a] == order[a - 1]);
        }
    }
    assert forall|a: int, b: int|
        #![trigger after[a], after[b]]
        0 <= a < b < after.len() implies after[a] != after[b] && key_le(
        longer[after[a]],
        longer[after[b]],
    ) && (longer[after[a]] == longer[after[b]] ==> after[a] < after[b]) by {
        let x = if a < at { a } else { a - 1 };
        let y = if b < at { b } else { b - 1 };
        if a != at {
            assert(after[a] == order[x]);
            assert(longer[order[x]] == keys[order[x]]);
        }
        if b != at {
            assert(after[b] == order[y]);
            assert(longer[order[y]] == keys[order[y]]);
        }
        if a == at {
            // The new key stands in front of a greater one.
            key_le_total(all[order[y]], all[i]);
        } else if b == at {
            // The new key stands behind one that is not greater.
            if x < at - 1 {
                assert(key_le(keys[order[x]], keys[order[at - 1]]));
                assert(keys[order[at - 1]] == all[order[at - 1]]);
                key_le_transitive(all[order[x]], all[order[at - 1]], all[i]);
            }
        } else {
            assert(x < y);
        }
    }
}

proof fn permutations_reach_everything(order: Seq<int>, n: nat, value: int)
    requires
        permutation(order, n),
        0 <= value < n,
    ensures
        order.contains(value),
{
    let all = vstd::set_lib::set_int_range(0, n as int);
    assert(order.no_duplicates()) by {
        assert forall|i: int, j: int| 0 <= i < order.len() && 0 <= j < order.len() && i != j implies
            order[i] != order[j] by {
            if i < j {
                assert(order[i] != order[j]);
            } else {
                assert(order[j] != order[i]);
            }
        }
    }
    order.unique_seq_to_set();
    vstd::set_lib::lemma_int_range(0, n as int);
    assert(order.to_set().subset_of(all)) by {
        assert forall|x: int| order.to_set().contains(x) implies all.contains(x) by {
            let i = order.index_of(x);
            assert(0 <= order[i] < n);
        }
    }
    vstd::set_lib::lemma_subset_equality(order.to_set(), all);
    assert(order.to_set().contains(value));
}

/// There is only one way to sort keys with equal keys in their given order.
pub proof fn sorted_order_is_unique(keys: Seq<KeyView>, a: Seq<int>, b: Seq<int>)
    requires
        stably_sorted(keys, a),
        stably_sorted(keys, b),
    ensures
        a == b,
{
    assert forall|k: int| 0 <= k < keys.len() implies a[k] == b[k] by {
        sorted_orders_agree(keys, a, b, k);
    }
    assert(a =~= b);
}

proof fn sorted_orders_agree(keys: Seq<KeyView>, a: Seq<int>, b: Seq<int>, k: int)
    requires
        stably_sorted(keys, a),
        stably_sorted(keys, b),
        0 <= k < keys.len(),
    ensures
        forall|i: int| 0 <= i <= k ==> a[i] == b[i],
    decreases k,
{
    if k > 0 {
        sorted_orders_agree(keys, a, b, k - 1);
    }
    if a[k] != b[k] {
        permutations_reach_everything(a, keys.len(), b[k]);
        permutations_reach_everything(b, keys.len(), a[k]);
        let i = a.index_of(b[k]);
        let j = b.index_of(a[k]);
        assert(a[i] == b[k] && b[j] == a[k]);
        if i < k {
            assert(a[i] == b[i]);
            assert(b[i] != b[k]);
        }
        if j < k {
            assert(a[j] == b[j]);
            assert(a[j] != a[k]);
        }
        assert(key_le(keys[a[k]], keys[a[i]]));
        assert(key_le(keys[b[k]], keys[b[j]]));
        key_le_total(keys[a[k]], keys[b[k]]);
        assert(keys[a[k]] == keys[b[k]]);
        assert(a[k] < a[i]);
        assert(b[k] < b[j]);
    }
    assert forall|i: int| 0 <= i <= k implies a[i] == b[i] by {
    }
}

/// Texts are ordered like words in a dictionary: by the first character in which they
/// differ, and a text before its continuations.
pub proof fn texts_are_ordered_like_words(
    common: Seq<char>,
    a: char,
    b: char,
    x: Seq<char>,
    y: Seq<char>,
)
    ensures
        text_le(common, common + x),
        (a as u32) < (b as u32) ==> text_le(common + seq![a] + x, common + seq![b] + y) && !text_le(
            common + seq![b] + y,
            common + seq![a] + x,
        ),
    decreases common.len(),
{
    let left = common + seq![a] + x;
    let right = common + seq![b] + y;
    if common.len() > 0 {
        let rest = common.skip(1);
        texts_are_ordered_like_words(rest, a, b, x, y);
        assert(left.skip(1) =~= rest + seq![a] + x);
        assert(right.skip(1) =~= rest + seq![b] + y);
        assert((common + x).skip(1) =~= rest + x);
    }
}

/// Sorting keys are compared by their number, then by their first text, then by their
/// second.
pub proof fn keys_are_compared_part_by_part(a: KeyView, b: KeyView)
    ensures
        a.number < b.number ==> key_le(a, b) && !key_le(b, a),
        a.number == b.number && a.major != b.major ==> (key_le(a, b) <==> text_le(
            a.major,
            b.major,
        )),
        a.number == b.number && a.major == b.major ==> (key_le(a, b) <==> text_le(
            a.minor,
            b.minor,
        )),
{
}

} // verus!
