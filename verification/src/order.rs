//! Sorting by keys, and leaving out what has the key of its predecessor.
use vstd::prelude::*;

verus! {

/// One part of a key: numbers that are compared from the first one on.
pub type Part = Seq<u32>;

/// A key: parts that are compared from the first one on.
pub type Key = Seq<Part>;

/// How one value stands to another.
#[derive(Clone, Copy, PartialEq, Eq, Structural, Debug)]
pub enum Rank {
    Before,
    Same,
    After,
}

/// Part `a` comes before part `b`: it is smaller at the first place where they
/// differ, or a proper prefix.
pub open spec fn part_less(a: Part, b: Part) -> bool
    decreases a.len(),
{
    if b.len() == 0 {
        false
    } else if a.len() == 0 {
        true
    } else if a[0] == b[0] {
        part_less(a.skip(1), b.skip(1))
    } else {
        a[0] < b[0]
    }
}

/// Key `a` comes before key `b`: its part is the lesser one at the first place
/// where they differ, or it is a proper prefix.
pub open spec fn key_less(a: Key, b: Key) -> bool
    decreases a.len(),
{
    if b.len() == 0 {
        false
    } else if a.len() == 0 {
        true
    } else if a[0] == b[0] {
        key_less(a.skip(1), b.skip(1))
    } else {
        part_less(a[0], b[0])
    }
}

proof fn lemma_rejoin<A>(a: Seq<A>, b: Seq<A>)
    requires
        a.len() > 0,
        b.len() > 0,
        a[0] == b[0],
    ensures
        (a == b) == (a.skip(1) == b.skip(1)),
{
    if a.skip(1) == b.skip(1) {
        assert(a =~= seq![a[0]] + a.skip(1));
        assert(b =~= seq![b[0]] + b.skip(1));
    }
}

proof fn lemma_part_total(a: Part, b: Part)
    ensures
        a == b || part_less(a, b) || part_less(b, a),
        !(part_less(a, b) && part_less(b, a)),
        a == b ==> !part_less(a, b),
    decreases a.len(),
{
    if a.len() > 0 && b.len() > 0 {
        if a[0] == b[0] {
            lemma_part_total(a.skip(1), b.skip(1));
            lemma_rejoin(a, b);
        }
    } else if a.len() == 0 && b.len() == 0 {
        assert(a =~= b);
    }
}

proof fn lemma_part_transitive(a: Part, b: Part, c: Part)
    requires
        part_less(a, b),
        part_less(b, c),
    ensures
        part_less(a, c),
    decreases a.len(),
{
    if a.len() > 0 && a[0] == b[0] && b[0] == c[0] {
        lemma_part_transitive(a.skip(1), b.skip(1), c.skip(1));
    }
}

/// Of two keys one comes before the other, or they are the same.
pub proof fn lemma_key_total(a: Key, b: Key)
    ensures
        a == b || key_less(a, b) || key_less(b, a),
        !(key_less(a, b) && key_less(b, a)),
        a == b ==> !key_less(a, b),
    decreases a.len(),
{
    if a.len() > 0 && b.len() > 0 {
        if a[0] == b[0] {
            lemma_key_total(a.skip(1), b.skip(1));
            lemma_rejoin(a, b);
        } else {
            lemma_part_total(a[0], b[0]);
        }
    } else if a.len() == 0 && b.len() == 0 {
        assert(a =~= b);
    }
}

/// A key before a key that comes before a third one comes before the third.
pub proof fn lemma_key_transitive(a: Key, b: Key, c: Key)
    requires
        key_less(a, b),
        key_less(b, c),
    ensures
        key_less(a, c),
    decreases a.len(),
{
    if a.len() > 0 {
        if a[0] == b[0] && b[0] == c[0] {
            lemma_key_transitive(a.skip(1), b.skip(1), c.skip(1));
        } else if a[0] != b[0] && b[0] != c[0] {
            lemma_part_transitive(a[0], b[0], c[0]);
            lemma_part_total(a[0], c[0]);
        }
    }
}

/// What a part in memory holds.
pub open spec fn key_view(key: Seq<Vec<u32>>) -> Key {
    key.map_values(|p: Vec<u32>| p@)
}

/// What a list of keys in memory holds.
pub open spec fn keys_view(keys: Seq<Vec<Vec<u32>>>) -> Seq<Key> {
    keys.map_values(|k: Vec<Vec<u32>>| key_view(k@))
}

/// One more part.
pub proof fn lemma_key_push(key: Seq<Vec<u32>>, part: Vec<u32>)
    ensures
        key_view(key.push(part)) == key_view(key).push(part@),
{
    assert(key_view(key.push(part)) =~= key_view(key).push(part@));
}

/// One more key.
pub proof fn lemma_keys_push(keys: Seq<Vec<Vec<u32>>>, key: Vec<Vec<u32>>)
    ensures
        keys_view(keys.push(key)) == keys_view(keys).push(key_view(key@)),
{
    assert(keys_view(keys.push(key)) =~= keys_view(keys).push(key_view(key@)));
}

fn rank_parts(a: &Vec<u32>, b: &Vec<u32>) -> (r: Rank)
    ensures
        (r is Before) == part_less(a@, b@),
        (r is Same) == (a@ == b@),
        (r is After) == part_less(b@, a@),
{
    let mut i: usize = 0;
    assert(a@.skip(0) =~= a@);
    assert(b@.skip(0) =~= b@);
    while i < a.len() && i < b.len()
        invariant
            i <= a@.len(),
            i <= b@.len(),
            part_less(a@, b@) == part_less(a@.skip(i as int), b@.skip(i as int)),
            part_less(b@, a@) == part_less(b@.skip(i as int), a@.skip(i as int)),
            (a@ == b@) == (a@.skip(i as int) == b@.skip(i as int)),
        decreases a@.len() - i,
    {
        let ghost ra = a@.skip(i as int);
        let ghost rb = b@.skip(i as int);
        assert(ra.skip(1) =~= a@.skip(i + 1));
        assert(rb.skip(1) =~= b@.skip(i + 1));
        if a[i] != b[i] {
            proof {
                lemma_part_total(ra, rb);
            }
            if a[i] < b[i] {
                return Rank::Before;
            }
            return Rank::After;
        }
        proof {
            lemma_rejoin(ra, rb);
        }
        i = i + 1;
    }
    proof {
        lemma_part_total(a@.skip(i as int), b@.skip(i as int));
    }
    if i < b.len() {
        Rank::Before
    } else if i < a.len() {
        Rank::After
    } else {
        assert(a@.skip(i as int) =~= b@.skip(i as int));
        Rank::Same
    }
}

/// How key `a` stands to key `b`.
pub fn rank_keys(a: &Vec<Vec<u32>>, b: &Vec<Vec<u32>>) -> (r: Rank)
    ensures
        (r is Before) == key_less(key_view(a@), key_view(b@)),
        (r is Same) == (key_view(a@) == key_view(b@)),
        (r is After) == key_less(key_view(b@), key_view(a@)),
{
    let ghost ka = key_view(a@);
    let ghost kb = key_view(b@);
    let mut i: usize = 0;
    assert(ka.skip(0) =~= ka);
    assert(kb.skip(0) =~= kb);
    while i < a.len() && i < b.len()
        invariant
            i <= a@.len(),
            i <= b@.len(),
            ka == key_view(a@),
            kb == key_view(b@),
            key_less(ka, kb) == key_less(ka.skip(i as int), kb.skip(i as int)),
            key_less(kb, ka) == key_less(kb.skip(i as int), ka.skip(i as int)),
            (ka == kb) == (ka.skip(i as int) == kb.skip(i as int)),
        decreases a@.len() - i,
    {
        let ghost ra = ka.skip(i as int);
        let ghost rb = kb.skip(i as int);
        assert(ra.skip(1) =~= ka.skip(i + 1));
        assert(rb.skip(1) =~= kb.skip(i + 1));
        assert(ra[0] == a@[i as int]@);
        assert(rb[0] == b@[i as int]@);
        match rank_parts(&a[i], &b[i]) {
            Rank::Before => {
                proof {
                    lemma_key_total(ra, rb);
                    lemma_part_total(ra[0], rb[0]);
                }
                return Rank::Before;
            },
            Rank::After => {
                proof {
                    lemma_key_total(ra, rb);
                    lemma_part_total(ra[0], rb[0]);
                }
                return Rank::After;
            },
            Rank::Same => {
                proof {
                    lemma_rejoin(ra, rb);
                }
            },
        }
        i = i + 1;
    }
    proof {
        lemma_key_total(ka.skip(i as int), kb.skip(i as int));
    }
    if i < b.len() {
        Rank::Before
    } else if i < a.len() {
        Rank::After
    } else {
        assert(ka.skip(i as int) =~= kb.skip(i as int));
        Rank::Same
    }
}

/// In a stable order place `i` comes before place `j`: its key is the lesser one,
/// or the keys are the same and `i` is the smaller place.
pub open spec fn goes_before(keys: Seq<Key>, i: int, j: int) -> bool {
    key_less(keys[i], keys[j]) || (keys[i] == keys[j] && i < j)
}

/// `order` lists each of the first `n` places once, in stable order of the keys.
pub open spec fn is_stable_order(keys: Seq<Key>, n: int, order: Seq<int>) -> bool {
    &&& order.len() == n
    &&& forall|a: int| 0 <= a < n ==> 0 <= #[trigger] order[a] < n
    &&& forall|a: int, b: int|
        0 <= a < b < n ==> goes_before(keys, #[trigger] order[a], #[trigger] order[b])
    &&& forall|k: int| 0 <= k < n ==> #[trigger] order.contains(k)
}

proof fn lemma_before_transitive(keys: Seq<Key>, i: int, j: int, k: int)
    requires
        goes_before(keys, i, j),
        goes_before(keys, j, k),
    ensures
        goes_before(keys, i, k),
{
    if key_less(keys[i], keys[j]) && key_less(keys[j], keys[k]) {
        lemma_key_transitive(keys[i], keys[j], keys[k]);
    }
}

/// Putting the next place behind all places whose key is not greater keeps the
/// order stable.
proof fn lemma_insert_place(keys: Seq<Key>, n: int, order: Seq<int>, p: int)
    requires
        0 <= n < keys.len(),
        is_stable_order(keys, n, order),
        0 <= p <= n,
        p < n ==> key_less(keys[n], keys[order[p]]),
        p > 0 ==> !key_less(keys[n], keys[order[p - 1]]),
    ensures
        is_stable_order(keys, n + 1, order.insert(p, n)),
{
    let r = order.insert(p, n);
    assert forall|a: int| 0 <= a < p implies goes_before(keys, #[trigger] order[a], n) by {
        lemma_key_total(keys[order[p - 1]], keys[n]);
        assert(goes_before(keys, order[p - 1], n));
        if a < p - 1 {
            lemma_before_transitive(keys, order[a], order[p - 1], n);
        }
    }
    assert forall|a: int| p <= a < n implies goes_before(keys, n, #[trigger] order[a]) by {
        assert(goes_before(keys, n, order[p]));
        if a > p {
            lemma_before_transitive(keys, n, order[p], order[a]);
        }
    }
    assert forall|a: int, b: int| 0 <= a < b < n + 1 implies goes_before(
        keys,
        #[trigger] r[a],
        #[trigger] r[b],
    ) by {
        let oa = if a < p { a } else { a - 1 };
        let ob = if b < p { b } else { b - 1 };
        if a == p {
            assert(r[b] == order[b - 1]);
        } else if b == p {
            assert(r[a] == order[a]);
        } else {
            assert(r[a] == order[oa] && r[b] == order[ob]);
        }
    }
    assert forall|k: int| 0 <= k < n + 1 implies #[trigger] r.contains(k) by {
        if k == n {
            assert(r[p] == n);
        } else {
            assert(order.contains(k));
            let a = choose|a: int| 0 <= a < order.len() && order[a] == k;
            if a < p {
                assert(r[a] == k);
            } else {
                assert(r[a + 1] == k);
            }
        }
    }
}

proof fn lemma_same_up_to(keys: Seq<Key>, n: int, x: Seq<int>, y: Seq<int>, i: int)
    requires
        0 <= i <= n,
        is_stable_order(keys, n, x),
        is_stable_order(keys, n, y),
    ensures
        forall|a: int| 0 <= a < i ==> x[a] == y[a],
    decreases i,
{
    if i > 0 {
        lemma_same_up_to(keys, n, x, y, i - 1);
        let a = i - 1;
        if x[a] != y[a] {
            assert(x.contains(y[a]));
            assert(y.contains(x[a]));
            let p = choose|p: int| 0 <= p < x.len() && x[p] == y[a];
            let q = choose|q: int| 0 <= q < y.len() && y[q] == x[a];
            lemma_key_total(keys[x[a]], keys[y[a]]);
            if p < a {
                assert(y[p] == y[a]);
                assert(goes_before(keys, y[p], y[a]));
                lemma_key_total(keys[y[a]], keys[y[a]]);
            }
            if q < a {
                assert(x[q] == x[a]);
                assert(goes_before(keys, x[q], x[a]));
                lemma_key_total(keys[x[a]], keys[x[a]]);
            }
            assert(p > a && q > a);
            assert(goes_before(keys, x[a], x[p]));
            assert(goes_before(keys, y[a], y[q]));
            assert(false);
        }
    }
}

/// There is no more than one stable order.
pub proof fn lemma_stable_order_unique(keys: Seq<Key>, x: Seq<int>, y: Seq<int>)
    requires
        is_stable_order(keys, keys.len() as int, x),
        is_stable_order(keys, keys.len() as int, y),
    ensures
        x == y,
{
    lemma_same_up_to(keys, keys.len() as int, x, y, keys.len() as int);
    assert(x =~= y);
}

proof fn lemma_some_stable_order(keys: Seq<Key>, n: int) -> (order: Seq<int>)
    requires
        0 <= n <= keys.len(),
    ensures
        is_stable_order(keys, n, order),
    decreases n,
{
    if n == 0 {
        Seq::empty()
    } else {
        let order = lemma_some_stable_order(keys, n - 1);
        let p = lemma_place(keys, n - 1, order, n - 1);
        lemma_insert_place(keys, n - 1, order, p);
        order.insert(p, n - 1)
    }
}

proof fn lemma_place(keys: Seq<Key>, n: int, order: Seq<int>, from: int) -> (p: int)
    requires
        0 <= from <= n == order.len(),
        from < n ==> key_less(keys[n], keys[order[from]]),
    ensures
        0 <= p <= from,
        p < n ==> key_less(keys[n], keys[order[p]]),
        p > 0 ==> !key_less(keys[n], keys[order[p - 1]]),
    decreases from,
{
    if from > 0 && key_less(keys[n], keys[order[from - 1]]) {
        lemma_place(keys, n, order, from - 1)
    } else {
        from
    }
}

/// The places of the keys in stable order.
pub open spec fn stable_order(keys: Seq<Key>) -> Seq<int> {
    choose|order: Seq<int>| is_stable_order(keys, keys.len() as int, order)
}

/// The stable order is one.
pub proof fn lemma_stable_order(keys: Seq<Key>)
    ensures
        is_stable_order(keys, keys.len() as int, stable_order(keys)),
{
    let order = lemma_some_stable_order(keys, keys.len() as int);
}

/// `order` without the places whose key is that of the place before them.
pub open spec fn without_repeats(keys: Seq<Key>, order: Seq<int>) -> Seq<int>
    decreases order.len(),
{
    if order.len() == 0 {
        order
    } else {
        let rest = without_repeats(keys, order.drop_last());
        if order.len() > 1 && keys[order[order.len() - 2]] == keys[order.last()] {
            rest
        } else {
            rest.push(order.last())
        }
    }
}

/// The items at the given places.
pub open spec fn pick<T>(items: Seq<T>, places: Seq<int>) -> Seq<T> {
    places.map_values(|i: int| items[i])
}

/// The items sorted by their keys; items with the same key stay as they were.
pub open spec fn sorted_by<T>(items: Seq<T>, keys: Seq<Key>) -> Seq<T> {
    pick(items, stable_order(keys))
}

/// The items sorted by their keys, and of the items with one key only the first.
pub open spec fn sorted_unique_by<T>(items: Seq<T>, keys: Seq<Key>) -> Seq<T> {
    pick(items, without_repeats(keys, stable_order(keys)))
}

/// What a list of places in memory holds.
pub open spec fn places_view(places: Seq<usize>) -> Seq<int> {
    places.map_values(|i: usize| i as int)
}

/// The places of the keys in stable order, as `slice::sort_by_key` leaves them.
pub fn order_by_keys(keys: &Vec<Vec<Vec<u32>>>) -> (r: Vec<usize>)
    ensures
        places_view(r@) == stable_order(keys_view(keys@)),
        r@.len() == keys@.len(),
        forall|a: int| 0 <= a < r@.len() ==> #[trigger] r@[a] < keys@.len(),
{
    let ghost ks = keys_view(keys@);
    let mut r: Vec<usize> = Vec::new();
    let mut n: usize = 0;
    while n < keys.len()
        invariant
            n <= keys@.len(),
            ks == keys_view(keys@),
            is_stable_order(ks, n as int, places_view(r@)),
        decreases keys@.len() - n,
    {
        let ghost order = places_view(r@);
        assert(r@.len() == n);
        let mut p: usize = n;
        while p > 0
            invariant
                0 <= p <= n == r@.len(),
                n < keys@.len(),
                ks == keys_view(keys@),
                order == places_view(r@),
                is_stable_order(ks, n as int, order),
                p < n ==> key_less(ks[n as int], ks[order[p as int]]),
            ensures
                p > 0 ==> !key_less(ks[n as int], ks[order[p - 1]]),
            decreases p,
        {
            let q = r[p - 1];
            assert(order[p - 1] == q);
            assert(ks[q as int] == key_view(keys@[q as int]@));
            assert(ks[n as int] == key_view(keys@[n as int]@));
            let before = match rank_keys(&keys[n], &keys[q]) {
                Rank::Before => true,
                _ => false,
            };
            if !before {
                break;
            }
            p = p - 1;
        }
        proof {
            lemma_insert_place(ks, n as int, order, p as int);
        }
        r.insert(p, n);
        assert(places_view(r@) =~= order.insert(p as int, n as int));
        n = n + 1;
    }
    proof {
        lemma_stable_order(ks);
        lemma_stable_order_unique(ks, places_view(r@), stable_order(ks));
        assert forall|a: int| 0 <= a < r@.len() implies #[trigger] r@[a] < keys@.len() by {
            assert(places_view(r@)[a] == r@[a]);
        }
    }
    r
}

/// The places of the keys in stable order, without those whose key is that of the
/// place before them: `slice::sort` and then `Vec::dedup`.
pub fn order_unique_by_keys(keys: &Vec<Vec<Vec<u32>>>) -> (r: Vec<usize>)
    ensures
        places_view(r@) == without_repeats(
            keys_view(keys@),
            stable_order(keys_view(keys@)),
        ),
        forall|a: int| 0 <= a < r@.len() ==> #[trigger] r@[a] < keys@.len(),
{
    let ghost ks = keys_view(keys@);
    let all = order_by_keys(keys);
    let ghost order = places_view(all@);
    let mut r: Vec<usize> = Vec::new();
    let mut i: usize = 0;
    assert(places_view(r@) =~= without_repeats(ks, order.take(0)));
    while i < all.len()
        invariant
            i <= all@.len(),
            ks == keys_view(keys@),
            order == places_view(all@),
            forall|a: int| 0 <= a < all@.len() ==> #[trigger] all@[a] < keys@.len(),
            forall|a: int| 0 <= a < r@.len() ==> #[trigger] r@[a] < keys@.len(),
            places_view(r@) == without_repeats(ks, order.take(i as int)),
        decreases all@.len() - i,
    {
        let ghost grown = order.take(i + 1);
        assert(grown.drop_last() =~= order.take(i as int));
        assert(grown.last() == all@[i as int]);
        assert(ks[all@[i as int] as int] == key_view(keys@[all@[i as int] as int]@));
        let mut repeat = false;
        if i > 0 {
            assert(grown[i - 1] == all@[i - 1]);
            assert(ks[all@[i - 1] as int] == key_view(keys@[all@[i - 1] as int]@));
            repeat = match rank_keys(&keys[all[i - 1]], &keys[all[i]]) {
                Rank::Same => true,
                _ => false,
            };
        }
        if !repeat {
            let ghost held = r@;
            r.push(all[i]);
            assert(places_view(r@) =~= places_view(held).push(all@[i as int] as int));
        }
        i = i + 1;
    }
    assert(order.take(i as int) =~= order);
    r
}

/// `places` are those of the first item with each key, in the order of the keys.
pub open spec fn is_unique_order(keys: Seq<Key>, places: Seq<int>) -> bool {
    &&& forall|a: int| 0 <= a < places.len() ==> 0 <= #[trigger] places[a] < keys.len()
    &&& forall|a: int, b: int|
        0 <= a < b < places.len() ==> key_less(
            keys[#[trigger] places[a]],
            keys[#[trigger] places[b]],
        )
    &&& forall|k: int| 0 <= k < keys.len() ==> #[trigger] is_covered(keys, places, k)
}

/// The key of the place `k` is that of a place in the list, which is not behind it.
pub open spec fn is_covered(keys: Seq<Key>, places: Seq<int>, k: int) -> bool {
    exists|a: int|
        0 <= a < places.len() && keys[#[trigger] places[a]] == keys[k] && places[a] <= k
}

proof fn lemma_without_repeats(keys: Seq<Key>, order: Seq<int>, m: int)
    requires
        is_stable_order(keys, keys.len() as int, order),
        0 <= m <= order.len(),
    ensures
        ({
            let w = without_repeats(keys, order.take(m));
            &&& forall|a: int| 0 <= a < w.len() ==> 0 <= #[trigger] w[a] < keys.len()
            &&& forall|a: int, b: int|
                0 <= a < b < w.len() ==> key_less(keys[#[trigger] w[a]], keys[#[trigger] w[b]])
            &&& m > 0 ==> w.len() > 0 && keys[w.last()] == keys[order[m - 1]] && w.last() <= order[m
                - 1]
            &&& forall|c: int| 0 <= c < m ==> is_covered(keys, w, #[trigger] order[c])
        }),
    decreases m,
{
    if m > 0 {
        lemma_without_repeats(keys, order, m - 1);
        let now = order.take(m);
        let old_w = without_repeats(keys, order.take(m - 1));
        let w = without_repeats(keys, now);
        assert(now.drop_last() =~= order.take(m - 1));
        assert(now.last() == order[m - 1]);
        if m > 1 {
            assert(now[m - 2] == order[m - 2]);
            assert(goes_before(keys, order[m - 2], order[m - 1]));
        }
        if m > 1 && keys[order[m - 2]] == keys[order[m - 1]] {
            assert(w == old_w);
            lemma_key_total(keys[order[m - 2]], keys[order[m - 1]]);
            assert forall|c: int| 0 <= c < m implies is_covered(keys, w, #[trigger] order[c]) by {
                if c == m - 1 {
                    assert(keys[w[w.len() - 1]] == keys[order[c]] && w[w.len() - 1] <= order[c]);
                }
            }
        } else {
            assert(w == old_w.push(order[m - 1]));
            assert forall|a: int, b: int| 0 <= a < b < w.len() implies key_less(
                keys[#[trigger] w[a]],
                keys[#[trigger] w[b]],
            ) by {
                if b == w.len() - 1 {
                    let last = old_w.last();
                    assert(key_less(keys[last], keys[order[m - 1]]));
                    if a < old_w.len() - 1 {
                        assert(key_less(keys[old_w[a]], keys[old_w[old_w.len() - 1]]));
                        lemma_key_transitive(keys[w[a]], keys[last], keys[w[b]]);
                    }
                } else {
                    assert(w[a] == old_w[a] && w[b] == old_w[b]);
                }
            }
            assert forall|c: int| 0 <= c < m implies is_covered(keys, w, #[trigger] order[c]) by {
                if c == m - 1 {
                    assert(w[w.len() - 1] == order[c]);
                } else {
                    assert(is_covered(keys, old_w, order[c]));
                    let a = choose|a: int|
                        0 <= a < old_w.len() && keys[#[trigger] old_w[a]] == keys[order[c]]
                            && old_w[a] <= order[c];
                    assert(w[a] == old_w[a]);
                }
            }
        }
    }
}

/// Sorting and then leaving out repeats keeps the first item with each key, in the
/// order of the keys.
pub proof fn lemma_unique_order(keys: Seq<Key>)
    ensures
        is_unique_order(keys, without_repeats(keys, stable_order(keys))),
{
    lemma_stable_order(keys);
    let order = stable_order(keys);
    let w = without_repeats(keys, order);
    lemma_without_repeats(keys, order, order.len() as int);
    assert(order.take(order.len() as int) =~= order);
    assert forall|k: int| 0 <= k < keys.len() implies #[trigger] is_covered(keys, w, k) by {
        assert(order.contains(k));
        let c = choose|c: int| 0 <= c < order.len() && order[c] == k;
        assert(is_covered(keys, w, order[c]));
    }
}

} // verus!
