//! Stable ordering of listings by a key made of a small group number and a
//! string, compared as Rust compares `(u8, String)`: group first, then the
//! strings character by character.
use vstd::prelude::*;

verus! {

broadcast use vstd::std_specs::vec::group_vec_axioms;

/// `a < b` for strings, as `String`'s `Ord` decides it (code point by code
/// point; a proper prefix comes first).
pub open spec fn chars_lt(a: Seq<char>, b: Seq<char>) -> bool
    decreases a.len(),
{
    if a.len() == 0 {
        b.len() > 0
    } else if b.len() == 0 {
        false
    } else if a[0] == b[0] {
        chars_lt(a.drop_first(), b.drop_first())
    } else {
        (a[0] as int) < (b[0] as int)
    }
}

/// A sort key: a group (compared first) and a string.
pub open spec fn key_lt(a: (u8, Seq<char>), b: (u8, Seq<char>)) -> bool {
    a.0 < b.0 || (a.0 == b.0 && chars_lt(a.1, b.1))
}

/// The order a listing is sorted in: ascending keys, or descending ones.
pub open spec fn ord_lt(descending: bool, a: (u8, Seq<char>), b: (u8, Seq<char>)) -> bool {
    if descending {
        key_lt(b, a)
    } else {
        key_lt(a, b)
    }
}

/// `r` lists the positions `0..keys.len()` once each, in the order a stable
/// sort puts them: keys in order, and positions with equal keys in
/// increasing order.
pub open spec fn is_stable_order(keys: Seq<(u8, Seq<char>)>, descending: bool, r: Seq<usize>) -> bool {
    &&& r.len() == keys.len()
    &&& forall|i: int| 0 <= i < r.len() ==> #[trigger] r[i] < keys.len()
    &&& r.no_duplicates()
    &&& forall|i: int, j: int| 0 <= i < j < r.len() ==> !ord_lt(descending, #[trigger] keys[r[j] as int], #[trigger] keys[r[i] as int])
    &&& forall|i: int, j: int| 0 <= i < j < r.len() && keys[r[i] as int] == keys[r[j] as int] ==> #[trigger] r[i] < #[trigger] r[j]
}

pub proof fn lemma_chars_lt_irreflexive(a: Seq<char>)
    ensures
        !chars_lt(a, a),
    decreases a.len(),
{
    if a.len() > 0 {
        lemma_chars_lt_irreflexive(a.drop_first());
    }
}

pub proof fn lemma_chars_lt_transitive(a: Seq<char>, b: Seq<char>, c: Seq<char>)
    requires
        chars_lt(a, b),
        chars_lt(b, c),
    ensures
        chars_lt(a, c),
    decreases a.len(),
{
    if a.len() > 0 && b.len() > 0 && c.len() > 0 {
        if a[0] == b[0] && b[0] == c[0] {
            lemma_chars_lt_transitive(a.drop_first(), b.drop_first(), c.drop_first());
        }
    }
}

pub proof fn lemma_chars_lt_total(a: Seq<char>, b: Seq<char>)
    ensures
        a == b || chars_lt(a, b) || chars_lt(b, a),
    decreases a.len(),
{
    if a.len() > 0 && b.len() > 0 {
        if a[0] == b[0] {
            lemma_chars_lt_total(a.drop_first(), b.drop_first());
            if a.drop_first() == b.drop_first() {
                assert(a =~= seq![a[0]] + a.drop_first());
                assert(b =~= seq![b[0]] + b.drop_first());
            }
        } else {
            assert((a[0] as int) != (b[0] as int));
        }
    } else if a.len() == 0 && b.len() == 0 {
        assert(a =~= b);
    }
}

/// `ord_lt` is a strict total order.
pub proof fn lemma_ord_facts(d: bool)
    ensures
        forall|a: (u8, Seq<char>)| !#[trigger] ord_lt(d, a, a),
        forall|a: (u8, Seq<char>), b: (u8, Seq<char>), c: (u8, Seq<char>)|
            #[trigger] ord_lt(d, a, b) && #[trigger] ord_lt(d, b, c) ==> ord_lt(d, a, c),
        forall|a: (u8, Seq<char>), b: (u8, Seq<char>)| a != b ==> #[trigger] ord_lt(d, a, b) || ord_lt(d, b, a),
{
    assert forall|a: (u8, Seq<char>)| !#[trigger] ord_lt(d, a, a) by {
        lemma_chars_lt_irreflexive(a.1);
    }
    assert forall|a: (u8, Seq<char>), b: (u8, Seq<char>), c: (u8, Seq<char>)|
        #[trigger] ord_lt(d, a, b) && #[trigger] ord_lt(d, b, c) implies ord_lt(d, a, c) by {
        if a.0 == b.0 && b.0 == c.0 {
            if d {
                lemma_chars_lt_transitive(c.1, b.1, a.1);
            } else {
                lemma_chars_lt_transitive(a.1, b.1, c.1);
            }
        }
    }
    assert forall|a: (u8, Seq<char>), b: (u8, Seq<char>)| a != b implies #[trigger] ord_lt(d, a, b) || ord_lt(d, b, a) by {
        lemma_chars_lt_total(a.1, b.1);
    }
}

/// Decides `chars_lt(a@, b@)`.
pub fn chars_less(a: &Vec<char>, b: &Vec<char>) -> (r: bool)
    ensures
        r == chars_lt(a@, b@),
{
    let mut i: usize = 0;
    assert(a@.skip(0) =~= a@);
    assert(b@.skip(0) =~= b@);
    while i < a.len() && i < b.len() && a[i] == b[i]
        invariant
            0 <= i <= a@.len(),
            i <= b@.len(),
            chars_lt(a@, b@) == chars_lt(a@.skip(i as int), b@.skip(i as int)),
        decreases a.len() - i,
    {
        assert(a@.skip(i as int).drop_first() =~= a@.skip(i + 1));
        assert(b@.skip(i as int).drop_first() =~= b@.skip(i + 1));
        i = i + 1;
    }
    if i == a.len() {
        i < b.len()
    } else if i == b.len() {
        false
    } else {
        assert(a@.skip(i as int)[0] == a@[i as int]);
        assert(b@.skip(i as int)[0] == b@[i as int]);
        a[i] < b[i]
    }
}

pub open spec fn key_views(keys: Seq<(u8, Vec<char>)>) -> Seq<(u8, Seq<char>)> {
    Seq::new(keys.len(), |i: int| (keys[i].0, keys[i].1@))
}

fn key_less(descending: bool, a: &(u8, Vec<char>), b: &(u8, Vec<char>)) -> (r: bool)
    ensures
        r == ord_lt(descending, (a.0, a.1@), (b.0, b.1@)),
{
    if descending {
        b.0 < a.0 || (b.0 == a.0 && chars_less(&b.1, &a.1))
    } else {
        a.0 < b.0 || (a.0 == b.0 && chars_less(&a.1, &b.1))
    }
}

/// The positions of `keys` in stable sorted order.
pub fn stable_order(keys: &Vec<(u8, Vec<char>)>, descending: bool) -> (r: Vec<usize>)
    ensures
        is_stable_order(key_views(keys@), descending, r@),
{
    let ghost ks = key_views(keys@);
    proof {
        lemma_ord_facts(descending);
    }
    let mut r: Vec<usize> = Vec::new();
    let mut i: usize = 0;
    while i < keys.len()
        invariant
            0 <= i <= keys@.len(),
            ks == key_views(keys@),
            is_stable_order(ks.take(i as int), descending, r@),
            forall|a: (u8, Seq<char>)| !#[trigger] ord_lt(descending, a, a),
            forall|a: (u8, Seq<char>), b: (u8, Seq<char>), c: (u8, Seq<char>)|
                #[trigger] ord_lt(descending, a, b) && #[trigger] ord_lt(descending, b, c) ==> ord_lt(descending, a, c),
            forall|a: (u8, Seq<char>), b: (u8, Seq<char>)| a != b ==> #[trigger] ord_lt(descending, a, b) || ord_lt(
                descending,
                b,
                a,
            ),
        decreases keys.len() - i,
    {
        let ghost t = ks.take(i as int);
        let ghost t1 = ks.take(i + 1);
        assert forall|k: int| 0 <= k < i implies t1[k] == t[k] by {}
        assert(t1[i as int] == ks[i as int]);
        // the first position whose key comes after key i
        let mut p: usize = 0;
        while p < r.len() && !key_less(descending, &keys[i], &keys[r[p]])
            invariant
                0 <= p <= r@.len(),
                r@.len() == i,
                forall|q: int| 0 <= q < r@.len() ==> #[trigger] r@[q] < i,
                ks == key_views(keys@),
                i < keys@.len(),
                forall|q: int| 0 <= q < p ==> !ord_lt(descending, ks[i as int], #[trigger] ks[r@[q] as int]),
            decreases r.len() - p,
        {
            p = p + 1;
        }
        let ghost old_r = r@;
        // after p, every key comes after key i
        assert forall|q: int| p <= q < old_r.len() implies ord_lt(descending, ks[i as int], #[trigger] ks[old_r[q] as int]) by {
            assert(ord_lt(descending, ks[i as int], ks[old_r[p as int] as int]));
            if q > p {
                assert(!ord_lt(descending, t[old_r[q] as int], t[old_r[p as int] as int]));
                assert(t[old_r[q] as int] == ks[old_r[q] as int]);
                assert(t[old_r[p as int] as int] == ks[old_r[p as int] as int]);
                if ks[old_r[q] as int] != ks[old_r[p as int] as int] {
                    assert(ord_lt(descending, ks[old_r[p as int] as int], ks[old_r[q] as int]));
                }
            }
        }
        r.insert(p, i);
        let ghost nr = r@;
        assert(nr.len() == i + 1);
        assert forall|q: int| 0 <= q < nr.len() implies #[trigger] nr[q] < t1.len() by {
            if q < p {
                assert(nr[q] == old_r[q]);
            } else if q > p {
                assert(nr[q] == old_r[q - 1]);
            }
        }
        assert forall|a: int, b: int| 0 <= a < b < nr.len() implies nr[a] != nr[b] by {
            if a < p && b < p {
                assert(old_r[a] != old_r[b]);
            } else if a < p && b == p {
                assert(old_r[a] < i);
            } else if a < p && b > p {
                assert(old_r[a] != old_r[b - 1]);
            } else if a == p {
                assert(old_r[b - 1] < i);
            } else {
                assert(old_r[a - 1] != old_r[b - 1]);
            }
        }
        assert forall|a: int, b: int| 0 <= a < b < nr.len() implies !ord_lt(descending, #[trigger] t1[nr[b] as int], #[trigger] t1[nr[a] as int]) by {
            let ka = if a < p { old_r[a] } else if a == p { i } else { old_r[a - 1] };
            let kb = if b < p { old_r[b] } else if b == p { i } else { old_r[b - 1] };
            assert(nr[a] == ka && nr[b] == kb);
            assert(t1[ka as int] == ks[ka as int]);
            assert(t1[kb as int] == ks[kb as int]);
            if a != p && b != p {
                let oa = if a < p { a } else { a - 1 };
                let ob = if b < p { b } else { b - 1 };
                assert(!ord_lt(descending, t[old_r[ob] as int], t[old_r[oa] as int]));
            } else if a == p {
                assert(ord_lt(descending, ks[i as int], ks[old_r[b - 1] as int]));
            } else {
                assert(!ord_lt(descending, ks[i as int], ks[old_r[a] as int]));
                if ord_lt(descending, ks[i as int], ks[old_r[a] as int]) {
                } else if ks[i as int] != ks[old_r[a] as int] {
                }
            }
        }
        assert forall|a: int, b: int| 0 <= a < b < nr.len() && t1[nr[a] as int] == t1[nr[b] as int] implies #[trigger] nr[a] < #[trigger] nr[b] by {
            let ka = if a < p { old_r[a] } else if a == p { i } else { old_r[a - 1] };
            let kb = if b < p { old_r[b] } else if b == p { i } else { old_r[b - 1] };
            assert(nr[a] == ka && nr[b] == kb);
            if a != p && b != p {
                let oa = if a < p { a } else { a - 1 };
                let ob = if b < p { b } else { b - 1 };
                assert(t[old_r[oa] as int] == t1[ka as int]);
                assert(t[old_r[ob] as int] == t1[kb as int]);
            } else if a == p {
                assert(ord_lt(descending, ks[i as int], ks[old_r[b - 1] as int]));
                assert(t1[kb as int] == ks[kb as int]);
            } else {
                assert(old_r[a] < i);
            }
        }
        assert(is_stable_order(t1, descending, nr));
        i = i + 1;
    }
    assert(ks.take(keys@.len() as int) =~= ks);
    r
}

} // verus!
