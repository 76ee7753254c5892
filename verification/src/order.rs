//! Stable ordering of items by an integer key.

use vstd::prelude::*;

verus! {

/// `(ka, ia)` comes strictly before `(kb, ib)`: by key, then by position.
pub open spec fn key_before(ka: int, ia: int, kb: int, ib: int) -> bool {
    ka < kb || (ka == kb && ia < ib)
}

/// `p` lists every position of `keys` once, ordered by key and, among equal
/// keys, by position: the order a stable ascending sort produces.
pub open spec fn stable_order(keys: Seq<i128>, p: Seq<usize>) -> bool {
    &&& p.len() == keys.len()
    &&& forall|j: int| 0 <= j < p.len() ==> (p[j] as int) < keys.len()
    &&& forall|j: int, k: int|
        0 <= j < k < p.len() ==> key_before(
            keys[p[j] as int] as int,
            p[j] as int,
            keys[p[k] as int] as int,
            p[k] as int,
        )
}

/// The positions of `keys` in stable ascending key order.
pub fn stable_order_asc(keys: &Vec<i128>) -> (p: Vec<usize>)
    ensures
        stable_order(keys@, p@),
{
    let n = keys.len();
    let mut p: Vec<usize> = Vec::new();
    let mut i: usize = 0;
    while i < n
        invariant
            n == keys.len(),
            i <= n,
            p.len() == i,
            forall|j: int| 0 <= j < p.len() ==> (p@[j] as int) < i,
            forall|j: int, k: int|
                0 <= j < k < p.len() ==> key_before(
                    keys@[p@[j] as int] as int,
                    p@[j] as int,
                    keys@[p@[k] as int] as int,
                    p@[k] as int,
                ),
        decreases n - i,
    {
        let ki = keys[i];
        let mut pos = p.len();
        while pos > 0 && keys[p[pos - 1]] > ki
            invariant
                n == keys.len(),
                i < n,
                ki == keys@[i as int],
                pos <= p.len(),
                forall|j: int| 0 <= j < p.len() ==> (p@[j] as int) < i,
                forall|j: int| pos <= j < p.len() ==> keys@[p@[j] as int] > ki,
            decreases pos,
        {
            pos = pos - 1;
        }
        let ghost old_p = p@;
        p.insert(pos, i);
        proof {
            old_p.insert_ensures(pos as int, i);
            assert(p@ == old_p.insert(pos as int, i));
            assert forall|j: int, k: int| 0 <= j < k < p.len() implies key_before(
                keys@[p@[j] as int] as int,
                p@[j] as int,
                keys@[p@[k] as int] as int,
                p@[k] as int,
            ) by {
                if k < pos {
                } else if k == pos {
                    if j < pos {
                        assert(p@[j] == old_p[j]);
                        assert(j == pos - 1 || j < pos - 1);
                        if j < pos - 1 {
                            assert(key_before(
                                keys@[old_p[j] as int] as int,
                                old_p[j] as int,
                                keys@[old_p[pos - 1] as int] as int,
                                old_p[pos - 1] as int,
                            ));
                        }
                    }
                } else if j == pos {
                    assert(p@[k] == old_p[k - 1]);
                } else if j < pos {
                    assert(p@[j] == old_p[j]);
                    assert(p@[k] == old_p[k - 1]);
                } else {
                    assert(p@[j] == old_p[j - 1]);
                    assert(p@[k] == old_p[k - 1]);
                }
            }
        }
        i = i + 1;
    }
    p
}

/// The items of `v` in the order `p`: item `k` of the result is item
/// `p[k]` of `v`.
pub fn permute<T>(v: Vec<T>, keys: &Vec<i128>, p: &Vec<usize>) -> (r: Vec<T>)
    requires
        stable_order(keys@, p@),
        keys@.len() == v@.len(),
    ensures
        r@.len() == v@.len(),
        forall|k: int| 0 <= k < r@.len() ==> r@[k] == v@[p@[k] as int],
{
    let ghost orig = v@;
    let mut slots: Vec<Option<T>> = Vec::new();
    let mut rest = v;
    while rest.len() > 0
        invariant
            slots@.len() + rest@.len() == orig.len(),
            forall|k: int| 0 <= k < slots@.len() ==> slots@[k] == Some(orig[k]),
            forall|k: int| 0 <= k < rest@.len() ==> rest@[k] == orig[slots@.len() + k],
        decreases rest.len(),
    {
        let x = rest.remove(0);
        slots.push(Some(x));
    }
    let mut r: Vec<T> = Vec::new();
    let mut j: usize = 0;
    while j < p.len()
        invariant
            stable_order(keys@, p@),
            keys@.len() == orig.len(),
            slots@.len() == orig.len(),
            j <= p@.len(),
            r@.len() == j,
            forall|k: int| 0 <= k < j ==> r@[k] == orig[p@[k] as int],
            forall|k: int| j <= k < p@.len() ==> slots@[p@[k] as int] == Some(orig[p@[k] as int]),
        decreases p.len() - j,
    {
        let k = p[j];
        proof {
            assert(slots@[p@[j as int] as int] == Some(orig[p@[j as int] as int]));
        }
        let ghost before = slots@;
        let slot = slots.remove(k);
        slots.insert(k, None);
        proof {
            assert(slot == before[k as int]);
            assert(slots@ =~= before.update(k as int, None));
            assert forall|m: int| j + 1 <= m < p@.len() implies slots@[p@[m] as int] == Some(orig[p@[m] as int]) by {
                assert(key_before(
                    keys@[p@[j as int] as int] as int,
                    p@[j as int] as int,
                    keys@[p@[m] as int] as int,
                    p@[m] as int,
                ));
            }
        }
        match slot {
            Some(x) => r.push(x),
            None => {},
        }
        j = j + 1;
    }
    r
}

/// `a` comes strictly before `b` in lexicographic order of characters.
pub open spec fn lex_lt(a: Seq<char>, b: Seq<char>) -> bool
    decreases a.len(),
{
    if a.len() == 0 {
        b.len() > 0
    } else if b.len() == 0 {
        false
    } else if (a[0] as int) < (b[0] as int) {
        true
    } else if (a[0] as int) > (b[0] as int) {
        false
    } else {
        lex_lt(a.drop_first(), b.drop_first())
    }
}

/// How many of `keys` come strictly before `x` in lexicographic order.
pub open spec fn count_before(keys: Seq<Seq<char>>, x: Seq<char>) -> nat
    decreases keys.len(),
{
    if keys.len() == 0 {
        0
    } else {
        count_before(keys.drop_last(), x) + if lex_lt(keys.last(), x) { 1nat } else { 0nat }
    }
}

/// Whether `a` comes strictly before `b` in lexicographic order.
pub fn lex_less(a: &Vec<char>, b: &Vec<char>) -> (r: bool)
    ensures
        r == lex_lt(a@, b@),
{
    let mut i: usize = 0;
    assert(a@.skip(0) =~= a@);
    assert(b@.skip(0) =~= b@);
    while i < a.len() && i < b.len() && a[i] == b[i]
        invariant
            i <= a@.len(),
            i <= b@.len(),
            lex_lt(a@, b@) == lex_lt(a@.skip(i as int), b@.skip(i as int)),
        decreases a.len() - i,
    {
        let ghost sa = a@.skip(i as int);
        let ghost sb = b@.skip(i as int);
        assert(sa.drop_first() =~= a@.skip(i + 1));
        assert(sb.drop_first() =~= b@.skip(i + 1));
        i = i + 1;
    }
    let ghost sa = a@.skip(i as int);
    let ghost sb = b@.skip(i as int);
    if i == a.len() {
        assert(sa.len() == 0);
        i < b.len()
    } else if i == b.len() {
        assert(sb.len() == 0);
        false
    } else {
        assert(sa[0] == a@[i as int] && sb[0] == b@[i as int]);
        assert(a@[i as int] != b@[i as int]);
        a[i] < b[i]
    }
}

/// The ranks of texts: how many of them come strictly before each one.
/// Ordering items by rank orders them lexicographically by text.
pub fn text_ranks(texts: &Vec<Vec<char>>) -> (r: Vec<i128>)
    ensures
        r@.len() == texts@.len(),
        forall|i: int| 0 <= i < r@.len() ==> r@[i] == count_before(texts@.map_values(|t: Vec<char>| t@), texts@[i]@),
{
    let ghost ts = texts@.map_values(|t: Vec<char>| t@);
    let mut r: Vec<i128> = Vec::new();
    let mut i: usize = 0;
    while i < texts.len()
        invariant
            ts == texts@.map_values(|t: Vec<char>| t@),
            i <= texts@.len(),
            r@.len() == i,
            forall|k: int| 0 <= k < i ==> r@[k] == count_before(ts, texts@[k]@),
        decreases texts.len() - i,
    {
        let mut c: i128 = 0;
        let mut j: usize = 0;
        while j < texts.len()
            invariant
                ts == texts@.map_values(|t: Vec<char>| t@),
                i < texts@.len(),
                j <= texts@.len(),
                c == count_before(ts.take(j as int), texts@[i as int]@),
                c <= j,
            decreases texts.len() - j,
        {
            assert(ts.take(j + 1).drop_last() =~= ts.take(j as int));
            if lex_less(&texts[j], &texts[i]) {
                c = c + 1;
            }
            j = j + 1;
        }
        assert(ts.take(texts.len() as int) =~= ts);
        r.push(c);
        i = i + 1;
    }
    r
}

/// A stable order lists every position: each position is some entry of it.
pub proof fn lemma_stable_order_onto(keys: Seq<i128>, p: Seq<usize>, k: int)
    requires
        stable_order(keys, p),
        0 <= k < keys.len(),
    ensures
        exists|j: int| 0 <= j < p.len() && p[j] as int == k,
{
    let q = p.map_values(|x: usize| x as int);
    assert(q.no_duplicates()) by {
        assert forall|a: int, b: int| 0 <= a < q.len() && 0 <= b < q.len() && a != b implies q[a] != q[b] by {
            if a < b {
                assert(key_before(keys[p[a] as int] as int, p[a] as int, keys[p[b] as int] as int, p[b] as int));
            } else {
                assert(key_before(keys[p[b] as int] as int, p[b] as int, keys[p[a] as int] as int, p[a] as int));
            }
        }
    }
    q.unique_seq_to_set();
    let range = vstd::set_lib::set_int_range(0, keys.len() as int);
    vstd::set_lib::lemma_int_range(0, keys.len() as int);
    assert(q.to_set().subset_of(range)) by {
        assert forall|x: int| q.to_set().contains(x) implies range.contains(x) by {
            let j = choose|j: int| 0 <= j < q.len() && q[j] == x;
        }
    }
    vstd::seq_lib::seq_to_set_is_finite(q);
    vstd::set_lib::lemma_subset_equality(q.to_set(), range);
    assert(range.contains(k));
    assert(q.to_set().contains(k));
    let j = choose|j: int| 0 <= j < q.len() && q[j] == k;
    assert(p[j] as int == k);
}
} // verus!
