//! Grouping of items by a text key, in order of first appearance, and
//! removal of repeated texts.

use vstd::prelude::*;

verus! {

/// The texts of `s` without repetitions, in order of first appearance.
pub open spec fn distinct(s: Seq<Seq<char>>) -> Seq<Seq<char>>
    decreases s.len(),
{
    if s.len() == 0 {
        Seq::empty()
    } else {
        let prev = distinct(s.drop_last());
        if prev.contains(s.last()) {
            prev
        } else {
            prev.push(s.last())
        }
    }
}

/// The keys that are present, in order.
pub open spec fn present(keys: Seq<Option<Seq<char>>>) -> Seq<Seq<char>>
    decreases keys.len(),
{
    if keys.len() == 0 {
        Seq::empty()
    } else {
        let prev = present(keys.drop_last());
        match keys.last() {
            Some(k) => prev.push(k),
            None => prev,
        }
    }
}

/// The positions of `keys` whose key is `t`, in increasing order.
pub open spec fn positions_of(keys: Seq<Option<Seq<char>>>, t: Seq<char>) -> Seq<usize>
    decreases keys.len(),
{
    if keys.len() == 0 {
        Seq::empty()
    } else {
        let prev = positions_of(keys.drop_last(), t);
        if keys.last() == Some(t) {
            prev.push((keys.len() - 1) as usize)
        } else {
            prev
        }
    }
}

/// The views of a sequence of strings.
pub open spec fn texts(v: Seq<String>) -> Seq<Seq<char>> {
    v.map_values(|s: String| s@)
}

/// The views of a sequence of optional strings.
pub open spec fn opt_texts(v: Seq<Option<String>>) -> Seq<Option<Seq<char>>> {
    v.map_values(|o: Option<String>| match o {
        Some(s) => Some(s@),
        None => None,
    })
}

/// `distinct` holds no text twice, and exactly the texts of `s`.
pub proof fn lemma_distinct(s: Seq<Seq<char>>)
    ensures
        forall|i: int, j: int| 0 <= i < j < distinct(s).len() ==> distinct(s)[i] != distinct(s)[j],
        forall|t: Seq<char>| distinct(s).contains(t) <==> s.contains(t),
    decreases s.len(),
{
    if s.len() > 0 {
        lemma_distinct(s.drop_last());
        let prev = distinct(s.drop_last());
        assert forall|t: Seq<char>| distinct(s).contains(t) <==> s.contains(t) by {
            if !prev.contains(s.last()) {
                assert(distinct(s) == prev.push(s.last()));
                if distinct(s).contains(t) {
                    let k = choose|k: int| 0 <= k < distinct(s).len() && distinct(s)[k] == t;
                    if k < prev.len() {
                        assert(prev[k] == t);
                    } else {
                        assert(s[s.len() - 1] == t);
                    }
                }
                if prev.contains(t) {
                    let k = choose|k: int| 0 <= k < prev.len() && prev[k] == t;
                    assert(distinct(s)[k] == t);
                }
                if t == s.last() {
                    assert(distinct(s)[prev.len() as int] == t);
                }
            }
            if s.contains(t) {
                let k = choose|k: int| 0 <= k < s.len() && s[k] == t;
                if k < s.len() - 1 {
                    assert(s.drop_last()[k] == t);
                }
            }
            if s.drop_last().contains(t) {
                let k = choose|k: int| 0 <= k < s.drop_last().len() && s.drop_last()[k] == t;
                assert(s[k] == t);
            }
        }
    }
}

/// Whether `t` is among `v`.
pub fn contains_text(v: &Vec<String>, t: &String) -> (r: bool)
    ensures
        r == texts(v@).contains(t@),
{
    let mut i: usize = 0;
    while i < v.len()
        invariant
            i <= v@.len(),
            forall|k: int| 0 <= k < i ==> v@[k]@ != t@,
        decreases v.len() - i,
    {
        if v[i] == *t {
            assert(texts(v@)[i as int] == t@);
            return true;
        }
        i = i + 1;
    }
    false
}

/// The strings of `v` without repetitions, in order of first appearance.
pub fn distinct_strings(v: &Vec<String>) -> (r: Vec<String>)
    ensures
        texts(r@) == distinct(texts(v@)),
{
    let mut r: Vec<String> = Vec::new();
    let mut i: usize = 0;
    while i < v.len()
        invariant
            i <= v@.len(),
            texts(r@) == distinct(texts(v@).take(i as int)),
        decreases v.len() - i,
    {
        assert(texts(v@).take(i + 1).drop_last() =~= texts(v@).take(i as int));
        if !contains_text(&r, &v[i]) {
            r.push(v[i].clone());
            assert(texts(r@) =~= distinct(texts(v@).take(i as int)).push(v@[i as int]@));
        }
        i = i + 1;
    }
    assert(texts(v@).take(v.len() as int) =~= texts(v@));
    r
}

/// A group of positions sharing a key.
pub struct Group {
    pub key: String,
    pub members: Vec<usize>,
}

/// Groups the positions of the present keys by key: one group per distinct
/// key, in order of first appearance, each listing its positions in order.
pub fn group_positions(keys: &Vec<Option<String>>) -> (r: Vec<Group>)
    ensures
        r@.len() == distinct(present(opt_texts(keys@))).len(),
        forall|g: int| 0 <= g < r@.len() ==> {
            &&& (#[trigger] r@[g]).key@ == distinct(present(opt_texts(keys@)))[g]
            &&& r@[g].members@ == positions_of(opt_texts(keys@), r@[g].key@)
        },
{
    let ghost ks = opt_texts(keys@);
    let mut r: Vec<Group> = Vec::new();
    let mut i: usize = 0;
    while i < keys.len()
        invariant
            ks == opt_texts(keys@),
            i <= keys@.len(),
            r@.len() == distinct(present(ks.take(i as int))).len(),
            forall|g: int| 0 <= g < r@.len() ==> {
                &&& (#[trigger] r@[g]).key@ == distinct(present(ks.take(i as int)))[g]
                &&& r@[g].members@ == positions_of(ks.take(i as int), r@[g].key@)
            },
        decreases keys.len() - i,
    {
        let ghost pre = ks.take(i as int);
        let ghost next = ks.take(i + 1);
        assert(next.drop_last() =~= pre);
        proof {
            lemma_distinct(present(pre));
        }
        match &keys[i] {
            None => {
                assert(ks[i as int] == None::<Seq<char>>);
                assert forall|g: int| 0 <= g < r@.len() implies (#[trigger] r@[g]).members@
                    == positions_of(next, r@[g].key@) by {
                }
            },
            Some(k) => {
                assert(ks[i as int] == Some(k@));
                assert(present(next) == present(pre).push(k@));
                assert(present(next).drop_last() =~= present(pre));
                assert(present(next).last() == k@);
                let mut found: usize = r.len();
                let mut g: usize = 0;
                while g < r.len()
                    invariant
                        g <= r@.len(),
                        found <= r@.len(),
                        found < r@.len() ==> r@[found as int].key@ == k@,
                        found == r@.len() ==> forall|h: int| 0 <= h < g ==> (#[trigger] r@[h]).key@ != k@,
                    decreases r.len() - g,
                {
                    if found == r.len() && r[g].key == *k {
                        found = g;
                    }
                    g = g + 1;
                }
                proof {
                    lemma_distinct(present(next));
                }
                if found < r.len() {
                    assert(distinct(present(pre)).contains(k@)) by {
                        assert(distinct(present(pre))[found as int] == k@);
                    }
                    assert(distinct(present(next)) == distinct(present(pre)));
                    let ghost old_r = r@;
                    let mut grp = r.remove(found);
                    grp.members.push(i);
                    r.insert(found, grp);
                    assert forall|h: int| 0 <= h < r@.len() implies {
                        &&& (#[trigger] r@[h]).key@ == distinct(present(next))[h]
                        &&& r@[h].members@ == positions_of(next, r@[h].key@)
                    } by {
                        if h == found as int {
                        } else {
                            assert(r@[h] == old_r[h]);
                            assert(old_r[h].key@ != k@);
                        }
                    }
                } else {
                    assert(!distinct(present(pre)).contains(k@)) by {
                        if distinct(present(pre)).contains(k@) {
                            let h = choose|h: int| 0 <= h < distinct(present(pre)).len() && distinct(present(pre))[h] == k@;
                            assert(r@[h].key@ == k@);
                        }
                    }
                    assert(distinct(present(next)) == distinct(present(pre)).push(k@));
                    let ghost old_r = r@;
                    let mut members: Vec<usize> = Vec::new();
                    members.push(i);
                    proof {
                        lemma_positions_absent(pre, k@);
                    }
                    assert(members@ =~= positions_of(next, k@));
                    r.push(Group { key: k.clone(), members });
                    assert forall|h: int| 0 <= h < r@.len() implies {
                        &&& (#[trigger] r@[h]).key@ == distinct(present(next))[h]
                        &&& r@[h].members@ == positions_of(next, r@[h].key@)
                    } by {
                        if h < old_r.len() {
                            assert(r@[h] == old_r[h]);
                            assert(old_r[h].key@ != k@);
                        }
                    }
                }
            },
        }
        i = i + 1;
    }
    assert(ks.take(keys.len() as int) =~= ks);
    r
}

/// A key that never occurs among the present keys has no positions.
proof fn lemma_positions_absent(keys: Seq<Option<Seq<char>>>, t: Seq<char>)
    requires
        !distinct(present(keys)).contains(t),
    ensures
        positions_of(keys, t).len() == 0,
    decreases keys.len(),
{
    if keys.len() > 0 {
        lemma_distinct(present(keys));
        lemma_distinct(present(keys.drop_last()));
        if keys.last() == Some(t) {
            assert(present(keys) == present(keys.drop_last()).push(t));
            assert(present(keys)[present(keys).len() - 1] == t);
            assert(present(keys).contains(t));
        } else {
            assert forall|u: Seq<char>| present(keys.drop_last()).contains(u) implies present(keys).contains(u) by {
                let k = choose|k: int| 0 <= k < present(keys.drop_last()).len() && present(keys.drop_last())[k] == u;
                match keys.last() {
                    Some(x) => assert(present(keys)[k] == u),
                    None => {},
                }
            }
            assert(!present(keys).contains(t));
            assert(!present(keys.drop_last()).contains(t));
            assert(!distinct(present(keys.drop_last())).contains(t));
            lemma_positions_absent(keys.drop_last(), t);
        }
    }
}

/// Keeps the present values, in order.
pub open spec fn collect<T>(opts: Seq<Option<T>>) -> Seq<T>
    decreases opts.len(),
{
    if opts.len() == 0 {
        Seq::empty()
    } else {
        let prev = collect(opts.drop_last());
        match opts.last() {
            Some(x) => prev.push(x),
            None => prev,
        }
    }
}

} // verus!
