//! Connection profiles kept in the configuration file: adding, removing,
//! choosing the default, and listing them by name.

use vstd::prelude::*;
use crate::config::{find_profile, lookup_profile, ConfigFile, ProfileConfig};
use crate::order::{count_before, permute, stable_order, stable_order_asc, text_ranks};
use crate::text::chars_of;

verus! {

/// No profile name occurs twice.
pub open spec fn names_unique(ps: Seq<(String, ProfileConfig)>) -> bool {
    forall|i: int, j: int| 0 <= i < j < ps.len() ==> ps[i].0@ != ps[j].0@
}

/// The profile names, in stored order.
pub open spec fn profile_names(ps: Seq<(String, ProfileConfig)>) -> Seq<Seq<char>> {
    ps.map_values(|e: (String, ProfileConfig)| e.0@)
}

/// `b` is `a` with profile `name` set to `p`, every other profile kept, and
/// `name` made the default when `a` had no profile and no default.
pub open spec fn profile_added(a: ConfigFile, b: ConfigFile, name: Seq<char>, p: ProfileConfig, made_default: bool) -> bool {
    &&& names_unique(b.profiles@)
    &&& forall|n: Seq<char>| #[trigger] find_profile(b.profiles@, n) == if n == name {
        Some(p)
    } else {
        find_profile(a.profiles@, n)
    }
    &&& made_default == (a.profiles@.len() == 0 && a.default_profile is None)
    &&& if made_default {
        b.default_profile matches Some(d) && d@ == name
    } else {
        b.default_profile == a.default_profile
    }
    &&& b.insights == a.insights
}

/// `b` is `a` without profile `name`, and without it as the default; when
/// there was no such profile, `b` is `a`.
pub open spec fn profile_removed(a: ConfigFile, b: ConfigFile, name: Seq<char>, removed: bool) -> bool {
    &&& removed == (find_profile(a.profiles@, name) is Some)
    &&& names_unique(b.profiles@)
    &&& if removed {
        &&& forall|n: Seq<char>| #[trigger] find_profile(b.profiles@, n) == if n == name {
            None
        } else {
            find_profile(a.profiles@, n)
        }
        &&& b.default_profile == match a.default_profile {
            Some(d) => if d@ == name { None } else { Some(d) },
            None => None,
        }
        &&& b.insights == a.insights
    } else {
        b == a
    }
}

/// The first position of a profile named `n`, if any.
proof fn lemma_find_at(ps: Seq<(String, ProfileConfig)>, n: Seq<char>)
    requires
        names_unique(ps),
    ensures
        find_profile(ps, n) is Some <==> exists|i: int| 0 <= i < ps.len() && ps[i].0@ == n,
        forall|i: int| 0 <= i < ps.len() && ps[i].0@ == n ==> find_profile(ps, n) == Some(ps[i].1),
    decreases ps.len(),
{
    if ps.len() > 0 {
        let t = ps.drop_first();
        assert(names_unique(t));
        lemma_find_at(t, n);
        if ps[0].0@ != n {
            assert forall|i: int| 0 <= i < ps.len() && ps[i].0@ == n implies find_profile(ps, n) == Some(ps[i].1) by {
                assert(t[i - 1] == ps[i]);
            }
            if exists|i: int| 0 <= i < ps.len() && ps[i].0@ == n {
                let i = choose|i: int| 0 <= i < ps.len() && ps[i].0@ == n;
                assert(t[i - 1] == ps[i]);
            }
            if exists|i: int| 0 <= i < t.len() && t[i].0@ == n {
                let i = choose|i: int| 0 <= i < t.len() && t[i].0@ == n;
                assert(ps[i + 1] == t[i]);
            }
        } else {
            assert forall|i: int| 0 <= i < ps.len() && ps[i].0@ == n implies find_profile(ps, n) == Some(ps[i].1) by {
                if i > 0 {
                    assert(ps[0].0@ != ps[i].0@);
                }
            }
        }
    }
}

/// Whether two names are equal.
fn same_name(a: &String, b: &String) -> (r: bool)
    ensures
        r == (a@ == b@),
{
    *a == *b
}

impl ConfigFile {
    /// Profile names are unique.
    pub open spec fn wf(&self) -> bool {
        names_unique(self.profiles@)
    }

    /// Adds profile `name`, replacing one of that name; the first profile
    /// added to a file without a default becomes the default. Tells whether
    /// it did.
    pub fn add_profile(&mut self, name: String, profile: ProfileConfig) -> (made_default: bool)
        requires
            old(self).wf(),
        ensures
            profile_added(*old(self), *final(self), name@, profile, made_default),
    {
        let made_default = self.profiles.len() == 0 && self.default_profile.is_none();
        let ghost ps = self.profiles@;
        let mut i: usize = 0;
        while i < self.profiles.len()
            invariant
                self.profiles@ == ps,
                ps == old(self).profiles@,
                self.default_profile == old(self).default_profile,
                self.insights == old(self).insights,
                made_default == (ps.len() == 0 && old(self).default_profile is None),
                names_unique(ps),
                i <= ps.len(),
                forall|k: int| 0 <= k < i ==> ps[k].0@ != name@,
            decreases self.profiles.len() - i,
        {
            if same_name(&self.profiles[i].0, &name) {
                let ghost nm = name@;
                let entry = (name, profile);
                self.profiles.set(i, entry);
                proof {
                    let qs = self.profiles@;
                    assert(qs == ps.update(i as int, entry));
                    assert(names_unique(qs)) by {
                        assert forall|a: int, b: int| 0 <= a < b < qs.len() implies qs[a].0@ != qs[b].0@ by {
                            if a == i {
                                assert(ps[b].0@ != ps[i as int].0@);
                            } else if b == i {
                                assert(ps[a].0@ != ps[i as int].0@);
                            }
                        }
                    }
                    lemma_find_at(ps, nm);
                    lemma_find_at(qs, nm);
                    assert forall|n: Seq<char>| #[trigger] find_profile(qs, n) == if n == nm {
                        Some(profile)
                    } else {
                        find_profile(ps, n)
                    } by {
                        lemma_find_at(ps, n);
                        lemma_find_at(qs, n);
                        if n != nm {
                            if exists|k: int| 0 <= k < ps.len() && ps[k].0@ == n {
                                let k = choose|k: int| 0 <= k < ps.len() && ps[k].0@ == n;
                                assert(qs[k] == ps[k]);
                            }
                            if exists|k: int| 0 <= k < qs.len() && qs[k].0@ == n {
                                let k = choose|k: int| 0 <= k < qs.len() && qs[k].0@ == n;
                                assert(qs[k] == ps[k]);
                            }
                        } else {
                            assert(qs[i as int].0@ == n);
                        }
                    }
                }
                if made_default {
                    self.default_profile = Some(self.profiles[i].0.clone());
                }
                return made_default;
            }
            i = i + 1;
        }
        let ghost nm = name@;
        let default_name = name.clone();
        self.profiles.push((name, profile));
        proof {
            let qs = self.profiles@;
            assert(qs == ps.push((qs[ps.len() as int].0, profile)));
            assert(names_unique(qs)) by {
                assert forall|a: int, b: int| 0 <= a < b < qs.len() implies qs[a].0@ != qs[b].0@ by {
                    if b == ps.len() {
                        assert(ps[a].0@ != nm);
                    }
                }
            }
            assert forall|n: Seq<char>| #[trigger] find_profile(qs, n) == if n == nm {
                Some(profile)
            } else {
                find_profile(ps, n)
            } by {
                lemma_find_at(ps, n);
                lemma_find_at(qs, n);
                if n != nm {
                    if exists|k: int| 0 <= k < qs.len() && qs[k].0@ == n {
                        let k = choose|k: int| 0 <= k < qs.len() && qs[k].0@ == n;
                        assert(k < ps.len());
                        assert(qs[k] == ps[k]);
                    }
                    if exists|k: int| 0 <= k < ps.len() && ps[k].0@ == n {
                        let k = choose|k: int| 0 <= k < ps.len() && ps[k].0@ == n;
                        assert(qs[k] == ps[k]);
                    }
                } else {
                    assert(qs[ps.len() as int].0@ == n);
                }
            }
        }
        if made_default {
            self.default_profile = Some(default_name);
        }
        made_default
    }

    /// Removes profile `name`, and clears the default if it named it. Tells
    /// whether there was such a profile; without one nothing changes.
    pub fn remove_profile(&mut self, name: &String) -> (removed: bool)
        requires
            old(self).wf(),
        ensures
            profile_removed(*old(self), *final(self), name@, removed),
    {
        let ghost ps = self.profiles@;
        proof {
            lemma_find_at(ps, name@);
        }
        let mut i: usize = 0;
        while i < self.profiles.len()
            invariant
                self.profiles@ == ps,
                *self == *old(self),
                names_unique(ps),
                i <= ps.len(),
                forall|k: int| 0 <= k < i ==> ps[k].0@ != name@,
            decreases self.profiles.len() - i,
        {
            if same_name(&self.profiles[i].0, name) {
                let _gone = self.profiles.remove(i);
                proof {
                    lemma_find_at(ps, name@);
                    let qs = self.profiles@;
                    assert(qs == ps.remove(i as int));
                    assert(names_unique(qs)) by {
                        assert forall|a: int, b: int| 0 <= a < b < qs.len() implies qs[a].0@ != qs[b].0@ by {
                            let a2 = if a < i { a } else { a + 1 };
                            let b2 = if b < i { b } else { b + 1 };
                            assert(qs[a] == ps[a2] && qs[b] == ps[b2]);
                        }
                    }
                    assert forall|n: Seq<char>| #[trigger] find_profile(qs, n) == if n == name@ {
                        None
                    } else {
                        find_profile(ps, n)
                    } by {
                        lemma_find_at(ps, n);
                        lemma_find_at(qs, n);
                        if exists|k: int| 0 <= k < qs.len() && qs[k].0@ == n {
                            let k = choose|k: int| 0 <= k < qs.len() && qs[k].0@ == n;
                            let k2 = if k < i { k } else { k + 1 };
                            assert(qs[k] == ps[k2]);
                            if n == name@ {
                                assert(ps[k2].0@ == ps[i as int].0@);
                            }
                        }
                        if n != name@ && exists|k: int| 0 <= k < ps.len() && ps[k].0@ == n {
                            let k = choose|k: int| 0 <= k < ps.len() && ps[k].0@ == n;
                            assert(k != i);
                            let k2 = if k < i { k } else { k - 1 };
                            assert(qs[k2] == ps[k]);
                        }
                    }
                }
                let clear = match &self.default_profile {
                    Some(d) => same_name(d, name),
                    None => false,
                };
                if clear {
                    self.default_profile = None;
                }
                return true;
            }
            i = i + 1;
        }
        proof {
            lemma_find_at(ps, name@);
        }
        false
    }

    /// Makes profile `name` the default; tells whether there is such a
    /// profile (without one nothing changes).
    pub fn set_default_profile(&mut self, name: &String) -> (found: bool)
        ensures
            found == (find_profile(old(self).profiles@, name@) is Some),
            found ==> (final(self).default_profile matches Some(d) && d@ == name@),
            found ==> *final(self) == (ConfigFile { default_profile: final(self).default_profile, ..*old(self) }),
            !found ==> *final(self) == *old(self),
    {
        match lookup_profile(&self.profiles, name) {
            Some(_) => {
                self.default_profile = Some(name.clone());
                true
            },
            None => false,
        }
    }
}

/// One line of the profile listing.
#[derive(Debug, Clone)]
pub struct ProfileRow {
    pub name: String,
    pub address: String,
    pub namespace: String,
    pub has_api_key: bool,
    pub is_default: bool,
}

/// `r` describes profile `e` of a file whose default is `d`.
pub open spec fn row_of(e: (String, ProfileConfig), d: Option<String>, r: ProfileRow) -> bool {
    &&& r.name@ == e.0@
    &&& r.address@ == e.1.address@
    &&& r.namespace@ == e.1.namespace@
    &&& r.has_api_key == (e.1.api_key is Some)
    &&& r.is_default == (d matches Some(x) && x@ == e.0@)
}

/// The sort keys that list profiles by name.
pub open spec fn name_keys(ps: Seq<(String, ProfileConfig)>) -> Seq<i128> {
    Seq::new(ps.len(), |i: int| count_before(profile_names(ps), ps[i].0@) as i128)
}

/// `r` lists the profiles of `f` in the order of their names.
pub open spec fn listed(f: ConfigFile, r: Seq<ProfileRow>) -> bool {
    exists|p: Seq<usize>| #[trigger] stable_order(name_keys(f.profiles@), p) && r.len() == p.len()
        && forall|j: int| 0 <= j < p.len() ==> row_of(f.profiles@[p[j] as int], f.default_profile, #[trigger] r[j])
}

impl ConfigFile {
    /// The profiles, ordered by name, with whether a key is set and whether
    /// each is the default.
    pub fn profile_rows(&self) -> (r: Vec<ProfileRow>)
        ensures
            listed(*self, r@),
    {
        let mut names: Vec<Vec<char>> = Vec::new();
        let mut rows: Vec<ProfileRow> = Vec::new();
        let mut i: usize = 0;
        while i < self.profiles.len()
            invariant
                i <= self.profiles@.len(),
                names@.len() == i,
                rows@.len() == i,
                forall|k: int| 0 <= k < i ==> (#[trigger] names@[k])@ == self.profiles@[k].0@,
                forall|k: int| 0 <= k < i ==> row_of(self.profiles@[k], self.default_profile, #[trigger] rows@[k]),
            decreases self.profiles.len() - i,
        {
            let e = &self.profiles[i];
            names.push(chars_of(e.0.as_str()));
            let is_default = match &self.default_profile {
                Some(d) => same_name(d, &e.0),
                None => false,
            };
            rows.push(ProfileRow {
                name: e.0.clone(),
                address: e.1.address.clone(),
                namespace: e.1.namespace.clone(),
                has_api_key: e.1.api_key.is_some(),
                is_default,
            });
            i = i + 1;
        }
        let keys = text_ranks(&names);
        proof {
            assert(names@.map_values(|t: Vec<char>| t@) =~= profile_names(self.profiles@));
            assert(keys@ =~= name_keys(self.profiles@));
        }
        let p = stable_order_asc(&keys);
        let ghost rs = rows@;
        let r = permute(rows, &keys, &p);
        proof {
            assert forall|j: int| 0 <= j < p@.len() implies row_of(self.profiles@[p@[j] as int], self.default_profile, #[trigger] r@[j]) by {
                assert(r@[j] == rs[p@[j] as int]);
            }
        }
        r
    }
}

} // verus!
