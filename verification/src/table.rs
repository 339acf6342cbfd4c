//! Tables keyed by name: a list of `(name, value)` pairs held in ascending
//! order of the names, so that no name occurs twice and the order in which a
//! table is listed does not depend on how it was filled.

use vstd::prelude::*;
use crate::text::name_less;
use crate::text::lemma_name_less_asymmetric;
use crate::text::lemma_name_less_transitive;
use crate::text::compare;
use crate::text::same_text;
use crate::text::Rank;

verus! {

/// The names of `s` stand in strictly ascending order.
pub open spec fn ascending<T>(s: Seq<(Seq<char>, T)>) -> bool {
    forall|i: int, j: int| 0 <= i < j < s.len() ==> name_less(#[trigger] s[i].0, #[trigger] s[j].0)
}

/// The value that `s` holds under `name`: that of the last entry with this
/// name, if there is one.
pub open spec fn lookup<T>(s: Seq<(Seq<char>, T)>, name: Seq<char>) -> Option<T>
    decreases s.len(),
{
    if s.len() == 0 {
        None
    } else if s.last().0 == name {
        Some(s.last().1)
    } else {
        lookup(s.drop_last(), name)
    }
}

/// `name` is a name of `s`.
pub open spec fn has_name<T>(s: Seq<(Seq<char>, T)>, name: Seq<char>) -> bool {
    lookup(s, name) is Some
}

/// What `lookup` finds is an entry of the list, and it finds nothing only
/// where no entry has the name.
pub proof fn lemma_lookup<T>(s: Seq<(Seq<char>, T)>, name: Seq<char>)
    ensures
        match lookup(s, name) {
            Some(x) => exists|i: int| 0 <= i < s.len() && #[trigger] s[i] == (name, x),
            None => forall|i: int| 0 <= i < s.len() ==> (#[trigger] s[i]).0 != name,
        },
    decreases s.len(),
{
    if s.len() > 0 {
        let t = s.drop_last();
        if s.last().0 == name {
            assert(s[s.len() - 1] == (name, s.last().1));
        } else {
            lemma_lookup(t, name);
            match lookup(t, name) {
                Some(x) => {
                    let i = choose|i: int| 0 <= i < t.len() && #[trigger] t[i] == (name, x);
                    assert(s[i] == t[i]);
                },
                None => {
                    assert forall|i: int| 0 <= i < s.len() implies (#[trigger] s[i]).0 != name by {
                        if i < t.len() {
                            assert(s[i] == t[i]);
                        }
                    }
                },
            }
        }
    }
}

/// No name occurs twice in `s`.
pub open spec fn distinct<T>(s: Seq<(Seq<char>, T)>) -> bool {
    forall|i: int, j: int| 0 <= i < j < s.len() ==> (#[trigger] s[i]).0 != (#[trigger] s[j]).0
}

/// In an ascending list no name occurs twice.
pub proof fn lemma_ascending_distinct<T>(s: Seq<(Seq<char>, T)>)
    requires
        ascending(s),
    ensures
        distinct(s),
{
    assert forall|i: int, j: int| 0 <= i < j < s.len() implies (#[trigger] s[i]).0 != (
    #[trigger] s[j]).0 by {
        assert(name_less(s[i].0, s[j].0));
        lemma_name_less_asymmetric(s[i].0, s[i].0);
    }
}

/// In a list without a repeated name every entry is the one that `lookup`
/// finds under its name.
pub proof fn lemma_lookup_at_distinct<T>(s: Seq<(Seq<char>, T)>, i: int)
    requires
        distinct(s),
        0 <= i < s.len(),
    ensures
        lookup(s, s[i].0) == Some(s[i].1),
    decreases s.len(),
{
    if i < s.len() - 1 {
        let t = s.drop_last();
        assert(t[i] == s[i]);
        assert(s[i].0 != s[s.len() - 1].0);
        assert forall|a: int, b: int| 0 <= a < b < t.len() implies (#[trigger] t[a]).0 != (
        #[trigger] t[b]).0 by {
            assert(t[a] == s[a] && t[b] == s[b]);
        }
        lemma_lookup_at_distinct(t, i);
    }
}

/// In an ascending list every entry is the one that `lookup` finds under its
/// name.
pub proof fn lemma_lookup_at<T>(s: Seq<(Seq<char>, T)>, i: int)
    requires
        ascending(s),
        0 <= i < s.len(),
    ensures
        lookup(s, s[i].0) == Some(s[i].1),
{
    lemma_ascending_distinct(s);
    lemma_lookup_at_distinct(s, i);
}

/// Two ascending lists that hold the same value under every name are the
/// same list.
pub proof fn lemma_ascending_unique<T>(s: Seq<(Seq<char>, T)>, t: Seq<(Seq<char>, T)>)
    requires
        ascending(s),
        ascending(t),
        forall|n: Seq<char>| lookup(s, n) == lookup(t, n),
    ensures
        s == t,
    decreases s.len(),
{
    if s.len() == 0 {
        if t.len() > 0 {
            lemma_lookup_at(t, 0);
            assert(lookup(s, t[0].0) is None);
        }
        assert(s =~= t);
    } else if t.len() == 0 {
        lemma_lookup_at(s, 0);
        assert(lookup(t, s[0].0) is None);
    } else {
        let a = s.len() - 1;
        let b = t.len() - 1;
        lemma_lookup_at(s, a);
        lemma_lookup_at(t, b);
        lemma_lookup(t, s[a].0);
        lemma_lookup(s, t[b].0);
        let j = choose|j: int| 0 <= j < t.len() && #[trigger] t[j] == (s[a].0, s[a].1);
        let i = choose|i: int| 0 <= i < s.len() && #[trigger] s[i] == (t[b].0, t[b].1);
        // each last name occurs in the other list, so neither comes after the other
        if j < b {
            assert(name_less(t[j].0, t[b].0));
            if i < a {
                assert(name_less(s[i].0, s[a].0));
            }
            lemma_name_less_asymmetric(s[a].0, t[b].0);
        }
        assert(j == b);
        assert(s[a] == t[b]);
        let s0 = s.drop_last();
        let t0 = t.drop_last();
        assert forall|x: int, y: int| 0 <= x < y < s0.len() implies name_less(
            #[trigger] s0[x].0,
            #[trigger] s0[y].0,
        ) by {
            assert(s0[x] == s[x] && s0[y] == s[y]);
        }
        assert forall|x: int, y: int| 0 <= x < y < t0.len() implies name_less(
            #[trigger] t0[x].0,
            #[trigger] t0[y].0,
        ) by {
            assert(t0[x] == t[x] && t0[y] == t[y]);
        }
        assert forall|n: Seq<char>| lookup(s0, n) == lookup(t0, n) by {
            if n == s[a].0 {
                lemma_lookup(s0, n);
                lemma_lookup(t0, n);
                if lookup(s0, n) is Some {
                    let k = choose|k: int| 0 <= k < s0.len() && #[trigger] s0[k] == (
                        n,
                        lookup(s0, n)->0,
                    );
                    assert(s0[k] == s[k]);
                    assert(name_less(s[k].0, s[a].0));
                    lemma_name_less_asymmetric(n, n);
                }
                if lookup(t0, n) is Some {
                    let k = choose|k: int| 0 <= k < t0.len() && #[trigger] t0[k] == (
                        n,
                        lookup(t0, n)->0,
                    );
                    assert(t0[k] == t[k]);
                    assert(name_less(t[k].0, t[b].0));
                    lemma_name_less_asymmetric(n, n);
                }
            } else {
                assert(lookup(s, n) == lookup(t, n));
            }
        }
        lemma_ascending_unique(s0, t0);
        assert(s =~= s0.push(s[a]));
        assert(t =~= t0.push(t[b]));
    }
}

/// Where `name` stands in an ascending table: the index of its entry and
/// `true`, or the index at which it would have to be put and `false`.
pub fn position<V: DeepView>(v: &Vec<(String, V)>, name: &str) -> (r: (usize, bool))
    requires
        ascending(v.deep_view()),
    ensures
        r.0 <= v.len(),
        forall|j: int| 0 <= j < r.0 ==> name_less((#[trigger] v.deep_view()[j]).0, name@),
        forall|j: int| r.0 + (if r.1 { 1int } else { 0int }) <= j < v.len() ==> name_less(name@, (#[trigger] v.deep_view()[j]).0),
        r.1 ==> r.0 < v.len() && v.deep_view()[r.0 as int].0 == name@,
        r.1 == has_name(v.deep_view(), name@),
{
    let ghost s = v.deep_view();
    let mut i: usize = 0;
    while i < v.len()
        invariant
            s == v.deep_view(),
            ascending(s),
            i <= v.len(),
            forall|j: int| 0 <= j < i ==> name_less((#[trigger] s[j]).0, name@),
        decreases v.len() - i,
    {
        assert(s[i as int].0 == v[i as int].0@);
        match compare(v[i].0.as_str(), name) {
            Rank::Before => {},
            Rank::Same => {
                proof {
                    lemma_lookup_at(s, i as int);
                    assert forall|j: int| i + 1 <= j < v.len() implies name_less(
                        name@,
                        (#[trigger] s[j]).0,
                    ) by {
                        assert(name_less(s[i as int].0, s[j].0));
                    }
                }
                return (i, true);
            },
            Rank::After => {
                proof {
                    assert forall|j: int| i <= j < v.len() implies name_less(
                        name@,
                        (#[trigger] s[j]).0,
                    ) by {
                        if i < j {
                            assert(name_less(s[i as int].0, s[j].0));
                            lemma_name_less_transitive(name@, s[i as int].0, s[j].0);
                        }
                    }
                    lemma_absent_between(s, name@, i as int);
                }
                return (i, false);
            },
        }
        i = i + 1;
    }
    proof {
        lemma_absent_between(s, name@, i as int);
    }
    (i, false)
}

/// A name that stands strictly between the entries before `at` and those
/// from `at` on is not in the list.
proof fn lemma_absent_between<T>(s: Seq<(Seq<char>, T)>, name: Seq<char>, at: int)
    requires
        0 <= at <= s.len(),
        forall|j: int| 0 <= j < at ==> name_less((#[trigger] s[j]).0, name),
        forall|j: int| at <= j < s.len() ==> name_less(name, (#[trigger] s[j]).0),
    ensures
        lookup(s, name) is None,
{
    lemma_lookup(s, name);
    if lookup(s, name) is Some {
        let i = choose|i: int| 0 <= i < s.len() && #[trigger] s[i] == (name, lookup(s, name)->0);
        lemma_name_less_asymmetric(name, name);
        assert(s[i].0 == name);
    }
}

/// Whether the names of a list stand in strictly ascending order.
pub fn is_ascending<V: DeepView>(v: &Vec<(String, V)>) -> (r: bool)
    ensures
        r == ascending(v.deep_view()),
{
    let ghost s = v.deep_view();
    if v.len() < 2 {
        return true;
    }
    let mut i: usize = 1;
    while i < v.len()
        invariant
            s == v.deep_view(),
            1 <= i <= v.len(),
            forall|a: int, b: int| 0 <= a < b < i ==> name_less(#[trigger] s[a].0, #[trigger] s[b].0),
        decreases v.len() - i,
    {
        assert(s[i as int].0 == v[i as int].0@);
        assert(s[i - 1].0 == v[i - 1].0@);
        match compare(v[i - 1].0.as_str(), v[i].0.as_str()) {
            Rank::Before => {},
            _ => {
                proof {
                    lemma_name_less_asymmetric(s[i - 1].0, s[i as int].0);
                    lemma_name_less_asymmetric(s[i as int].0, s[i - 1].0);
                }
                return false;
            },
        }
        proof {
            assert forall|a: int, b: int| 0 <= a < b < i + 1 implies name_less(
                #[trigger] s[a].0,
                #[trigger] s[b].0,
            ) by {
                if b == i && a < i - 1 {
                    assert(name_less(s[a].0, s[i - 1].0));
                    lemma_name_less_transitive(s[a].0, s[i - 1].0, s[i as int].0);
                }
            }
        }
        i = i + 1;
    }
    true
}

/// The value that a list holds under `name`, in whatever order it stands:
/// that of the last entry with this name.
pub fn find<'a, V: DeepView>(v: &'a Vec<(String, V)>, name: &str) -> (r: Option<&'a V>)
    ensures
        match r {
            Some(x) => lookup(v.deep_view(), name@) == Some(x.deep_view()),
            None => lookup(v.deep_view(), name@) is None,
        },
{
    let ghost s = v.deep_view();
    let mut found: Option<&'a V> = None;
    let mut i: usize = 0;
    assert(s.take(0) =~= Seq::empty());
    while i < v.len()
        invariant
            s == v.deep_view(),
            i <= v.len(),
            match found {
                Some(x) => lookup(s.take(i as int), name@) == Some(x.deep_view()),
                None => lookup(s.take(i as int), name@) is None,
            },
        decreases v.len() - i,
    {
        assert(s[i as int] == (v[i as int].0@, v[i as int].1.deep_view()));
        assert(s.take(i + 1).drop_last() =~= s.take(i as int));
        if same_text(v[i].0.as_str(), name) {
            found = Some(&v[i].1);
        }
        i = i + 1;
    }
    assert(s.take(i as int) =~= s);
    found
}

/// The value that an ascending table holds under `name`.
pub fn get<'a, V: DeepView>(v: &'a Vec<(String, V)>, name: &str) -> (r: Option<&'a V>)
    requires
        ascending(v.deep_view()),
    ensures
        match r {
            Some(x) => lookup(v.deep_view(), name@) == Some(x.deep_view()),
            None => lookup(v.deep_view(), name@) is None,
        },
{
    let (i, found) = position(v, name);
    if found {
        proof {
            lemma_lookup_at(v.deep_view(), i as int);
        }
        Some(&v[i].1)
    } else {
        None
    }
}

/// Puts `value` under `name`, in place of what the table held there, and
/// keeps the table ascending.
pub fn put<V: DeepView>(v: &mut Vec<(String, V)>, name: String, value: V)
    requires
        ascending(old(v).deep_view()),
    ensures
        ascending(final(v).deep_view()),
        forall|n: Seq<char>|
            lookup(final(v).deep_view(), n) == if n == name@ {
                Some(value.deep_view())
            } else {
                lookup(old(v).deep_view(), n)
            },
        final(v).len() == old(v).len() + (if has_name(old(v).deep_view(), name@) { 0int } else { 1int }),
{
    let ghost s = v.deep_view();
    let ghost e = (name@, value.deep_view());
    let (i, found) = position(v, name.as_str());
    if found {
        v[i] = (name, value);
        proof {
            let t = v.deep_view();
            assert(t =~= s.update(i as int, e));
            assert forall|a: int, b: int| 0 <= a < b < t.len() implies name_less(
                #[trigger] t[a].0,
                #[trigger] t[b].0,
            ) by {
                assert(t[a].0 == s[a].0 && t[b].0 == s[b].0);
            }
            lemma_put(s, t, e, i as int, true);
        }
    } else {
        v.insert(i, (name, value));
        proof {
            let t = v.deep_view();
            assert(t =~= s.insert(i as int, e));
            assert forall|a: int, b: int| 0 <= a < b < t.len() implies name_less(
                #[trigger] t[a].0,
                #[trigger] t[b].0,
            ) by {
                let a0 = if a < i { a } else { a - 1 };
                let b0 = if b < i { b } else { b - 1 };
                if a != i && b != i {
                    assert(t[a] == s[a0] && t[b] == s[b0]);
                } else if a == i {
                    assert(t[b] == s[b0]);
                } else {
                    assert(t[a] == s[a0]);
                }
            }
            lemma_put(s, t, e, i as int, false);
        }
    }
}

/// What `lookup` finds after an entry was replaced at `at`, or put in there.
proof fn lemma_put<T>(
    s: Seq<(Seq<char>, T)>,
    t: Seq<(Seq<char>, T)>,
    e: (Seq<char>, T),
    at: int,
    found: bool,
)
    requires
        ascending(s),
        ascending(t),
        0 <= at <= s.len(),
        found ==> at < s.len() && s[at].0 == e.0 && t == s.update(at, e),
        !found ==> lookup(s, e.0) is None && t == s.insert(at, e),
    ensures
        forall|n: Seq<char>| lookup(t, n) == if n == e.0 {
            Some(e.1)
        } else {
            lookup(s, n)
        },
{
    assert forall|n: Seq<char>| lookup(t, n) == if n == e.0 {
        Some(e.1)
    } else {
        lookup(s, n)
    } by {
        if n == e.0 {
            assert(t[at] == e);
            lemma_lookup_at(t, at);
        } else {
            lemma_lookup(s, n);
            lemma_lookup(t, n);
            match lookup(s, n) {
                Some(x) => {
                    let i = choose|i: int| 0 <= i < s.len() && #[trigger] s[i] == (n, x);
                    let k = if found || i < at { i } else { i + 1 };
                    assert(t[k] == s[i]);
                    lemma_lookup_at(t, k);
                },
                None => {
                    if lookup(t, n) is Some {
                        let k = choose|k: int| 0 <= k < t.len() && #[trigger] t[k] == (
                            n,
                            lookup(t, n)->0,
                        );
                        let i = if found || k < at { k } else { k - 1 };
                        assert(t[k] == s[i]);
                    }
                },
            }
        }
    }
}

} // verus!
