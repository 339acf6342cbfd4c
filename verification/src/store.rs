//! A store of named profiles with at most one default among them, as both the
//! settings file and the credentials file hold one. The two differ in one
//! thing: the settings file puts a prefix before the name of each profile's
//! section, the credentials file puts none.
//!
//! A file marks its default profile without naming it: the section `default`
//! repeats the entries of that profile.

use vstd::prelude::*;
use crate::config::Profile;
use crate::config::ProfileView;
use crate::ctx::CTXError;
use crate::ctx::ErrorView;
use crate::ctx::result_view;
use crate::ini::Items;
use crate::ini::ItemsView;
use crate::ini::Sections;
use crate::ini::SectionsView;
use crate::ini::canonical;
use crate::ini::ini_text;
use crate::ini::render;
use crate::ini::written;
use crate::table::ascending;
use crate::table::distinct;
use crate::table::find;
use crate::table::get;
use crate::table::is_ascending;
use crate::table::has_name;
use crate::table::lemma_ascending_distinct;
use crate::table::lemma_ascending_unique;
use crate::table::lemma_lookup;
use crate::table::lemma_lookup_at;
use crate::table::lookup;
use crate::table::put;
use crate::text::has_prefix;
use crate::text::join;
use crate::text::lemma_name_less_asymmetric;
use crate::text::lemma_prefix;
use crate::text::name_less;
use crate::text::same_text;
use crate::text::strip_prefix;

verus! {

/// The name of the section that repeats the default profile.
pub open spec fn default_section() -> Seq<char> {
    "default"@
}

/// A prefix that cannot turn a profile's name into the name of the default
/// section: the empty one, or one longer than that name.
pub open spec fn marks(prefix: Seq<char>) -> bool {
    prefix.len() == 0 || prefix.len() > default_section().len()
}

/// A section that stands for a profile: neither the default section nor the
/// section that the default profile's name would have.
pub open spec fn stands_for_profile(prefix: Seq<char>, section: Seq<char>) -> bool {
    section != default_section() && section != prefix + default_section()
}

/// Section `at` repeats the entries of the default section and bears the
/// prefix: its profile may be the default one.
pub open spec fn may_be_default(data: SectionsView, prefix: Seq<char>, at: int) -> bool {
    &&& stands_for_profile(prefix, data[at].0)
    &&& has_prefix(data[at].0, prefix)
    &&& Some(data[at].1) == lookup(data, default_section())
}

/// The profile of the first section from `from` on that may be the default.
pub open spec fn found_default_from(data: SectionsView, prefix: Seq<char>, from: int) -> Option<
    Seq<char>,
>
    decreases data.len() - from,
{
    if from < 0 || from >= data.len() {
        None
    } else if may_be_default(data, prefix, from) {
        Some(data[from].0.skip(prefix.len() as int))
    } else {
        found_default_from(data, prefix, from + 1)
    }
}

/// The default profile that a file's sections mark: that of the first
/// section, in the order of the table, that repeats the default section.
pub open spec fn found_default(data: SectionsView, prefix: Seq<char>) -> Option<Seq<char>> {
    found_default_from(data, prefix, 0)
}

/// The entries that a store read from `data` holds under the profile name
/// `name`: those of the section with the prefix before the name, else those
/// of the section with the bare name, if that bears no prefix.
pub open spec fn loaded_lookup(data: SectionsView, prefix: Seq<char>, name: Seq<char>) -> Option<
    ItemsView,
> {
    if stands_for_profile(prefix, prefix + name) && has_name(data, prefix + name) {
        lookup(data, prefix + name)
    } else if !has_prefix(name, prefix) && stands_for_profile(prefix, name) {
        lookup(data, name)
    } else {
        None
    }
}

/// The profiles of a store read from `data`, in ascending order of their
/// names.
pub open spec fn loaded_profiles(data: SectionsView, prefix: Seq<char>) -> SectionsView {
    choose|t: SectionsView|
        ascending(t) && forall|n: Seq<char>| #[trigger] lookup(t, n) == loaded_lookup(data, prefix, n)
}

/// `store` is the store that a file with the sections `data` is read into:
/// under every name it holds what `loaded_lookup` gives, its default is the
/// one that the sections mark, and it is well formed.
pub open spec fn read_from(store: StoreView, data: SectionsView, prefix: Seq<char>) -> bool {
    &&& store.wf()
    &&& forall|n: Seq<char>| #[trigger] lookup(store.profiles, n) == loaded_lookup(data, prefix, n)
    &&& store.default_name == found_default(data, prefix)
    &&& store == StoreView::loaded(data, prefix)
}

/// The mathematical value of a store.
pub struct StoreView {
    /// The profiles by name, each with its entries.
    pub profiles: SectionsView,
    /// The name of the default profile.
    pub default_name: Option<Seq<char>>,
}

impl StoreView {
    /// The profiles stand in normal form, none bears the name of the default
    /// section, and the default, if there is one, is one of them.
    pub open spec fn wf(self) -> bool {
        &&& canonical(self.profiles)
        &&& !has_name(self.profiles, default_section())
        &&& match self.default_name {
            Some(d) => has_name(self.profiles, d),
            None => true,
        }
    }

    /// The store that a file with the sections `data` is read into.
    pub open spec fn loaded(data: SectionsView, prefix: Seq<char>) -> StoreView {
        StoreView {
            profiles: loaded_profiles(data, prefix),
            default_name: found_default(data, prefix),
        }
    }

    /// `name` is the default profile.
    pub open spec fn is_default(self, name: Seq<char>) -> bool {
        self.default_name == Some(name)
    }

    /// The profile of that name.
    pub open spec fn profile(self, name: Seq<char>) -> Result<ProfileView, ErrorView> {
        match lookup(self.profiles, name) {
            Some(items) => Ok(ProfileView { name, default: self.is_default(name), items }),
            None => Err(ErrorView::NoSuchProfile { profile: name }),
        }
    }

    /// The default profile.
    pub open spec fn default_profile(self) -> Result<ProfileView, ErrorView> {
        match self.default_name {
            Some(d) => self.profile(d),
            None => Err(ErrorView::NoActiveContext),
        }
    }

    /// The store after `name` was made the default: unchanged where it knows
    /// no such profile.
    pub open spec fn with_default(self, name: Seq<char>) -> StoreView {
        if has_name(self.profiles, name) {
            StoreView { profiles: self.profiles, default_name: Some(name) }
        } else {
            self
        }
    }

    /// The profiles in ascending order of their names, each with its flag.
    pub open spec fn listing(self) -> Seq<ProfileView> {
        Seq::new(
            self.profiles.len(),
            |i: int|
                ProfileView {
                    name: self.profiles[i].0,
                    default: self.is_default(self.profiles[i].0),
                    items: self.profiles[i].1,
                },
        )
    }

    /// The sections of the profiles, each under the prefix and its name.
    pub open spec fn profile_sections(self, prefix: Seq<char>) -> SectionsView {
        Seq::new(self.profiles.len(), |i: int| (prefix + self.profiles[i].0, self.profiles[i].1))
    }

    /// The sections that the store is written as: those of the profiles in
    /// ascending order of their names and, last, the default section with the
    /// entries of the default profile.
    pub open spec fn sections(self, prefix: Seq<char>) -> SectionsView {
        match self.default_name {
            Some(d) => self.profile_sections(prefix).push(
                (default_section(), lookup(self.profiles, d)->0),
            ),
            None => self.profile_sections(prefix),
        }
    }

    /// The text that the store is written as.
    pub open spec fn text(self, prefix: Seq<char>) -> Seq<char> {
        ini_text(written(self.sections(prefix)))
    }
}

/// The profiles of one file, and which of them is the default.
#[derive(Default, Debug, PartialEq, Eq)]
pub struct Store {
    pub data: Sections,
    pub default_profile_name: Option<String>,
}

impl View for Store {
    type V = StoreView;

    open spec fn view(&self) -> StoreView {
        StoreView {
            profiles: self.data.deep_view(),
            default_name: self.default_profile_name.deep_view(),
        }
    }
}

/// A copy of the entries of a section.
pub fn copy_items(items: &Items) -> (r: Items)
    ensures
        r.deep_view() == items.deep_view(),
{
    let mut out: Items = Vec::new();
    let mut i: usize = 0;
    while i < items.len()
        invariant
            i <= items.len(),
            out.len() == i,
            forall|j: int| 0 <= j < i ==> (#[trigger] out[j]).0@ == items[j].0@ && out[j].1@ == items[j].1@,
        decreases items.len() - i,
    {
        out.push((items[i].0.clone(), items[i].1.clone()));
        i = i + 1;
    }
    assert(out.deep_view() =~= items.deep_view());
    out
}

/// Whether two sections hold the same entries in the same order.
pub fn same_items(a: &Items, b: &Items) -> (r: bool)
    ensures
        r == (a.deep_view() == b.deep_view()),
{
    if a.len() != b.len() {
        assert(a.deep_view().len() != b.deep_view().len());
        return false;
    }
    let mut i: usize = 0;
    while i < a.len()
        invariant
            a.len() == b.len(),
            i <= a.len(),
            forall|j: int| 0 <= j < i ==> a.deep_view()[j] == b.deep_view()[j],
        decreases a.len() - i,
    {
        assert(a.deep_view()[i as int] == (a[i as int].0@, a[i as int].1@));
        assert(b.deep_view()[i as int] == (b[i as int].0@, b[i as int].1@));
        if !same_text(a[i].0.as_str(), b[i].0.as_str()) || !same_text(
            a[i].1.as_str(),
            b[i].1.as_str(),
        ) {
            return false;
        }
        i = i + 1;
    }
    assert(a.deep_view() =~= b.deep_view());
    true
}

/// The default profile that the sections of a file mark.
pub fn find_default(data: &Sections, prefix: &str) -> (r: Option<String>)
    ensures
        r.deep_view() == found_default(data.deep_view(), prefix@),
{
    let ghost s = data.deep_view();
    let marked = join(prefix, "default");
    match find(data, "default") {
        None => {
            proof {
                lemma_unmarked_from(s, prefix@, 0);
            }
            None
        },
        Some(default_items) => {
            let mut i: usize = 0;
            while i < data.len()
                invariant
                    s == data.deep_view(),
                    i <= data.len(),
                    lookup(s, default_section()) == Some(default_items.deep_view()),
                    marked@ == prefix@ + default_section(),
                    found_default(s, prefix@) == found_default_from(s, prefix@, i as int),
                decreases data.len() - i,
            {
                assert(s[i as int] == (data[i as int].0@, data[i as int].1.deep_view()));
                let name = data[i].0.as_str();
                if !same_text(name, "default") && !same_text(name, marked.as_str()) && same_items(
                    &data[i].1,
                    default_items,
                ) {
                    match strip_prefix(name, prefix) {
                        Some(profile) => {
                            return Some(profile);
                        },
                        None => {},
                    }
                }
                i = i + 1;
            }
            None
        },
    }
}

/// Where no section from `from` on may be the default, none is found.
pub proof fn lemma_unmarked_from(data: SectionsView, prefix: Seq<char>, from: int)
    requires
        forall|i: int| from <= i < data.len() ==> !may_be_default(data, prefix, i),
    ensures
        found_default_from(data, prefix, from) is None,
    decreases data.len() - from,
{
    if 0 <= from < data.len() {
        lemma_unmarked_from(data, prefix, from + 1);
    }
}

/// The section that marks the default profile which was found.
pub proof fn lemma_found_default_at(data: SectionsView, prefix: Seq<char>, from: int) -> (at: int)
    requires
        found_default_from(data, prefix, from) is Some,
    ensures
        0 <= from <= at < data.len(),
        may_be_default(data, prefix, at),
        found_default_from(data, prefix, from) == Some(data[at].0.skip(prefix.len() as int)),
    decreases data.len() - from,
{
    if may_be_default(data, prefix, from) {
        from
    } else {
        lemma_found_default_at(data, prefix, from + 1)
    }
}

/// The profile that a file marks is one that a store read from it holds.
pub proof fn lemma_found_default_loaded(data: SectionsView, prefix: Seq<char>)
    requires
        ascending(data),
        found_default(data, prefix) is Some,
    ensures
        loaded_lookup(data, prefix, found_default(data, prefix)->0) == lookup(
            data,
            default_section(),
        ),
        has_name(data, default_section()),
{
    let at = lemma_found_default_at(data, prefix, 0);
    lemma_prefix(prefix, data[at].0);
    lemma_lookup_at(data, at);
}

impl Store {
    /// The store that the sections of a file are read into.
    pub fn from_sections(data: Sections, prefix: &str) -> (r: Store)
        requires
            canonical(data.deep_view()),
        ensures
            forall|n: Seq<char>| #[trigger]
                lookup(r@.profiles, n) == loaded_lookup(data.deep_view(), prefix@, n),
            r@.default_name == found_default(data.deep_view(), prefix@),
            r@.wf(),
            r@ == StoreView::loaded(data.deep_view(), prefix@),
    {
        let ghost s = data.deep_view();
        let ghost p = prefix@;
        let default_profile_name = find_default(&data, prefix);
        let marked = join(prefix, "default");
        let mut out: Sections = Vec::new();
        let mut i: usize = 0;
        assert(s.take(0) =~= Seq::empty());
        while i < data.len()
            invariant
                s == data.deep_view(),
                p == prefix@,
                canonical(s),
                i <= data.len(),
                marked@ == p + default_section(),
                canonical(out.deep_view()),
                forall|n: Seq<char>| #[trigger]
                    lookup(out.deep_view(), n) == loaded_lookup(s.take(i as int), p, n),
            decreases data.len() - i,
        {
            let ghost before = out.deep_view();
            let ghost t0 = s.take(i as int);
            let ghost t1 = s.take(i + 1);
            let name = data[i].0.as_str();
            let ghost k = name@;
            proof {
                assert(s[i as int] == (data[i as int].0@, data[i as int].1.deep_view()));
                assert(t1.drop_last() =~= t0);
                assert(t1.last() == s[i as int]);
                // the name is new among the sections seen so far
                lemma_lookup(t0, k);
                if lookup(t0, k) is Some {
                    let j = choose|j: int| 0 <= j < t0.len() && #[trigger] t0[j] == (k, lookup(t0, k)->0);
                    assert(t0[j] == s[j]);
                    assert(name_less(s[j].0, s[i as int].0));
                    lemma_name_less_asymmetric(k, k);
                }
            }
            if same_text(name, "default") || same_text(name, marked.as_str()) {
            } else {
                match strip_prefix(name, prefix) {
                    Some(profile) => {
                        proof {
                            lemma_prefix(p, k);
                            assert forall|n: Seq<char>| n != profile@ implies p + n != k by {
                                lemma_prefix(p, n);
                            }
                        }
                        put(&mut out, profile, copy_items(&data[i].1));
                    },
                    None => {
                        proof {
                            assert forall|n: Seq<char>| p + n != k by {
                                lemma_prefix(p, n);
                            }
                        }
                        if get(&out, name).is_none() {
                            put(&mut out, data[i].0.clone(), copy_items(&data[i].1));
                        }
                    },
                }
            }
            proof {
                let after = out.deep_view();
                assert forall|n: Seq<char>| #[trigger]
                    lookup(after, n) == loaded_lookup(t1, p, n) by {
                    assert(lookup(before, n) == loaded_lookup(t0, p, n));
                }
                assert forall|x: int| 0 <= x < after.len() implies ascending(
                    (#[trigger] after[x]).1,
                ) by {
                    lemma_lookup_at(after, x);
                    lemma_lookup(before, after[x].0);
                }
            }
            i = i + 1;
        }
        let r = Store { data: out, default_profile_name };
        proof {
            assert(s.take(i as int) =~= s);
            let t = r@.profiles;
            let c = loaded_profiles(s, p);
            assert(ascending(t) && forall|n: Seq<char>| #[trigger]
                lookup(t, n) == loaded_lookup(s, p, n));
            lemma_ascending_unique(t, c);
            if found_default(s, p) is Some {
                lemma_found_default_loaded(s, p);
            }
            lemma_prefix(p, default_section());
        }
        r
    }

    /// Whether the store is well formed.
    pub fn is_valid(&self) -> (r: bool)
        ensures
            r == self@.wf(),
    {
        let ghost s = self.data.deep_view();
        if !is_ascending(&self.data) {
            return false;
        }
        let mut i: usize = 0;
        while i < self.data.len()
            invariant
                s == self.data.deep_view(),
                i <= self.data.len(),
                forall|j: int| 0 <= j < i ==> ascending((#[trigger] s[j]).1),
            decreases self.data.len() - i,
        {
            assert(s[i as int] == (self.data[i as int].0@, self.data[i as int].1.deep_view()));
            if !is_ascending(&self.data[i].1) {
                return false;
            }
            i = i + 1;
        }
        if get(&self.data, "default").is_some() {
            return false;
        }
        match &self.default_profile_name {
            Some(d) => get(&self.data, d.as_str()).is_some(),
            None => true,
        }
    }

    /// Whether `name` is the default profile.
    pub fn is_default_profile(&self, name: &str) -> (r: bool)
        ensures
            r == self@.is_default(name@),
    {
        match &self.default_profile_name {
            Some(d) => same_text(d.as_str(), name),
            None => false,
        }
    }

    /// The profile of that name, with its entries and its flag.
    pub fn get_profile(&self, name: &str) -> (r: Result<Profile, CTXError>)
        requires
            self@.wf(),
        ensures
            result_view(r) == self@.profile(name@),
    {
        match get(&self.data, name) {
            Some(items) => Ok(
                Profile {
                    name: name.to_owned(),
                    default: self.is_default_profile(name),
                    items: copy_items(items),
                },
            ),
            None => Err(CTXError::NoSuchProfile { profile: name.to_owned() }),
        }
    }

    /// The default profile.
    pub fn get_default_profile(&self) -> (r: Result<Profile, CTXError>)
        requires
            self@.wf(),
        ensures
            result_view(r) == self@.default_profile(),
            self@.default_name is Some ==> r is Ok,
    {
        match &self.default_profile_name {
            Some(d) => self.get_profile(d.as_str()),
            None => Err(CTXError::NoActiveContext),
        }
    }

    /// Makes `name` the default profile, if the store knows it, and returns
    /// it. An unknown name leaves the store as it is.
    pub fn set_default_profile(&mut self, name: &str) -> (r: Result<Profile, CTXError>)
        requires
            old(self)@.wf(),
        ensures
            final(self)@ == old(self)@.with_default(name@),
            final(self)@.wf(),
            result_view(r) == final(self)@.profile(name@),
    {
        match get(&self.data, name) {
            Some(items) => {
                let profile = Profile {
                    name: name.to_owned(),
                    default: true,
                    items: copy_items(items),
                };
                self.default_profile_name = Some(name.to_owned());
                Ok(profile)
            },
            None => Err(CTXError::NoSuchProfile { profile: name.to_owned() }),
        }
    }

    /// The profiles in ascending order of their names, each with its flag.
    pub fn list_profiles(&self) -> (r: Vec<Profile>)
        requires
            self@.wf(),
        ensures
            r.deep_view() == self@.listing(),
            r.len() == self@.profiles.len(),
            forall|i: int, j: int|
                0 <= i < j < r.len() ==> name_less((#[trigger] r[i]).name@, (#[trigger] r[j]).name@),
    {
        let ghost s = self.data.deep_view();
        let mut out: Vec<Profile> = Vec::new();
        let mut i: usize = 0;
        while i < self.data.len()
            invariant
                s == self.data.deep_view(),
                i <= self.data.len(),
                out.len() == i,
                forall|j: int| 0 <= j < i ==> (#[trigger] out[j])@ == self@.listing()[j],
            decreases self.data.len() - i,
        {
            assert(s[i as int] == (self.data[i as int].0@, self.data[i as int].1.deep_view()));
            let name = self.data[i].0.as_str();
            out.push(
                Profile {
                    name: name.to_owned(),
                    default: self.is_default_profile(name),
                    items: copy_items(&self.data[i].1),
                },
            );
            i = i + 1;
        }
        proof {
            assert(out.deep_view() =~= self@.listing());
            assert forall|a: int, b: int| 0 <= a < b < out.len() implies name_less(
                (#[trigger] out[a]).name@,
                (#[trigger] out[b]).name@,
            ) by {
                assert(out[a]@ == self@.listing()[a] && out[b]@ == self@.listing()[b]);
                assert(name_less(s[a].0, s[b].0));
            }
        }
        out
    }

    /// The text of the file that holds the store.
    pub fn dump(&self, prefix: &str) -> (r: String)
        requires
            self@.wf(),
            marks(prefix@),
        ensures
            r@ == self@.text(prefix@),
    {
        let ghost s = self.data.deep_view();
        let ghost p = prefix@;
        let ghost want = self@.profile_sections(p);
        let mut sections: Sections = Vec::new();
        let mut i: usize = 0;
        while i < self.data.len()
            invariant
                s == self.data.deep_view(),
                p == prefix@,
                want == self@.profile_sections(p),
                i <= self.data.len(),
                sections.len() == i,
                forall|j: int| 0 <= j < i ==> (#[trigger] sections.deep_view()[j]) == want[j],
            decreases self.data.len() - i,
        {
            assert(s[i as int] == (self.data[i as int].0@, self.data[i as int].1.deep_view()));
            let ghost before = sections.deep_view();
            sections.push((join(prefix, self.data[i].0.as_str()), copy_items(&self.data[i].1)));
            proof {
                let after = sections.deep_view();
                assert(after =~= before.push(want[i as int]));
            }
            i = i + 1;
        }
        assert(sections.deep_view() =~= want);
        match &self.default_profile_name {
            Some(d) => {
                let found = get(&self.data, d.as_str());
                let items = match found {
                    Some(items) => copy_items(items),
                    None => Vec::new(),
                };
                let ghost before = sections.deep_view();
                sections.push(("default".to_owned(), items));
                assert(sections.deep_view() =~= before.push(
                    (default_section(), lookup(s, d@)->0),
                ));
            },
            None => {},
        }
        proof {
            let out = sections.deep_view();
            assert(out == self@.sections(p));
            lemma_sections_distinct(self@, p);
        }
        render(&sections)
    }
}

/// The sections that a store is written as bear different names, and the
/// entries of each bear different keys.
pub proof fn lemma_sections_distinct(store: StoreView, prefix: Seq<char>)
    requires
        store.wf(),
        marks(prefix),
    ensures
        distinct(store.sections(prefix)),
        forall|i: int|
            0 <= i < store.sections(prefix).len() ==> distinct(
                (#[trigger] store.sections(prefix)[i]).1,
            ),
{
    reveal_strlit("default");
    let s = store.profiles;
    let out = store.sections(prefix);
    let n = s.len() as int;
    assert forall|i: int, j: int| 0 <= i < j < out.len() implies (#[trigger] out[i]).0 != (
    #[trigger] out[j]).0 by {
        lemma_prefix(prefix, s[i].0);
        if j < n {
            lemma_prefix(prefix, s[j].0);
            assert(name_less(s[i].0, s[j].0));
            lemma_name_less_asymmetric(s[i].0, s[i].0);
        } else {
            if prefix.len() == 0 {
                assert(prefix + s[i].0 =~= s[i].0);
                lemma_lookup_at(s, i);
            } else {
                assert((prefix + s[i].0).len() > default_section().len());
            }
        }
    }
    assert forall|i: int| 0 <= i < out.len() implies distinct((#[trigger] out[i]).1) by {
        let items = out[i].1;
        if i < n {
            assert(ascending(s[i].1));
        } else {
            let d = store.default_name->0;
            lemma_lookup(s, d);
            let k = choose|k: int| 0 <= k < s.len() && #[trigger] s[k] == (d, lookup(s, d)->0);
            assert(ascending(s[k].1));
        }
        lemma_ascending_distinct(items);
    }
}

} // verus!
