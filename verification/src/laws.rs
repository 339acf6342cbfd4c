//! What holds of the stores and of the registry whatever they hold.

use vstd::prelude::*;
use crate::aws::ManagerView;
use crate::ctx::ActionView;
use crate::ctx::EventView;
use crate::ctx::PendingView;
use crate::aws::command_failure;
use crate::aws::opens_decorator;
use crate::aws::render_failure;
use crate::configs::command_for;
use crate::config::ProfileView;
use crate::config::profile_prefix;
use crate::creds::no_prefix;
use crate::ctx::ContextView;
use crate::ctx::ErrorView;
use crate::ini::SectionsView;
use crate::ini::FileView;
use crate::ini::blank_file;
use crate::ini::canonical;
use crate::ini::written;
use crate::ini::lemma_same_entries;
use crate::ini::sections_map;
use crate::store::lemma_found_default_loaded;
use crate::store::lemma_sections_distinct;
use crate::store::read_from;
use crate::store::stands_for_profile;
use crate::store::lemma_unmarked_from;
use crate::store::loaded_lookup;
use crate::store::loaded_profiles;
use crate::store::marks;
use crate::table::lemma_ascending_unique;
use crate::table::lemma_lookup;
use crate::text::has_prefix;
use crate::text::lemma_name_less_asymmetric;
use crate::text::lemma_name_less_prefixed;
use crate::text::lemma_prefix;
use crate::store::StoreView;
use crate::store::default_section;
use crate::store::found_default;
use crate::store::found_default_from;
use crate::store::may_be_default;
use crate::table::ascending;
use crate::table::has_name;
use crate::table::lemma_lookup_at;
use crate::table::lemma_lookup_at_distinct;
use crate::table::lookup;
use crate::text::name_less;

verus! {

/// The profiles are listed in strictly ascending order of their names,
/// whatever the order in which the store was filled.
pub proof fn law_listing_ascending(store: StoreView, i: int, j: int)
    requires
        store.wf(),
        0 <= i < j < store.listing().len(),
    ensures
        name_less(store.listing()[i].name, store.listing()[j].name),
{
}

/// Every profile of the store is listed once, with its entries, and nothing
/// else is listed.
pub proof fn law_listing_complete(store: StoreView, name: Seq<char>)
    requires
        store.wf(),
    ensures
        store.profile(name) is Ok <==> exists|i: int|
            0 <= i < store.listing().len() && (#[trigger] store.listing()[i]).name == name,
        forall|i: int|
            0 <= i < store.listing().len() ==> store.profile((#[trigger] store.listing()[i]).name)
                == Ok::<ProfileView, ErrorView>(store.listing()[i]),
{
    crate::table::lemma_lookup(store.profiles, name);
    if store.profile(name) is Ok {
        let i = choose|i: int|
            0 <= i < store.profiles.len() && #[trigger] store.profiles[i] == (
                name,
                lookup(store.profiles, name)->0,
            );
        assert(store.listing()[i].name == name);
    }
    assert forall|i: int| 0 <= i < store.listing().len() implies store.profile(
        (#[trigger] store.listing()[i]).name,
    ) == Ok::<ProfileView, ErrorView>(store.listing()[i]) by {
        lemma_lookup_at(store.profiles, i);
    }
}

/// A profile that the store holds is found under its name with exactly its
/// entries and its flag; a name that the store does not hold gives
/// `NoSuchProfile` with that name.
pub proof fn law_lookup(store: StoreView, name: Seq<char>)
    ensures
        has_name(store.profiles, name) ==> store.profile(name) == Ok::<ProfileView, ErrorView>(
            ProfileView {
                name,
                default: store.default_name == Some(name),
                items: lookup(store.profiles, name)->0,
            },
        ),
        !has_name(store.profiles, name) ==> store.profile(name) == Err::<ProfileView, ErrorView>(
            ErrorView::NoSuchProfile { profile: name },
        ),
{
}

/// Once a profile was made the default, it is the default profile and the
/// only profile listed as default; making it the default again changes
/// nothing.
pub proof fn law_set_default_visible(store: StoreView, name: Seq<char>)
    requires
        store.wf(),
        has_name(store.profiles, name),
    ensures
        store.with_default(name).wf(),
        store.with_default(name).default_profile() == Ok::<ProfileView, ErrorView>(
            ProfileView { name, default: true, items: lookup(store.profiles, name)->0 },
        ),
        forall|i: int|
            0 <= i < store.listing().len() ==> {
                &&& (#[trigger] store.with_default(name).listing()[i]).name == store.listing()[i].name
                &&& store.with_default(name).listing()[i].items == store.listing()[i].items
                &&& store.with_default(name).listing()[i].default == (store.listing()[i].name
                    == name)
            },
        store.with_default(name).with_default(name) == store.with_default(name),
{
}

/// Making an unknown name the default changes nothing.
pub proof fn law_set_default_unknown(store: StoreView, name: Seq<char>)
    requires
        !has_name(store.profiles, name),
    ensures
        store.with_default(name) == store,
{
}

/// Without a default section no profile is marked as default.
pub proof fn law_no_default_section(data: SectionsView, prefix: Seq<char>)
    requires
        !has_name(data, default_section()),
    ensures
        found_default(data, prefix) is None,
{
    lemma_unmarked_from(data, prefix, 0);
}

proof fn lemma_marked_from(data: SectionsView, prefix: Seq<char>, at: int, from: int)
    requires
        0 <= from <= at < data.len(),
        may_be_default(data, prefix, at),
        forall|i: int| from <= i < at ==> !may_be_default(data, prefix, i),
    ensures
        found_default_from(data, prefix, from) == Some(data[at].0.skip(prefix.len() as int)),
    decreases at - from,
{
    if from < at {
        lemma_marked_from(data, prefix, at, from + 1);
    }
}

/// Where exactly one section repeats the default section, its profile is
/// the default.
pub proof fn law_one_marked(data: SectionsView, prefix: Seq<char>, at: int)
    requires
        0 <= at < data.len(),
        may_be_default(data, prefix, at),
        forall|i: int| 0 <= i < data.len() && i != at ==> !may_be_default(data, prefix, i),
    ensures
        found_default(data, prefix) == Some(data[at].0.skip(prefix.len() as int)),
{
    lemma_marked_from(data, prefix, at, 0);
}

/// A switch to a name that one of the stores does not know ends at once
/// with `NoSuchProfile`, and nothing is to be written.
pub proof fn law_unknown_profile_blocks_switch(registry: ManagerView, name: Seq<char>)
    requires
        !has_name(registry.credentials.profiles, name) || !has_name(registry.config.profiles, name),
    ensures
        registry.switch(name).1 == (ActionView::Done {
            result: Err(ErrorView::NoSuchProfile { profile: name }),
        }),
        registry.switch(name).0.pending == PendingView::Nothing,
        !has_name(registry.credentials.profiles, name) ==> registry.switch(name).0
            == registry.waiting_for(PendingView::Nothing),
{
}

/// An auth command that fails ends the sign-in with
/// `InvalidConfigurations`, and both stores stay as they were.
pub proof fn law_failed_auth_blocks_switch(registry: ManagerView, profile: Seq<char>)
    requires
        registry.pending == (PendingView::Command { profile }),
    ensures
        registry.step(EventView::CommandFailed).1 == (ActionView::Done {
            result: Err(ErrorView::InvalidConfigurations { message: command_failure(profile) }),
        }),
        registry.step(EventView::CommandFailed).0.credentials == registry.credentials,
        registry.step(EventView::CommandFailed).0.config == registry.config,
        registry.step(EventView::CommandFailed).0.pending == PendingView::Nothing,
{
}

/// A template that opens a decorator is never rendered: the sign-in ends
/// with `InvalidConfigurations`, and both stores stay as they were.
pub proof fn law_decorator_blocks_sign_in(registry: ManagerView, profile: Seq<char>)
    requires
        command_for(registry.commands, profile) is Some,
        opens_decorator(command_for(registry.commands, profile)->0),
    ensures
        registry.sign_in(profile) == registry.done(
            Err(ErrorView::InvalidConfigurations { message: render_failure(profile) }),
        ),
{
}

/// A switch to a name that both stores know writes the credentials file,
/// then the settings file, each with the name as its default, and ends with
/// the context, active; from its first step on both stores have the name as
/// their default.
pub proof fn law_switch_commits(registry: ManagerView, name: Seq<char>)
    requires
        registry.wf(),
        has_name(registry.credentials.profiles, name),
        has_name(registry.config.profiles, name),
    ensures
        ({
            let (first, write_credentials) = registry.switch(name);
            let (second, write_config) = first.step(EventView::Written);
            let (third, done) = second.step(EventView::Written);
            &&& first.credentials.default_name == Some(name)
            &&& first.config.default_name == Some(name)
            &&& first.credentials.profiles == registry.credentials.profiles
            &&& first.config.profiles == registry.config.profiles
            &&& write_credentials == ActionView::WriteCredentials {
                text: first.credentials.text(no_prefix()),
            }
            &&& write_config == ActionView::WriteConfig { text: first.config.text(profile_prefix()) }
            &&& done == ActionView::Done { result: Ok(ContextView { name, active: true }) }
            &&& third == first.waiting_for(PendingView::Nothing)
            &&& third.wf()
        }),
{
}

/// A file that cannot be written ends the switch with the error of that
/// file; the settings file is not written once the credentials file has
/// failed.
pub proof fn law_write_failure_ends_switch(registry: ManagerView, context: ContextView)
    ensures
        registry.waiting_for(PendingView::CredentialsWrite { context }).step(
            EventView::WriteFailed,
        ).1 == (ActionView::Done { result: Err(ErrorView::CannotWriteCredentials) }),
        registry.waiting_for(PendingView::ConfigWrite { context }).step(EventView::WriteFailed).1
            == (ActionView::Done { result: Err(ErrorView::CannotWriteConfig) }),
{
}

/// A choice that is left, or confirmed with nothing chosen, changes no
/// store and ends with `NoContextIsSelected`.
pub proof fn law_no_choice_no_switch(registry: ManagerView)
    requires
        registry.pending == PendingView::Selection,
    ensures
        registry.step(EventView::PickDismissed) == registry.done(
            Err(ErrorView::NoContextIsSelected),
        ),
        registry.step(EventView::Picked { names: Seq::empty() }) == registry.done(
            Err(ErrorView::NoContextIsSelected),
        ),
        registry.step(EventView::PickerFailed) == registry.done(Err(ErrorView::UnexpectedError)),
{
}

/// The sections under their names, in the order given.
pub open spec fn named(s: SectionsView) -> FileView {
    Seq::new(s.len(), |i: int| (Some(s[i].0), s[i].1))
}

/// Where every section has an entry, the file holds the sections in the
/// order in which they were set, behind its empty general section: so a
/// store's file lists the profiles in ascending order of their names and
/// the default section last.
pub proof fn law_written_in_order(s: SectionsView)
    requires
        forall|i: int| 0 <= i < s.len() ==> (#[trigger] s[i]).1.len() > 0,
    ensures
        written(s) == blank_file() + named(s),
    decreases s.len(),
{
    if s.len() == 0 {
        assert(written(s) =~= blank_file() + named(s));
    } else {
        let t = s.drop_last();
        assert forall|i: int| 0 <= i < t.len() implies (#[trigger] t[i]).1.len() > 0 by {
            assert(t[i] == s[i]);
        }
        law_written_in_order(t);
        assert(s.last() == s[s.len() - 1]);
        assert(written(s) =~= blank_file() + named(s));
    }
}

/// No other profile holds the same entries as the default profile, so that
/// the default section can be taken for no other.
pub open spec fn unmistakable(store: StoreView) -> bool {
    match store.default_name {
        Some(d) => forall|i: int|
            0 <= i < store.profiles.len() && (#[trigger] store.profiles[i]).1 == lookup(
                store.profiles,
                d,
            )->0 ==> store.profiles[i].0 == d,
        None => true,
    }
}

/// What a store holds under each section name of the file it is written as.
proof fn lemma_sections_lookup(store: StoreView, prefix: Seq<char>)
    requires
        store.wf(),
        marks(prefix),
    ensures
        forall|m: Seq<char>|
            prefix + m != default_section() ==> #[trigger] lookup(
                store.sections(prefix),
                prefix + m,
            ) == lookup(store.profiles, m),
        lookup(store.sections(prefix), default_section()) == match store.default_name {
            Some(d) => lookup(store.profiles, d),
            None => None,
        },
        forall|k: Seq<char>|
            has_name(store.sections(prefix), k) ==> k == default_section() || has_prefix(k, prefix),
        forall|i: int|
            0 <= i < store.sections(prefix).len() ==> ascending(
                (#[trigger] store.sections(prefix)[i]).1,
            ),
{
    reveal_strlit("default");
    let s = store.profiles;
    let l = store.sections(prefix);
    let n = s.len() as int;
    lemma_sections_distinct(store, prefix);
    assert forall|i: int| 0 <= i < l.len() implies ascending((#[trigger] l[i]).1) by {
        if i < n {
            assert(ascending(s[i].1));
        } else {
            let d = store.default_name->0;
            lemma_lookup(s, d);
            let k = choose|k: int| 0 <= k < s.len() && #[trigger] s[k] == (d, lookup(s, d)->0);
            assert(ascending(s[k].1));
        }
    }
    // a profile's section is not the default section
    assert forall|i: int| 0 <= i < n implies (#[trigger] l[i]).0 != default_section() by {
        if prefix.len() == 0 {
            assert(prefix + s[i].0 =~= s[i].0);
            lemma_lookup_at(s, i);
        } else {
            assert((prefix + s[i].0).len() > default_section().len());
        }
    }
    assert forall|m: Seq<char>| prefix + m != default_section() implies #[trigger] lookup(
        l,
        prefix + m,
    ) == lookup(s, m) by {
        lemma_lookup(s, m);
        lemma_lookup(l, prefix + m);
        if lookup(s, m) is Some {
            let i = choose|i: int| 0 <= i < s.len() && #[trigger] s[i] == (m, lookup(s, m)->0);
            assert(l[i] == (prefix + m, s[i].1));
            lemma_lookup_at_distinct(l, i);
        } else if lookup(l, prefix + m) is Some {
            let i = choose|i: int|
                0 <= i < l.len() && #[trigger] l[i] == (prefix + m, lookup(l, prefix + m)->0);
            if i < n {
                lemma_prefix(prefix, m);
                lemma_prefix(prefix, s[i].0);
                assert(s[i].0 == m);
            }
        }
    }
    lemma_lookup(l, default_section());
    match store.default_name {
        Some(d) => {
            assert(l[n] == (default_section(), lookup(s, d)->0));
            lemma_lookup_at_distinct(l, n);
        },
        None => {},
    }
    assert forall|k: Seq<char>| has_name(l, k) implies k == default_section() || has_prefix(
        k,
        prefix,
    ) by {
        lemma_lookup(l, k);
        let i = choose|i: int| 0 <= i < l.len() && #[trigger] l[i] == (k, lookup(l, k)->0);
        if i < n {
            lemma_prefix(prefix, s[i].0);
        }
    }
}

/// A store that is written and read again is the same store: whatever table
/// in normal form holds the sections that a store is written as, the store
/// read from that table has the same profiles with the same entries and the
/// same default. This holds where the default profile cannot be mistaken
/// for another one.
pub proof fn law_reload(store: StoreView, prefix: Seq<char>, data: SectionsView)
    requires
        store.wf(),
        marks(prefix),
        unmistakable(store),
        canonical(data),
        sections_map(data) == sections_map(store.sections(prefix)),
    ensures
        StoreView::loaded(data, prefix) == store,
{
    reveal_strlit("default");
    let s = store.profiles;
    let l = store.sections(prefix);
    lemma_sections_lookup(store, prefix);
    lemma_same_entries(data, l);
    assert forall|n: Seq<char>| #[trigger] lookup(s, n) == loaded_lookup(data, prefix, n) by {
        lemma_prefix(prefix, n);
        lemma_prefix(prefix, default_section());
        if prefix + n != default_section() {
            assert(lookup(l, prefix + n) == lookup(s, n));
        }
        assert(lookup(data, prefix + n) == lookup(l, prefix + n));
        assert(lookup(data, n) == lookup(l, n));
        if prefix + n == default_section() && n != default_section() {
            if prefix.len() == 0 {
                assert(prefix + n =~= n);
            } else {
                assert((prefix + n).len() > default_section().len());
            }
        }
        if prefix + n == prefix + default_section() {
            assert(n == default_section());
        }
    }
    let c = loaded_profiles(data, prefix);
    lemma_ascending_unique(s, c);
    // the default
    match store.default_name {
        None => {
            assert(lookup(data, default_section()) == lookup(l, default_section()));
            law_no_default_section(data, prefix);
        },
        Some(d) => {
            let items = lookup(s, d)->0;
            assert(lookup(data, default_section()) == Some(items)) by {
                assert(lookup(data, default_section()) == lookup(l, default_section()));
            }
            lemma_prefix(prefix, d);
            lemma_prefix(prefix, default_section());
            assert(prefix + d != default_section()) by {
                if prefix.len() == 0 {
                    assert(prefix + d =~= d);
                } else {
                    assert((prefix + d).len() > default_section().len());
                }
            }
            assert(lookup(data, prefix + d) == Some(items)) by {
                assert(lookup(l, prefix + d) == lookup(s, d));
                assert(lookup(data, prefix + d) == lookup(l, prefix + d));
            }
            lemma_lookup(data, prefix + d);
            let at = choose|at: int| 0 <= at < data.len() && #[trigger] data[at] == (prefix + d, items);
            assert(may_be_default(data, prefix, at));
            assert forall|i: int| 0 <= i < data.len() && i != at implies !may_be_default(
                data,
                prefix,
                i,
            ) by {
                if may_be_default(data, prefix, i) {
                    let k = data[i].0;
                    let m = k.skip(prefix.len() as int);
                    lemma_prefix(prefix, k);
                    lemma_lookup_at(data, i);
                    assert(lookup(l, prefix + m) == lookup(s, m));
                    assert(lookup(data, prefix + m) == lookup(l, prefix + m));
                    lemma_lookup(s, m);
                    let j = choose|j: int| 0 <= j < s.len() && #[trigger] s[j] == (m, data[i].1);
                    assert(s[j].0 == d);
                    // two sections of one name in an ascending table
                    if i < at {
                        assert(name_less(data[i].0, data[at].0));
                    } else {
                        assert(name_less(data[at].0, data[i].0));
                    }
                    lemma_name_less_asymmetric(k, k);
                }
            }
            law_one_marked(data, prefix, at);
        },
    }
}

/// After a switch both files, read again, give stores with the new default
/// and with the profiles that were there before. This is stated of the
/// tables that hold the sections written, and it holds where no other
/// profile repeats the entries of the new default.
pub proof fn law_switch_then_reload(
    registry: ManagerView,
    name: Seq<char>,
    credentials_read: SectionsView,
    config_read: SectionsView,
)
    requires
        registry.wf(),
        has_name(registry.credentials.profiles, name),
        has_name(registry.config.profiles, name),
        unmistakable(registry.credentials.with_default(name)),
        unmistakable(registry.config.with_default(name)),
        canonical(credentials_read),
        canonical(config_read),
        sections_map(credentials_read) == sections_map(
            registry.credentials.with_default(name).sections(no_prefix()),
        ),
        sections_map(config_read) == sections_map(
            registry.config.with_default(name).sections(profile_prefix()),
        ),
    ensures
        registry.switch(name).0.credentials == registry.credentials.with_default(name),
        registry.switch(name).0.config == registry.config.with_default(name),
        StoreView::loaded(credentials_read, no_prefix()) == (StoreView {
            profiles: registry.credentials.profiles,
            default_name: Some(name),
        }),
        StoreView::loaded(config_read, profile_prefix()) == (StoreView {
            profiles: registry.config.profiles,
            default_name: Some(name),
        }),
        StoreView::loaded(config_read, profile_prefix()).default_profile() is Ok,
        StoreView::loaded(config_read, profile_prefix()).default_profile()->Ok_0.name == name,
{
    reveal_strlit("profile ");
    reveal_strlit("default");
    law_reload(registry.credentials.with_default(name), no_prefix(), credentials_read);
    law_reload(registry.config.with_default(name), profile_prefix(), config_read);
}

/// A file that is read and written again holds the sections it held:
/// where every section of a file is the default section or a profile's,
/// and the default section, if there is one, repeats a profile's, the store
/// read from the file is written as exactly those sections, the profiles'
/// in ascending order of their names and the default section last.
pub proof fn law_rewrite(store: StoreView, data: SectionsView, prefix: Seq<char>)
    requires
        canonical(data),
        marks(prefix),
        read_from(store, data, prefix),
        forall|i: int|
            0 <= i < data.len() ==> (#[trigger] data[i]).0 == default_section() || (has_prefix(
                data[i].0,
                prefix,
            ) && stands_for_profile(prefix, data[i].0)),
        has_name(data, default_section()) ==> found_default(data, prefix) is Some,
    ensures
        sections_map(store.sections(prefix)) == sections_map(data),
        forall|n: Seq<char>| lookup(store.sections(prefix), n) == lookup(data, n),
{
    reveal_strlit("default");
    let l = store.sections(prefix);
    lemma_sections_lookup(store, prefix);
    if found_default(data, prefix) is Some {
        lemma_found_default_loaded(data, prefix);
    } else {
        assert(!has_name(data, default_section()));
    }
    assert forall|k: Seq<char>| lookup(l, k) == lookup(data, k) by {
        lemma_lookup(data, k);
        lemma_lookup(l, k);
        if k == default_section() {
            match store.default_name {
                Some(d) => {
                    assert(lookup(store.profiles, d) == loaded_lookup(data, prefix, d));
                },
                None => {},
            }
        } else if has_prefix(k, prefix) {
            let m = k.skip(prefix.len() as int);
            lemma_prefix(prefix, k);
            lemma_prefix(prefix, m);
            lemma_prefix(prefix, default_section());
            assert(prefix + m == k);
            assert(lookup(l, prefix + m) == lookup(store.profiles, m));
            assert(lookup(store.profiles, m) == loaded_lookup(data, prefix, m));
            if !stands_for_profile(prefix, k) {
                assert(m == default_section());
            } else if !has_name(data, k) {
                lemma_lookup(data, m);
            }
        } else {
            if lookup(l, k) is Some {
                assert(has_name(l, k));
            }
        }
    }
    assert(sections_map(l) =~= sections_map(data));
}

/// The profile sections of a store are written in ascending order of
/// their section names, and they are the sections of the file that the
/// store was read from, the default section left out. So a file that lists
/// its profile sections in ascending order and its default section last is
/// written with its sections in the order in which it listed them.
pub proof fn law_rewrite_in_order(store: StoreView, data: SectionsView, prefix: Seq<char>)
    requires
        canonical(data),
        marks(prefix),
        read_from(store, data, prefix),
        forall|i: int|
            0 <= i < data.len() ==> (#[trigger] data[i]).0 == default_section() || (has_prefix(
                data[i].0,
                prefix,
            ) && stands_for_profile(prefix, data[i].0)),
        has_name(data, default_section()) ==> found_default(data, prefix) is Some,
    ensures
        ascending(store.profile_sections(prefix)),
        forall|n: Seq<char>|
            lookup(store.profile_sections(prefix), n) == if n == default_section() {
                None
            } else {
                lookup(data, n)
            },
{
    reveal_strlit("default");
    let s = store.profiles;
    let ps = store.profile_sections(prefix);
    let l = store.sections(prefix);
    assert forall|i: int, j: int| 0 <= i < j < ps.len() implies name_less(
        #[trigger] ps[i].0,
        #[trigger] ps[j].0,
    ) by {
        assert(name_less(s[i].0, s[j].0));
        lemma_name_less_prefixed(prefix, s[i].0, s[j].0);
    }
    law_rewrite(store, data, prefix);
    assert forall|n: Seq<char>| lookup(ps, n) == if n == default_section() {
        None
    } else {
        lookup(data, n)
    } by {
        if n == default_section() {
            lemma_lookup(ps, n);
            if lookup(ps, n) is Some {
                let i = choose|i: int| 0 <= i < ps.len() && #[trigger] ps[i] == (n, lookup(ps, n)->0);
                if prefix.len() == 0 {
                    assert(prefix + s[i].0 =~= s[i].0);
                    lemma_lookup_at(s, i);
                } else {
                    assert((prefix + s[i].0).len() > default_section().len());
                }
            }
        } else {
            assert(lookup(l, n) == lookup(data, n));
            if store.default_name is Some {
                assert(l.drop_last() =~= ps);
            }
        }
    }
}

} // verus!
