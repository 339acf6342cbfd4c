//! The credentials file: one section for each profile, under the profile's
//! name, and the section `default`, which repeats the entries of the default
//! profile.

use vstd::prelude::*;
use crate::config::Profile;
use crate::ctx::CTXError;
use crate::ctx::ErrorView;
use crate::ctx::result_view;
use crate::ini::Sections;
use crate::ini::canonical;
use crate::ini::parse;
use crate::ini::parsed_sections;
use crate::ini::readable;
use crate::ini::sections_map;
use crate::ini::text_table;
use crate::store::Store;
use crate::store::StoreView;
use crate::store::found_default;
use crate::store::loaded_lookup;
use crate::store::read_from;
use crate::table::lookup;
use crate::text::name_less;

verus! {

/// A credentials file puts nothing before a profile's name.
pub open spec fn no_prefix() -> Seq<char> {
    Seq::empty()
}

/// The profiles of the credentials file.
#[derive(Default, Debug, PartialEq, Eq)]
pub struct Credentials {
    pub store: Store,
}

impl View for Credentials {
    type V = StoreView;

    open spec fn view(&self) -> StoreView {
        self.store@
    }
}

impl Credentials {
    /// The store that the sections of a credentials file are read into.
    pub fn from_sections(data: Sections) -> (r: Credentials)
        requires
            canonical(data.deep_view()),
        ensures
            forall|n: Seq<char>| #[trigger]
                lookup(r@.profiles, n) == loaded_lookup(data.deep_view(), no_prefix(), n),
            r@.default_name == found_default(data.deep_view(), no_prefix()),
            r@.wf(),
            r@ == StoreView::loaded(data.deep_view(), no_prefix()),
    {
        proof {
            reveal_strlit("");
            assert(""@ =~= no_prefix());
        }
        Credentials { store: Store::from_sections(data, "") }
    }

    /// Reads the credentials file from its text.
    pub fn load_credentials(text: &str) -> (r: Result<Credentials, CTXError>)
        ensures
            match r {
                Ok(credentials) => {
                    &&& readable(text@)
                    &&& canonical(text_table(text@))
                    &&& sections_map(text_table(text@)) == parsed_sections(text@)->0
                    &&& read_from(credentials@, text_table(text@), no_prefix())
                },
                Err(e) => !readable(text@) && e@ == ErrorView::CredentialsIsBroken,
            },
    {
        match parse(text) {
            Some(data) => Ok(Credentials::from_sections(data)),
            None => Err(CTXError::CredentialsIsBroken),
        }
    }

    /// Whether the store is well formed.
    pub fn is_valid(&self) -> (r: bool)
        ensures
            r == self@.wf(),
    {
        self.store.is_valid()
    }

    /// Whether `name` is the default profile.
    pub fn is_default_profile(&self, name: &str) -> (r: bool)
        ensures
            r == self@.is_default(name@),
    {
        self.store.is_default_profile(name)
    }

    /// The profile of that name, or `NoSuchProfile` with the name.
    pub fn get_profile(&self, name: &str) -> (r: Result<Profile, CTXError>)
        requires
            self@.wf(),
        ensures
            result_view(r) == self@.profile(name@),
    {
        self.store.get_profile(name)
    }

    /// The default profile, or `NoActiveContext` where there is none.
    pub fn get_default_profile(&self) -> (r: Result<Profile, CTXError>)
        requires
            self@.wf(),
        ensures
            result_view(r) == self@.default_profile(),
            self@.default_name is Some ==> r is Ok,
    {
        self.store.get_default_profile()
    }

    /// Makes `name` the default profile and returns it. An unknown name
    /// leaves the store as it is and gives `NoSuchProfile` with the name.
    pub fn set_default_profile(&mut self, name: &str) -> (r: Result<Profile, CTXError>)
        requires
            old(self)@.wf(),
        ensures
            final(self)@ == old(self)@.with_default(name@),
            final(self)@.wf(),
            result_view(r) == final(self)@.profile(name@),
    {
        self.store.set_default_profile(name)
    }

    /// The profiles in ascending order of their names, each with its flag.
    pub fn list_profiles(&self) -> (r: Vec<Profile>)
        requires
            self@.wf(),
        ensures
            r.deep_view() == self@.listing(),
            r.len() == self@.profiles.len(),
            forall|i: int, j: int|
                0 <= i < j < r.len() ==> name_less((#[trigger] r[i]).name@, (#[trigger] r[j]).name@),
    {
        self.store.list_profiles()
    }

    /// The text of the credentials file: the profiles in ascending order of
    /// their names, each with its entries in ascending order of their keys,
    /// and the default section last.
    pub fn dump_credentials(&self) -> (r: String)
        requires
            self@.wf(),
        ensures
            r@ == self@.text(no_prefix()),
    {
        proof {
            reveal_strlit("");
            assert(""@ =~= no_prefix());
        }
        self.store.dump("")
    }
}

} // verus!
