//! The settings file: one section `profile <name>` for each profile, and the
//! section `default`, which repeats the entries of the default profile.

use vstd::prelude::*;
use crate::ctx::CTXError;
use crate::ctx::ErrorView;
use crate::ctx::result_view;
use crate::ini::Items;
use crate::ini::ItemsView;
use crate::ini::Sections;
use crate::ini::canonical;
use crate::ini::parse;
use crate::ini::parsed_sections;
use crate::ini::readable;
use crate::ini::sections_map;
use crate::ini::text_table;
use crate::store::Store;
use crate::store::StoreView;
use crate::store::find_default;
use crate::store::found_default;
use crate::store::loaded_lookup;
use crate::store::read_from;
use crate::table::lookup;
use crate::text::name_less;

verus! {

/// A profile as a store hands it out: its name, whether it is the store's
/// default, and a copy of its entries in ascending order of their keys.
#[derive(Default, Debug, PartialEq, Eq)]
pub struct Profile {
    pub name: String,
    pub default: bool,
    pub items: Items,
}

/// The mathematical value of a `Profile`.
pub struct ProfileView {
    pub name: Seq<char>,
    pub default: bool,
    pub items: ItemsView,
}

impl View for Profile {
    type V = ProfileView;

    open spec fn view(&self) -> ProfileView {
        ProfileView { name: self.name@, default: self.default, items: self.items.deep_view() }
    }
}

impl DeepView for Profile {
    type V = ProfileView;

    open spec fn deep_view(&self) -> ProfileView {
        self@
    }
}

/// What a settings file puts before a profile's name to name its section.
pub open spec fn profile_prefix() -> Seq<char> {
    "profile "@
}

/// The sections of a settings file by name.
pub type ConfigData = Sections;

/// The profiles of the settings file.
#[derive(Default, Debug, PartialEq, Eq)]
pub struct Config {
    pub store: Store,
}

impl View for Config {
    type V = StoreView;

    open spec fn view(&self) -> StoreView {
        self.store@
    }
}

/// Reads the sections of a settings file from its text.
pub fn parse_aws_config(text: &str) -> (r: Result<ConfigData, CTXError>)
    ensures
        match r {
            Ok(data) => {
                &&& readable(text@)
                &&& canonical(data.deep_view())
                &&& sections_map(data.deep_view()) == parsed_sections(text@)->0
                &&& data.deep_view() == text_table(text@)
            },
            Err(e) => !readable(text@) && e@ == ErrorView::ConfigIsBroken,
        },
{
    match parse(text) {
        Some(data) => Ok(data),
        None => Err(CTXError::ConfigIsBroken),
    }
}

/// The default profile that the sections of a settings file mark: that of
/// the first section `profile <name>`, in ascending order of the names, that
/// repeats the entries of the section `default`.
pub fn find_default_from_parsed_aws_config(data: &ConfigData) -> (r: Option<String>)
    ensures
        r.deep_view() == found_default(data.deep_view(), profile_prefix()),
{
    find_default(data, "profile ")
}

impl Config {
    /// The store that the sections of a settings file are read into.
    pub fn from_sections(data: ConfigData) -> (r: Config)
        requires
            canonical(data.deep_view()),
        ensures
            forall|n: Seq<char>| #[trigger]
                lookup(r@.profiles, n) == loaded_lookup(data.deep_view(), profile_prefix(), n),
            r@.default_name == found_default(data.deep_view(), profile_prefix()),
            r@.wf(),
            r@ == StoreView::loaded(data.deep_view(), profile_prefix()),
    {
        Config { store: Store::from_sections(data, "profile ") }
    }

    /// Reads the settings file from its text.
    pub fn load_config(text: &str) -> (r: Result<Config, CTXError>)
        ensures
            match r {
                Ok(config) => {
                    &&& readable(text@)
                    &&& canonical(text_table(text@))
                    &&& sections_map(text_table(text@)) == parsed_sections(text@)->0
                    &&& read_from(config@, text_table(text@), profile_prefix())
                },
                Err(e) => !readable(text@) && e@ == ErrorView::ConfigIsBroken,
            },
    {
        match parse_aws_config(text) {
            Ok(data) => Ok(Config::from_sections(data)),
            Err(e) => Err(e),
        }
    }

    /// Whether the store is well formed.
    pub fn is_valid(&self) -> (r: bool)
        ensures
            r == self@.wf(),
    {
        self.store.is_valid()
    }

    /// Whether `name` is the default profile.
    pub fn is_default_profile(&self, name: &str) -> (r: bool)
        ensures
            r == self@.is_default(name@),
    {
        self.store.is_default_profile(name)
    }

    /// The profile of that name, or `NoSuchProfile` with the name.
    pub fn get_profile(&self, name: &str) -> (r: Result<Profile, CTXError>)
        requires
            self@.wf(),
        ensures
            result_view(r) == self@.profile(name@),
    {
        self.store.get_profile(name)
    }

    /// The default profile, or `NoActiveContext` where there is none.
    pub fn get_default_profile(&self) -> (r: Result<Profile, CTXError>)
        requires
            self@.wf(),
        ensures
            result_view(r) == self@.default_profile(),
            self@.default_name is Some ==> r is Ok,
    {
        self.store.get_default_profile()
    }

    /// Makes `name` the default profile and returns it. An unknown name
    /// leaves the store as it is and gives `NoSuchProfile` with the name.
    pub fn set_default_profile(&mut self, name: &str) -> (r: Result<Profile, CTXError>)
        requires
            old(self)@.wf(),
        ensures
            final(self)@ == old(self)@.with_default(name@),
            final(self)@.wf(),
            result_view(r) == final(self)@.profile(name@),
    {
        self.store.set_default_profile(name)
    }

    /// The profiles in ascending order of their names, each with its flag.
    pub fn list_profiles(&self) -> (r: Vec<Profile>)
        requires
            self@.wf(),
        ensures
            r.deep_view() == self@.listing(),
            r.len() == self@.profiles.len(),
            forall|i: int, j: int|
                0 <= i < j < r.len() ==> name_less((#[trigger] r[i]).name@, (#[trigger] r[j]).name@),
    {
        self.store.list_profiles()
    }

    /// The text of the settings file: the profiles in ascending order of
    /// their names, each with its entries in ascending order of their keys,
    /// and the default section last.
    pub fn dump_config(&self) -> (r: String)
        requires
            self@.wf(),
        ensures
            r@ == self@.text(profile_prefix()),
    {
        proof {
            reveal_strlit("profile ");
            reveal_strlit("default");
        }
        self.store.dump("profile ")
    }
}

} // verus!
