//! The auth commands: for a profile, the template of the command that signs
//! it in, and one template for the profiles that have none of their own.

use vstd::prelude::*;
use crate::ini::Items;
use crate::ini::ItemsView;
use crate::table::lookup;
use crate::table::find;

verus! {

/// The key under which the template for all other profiles stands.
pub const DEFAULT_AUTH_COMMAND_KEY: &'static str = "__default";

/// The key under which the template for all other profiles stands.
pub open spec fn fallback_key() -> Seq<char> {
    "__default"@
}

/// The template for `profile`: its own, else the one for all other profiles.
pub open spec fn command_for(commands: ItemsView, profile: Seq<char>) -> Option<Seq<char>> {
    match lookup(commands, profile) {
        Some(template) => Some(template),
        None => lookup(commands, fallback_key()),
    }
}

/// The auth commands by profile name. Of two with one name the later counts.
#[derive(Default, Debug, PartialEq, Eq)]
pub struct Configs {
    pub auth_commands: Items,
}

impl View for Configs {
    type V = ItemsView;

    open spec fn view(&self) -> ItemsView {
        self.auth_commands.deep_view()
    }
}

impl Configs {
    /// The template of the auth command for `profile`.
    pub fn auth_command(&self, profile: &str) -> (r: Option<&String>)
        ensures
            r.deep_view() == command_for(self@, profile@),
    {
        match find(&self.auth_commands, profile) {
            Some(template) => Some(template),
            None => find(&self.auth_commands, DEFAULT_AUTH_COMMAND_KEY),
        }
    }
}

} // verus!
