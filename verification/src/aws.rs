//! The context registry: the credentials store and the settings store, moved
//! together. The registry decides; its caller acts. Each operation hands
//! back the next thing to do (run a command, let the user pick, write a
//! file), and is told how that went.

use vstd::prelude::*;
use crate::config::Config;
use crate::config::ProfileView;
use crate::config::profile_prefix;
use crate::configs::Configs;
use crate::configs::command_for;
use crate::creds::Credentials;
use crate::creds::no_prefix;
use crate::ctx::Action;
use crate::ctx::ActionView;
use crate::ctx::CTX;
use crate::ctx::CTXError;
use crate::ctx::Context;
use crate::ctx::ContextView;
use crate::ctx::ErrorView;
use crate::ctx::Event;
use crate::ctx::EventView;
use crate::ctx::Pending;
use crate::ctx::PendingView;
use crate::ctx::result_view;
use crate::ini::ItemsView;
use crate::ini::parsed_sections;
use crate::ini::readable;
use crate::ini::canonical;
use crate::ini::sections_map;
use crate::ini::text_table;
use crate::store::StoreView;
use crate::store::read_from;
use crate::table::has_name;
use crate::text::join;
use vstd::string::StrSliceExecFns;

verus! {

/// The name that a template knows the profile by.
pub open spec fn profile_variable() -> Seq<char> {
    "profile"@
}

/// What is said when the auth command of `profile` cannot be rendered.
pub open spec fn render_failure(profile: Seq<char>) -> Seq<char> {
    "failed to render script of profile "@ + profile
}

/// What is said when the auth command of `profile` fails.
pub open spec fn command_failure(profile: Seq<char>) -> Seq<char> {
    "failed to execute an auth script of profile ("@ + profile + "), check configurations"@
}

/// The context of a profile.
pub open spec fn context_of(profile: ProfileView) -> ContextView {
    ContextView { name: profile.name, active: profile.default }
}

/// The context of a profile, or the error in its place.
pub open spec fn context_result(r: Result<ProfileView, ErrorView>) -> Result<ContextView, ErrorView> {
    match r {
        Ok(profile) => Ok(context_of(profile)),
        Err(e) => Err(e),
    }
}

/// The mathematical value of the registry.
pub struct ManagerView {
    pub config: StoreView,
    pub commands: ItemsView,
    pub credentials: StoreView,
    pub pending: PendingView,
}

impl ManagerView {
    /// Both stores are well formed.
    pub open spec fn wf(self) -> bool {
        self.config.wf() && self.credentials.wf()
    }

    /// The same registry, waiting for `pending`.
    pub open spec fn waiting_for(self, pending: PendingView) -> ManagerView {
        ManagerView { pending, ..self }
    }

    /// The operation ends here with `result`.
    pub open spec fn done(self, result: Result<ContextView, ErrorView>) -> (ManagerView, ActionView) {
        (self.waiting_for(PendingView::Nothing), ActionView::Done { result })
    }

    /// The contexts: the profiles of the credentials store in ascending
    /// order of their names, the default one active.
    pub open spec fn contexts(self) -> Seq<ContextView> {
        Seq::new(
            self.credentials.profiles.len(),
            |i: int| context_of(self.credentials.listing()[i]),
        )
    }

    /// The active context: the default profile of the credentials store.
    pub open spec fn active(self) -> Result<ContextView, ErrorView> {
        context_result(self.credentials.default_profile())
    }

    /// The registry after `name` was made the default: first in the
    /// credentials store, then in the settings store. A store that does not
    /// know the name ends it, and what was changed before stays changed.
    pub open spec fn with_default(self, name: Seq<char>) -> ManagerView {
        if !has_name(self.credentials.profiles, name) {
            self
        } else {
            ManagerView {
                credentials: self.credentials.with_default(name),
                config: self.config.with_default(name),
                ..self
            }
        }
    }

    /// What making `name` the default gives: the context, now active, where
    /// both stores know the name.
    pub open spec fn default_result(self, name: Seq<char>) -> Result<ContextView, ErrorView> {
        if has_name(self.credentials.profiles, name) && has_name(self.config.profiles, name) {
            Ok(ContextView { name, active: true })
        } else {
            Err(ErrorView::NoSuchProfile { profile: name })
        }
    }

    /// The switch to `name` begins: both defaults are set, and the
    /// credentials file is to be written. An unknown name ends it before
    /// anything is written.
    pub open spec fn switch(self, name: Seq<char>) -> (ManagerView, ActionView) {
        let next = self.with_default(name);
        match self.default_result(name) {
            Ok(context) => (
                next.waiting_for(PendingView::CredentialsWrite { context }),
                ActionView::WriteCredentials { text: next.credentials.text(no_prefix()) },
            ),
            Err(e) => next.done(Err(e)),
        }
    }

    /// The sign-in of `profile` goes on with the rendered command, or ends
    /// where the template could not be rendered.
    pub open spec fn run(self, profile: Seq<char>, script: Option<Seq<char>>) -> (
        ManagerView,
        ActionView,
    ) {
        match script {
            Some(script) => (
                self.waiting_for(PendingView::Command { profile }),
                ActionView::Run { script },
            ),
            None => self.done(
                Err(ErrorView::InvalidConfigurations { message: render_failure(profile) }),
            ),
        }
    }

    /// The sign-in of `profile` begins: with its auth command, rendered for
    /// it, or not at all where there is no command for it. A template that
    /// opens a decorator is not rendered: it counts as one that cannot be.
    pub open spec fn sign_in(self, profile: Seq<char>) -> (ManagerView, ActionView) {
        match command_for(self.commands, profile) {
            Some(template) => self.run(
                profile,
                if opens_decorator(template) {
                    None
                } else {
                    rendered_template(template, profile_variable(), profile)
                },
            ),
            None => self.done(Err(ErrorView::NoAuthConfiguration { profile })),
        }
    }

    /// The choice begins: the contexts are shown last first, as the picker
    /// lists its candidates from the bottom up.
    pub open spec fn choose_one(self) -> (ManagerView, ActionView) {
        (
            self.waiting_for(PendingView::Selection),
            ActionView::Pick { candidates: self.contexts().reverse() },
        )
    }

    /// The registry is told how the last action went, and says what is next.
    pub open spec fn step(self, event: EventView) -> (ManagerView, ActionView) {
        match (self.pending, event) {
            (PendingView::Command { profile }, EventView::CommandSucceeded) => self.switch(profile),
            (PendingView::Command { profile }, EventView::CommandFailed) => self.done(
                Err(ErrorView::InvalidConfigurations { message: command_failure(profile) }),
            ),
            (PendingView::Selection, EventView::Picked { names }) => if names.len() > 0 {
                self.switch(names[0])
            } else {
                self.done(Err(ErrorView::NoContextIsSelected))
            },
            (PendingView::Selection, EventView::PickDismissed) => self.done(
                Err(ErrorView::NoContextIsSelected),
            ),
            (PendingView::CredentialsWrite { context }, EventView::Written) => (
                self.waiting_for(PendingView::ConfigWrite { context }),
                ActionView::WriteConfig { text: self.config.text(profile_prefix()) },
            ),
            (PendingView::CredentialsWrite { context }, EventView::WriteFailed) => self.done(
                Err(ErrorView::CannotWriteCredentials),
            ),
            (PendingView::ConfigWrite { context }, EventView::Written) => self.done(Ok(context)),
            (PendingView::ConfigWrite { context }, EventView::WriteFailed) => self.done(
                Err(ErrorView::CannotWriteConfig),
            ),
            _ => self.done(Err(ErrorView::UnexpectedError)),
        }
    }
}

/// What may stand between the braces that open a mustache and its first
/// sign: a blank, `~` or `#`.
pub open spec fn filler(c: char) -> bool {
    c == ' ' || c == '\t' || c == '\n' || c == '\r' || c == '~' || c == '#'
}

/// From `at` on, nothing but fillers stands before a `*`.
pub open spec fn star_follows(template: Seq<char>, at: int) -> bool
    decreases template.len() - at,
{
    if at < 0 || at >= template.len() {
        false
    } else if template[at] == '*' {
        true
    } else if filler(template[at]) {
        star_follows(template, at + 1)
    } else {
        false
    }
}

/// Two braces at `at` open a mustache whose first sign is `*`, with or
/// without `~` and `#` before it: the mark of a decorator.
pub open spec fn decorator_at(template: Seq<char>, at: int) -> bool {
    &&& 0 <= at
    &&& at + 1 < template.len()
    &&& template[at] == '{'
    &&& template[at + 1] == '{'
    &&& star_follows(template, at + 2)
}

/// The template opens a decorator somewhere. With a decorator a template can
/// define a partial that includes itself, and rendering it would never end.
pub open spec fn opens_decorator(template: Seq<char>) -> bool {
    exists|at: int| decorator_at(template, at)
}

/// Whether a template opens a decorator.
pub fn has_decorator(template: &str) -> (r: bool)
    ensures
        r == opens_decorator(template@),
{
    let ghost t = template@;
    let n = template.unicode_len();
    let mut i: usize = 0;
    while i < n
        invariant
            t == template@,
            n == t.len(),
            i <= n,
            forall|a: int| 0 <= a < i ==> !decorator_at(t, a),
        decreases n - i,
    {
        if i + 1 < n && template.get_char(i) == '{' && template.get_char(i + 1) == '{' {
            let mut j: usize = i + 2;
            let mut going = true;
            while going && j < n
                invariant
                    t == template@,
                    n == t.len(),
                    i + 2 <= j <= n,
                    t[i as int] == '{',
                    t[i + 1] == '{',
                    going ==> star_follows(t, i + 2) == star_follows(t, j as int),
                    !going ==> !star_follows(t, i + 2),
                decreases n - j + (if going { 1int } else { 0int }),
            {
                let c = template.get_char(j);
                if c == '*' {
                    assert(star_follows(t, j as int));
                    assert(decorator_at(t, i as int));
                    return true;
                }
                if c == ' ' || c == '\t' || c == '\n' || c == '\r' || c == '~' || c == '#' {
                    assert(star_follows(t, j as int) == star_follows(t, j + 1));
                    j = j + 1;
                } else {
                    assert(!star_follows(t, j as int));
                    going = false;
                }
            }
            assert(!star_follows(t, i + 2));
        }
        i = i + 1;
    }
    false
}

/// `handlebars`' reason for refusing a template.
#[verifier::external_type_specification]
#[verifier::external_body]
pub struct ExRenderError(handlebars::RenderError);

/// The text that `handlebars` renders a template to when the one variable
/// `name` holds `value`; `None` where it refuses the template.
pub uninterp spec fn rendered_template(template: Seq<char>, name: Seq<char>, value: Seq<char>) -> Option<Seq<char>>;

/// `Handlebars::render_template` of a new registry, on a JSON object with
/// the one member `name`: the text depends on the template, the name and the
/// value alone. It is called only on a template that opens no decorator:
/// with the `inline` decorator a template defines partials, and one that
/// includes itself is expanded without end.
#[verifier::external_body]
fn render_template(template: &str, name: &str, value: &str) -> (r: Result<
    String,
    handlebars::RenderError,
>)
    requires
        !opens_decorator(template@),
    ensures
        match r {
            Ok(text) => rendered_template(template@, name@, value@) == Some(text@),
            Err(_) => rendered_template(template@, name@, value@) is None,
        },
{
    let mut data = serde_json::Map::new();
    data.insert(name.to_string(), serde_json::Value::String(value.to_string()));
    handlebars::Handlebars::new().render_template(template, &serde_json::Value::Object(data))
}

/// The credentials store and the settings store as one registry of contexts,
/// with the auth commands.
#[derive(Debug, PartialEq, Eq)]
pub struct AWS {
    pub config: Config,
    pub configs: Configs,
    pub credentials: Credentials,
    pub pending: Pending,
}

impl View for AWS {
    type V = ManagerView;

    open spec fn view(&self) -> ManagerView {
        ManagerView {
            config: self.config@,
            commands: self.configs@,
            credentials: self.credentials@,
            pending: self.pending@,
        }
    }
}

impl AWS {
    /// The registry of the two files, read from their texts: the
    /// credentials first, then the settings.
    pub fn new(configs: Configs, credentials_text: &str, config_text: &str) -> (r: Result<
        AWS,
        CTXError,
    >)
        ensures
            match r {
                Ok(aws) => {
                    &&& readable(credentials_text@)
                    &&& readable(config_text@)
                    &&& canonical(text_table(credentials_text@))
                    &&& canonical(text_table(config_text@))
                    &&& sections_map(text_table(credentials_text@)) == parsed_sections(
                        credentials_text@,
                    )->0
                    &&& sections_map(text_table(config_text@)) == parsed_sections(config_text@)->0
                    &&& read_from(aws@.credentials, text_table(credentials_text@), no_prefix())
                    &&& read_from(aws@.config, text_table(config_text@), profile_prefix())
                    &&& aws@.commands == configs@
                    &&& aws@.pending == PendingView::Nothing
                },
                Err(e) => if !readable(credentials_text@) {
                    e@ == ErrorView::CredentialsIsBroken
                } else {
                    !readable(config_text@) && e@ == ErrorView::ConfigIsBroken
                },
            },
    {
        match Credentials::load_credentials(credentials_text) {
            Err(e) => Err(e),
            Ok(credentials) => match Config::load_config(config_text) {
                Err(e) => Err(e),
                Ok(config) => Ok(AWS { config, configs, credentials, pending: Pending::Nothing }),
            },
        }
    }

    /// Whether both stores are well formed.
    pub fn is_valid(&self) -> (r: bool)
        ensures
            r == self@.wf(),
    {
        self.credentials.is_valid() && self.config.is_valid()
    }

    /// The contexts in ascending order of their names.
    pub fn list_contexts(&self) -> (r: Vec<Context>)
        requires
            self@.wf(),
        ensures
            r.deep_view() == self@.contexts(),
            r.len() == self@.credentials.profiles.len(),
    {
        let profiles = self.credentials.list_profiles();
        let mut out: Vec<Context> = Vec::new();
        let mut i: usize = 0;
        while i < profiles.len()
            invariant
                i <= profiles.len(),
                out.len() == i,
                profiles.deep_view() == self@.credentials.listing(),
                forall|j: int| 0 <= j < i ==> (#[trigger] out[j])@ == self@.contexts()[j],
            decreases profiles.len() - i,
        {
            assert(profiles.deep_view()[i as int] == profiles[i as int]@);
            assert(self@.credentials.listing().len() == self@.credentials.profiles.len());
            out.push(Context { name: profiles[i].name.clone(), active: profiles[i].default });
            i = i + 1;
        }
        assert(self@.credentials.listing().len() == self@.credentials.profiles.len());
        assert(out.deep_view() =~= self@.contexts());
        out
    }

    /// The active context, or `NoActiveContext` where there is none.
    pub fn get_active_context(&self) -> (r: Result<Context, CTXError>)
        requires
            self@.wf(),
        ensures
            result_view(r) == self@.active(),
    {
        match self.credentials.get_default_profile() {
            Ok(profile) => Ok(Context { name: profile.name, active: profile.default }),
            Err(e) => Err(e),
        }
    }

    /// Makes `name` the default profile of both stores, the credentials
    /// store first. Where a store does not know the name, the result is
    /// `NoSuchProfile` and what was changed before stays changed.
    pub fn set_default_profile(&mut self, name: &str) -> (r: Result<Context, CTXError>)
        requires
            old(self)@.wf(),
        ensures
            final(self)@ == old(self)@.with_default(name@),
            final(self)@.wf(),
            result_view(r) == old(self)@.default_result(name@),
    {
        match self.credentials.set_default_profile(name) {
            Err(e) => Err(e),
            Ok(profile) => match self.config.set_default_profile(name) {
                Err(e) => Err(e),
                Ok(_) => Ok(Context { name: profile.name, active: profile.default }),
            },
        }
    }

    /// The text of the credentials file.
    pub fn dump_credentials(&self) -> (r: String)
        requires
            self@.wf(),
        ensures
            r@ == self@.credentials.text(no_prefix()),
    {
        self.credentials.dump_credentials()
    }

    /// The text of the settings file.
    pub fn dump_config(&self) -> (r: String)
        requires
            self@.wf(),
        ensures
            r@ == self@.config.text(profile_prefix()),
    {
        self.config.dump_config()
    }

    /// Begins the switch to the context `name`.
    pub fn use_context(&mut self, name: &str) -> (r: Action)
        requires
            old(self)@.wf(),
        ensures
            (final(self)@, r@) == old(self)@.switch(name@),
            final(self)@.wf(),
    {
        match self.set_default_profile(name) {
            Ok(context) => {
                self.pending = Pending::CredentialsWrite { context };
                Action::WriteCredentials { text: self.dump_credentials() }
            },
            Err(e) => {
                self.pending = Pending::Nothing;
                Action::Done { result: Err(e) }
            },
        }
    }

    /// Goes on with the sign-in of `profile` once its auth command has been
    /// rendered: `None` where the template was refused.
    pub fn run(&mut self, profile: &str, script: Option<String>) -> (r: Action)
        ensures
            (final(self)@, r@) == old(self)@.run(profile@, script.deep_view()),
            old(self)@.wf() ==> final(self)@.wf(),
    {
        match script {
            Some(script) => {
                self.pending = Pending::Command { profile: profile.to_owned() };
                Action::Run { script }
            },
            None => {
                self.pending = Pending::Nothing;
                Action::Done {
                    result: Err(
                        CTXError::InvalidConfigurations {
                            message: join("failed to render script of profile ", profile),
                        },
                    ),
                }
            },
        }
    }

    /// Begins the sign-in of `profile`, which ends in the switch to it.
    pub fn auth(&mut self, profile: &str) -> (r: Action)
        ensures
            (final(self)@, r@) == old(self)@.sign_in(profile@),
            old(self)@.wf() ==> final(self)@.wf(),
    {
        let script = match self.configs.auth_command(profile) {
            None => {
                self.pending = Pending::Nothing;
                return Action::Done {
                    result: Err(CTXError::NoAuthConfiguration { profile: profile.to_owned() }),
                };
            },
            Some(template) => if has_decorator(template.as_str()) {
                None
            } else {
                match render_template(template.as_str(), "profile", profile) {
                    Ok(text) => Some(text),
                    Err(_) => None,
                }
            },
        };
        self.run(profile, script)
    }

    /// Begins the switch to a context of the user's choice.
    pub fn use_context_interactive(&mut self) -> (r: Action)
        requires
            old(self)@.wf(),
        ensures
            (final(self)@, r@) == old(self)@.choose_one(),
            final(self)@.wf(),
    {
        let contexts = self.list_contexts();
        let mut candidates: Vec<Context> = Vec::new();
        let mut i: usize = contexts.len();
        while i > 0
            invariant
                i <= contexts.len(),
                candidates.len() == contexts.len() - i,
                forall|j: int|
                    0 <= j < candidates.len() ==> (#[trigger] candidates[j])@ == contexts[
                        contexts.len() - 1 - j
                    ]@,
            decreases i,
        {
            i = i - 1;
            candidates.push(contexts[i].duplicate());
        }
        assert(candidates.deep_view() =~= contexts.deep_view().reverse());
        self.pending = Pending::Selection;
        Action::Pick { candidates }
    }

    /// Tells the registry how the last action went; it says what is next.
    pub fn advance(&mut self, event: Event) -> (r: Action)
        requires
            old(self)@.wf(),
        ensures
            (final(self)@, r@) == old(self)@.step(event@),
            final(self)@.wf(),
    {
        let result = match (&self.pending, event) {
            (Pending::Command { profile }, Event::CommandSucceeded) => {
                let profile = profile.clone();
                return self.use_context(profile.as_str());
            },
            (Pending::Command { profile }, Event::CommandFailed) => Err(
                CTXError::InvalidConfigurations {
                    message: join(
                        join("failed to execute an auth script of profile (", profile.as_str()).as_str(),
                        "), check configurations",
                    ),
                },
            ),
            (Pending::Selection, Event::Picked { names }) => {
                if names.len() > 0 {
                    assert(names.deep_view()[0] == names[0]@);
                    return self.use_context(names[0].as_str());
                }
                Err(CTXError::NoContextIsSelected)
            },
            (Pending::Selection, Event::PickDismissed) => Err(CTXError::NoContextIsSelected),
            (Pending::CredentialsWrite { context }, Event::Written) => {
                let context = context.duplicate();
                self.pending = Pending::ConfigWrite { context };
                return Action::WriteConfig { text: self.dump_config() };
            },
            (Pending::CredentialsWrite { .. }, Event::WriteFailed) => Err(
                CTXError::CannotWriteCredentials,
            ),
            (Pending::ConfigWrite { context }, Event::Written) => Ok(context.duplicate()),
            (Pending::ConfigWrite { .. }, Event::WriteFailed) => Err(CTXError::CannotWriteConfig),
            _ => Err(CTXError::UnexpectedError),
        };
        self.pending = Pending::Nothing;
        Action::Done { result }
    }
}

impl CTX for AWS {
    open spec fn valid(&self) -> bool {
        self@.wf()
    }

    fn auth(&mut self, profile: &str) -> (r: Action)
        ensures
            (final(self)@, r@) == old(self)@.sign_in(profile@),
    {
        AWS::auth(self, profile)
    }

    fn list_contexts(&self) -> (r: Vec<Context>)
        ensures
            r.deep_view() == self@.contexts(),
    {
        AWS::list_contexts(self)
    }

    fn get_active_context(&self) -> (r: Result<Context, CTXError>)
        ensures
            result_view(r) == self@.active(),
    {
        AWS::get_active_context(self)
    }

    fn set_default_profile(&mut self, profile: &str) -> (r: Result<Context, CTXError>)
        ensures
            final(self)@ == old(self)@.with_default(profile@),
            result_view(r) == old(self)@.default_result(profile@),
    {
        AWS::set_default_profile(self, profile)
    }

    fn dump_credentials(&self) -> (r: String)
        ensures
            r@ == self@.credentials.text(no_prefix()),
    {
        AWS::dump_credentials(self)
    }

    fn use_context(&mut self, profile: &str) -> (r: Action)
        ensures
            (final(self)@, r@) == old(self)@.switch(profile@),
    {
        AWS::use_context(self, profile)
    }

    fn use_context_interactive(&mut self) -> (r: Action)
        ensures
            (final(self)@, r@) == old(self)@.choose_one(),
    {
        AWS::use_context_interactive(self)
    }

    fn advance(&mut self, event: Event) -> (r: Action)
        ensures
            (final(self)@, r@) == old(self)@.step(event@),
    {
        AWS::advance(self, event)
    }
}

} // verus!
