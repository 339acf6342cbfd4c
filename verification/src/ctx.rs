//! What a caller sees of a profile, the ways in which an operation fails, and
//! the protocol between a provider of contexts, which decides, and its
//! caller, which acts.

use vstd::prelude::*;

verus! {

/// A profile as callers see it: its name, and whether it is the active one.
#[derive(Default, Debug, PartialEq, Eq)]
pub struct Context {
    pub name: String,
    pub active: bool,
}

/// The mathematical value of a `Context`.
pub struct ContextView {
    pub name: Seq<char>,
    pub active: bool,
}

impl View for Context {
    type V = ContextView;

    open spec fn view(&self) -> ContextView {
        ContextView { name: self.name@, active: self.active }
    }
}

impl DeepView for Context {
    type V = ContextView;

    open spec fn deep_view(&self) -> ContextView {
        self@
    }
}

impl Context {
    /// The name of the context.
    pub fn as_ref(&self) -> (r: &str)
        ensures
            r@ == self.name@,
    {
        self.name.as_str()
    }

    /// A copy of the context.
    pub fn duplicate(&self) -> (r: Context)
        ensures
            r@ == self@,
    {
        Context { name: self.name.clone(), active: self.active }
    }
}

/// Why an operation failed.
#[derive(Debug, PartialEq, Eq)]
pub enum CTXError {
    /// The settings file could not be read.
    CannotReadConfig,
    /// The settings file could not be written.
    CannotWriteConfig,
    /// The settings file does not hold sections of keys and values.
    ConfigIsBroken,
    /// The credentials file could not be read.
    CannotReadCredentials,
    /// The credentials file could not be written.
    CannotWriteCredentials,
    /// The credentials file does not hold sections of keys and values.
    CredentialsIsBroken,
    /// The auth command could not be rendered, could not be started, or
    /// ended with a failure.
    InvalidConfigurations { message: String },
    /// No profile is the default one.
    NoActiveContext,
    /// There is no auth command for the profile, and no fallback either.
    NoAuthConfiguration { profile: String },
    /// The interactive choice ended without a choice.
    NoContextIsSelected,
    /// The store knows no profile of that name.
    NoSuchProfile { profile: String },
    /// A collaborator failed in a way that has no kind of its own.
    UnexpectedError,
}

/// The mathematical value of a `CTXError`.
pub enum ErrorView {
    CannotReadConfig,
    CannotWriteConfig,
    ConfigIsBroken,
    CannotReadCredentials,
    CannotWriteCredentials,
    CredentialsIsBroken,
    InvalidConfigurations { message: Seq<char> },
    NoActiveContext,
    NoAuthConfiguration { profile: Seq<char> },
    NoContextIsSelected,
    NoSuchProfile { profile: Seq<char> },
    UnexpectedError,
}

impl View for CTXError {
    type V = ErrorView;

    open spec fn view(&self) -> ErrorView {
        match self {
            CTXError::CannotReadConfig => ErrorView::CannotReadConfig,
            CTXError::CannotWriteConfig => ErrorView::CannotWriteConfig,
            CTXError::ConfigIsBroken => ErrorView::ConfigIsBroken,
            CTXError::CannotReadCredentials => ErrorView::CannotReadCredentials,
            CTXError::CannotWriteCredentials => ErrorView::CannotWriteCredentials,
            CTXError::CredentialsIsBroken => ErrorView::CredentialsIsBroken,
            CTXError::InvalidConfigurations { message } => ErrorView::InvalidConfigurations {
                message: message@,
            },
            CTXError::NoActiveContext => ErrorView::NoActiveContext,
            CTXError::NoAuthConfiguration { profile } => ErrorView::NoAuthConfiguration {
                profile: profile@,
            },
            CTXError::NoContextIsSelected => ErrorView::NoContextIsSelected,
            CTXError::NoSuchProfile { profile } => ErrorView::NoSuchProfile { profile: profile@ },
            CTXError::UnexpectedError => ErrorView::UnexpectedError,
        }
    }
}

/// The sentence that describes an error of each kind.
pub open spec fn description_of(e: ErrorView) -> Seq<char> {
    match e {
        ErrorView::CannotReadConfig => "Cannot read config"@,
        ErrorView::CannotWriteConfig => "Cannot write config"@,
        ErrorView::ConfigIsBroken => "Config is broken"@,
        ErrorView::CannotReadCredentials => "Cannot read credentials"@,
        ErrorView::CannotWriteCredentials => "Cannot write credentials"@,
        ErrorView::CredentialsIsBroken => "Credentials is broken"@,
        ErrorView::InvalidConfigurations { .. } => "Invalid configurations"@,
        ErrorView::NoActiveContext => "No active context found"@,
        ErrorView::NoAuthConfiguration { .. } => "No auth configuration found for the profile"@,
        ErrorView::NoContextIsSelected => "No context is selected"@,
        ErrorView::NoSuchProfile { .. } => "No such profile"@,
        ErrorView::UnexpectedError => "Unexpected error"@,
    }
}

impl CTXError {
    /// The sentence that describes the error.
    pub fn description(&self) -> (r: String)
        ensures
            r@ == description_of(self@),
    {
        let text = match self {
            CTXError::CannotReadConfig => "Cannot read config",
            CTXError::CannotWriteConfig => "Cannot write config",
            CTXError::ConfigIsBroken => "Config is broken",
            CTXError::CannotReadCredentials => "Cannot read credentials",
            CTXError::CannotWriteCredentials => "Cannot write credentials",
            CTXError::CredentialsIsBroken => "Credentials is broken",
            CTXError::InvalidConfigurations { .. } => "Invalid configurations",
            CTXError::NoActiveContext => "No active context found",
            CTXError::NoAuthConfiguration { .. } => "No auth configuration found for the profile",
            CTXError::NoContextIsSelected => "No context is selected",
            CTXError::NoSuchProfile { .. } => "No such profile",
            CTXError::UnexpectedError => "Unexpected error",
        };
        text.to_owned()
    }
}

/// What a provider of contexts is waiting for.
#[derive(Debug, PartialEq, Eq)]
pub enum Pending {
    /// Nothing: no operation is under way.
    Nothing,
    /// The end of the auth command of a profile.
    Command { profile: String },
    /// The user's choice.
    Selection,
    /// The writing of the credentials file, on the way to `context`.
    CredentialsWrite { context: Context },
    /// The writing of the settings file, on the way to `context`.
    ConfigWrite { context: Context },
}

/// The mathematical value of a `Pending`.
pub enum PendingView {
    Nothing,
    Command { profile: Seq<char> },
    Selection,
    CredentialsWrite { context: ContextView },
    ConfigWrite { context: ContextView },
}

impl View for Pending {
    type V = PendingView;

    open spec fn view(&self) -> PendingView {
        match self {
            Pending::Nothing => PendingView::Nothing,
            Pending::Command { profile } => PendingView::Command { profile: profile@ },
            Pending::Selection => PendingView::Selection,
            Pending::CredentialsWrite { context } => PendingView::CredentialsWrite {
                context: context@,
            },
            Pending::ConfigWrite { context } => PendingView::ConfigWrite { context: context@ },
        }
    }
}

/// What the caller has to do next.
#[derive(Debug, PartialEq, Eq)]
pub enum Action {
    /// Run the script with the shell, then report how it ended.
    Run { script: String },
    /// Let the user pick one of the candidates, then report the choice.
    Pick { candidates: Vec<Context> },
    /// Write the text to the credentials file, then report.
    WriteCredentials { text: String },
    /// Write the text to the settings file, then report.
    WriteConfig { text: String },
    /// Nothing: the operation has ended with this result.
    Done { result: Result<Context, CTXError> },
}

/// The mathematical value of an `Action`.
pub enum ActionView {
    Run { script: Seq<char> },
    Pick { candidates: Seq<ContextView> },
    WriteCredentials { text: Seq<char> },
    WriteConfig { text: Seq<char> },
    Done { result: Result<ContextView, ErrorView> },
}

impl View for Action {
    type V = ActionView;

    open spec fn view(&self) -> ActionView {
        match self {
            Action::Run { script } => ActionView::Run { script: script@ },
            Action::Pick { candidates } => ActionView::Pick { candidates: candidates.deep_view() },
            Action::WriteCredentials { text } => ActionView::WriteCredentials { text: text@ },
            Action::WriteConfig { text } => ActionView::WriteConfig { text: text@ },
            Action::Done { result } => ActionView::Done { result: result_view(*result) },
        }
    }
}

/// How the last action went.
#[derive(Debug, PartialEq, Eq)]
pub enum Event {
    /// The command ran and ended with success.
    CommandSucceeded,
    /// The command could not be started, or ended with a failure.
    CommandFailed,
    /// The user confirmed a choice; the names chosen, the first one first.
    Picked { names: Vec<String> },
    /// The user left the choice without confirming one.
    PickDismissed,
    /// The picker itself failed.
    PickerFailed,
    /// The file was written.
    Written,
    /// The file could not be written.
    WriteFailed,
}

/// The mathematical value of an `Event`.
pub enum EventView {
    CommandSucceeded,
    CommandFailed,
    Picked { names: Seq<Seq<char>> },
    PickDismissed,
    PickerFailed,
    Written,
    WriteFailed,
}

impl View for Event {
    type V = EventView;

    open spec fn view(&self) -> EventView {
        match self {
            Event::CommandSucceeded => EventView::CommandSucceeded,
            Event::CommandFailed => EventView::CommandFailed,
            Event::Picked { names } => EventView::Picked { names: names.deep_view() },
            Event::PickDismissed => EventView::PickDismissed,
            Event::PickerFailed => EventView::PickerFailed,
            Event::Written => EventView::Written,
            Event::WriteFailed => EventView::WriteFailed,
        }
    }
}

/// A provider of contexts. It decides and its caller acts: an operation
/// hands back the next thing to do, and `advance` is told how that went.
pub trait CTX {
    /// What the provider holds is well formed.
    spec fn valid(&self) -> bool;

    /// Begins the sign-in of `profile`, which ends in the switch to it.
    fn auth(&mut self, profile: &str) -> (r: Action)
        requires
            old(self).valid(),
        ensures
            final(self).valid(),
    ;

    /// The contexts in ascending order of their names.
    fn list_contexts(&self) -> (r: Vec<Context>)
        requires
            self.valid(),
    ;

    /// The active context, or `NoActiveContext` where there is none.
    fn get_active_context(&self) -> (r: Result<Context, CTXError>)
        requires
            self.valid(),
    ;

    /// Makes `profile` the default profile.
    fn set_default_profile(&mut self, profile: &str) -> (r: Result<Context, CTXError>)
        requires
            old(self).valid(),
        ensures
            final(self).valid(),
    ;

    /// The text of the credentials file.
    fn dump_credentials(&self) -> (r: String)
        requires
            self.valid(),
    ;

    /// Begins the switch to the context `profile`.
    fn use_context(&mut self, profile: &str) -> (r: Action)
        requires
            old(self).valid(),
        ensures
            final(self).valid(),
    ;

    /// Begins the switch to a context of the user's choice.
    fn use_context_interactive(&mut self) -> (r: Action)
        requires
            old(self).valid(),
        ensures
            final(self).valid(),
    ;

    /// Tells the provider how the last action went; it says what is next.
    fn advance(&mut self, event: Event) -> (r: Action)
        requires
            old(self).valid(),
        ensures
            final(self).valid(),
    ;
}

/// The view of a result that carries an error of this library.
pub open spec fn result_view<T: View>(r: Result<T, CTXError>) -> Result<T::V, ErrorView> {
    match r {
        Ok(x) => Ok(x@),
        Err(e) => Err(e@),
    }
}

} // verus!
