use awsctx::ctx::Action;
use awsctx::ctx::Event;
use awsctx::ctx::Pending;
use awsctx::aws::has_decorator;
use awsctx::aws::AWS;
use awsctx::config::Config;
use awsctx::configs::Configs;
use awsctx::configs::DEFAULT_AUTH_COMMAND_KEY;
use awsctx::creds::Credentials;
use awsctx::ctx::CTXError;
use awsctx::ctx::Context;
use awsctx::ctx::CTX;

fn aws_credentials_text() -> String {
    "[baz]\naws_access_key_id=ZZZ\n\n[bar]\naws_access_key_id=YYY\n\n[foo]\naws_access_key_id=XXX\n\n[default]\naws_access_key_id=XXX\n"
        .to_string()
}

fn aws_config_text() -> String {
    "[profile baz]\nregion=ZZZ\n\n[profile bar]\nregion=YYY\n\n[profile foo]\nregion=XXX\n\n[default]\nregion=XXX\n"
        .to_string()
}

fn pair(key: &str, value: &str) -> (String, String) {
    (key.to_string(), value.to_string())
}

fn configs() -> Configs {
    Configs {
        auth_commands: vec![
            pair("foo", "echo auth"),
            pair("bar", "exit 1"),
            pair(DEFAULT_AUTH_COMMAND_KEY, "echo default auth for {{profile}}"),
        ],
    }
}

fn configs_without_default() -> Configs {
    Configs { auth_commands: vec![pair("foo", "echo auth"), pair("bar", "exit 1")] }
}

fn aws() -> AWS {
    AWS::new(configs(), &aws_credentials_text(), &aws_config_text()).unwrap()
}

fn context(name: &str, active: bool) -> Context {
    Context { name: name.to_string(), active }
}

fn credentials_with(default: &str) -> String {
    format!(
        "[bar]\naws_access_key_id=YYY\n\n[baz]\naws_access_key_id=ZZZ\n\n[foo]\naws_access_key_id=XXX\n\n[default]\naws_access_key_id={}\n",
        default
    )
}

fn config_with(default: &str) -> String {
    format!(
        "[profile bar]\nregion=YYY\n\n[profile baz]\nregion=ZZZ\n\n[profile foo]\nregion=XXX\n\n[default]\nregion={}\n",
        default
    )
}

#[test]
fn test_aws_new() {
    let aws = aws();
    assert_eq!(Pending::Nothing, aws.pending);
    assert_eq!(Credentials::load_credentials(&aws_credentials_text()).unwrap(), aws.credentials);
    assert_eq!(Config::load_config(&aws_config_text()).unwrap(), aws.config);
}

#[test]
fn test_aws_new_broken_files() {
    assert_eq!(Err(CTXError::CredentialsIsBroken), AWS::new(configs(), "[foo", "[foo"));
    assert_eq!(Err(CTXError::ConfigIsBroken), AWS::new(configs(), &aws_credentials_text(), "[foo"));
}

#[test]
fn test_aws_list_contexts() {
    assert_eq!(
        vec![context("bar", false), context("baz", false), context("foo", true)],
        aws().list_contexts()
    );
}

#[test]
fn test_aws_get_active_context() {
    assert_eq!(Ok(context("foo", true)), aws().get_active_context());
    let without = AWS::new(configs(), "[foo]\nk=1\n", "[profile foo]\nk=1\n").unwrap();
    assert_eq!(Err(CTXError::NoActiveContext), without.get_active_context());
}

#[test]
fn test_aws_set_default_profile() {
    let mut aws = aws();
    assert_eq!(Ok(context("bar", true)), aws.set_default_profile("bar"));
    assert!(aws.credentials.is_default_profile("bar"));
    assert!(aws.config.is_default_profile("bar"));
    assert_eq!(
        Err(CTXError::NoSuchProfile { profile: "nope".to_string() }),
        aws.set_default_profile("nope")
    );
    assert!(aws.credentials.is_default_profile("bar"));
    assert!(aws.config.is_default_profile("bar"));
}

#[test]
fn test_aws_set_default_profile_known_to_credentials_only() {
    let mut aws = AWS::new(configs(), &aws_credentials_text(), "[profile foo]\nregion=XXX\n").unwrap();
    assert_eq!(
        Err(CTXError::NoSuchProfile { profile: "bar".to_string() }),
        aws.set_default_profile("bar")
    );
    // what was changed before the failure stays changed
    assert!(aws.credentials.is_default_profile("bar"));
    assert!(!aws.config.is_default_profile("bar"));
}

#[test]
fn test_aws_use_context() {
    let mut aws = aws();
    let first = aws.use_context("bar");
    assert_eq!(Action::WriteCredentials { text: credentials_with("YYY") }, first);
    assert_eq!(Pending::CredentialsWrite { context: context("bar", true) }, aws.pending);
    let second = aws.advance(Event::Written);
    assert_eq!(Action::WriteConfig { text: config_with("YYY") }, second);
    assert_eq!(Pending::ConfigWrite { context: context("bar", true) }, aws.pending);
    let third = aws.advance(Event::Written);
    assert_eq!(Action::Done { result: Ok(context("bar", true)) }, third);
    assert_eq!(Pending::Nothing, aws.pending);
    // both files, read again, have the new default
    let again = AWS::new(configs(), &credentials_with("YYY"), &config_with("YYY")).unwrap();
    assert_eq!(Ok(context("bar", true)), again.get_active_context());
    assert!(again.config.is_default_profile("bar"));
    assert_eq!(aws, again);
}

#[test]
fn test_aws_use_context_unknown_profile_writes_nothing() {
    let mut aws = aws();
    let first = aws.use_context("nope");
    assert_eq!(
        Action::Done { result: Err(CTXError::NoSuchProfile { profile: "nope".to_string() }) },
        first
    );
    assert_eq!(Pending::Nothing, aws.pending);
    assert_eq!(Ok(context("foo", true)), aws.get_active_context());
}

#[test]
fn test_aws_use_context_credentials_not_written() {
    let mut aws = aws();
    aws.use_context("bar");
    assert_eq!(
        Action::Done { result: Err(CTXError::CannotWriteCredentials) },
        aws.advance(Event::WriteFailed)
    );
    assert_eq!(Pending::Nothing, aws.pending);
}

#[test]
fn test_aws_use_context_config_not_written() {
    let mut aws = aws();
    aws.use_context("bar");
    aws.advance(Event::Written);
    assert_eq!(
        Action::Done { result: Err(CTXError::CannotWriteConfig) },
        aws.advance(Event::WriteFailed)
    );
}

#[test]
fn test_aws_auth() {
    let mut aws = aws();
    assert_eq!(Action::Run { script: "echo auth".to_string() }, aws.auth("foo"));
    assert_eq!(Pending::Command { profile: "foo".to_string() }, aws.pending);
    let next = aws.advance(Event::CommandSucceeded);
    assert_eq!(Action::WriteCredentials { text: credentials_with("XXX") }, next);
}

#[test]
fn test_aws_auth_renders_the_profile_into_the_fallback() {
    let mut aws = aws();
    assert_eq!(Action::Run { script: "echo default auth for baz".to_string() }, aws.auth("baz"));
    assert_eq!(
        Action::Run { script: "echo default auth for a&amp;b".to_string() },
        aws.auth("a&b")
    );
}

#[test]
fn test_aws_auth_failed_command_blocks_switch() {
    let mut aws = aws();
    assert_eq!(Action::Run { script: "exit 1".to_string() }, aws.auth("bar"));
    let next = aws.advance(Event::CommandFailed);
    assert_eq!(
        Action::Done {
            result: Err(CTXError::InvalidConfigurations {
                message: "failed to execute an auth script of profile (bar), check configurations"
                    .to_string(),
            }),
        },
        next
    );
    assert_eq!(Ok(context("foo", true)), aws.get_active_context());
    assert!(aws.config.is_default_profile("foo"));
    assert_eq!(Pending::Nothing, aws.pending);
}

#[test]
fn test_aws_auth_no_configuration() {
    let mut aws =
        AWS::new(configs_without_default(), &aws_credentials_text(), &aws_config_text()).unwrap();
    assert_eq!(
        Action::Done { result: Err(CTXError::NoAuthConfiguration { profile: "baz".to_string() }) },
        aws.auth("baz")
    );
}

#[test]
fn test_aws_auth_template_refused() {
    let configs = Configs { auth_commands: vec![pair("foo", "echo {{#if}}")] };
    let mut aws = AWS::new(configs, &aws_credentials_text(), &aws_config_text()).unwrap();
    assert_eq!(
        Action::Done {
            result: Err(CTXError::InvalidConfigurations {
                message: "failed to render script of profile foo".to_string(),
            }),
        },
        aws.auth("foo")
    );
    assert_eq!(Pending::Nothing, aws.pending);
}

#[test]
fn test_aws_run() {
    let mut aws = aws();
    assert_eq!(
        Action::Run { script: "true".to_string() },
        aws.run("foo", Some("true".to_string()))
    );
    assert_eq!(Pending::Command { profile: "foo".to_string() }, aws.pending);
    assert_eq!(
        Action::Done {
            result: Err(CTXError::InvalidConfigurations {
                message: "failed to render script of profile foo".to_string(),
            }),
        },
        aws.run("foo", None)
    );
}

#[test]
fn test_aws_use_context_interactive() {
    let mut aws = aws();
    let first = aws.use_context_interactive();
    assert_eq!(
        Action::Pick {
            candidates: vec![context("foo", true), context("baz", false), context("bar", false)],
        },
        first
    );
    assert_eq!(Pending::Selection, aws.pending);
    let next = aws.advance(Event::Picked { names: vec!["baz".to_string(), "bar".to_string()] });
    assert_eq!(Action::WriteCredentials { text: credentials_with("ZZZ") }, next);
}

#[test]
fn test_aws_use_context_interactive_nothing_chosen() {
    let no_choice = Action::Done { result: Err(CTXError::NoContextIsSelected) };
    let mut aws = aws();
    aws.use_context_interactive();
    assert_eq!(no_choice, aws.advance(Event::PickDismissed));
    aws.use_context_interactive();
    assert_eq!(no_choice, aws.advance(Event::Picked { names: vec![] }));
    assert_eq!(Ok(context("foo", true)), aws.get_active_context());
}

#[test]
fn test_aws_use_context_interactive_picker_failed() {
    let mut aws = aws();
    aws.use_context_interactive();
    assert_eq!(
        Action::Done { result: Err(CTXError::UnexpectedError) },
        aws.advance(Event::PickerFailed)
    );
}

#[test]
fn test_aws_use_context_interactive_unknown_choice() {
    let mut aws = aws();
    aws.use_context_interactive();
    assert_eq!(
        Action::Done { result: Err(CTXError::NoSuchProfile { profile: "nope".to_string() }) },
        aws.advance(Event::Picked { names: vec!["nope".to_string()] })
    );
}

#[test]
fn test_aws_advance_without_an_operation() {
    let mut aws = aws();
    assert_eq!(
        Action::Done { result: Err(CTXError::UnexpectedError) },
        aws.advance(Event::Written)
    );
    aws.use_context("bar");
    assert_eq!(
        Action::Done { result: Err(CTXError::UnexpectedError) },
        aws.advance(Event::CommandSucceeded)
    );
    assert_eq!(Pending::Nothing, aws.pending);
}

#[test]
fn test_aws_dump() {
    let aws = aws();
    assert_eq!(credentials_with("XXX"), aws.dump_credentials());
    assert_eq!(config_with("XXX"), aws.dump_config());
}

#[test]
fn test_aws_is_valid() {
    let mut aws = aws();
    assert!(aws.is_valid());
    aws.use_context("bar");
    assert!(aws.is_valid());
    aws.config.store.default_profile_name = Some("nope".to_string());
    assert!(!aws.is_valid());
}

fn switch_with<C: CTX>(provider: &mut C, name: &str) -> Result<Context, CTXError> {
    let mut action = provider.use_context(name);
    loop {
        action = match action {
            Action::Done { result } => return result,
            _ => provider.advance(Event::Written),
        };
    }
}

#[test]
fn test_ctx_provider() {
    let mut aws = aws();
    assert_eq!(Ok(context("baz", true)), switch_with(&mut aws, "baz"));
    assert_eq!(Ok(context("baz", true)), CTX::get_active_context(&aws));
    assert_eq!(3, CTX::list_contexts(&aws).len());
    assert_eq!(credentials_with("ZZZ"), CTX::dump_credentials(&aws));
    assert_eq!(
        Err(CTXError::NoSuchProfile { profile: "nope".to_string() }),
        switch_with(&mut aws, "nope")
    );
    assert_eq!(Ok(context("bar", true)), CTX::set_default_profile(&mut aws, "bar"));
    assert_eq!(Action::Run { script: "exit 1".to_string() }, CTX::auth(&mut aws, "bar"));
    assert!(matches!(CTX::use_context_interactive(&mut aws), Action::Pick { .. }));
}

#[test]
fn test_has_decorator() {
    assert!(has_decorator("{{*inline \"a\"}}"));
    assert!(has_decorator("x {{#*inline \"a\"}}b{{/inline}}"));
    assert!(has_decorator("{{~ # * inline \"a\"}}"));
    assert!(has_decorator("{{\n\t~#*x}}"));
    assert!(has_decorator("{{{*"));
    assert!(has_decorator("é{{*"));
    assert!(!has_decorator(""));
    assert!(!has_decorator("{{"));
    assert!(!has_decorator("{{ ~"));
    assert!(!has_decorator("echo {{profile}} * {{#if profile}}x{{/if}}"));
    assert!(!has_decorator("{ {*"));
    assert!(!has_decorator("{{> a}}{{#> b}}*{{/b}}"));
    assert!(!has_decorator("{{a*}}"));
}

#[test]
fn test_aws_auth_template_with_decorator_is_not_rendered() {
    let template = "{{#*inline \"a\"}}{{> a}}{{/inline}}{{> a}}";
    let configs = Configs { auth_commands: vec![pair("foo", template)] };
    let mut aws = AWS::new(configs, &aws_credentials_text(), &aws_config_text()).unwrap();
    assert_eq!(
        Action::Done {
            result: Err(CTXError::InvalidConfigurations {
                message: "failed to render script of profile foo".to_string(),
            }),
        },
        aws.auth("foo")
    );
    assert_eq!(Pending::Nothing, aws.pending);
    assert_eq!(Ok(context("foo", true)), aws.get_active_context());
}

#[test]
fn test_aws_auth_renders_blocks_and_partial_blocks() {
    let template = "{{#if profile}}login {{profile}}{{/if}}{{#> missing}} now{{/missing}}";
    let configs = Configs { auth_commands: vec![pair("foo", template)] };
    let mut aws = AWS::new(configs, &aws_credentials_text(), &aws_config_text()).unwrap();
    assert_eq!(Action::Run { script: "login foo now".to_string() }, aws.auth("foo"));
}
