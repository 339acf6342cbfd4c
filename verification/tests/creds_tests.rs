use awsctx::config::Profile;
use awsctx::creds::Credentials;
use awsctx::ctx::CTXError;

fn aws_credentials_text() -> String {
    "[baz]\naws_access_key_id=ZZZZZZZZZZZ\naws_secret_access_key=ZZZZZZZZZZZ\naws_session_token=ZZZZZZZZZZZZZZZZZZZZZZZZZZZZZZZZZZZZZZZZZZZZ\n\n[bar]\naws_access_key_id=YYYYYYYYYYY\naws_secret_access_key=YYYYYYYYYYY\naws_session_token=YYYYYYYYYYYYYYYYYYYYYYYYYYYYYYYYYYYYYYYYYYYY\n\n[foo]\naws_access_key_id=XXXXXXXXXXX\naws_secret_access_key=XXXXXXXXXXX\naws_session_token=XXXXXXXXXXXXXXXXXXXXXXXXXXXXXXXXXXXXXXXXXXXX\n\n[default]\naws_access_key_id=XXXXXXXXXXX\naws_secret_access_key=XXXXXXXXXXX\naws_session_token=XXXXXXXXXXXXXXXXXXXXXXXXXXXXXXXXXXXXXXXXXXXX\n"
        .to_string()
}

fn aws_credentials_text_sorted() -> String {
    "[bar]\naws_access_key_id=YYYYYYYYYYY\naws_secret_access_key=YYYYYYYYYYY\naws_session_token=YYYYYYYYYYYYYYYYYYYYYYYYYYYYYYYYYYYYYYYYYYYY\n\n[baz]\naws_access_key_id=ZZZZZZZZZZZ\naws_secret_access_key=ZZZZZZZZZZZ\naws_session_token=ZZZZZZZZZZZZZZZZZZZZZZZZZZZZZZZZZZZZZZZZZZZZ\n\n[foo]\naws_access_key_id=XXXXXXXXXXX\naws_secret_access_key=XXXXXXXXXXX\naws_session_token=XXXXXXXXXXXXXXXXXXXXXXXXXXXXXXXXXXXXXXXXXXXX\n\n[default]\naws_access_key_id=XXXXXXXXXXX\naws_secret_access_key=XXXXXXXXXXX\naws_session_token=XXXXXXXXXXXXXXXXXXXXXXXXXXXXXXXXXXXXXXXXXXXX\n"
        .to_string()
}

fn aws_credentials_text_without_default() -> String {
    "[bar]\naws_access_key_id=YYYYYYYYYYY\naws_secret_access_key=YYYYYYYYYYY\naws_session_token=YYYYYYYYYYYYYYYYYYYYYYYYYYYYYYYYYYYYYYYYYYYY\n\n[foo]\naws_access_key_id=XXXXXXXXXXX\naws_secret_access_key=XXXXXXXXXXX\naws_session_token=XXXXXXXXXXXXXXXXXXXXXXXXXXXXXXXXXXXXXXXXXXXX\n"
        .to_string()
}

fn items(fill: &str) -> Vec<(String, String)> {
    vec![
        ("aws_access_key_id".to_string(), fill.repeat(11)),
        ("aws_secret_access_key".to_string(), fill.repeat(11)),
        ("aws_session_token".to_string(), fill.repeat(44)),
    ]
}

fn credentials() -> Credentials {
    Credentials::load_credentials(&aws_credentials_text()).unwrap()
}

#[test]
fn test_credentials_load_credentials() {
    let actual = credentials();
    assert_eq!(
        vec![
            ("bar".to_string(), items("Y")),
            ("baz".to_string(), items("Z")),
            ("foo".to_string(), items("X")),
        ],
        actual.store.data
    );
    assert_eq!(Some("foo".to_string()), actual.store.default_profile_name);
}

#[test]
fn test_credentials_load_credentials_without_default() {
    let actual = Credentials::load_credentials(&aws_credentials_text_without_default()).unwrap();
    assert_eq!(None, actual.store.default_profile_name);
    assert_eq!(2, actual.store.data.len());
}

#[test]
fn test_credentials_load_credentials_broken() {
    assert_eq!(Err(CTXError::CredentialsIsBroken), Credentials::load_credentials("[foo"));
}

#[test]
fn test_credentials_keep_prefixed_names_as_they_are() {
    let actual = Credentials::load_credentials("[profile foo]\nkey=1\n").unwrap();
    assert_eq!(vec![("profile foo".to_string(), vec![("key".to_string(), "1".to_string())])], actual.store.data);
}

#[test]
fn test_credentials_get_profile() {
    let expect = Profile { name: "baz".to_string(), default: false, items: items("Z") };
    assert_eq!(Ok(expect), credentials().get_profile("baz"));
    assert_eq!(
        Err(CTXError::NoSuchProfile { profile: "unknown".to_string() }),
        credentials().get_profile("unknown")
    );
}

#[test]
fn test_credentials_get_default_profile() {
    let expect = Profile { name: "foo".to_string(), default: true, items: items("X") };
    assert_eq!(Ok(expect), credentials().get_default_profile());
    let without = Credentials::load_credentials(&aws_credentials_text_without_default()).unwrap();
    assert_eq!(Err(CTXError::NoActiveContext), without.get_default_profile());
}

#[test]
fn test_credentials_set_default_profile() {
    let mut credentials = credentials();
    let expect = Profile { name: "bar".to_string(), default: true, items: items("Y") };
    assert_eq!(Ok(expect), credentials.set_default_profile("bar"));
    assert!(credentials.is_default_profile("bar"));
    assert_eq!(
        Err(CTXError::NoSuchProfile { profile: "default".to_string() }),
        credentials.set_default_profile("default")
    );
    assert!(credentials.is_default_profile("bar"));
}

#[test]
fn test_credentials_list_profiles() {
    let listed = credentials().list_profiles();
    let names: Vec<(&str, bool)> = listed.iter().map(|p| (p.name.as_str(), p.default)).collect();
    assert_eq!(vec![("bar", false), ("baz", false), ("foo", true)], names);
}

#[test]
fn test_credentials_dump_credentials() {
    assert_eq!(aws_credentials_text_sorted(), credentials().dump_credentials());
}

#[test]
fn test_credentials_dump_credentials_without_default() {
    let text = aws_credentials_text_without_default();
    assert_eq!(text, Credentials::load_credentials(&text).unwrap().dump_credentials());
}

#[test]
fn test_credentials_dump_and_load_again() {
    let mut credentials = credentials();
    credentials.set_default_profile("baz").unwrap();
    let again = Credentials::load_credentials(&credentials.dump_credentials()).unwrap();
    assert_eq!(credentials, again);
    assert_eq!(Some("baz".to_string()), again.store.default_profile_name);
}
