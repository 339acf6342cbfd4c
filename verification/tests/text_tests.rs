use awsctx::configs::Configs;
use awsctx::configs::DEFAULT_AUTH_COMMAND_KEY;
use awsctx::ctx::CTXError;
use awsctx::ctx::Context;
use awsctx::ini::is_plain;
use awsctx::ini::parse;
use awsctx::ini::render;
use awsctx::ini::sorted_items;
use awsctx::ini::sorted_sections;
use awsctx::store::copy_items;
use awsctx::store::find_default;
use awsctx::store::same_items;
use awsctx::table::find;
use awsctx::table::get;
use awsctx::table::is_ascending;
use awsctx::table::position;
use awsctx::table::put;
use awsctx::text::compare;
use awsctx::text::join;
use awsctx::text::same_text;
use awsctx::text::strip_prefix;
use awsctx::text::Rank;

fn pair(key: &str, value: &str) -> (String, String) {
    (key.to_string(), value.to_string())
}

#[test]
fn test_compare_orders_as_str_does() {
    let words = ["", "a", "ab", "abc", "b", "B", "profile foo", "foo", "é", "z", "日本", "zz", "a\u{10000}"];
    for a in words.iter() {
        for b in words.iter() {
            let expect = if a < b {
                Rank::Before
            } else if a == b {
                Rank::Same
            } else {
                Rank::After
            };
            assert_eq!(expect, compare(a, b));
            assert_eq!(a == b, same_text(a, b));
        }
    }
}

#[test]
fn test_strip_prefix() {
    assert_eq!(Some("foo".to_string()), strip_prefix("profile foo", "profile "));
    assert_eq!(Some("".to_string()), strip_prefix("profile ", "profile "));
    assert_eq!(None, strip_prefix("profile", "profile "));
    assert_eq!(None, strip_prefix("foo", "profile "));
    assert_eq!(Some("foo".to_string()), strip_prefix("foo", ""));
    assert_eq!(Some("öl".to_string()), strip_prefix("éöl", "é"));
}

#[test]
fn test_join() {
    assert_eq!("profile foo", join("profile ", "foo"));
    assert_eq!("foo", join("", "foo"));
}

#[test]
fn test_table_put_and_get() {
    let mut table: Vec<(String, u8)> = Vec::new();
    put(&mut table, "m".to_string(), 1);
    put(&mut table, "a".to_string(), 2);
    put(&mut table, "z".to_string(), 3);
    put(&mut table, "m".to_string(), 4);
    assert_eq!(vec![("a".to_string(), 2), ("m".to_string(), 4), ("z".to_string(), 3)], table);
    assert_eq!(Some(&4), get(&table, "m"));
    assert_eq!(None, get(&table, "b"));
    assert_eq!((1, true), position(&table, "m"));
    assert_eq!((1, false), position(&table, "b"));
    assert_eq!((3, false), position(&table, "zz"));
    assert_eq!((0, false), position(&table, ""));
}

#[test]
fn test_sorted_items_later_entry_stays() {
    let raw = vec![pair("b", "1"), pair("a", "2"), pair("b", "3")];
    assert_eq!(vec![pair("a", "2"), pair("b", "3")], sorted_items(&raw));
}

#[test]
fn test_sorted_sections() {
    let raw = vec![
        ("two".to_string(), vec![pair("y", "1"), pair("x", "2")]),
        ("one".to_string(), vec![]),
        ("two".to_string(), vec![pair("k", "v")]),
    ];
    assert_eq!(
        vec![("one".to_string(), vec![]), ("two".to_string(), vec![pair("k", "v")])],
        sorted_sections(&raw)
    );
}

#[test]
fn test_render_keeps_the_order_given() {
    let sections = vec![
        ("zed".to_string(), vec![pair("b", "1"), pair("a", "2")]),
        ("empty".to_string(), vec![]),
        ("abc".to_string(), vec![pair("k", "v w")]),
    ];
    assert_eq!("[zed]\nb=1\na=2\n\n[abc]\nk=v w\n", render(&sections));
}

#[test]
fn test_render_nothing() {
    let sections: Vec<(String, Vec<(String, String)>)> = Vec::new();
    assert_eq!("", render(&sections));
}

#[test]
fn test_render_escapes() {
    let sections = vec![("a".to_string(), vec![pair("path", "C:\\dir\tx")])];
    assert_eq!("[a]\npath=C:\\\\dir\\tx\n", render(&sections));
}

#[test]
fn test_parse() {
    let expect = vec![("s".to_string(), vec![pair("a", "1"), pair("b", "2")])];
    assert_eq!(Some(expect), parse("# a comment\n[s]\nb = 2\na=1\n"));
    assert_eq!(None, parse("[s"));
    assert_eq!(None, parse("outside=1\n"));
}

#[test]
fn test_parse_later_section_of_one_name_stays() {
    let expect = vec![("s".to_string(), vec![pair("b", "2")])];
    assert_eq!(Some(expect), parse("[s]\na=1\n[s]\nb=2\n"));
}

#[test]
fn test_parse_refuses_nested_names() {
    assert_eq!(None, parse("[a.b]\nk=v\n"));
}

#[test]
fn test_is_plain() {
    assert!(is_plain(&vec![(None, vec![]), (Some("profile foo".to_string()), vec![pair("a", "b")])]));
    assert!(!is_plain(&vec![(None, vec![pair("a", "b")])]));
    assert!(!is_plain(&vec![(Some("a[1]".to_string()), vec![])]));
    assert!(is_plain(&vec![(Some("x".repeat(1024)), vec![])]));
    assert!(!is_plain(&vec![(Some("x".repeat(1025)), vec![])]));
}

#[test]
fn test_same_items_and_copy_items() {
    let a = vec![pair("a", "1"), pair("b", "2")];
    assert!(same_items(&a, &copy_items(&a)));
    assert!(!same_items(&a, &vec![pair("a", "1")]));
    assert!(!same_items(&a, &vec![pair("a", "1"), pair("b", "3")]));
    assert!(!same_items(&a, &vec![pair("a", "1"), pair("c", "2")]));
    assert!(same_items(&vec![], &vec![]));
}

#[test]
fn test_find_default_without_prefix() {
    let data = vec![
        ("bar".to_string(), vec![pair("k", "1")]),
        ("default".to_string(), vec![pair("k", "2")]),
        ("foo".to_string(), vec![pair("k", "2")]),
    ];
    assert_eq!(Some("foo".to_string()), find_default(&data, ""));
    assert_eq!(None, find_default(&data, "profile "));
}

#[test]
fn test_configs_auth_command() {
    let configs = Configs {
        auth_commands: vec![
            pair("foo", "echo auth"),
            pair("bar", "exit 1"),
            pair(DEFAULT_AUTH_COMMAND_KEY, "echo default auth"),
        ],
    };
    assert_eq!(Some(&"echo auth".to_string()), configs.auth_command("foo"));
    assert_eq!(Some(&"echo default auth".to_string()), configs.auth_command("baz"));
    let without = Configs { auth_commands: vec![pair("foo", "echo auth")] };
    assert_eq!(None, without.auth_command("baz"));
    assert_eq!("__default", DEFAULT_AUTH_COMMAND_KEY);
}

#[test]
fn test_find_last_entry_counts() {
    let list = vec![pair("a", "1"), pair("b", "2"), pair("a", "3")];
    assert_eq!(Some(&"3".to_string()), find(&list, "a"));
    assert_eq!(None, find(&list, "c"));
}

#[test]
fn test_error_description() {
    assert_eq!("Cannot read config", CTXError::CannotReadConfig.description());
    assert_eq!("Cannot write config", CTXError::CannotWriteConfig.description());
    assert_eq!("Config is broken", CTXError::ConfigIsBroken.description());
    assert_eq!("Cannot read credentials", CTXError::CannotReadCredentials.description());
    assert_eq!("Cannot write credentials", CTXError::CannotWriteCredentials.description());
    assert_eq!("Credentials is broken", CTXError::CredentialsIsBroken.description());
    assert_eq!(
        "Invalid configurations",
        CTXError::InvalidConfigurations { message: "m".to_string() }.description()
    );
    assert_eq!("No active context found", CTXError::NoActiveContext.description());
    assert_eq!(
        "No auth configuration found for the profile",
        CTXError::NoAuthConfiguration { profile: "p".to_string() }.description()
    );
    assert_eq!("No context is selected", CTXError::NoContextIsSelected.description());
    assert_eq!("No such profile", CTXError::NoSuchProfile { profile: "p".to_string() }.description());
    assert_eq!("Unexpected error", CTXError::UnexpectedError.description());
}

#[test]
fn test_context_as_ref() {
    let context = Context { name: "foo".to_string(), active: true };
    assert_eq!("foo", context.as_ref());
    assert_eq!(context, context.duplicate());
    assert_eq!(Context { name: String::new(), active: false }, Context::default());
}

#[test]
fn test_is_ascending() {
    let empty: Vec<(String, u8)> = Vec::new();
    assert!(is_ascending(&empty));
    assert!(is_ascending(&vec![("a".to_string(), 1)]));
    assert!(is_ascending(&vec![("a".to_string(), 1), ("b".to_string(), 1), ("c".to_string(), 1)]));
    assert!(!is_ascending(&vec![("a".to_string(), 1), ("a".to_string(), 1)]));
    assert!(!is_ascending(&vec![("a".to_string(), 1), ("c".to_string(), 1), ("b".to_string(), 1)]));
}
