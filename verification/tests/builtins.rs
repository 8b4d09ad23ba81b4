use yui::builtins::{alias_apply, builtin_of, cd_target, echo_line, parse_assignment, BuiltinKind};
use yui::context::Context;

const HOME: &str = "/home/user";

#[test]
fn builtin_names() {
    assert_eq!(builtin_of("cd"), Some(BuiltinKind::Cd));
    assert_eq!(builtin_of("echo"), Some(BuiltinKind::Echo));
    assert_eq!(builtin_of("export"), Some(BuiltinKind::Export));
    assert_eq!(builtin_of("set"), Some(BuiltinKind::SetOption));
    assert_eq!(builtin_of("alias"), Some(BuiltinKind::Alias));
    assert_eq!(builtin_of("history"), Some(BuiltinKind::History));
    assert_eq!(builtin_of("version"), Some(BuiltinKind::Version));
    assert_eq!(builtin_of("builtins"), Some(BuiltinKind::ListBuiltins));
    assert_eq!(builtin_of("ls"), None);
    assert_eq!(builtin_of("CD"), None);
}

#[test]
fn parse_assignment_shapes() {
    assert_eq!(
        parse_assignment("FOO=bar"),
        Some(("FOO".to_string(), "bar".to_string()))
    );
    assert_eq!(
        parse_assignment("a_1=x=y"),
        Some(("a_1".to_string(), "x=y".to_string()))
    );
    assert_eq!(parse_assignment("FOO="), Some(("FOO".to_string(), "".to_string())));
    assert_eq!(parse_assignment("=x"), None);
    assert_eq!(parse_assignment("FOO"), None);
    assert_eq!(parse_assignment("F O=x"), None);
    assert_eq!(parse_assignment(""), None);
}

#[test]
fn echo_joins_with_single_spaces() {
    assert_eq!(
        echo_line(&["hello".to_string(), "world".to_string()]),
        "hello world"
    );
    assert_eq!(echo_line(&[]), "");
    assert_eq!(echo_line(&["one".to_string()]), "one");
}

#[test]
fn cd_picks_home_argument_or_refuses() {
    assert_eq!(cd_target(&[], HOME), Some(HOME.to_string()));
    assert_eq!(cd_target(&["/tmp".to_string()], HOME), Some("/tmp".to_string()));
    assert_eq!(cd_target(&["/a".to_string(), "/b".to_string()], HOME), None);
}

#[test]
fn alias_apply_binds_until_first_bad_argument() {
    let mut c = Context::new(HOME.to_string());
    let ok = alias_apply(
        &mut c,
        &["a=1".to_string(), "not an assignment".to_string(), "b=2".to_string()],
    );
    assert!(!ok);
    assert_eq!(c.alias_lookup("a"), Some("1".to_string()));
    assert_eq!(c.alias_lookup("b"), None);
}

#[test]
fn alias_apply_all_good() {
    let mut c = Context::new(HOME.to_string());
    assert!(alias_apply(&mut c, &["a=1".to_string(), "b=2".to_string()]));
    assert_eq!(c.alias_lookup("a"), Some("1".to_string()));
    assert_eq!(c.alias_lookup("b"), Some("2".to_string()));
}

#[test]
fn context_new_and_rebinding() {
    let mut c = Context::new(HOME.to_string());
    assert_eq!(c.histfile, "/home/user/.yui_history");
    assert_eq!(c.laststatus, 0);
    assert!(c.aliases_is_empty());
    c.new_alias("ll".to_string(), "ls -al".to_string());
    c.new_alias("ll".to_string(), "ls".to_string());
    assert_eq!(c.alias_lookup("ll"), Some("ls".to_string()));
    assert_eq!(c.alias_lookup("missing"), None);
    assert!(!c.aliases_is_empty());
}
