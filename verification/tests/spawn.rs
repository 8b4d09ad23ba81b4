use yui::context::Context;
use yui::parser::split_to_args;
use yui::spawn::{
    chain_record, chain_should_run, chain_start, check_aliases, choose_action, classify_line,
    parse_entry, resolve_command, stage_io, Action, ReplAction,
};

const HOME: &str = "/home/user";

#[test]
fn plain_line_runs_single() {
    let a = choose_action(split_to_args("ls -al".to_string(), HOME));
    match a {
        Action::RunSingle(g) => assert_eq!(g, vec!["ls".to_string(), "-al".to_string()]),
        _ => panic!("expected a single run"),
    }
}

#[test]
fn piped_line_runs_pipeline() {
    let a = choose_action(split_to_args("ls | wc".to_string(), HOME));
    match a {
        Action::RunPiped(gs) => {
            assert_eq!(gs, vec![vec!["ls".to_string()], vec!["wc".to_string()]])
        }
        _ => panic!("expected a pipeline"),
    }
}

#[test]
fn chained_line_runs_chain() {
    let a = choose_action(split_to_args("true && false ; ls".to_string(), HOME));
    match a {
        Action::RunChained(gs) => {
            assert_eq!(
                gs,
                vec![
                    vec!["true".to_string()],
                    vec!["false".to_string()],
                    vec!["ls".to_string()]
                ]
            )
        }
        _ => panic!("expected a chain"),
    }
}

#[test]
fn mixed_sentinels_are_rejected() {
    // pipe before operator
    let a = choose_action(split_to_args("ls | wc && echo x".to_string(), HOME));
    assert!(matches!(a, Action::RejectMixed));
    // operator before pipe
    let b = choose_action(split_to_args("echo x ; ls | wc".to_string(), HOME));
    assert!(matches!(b, Action::RejectMixed));
}

#[test]
fn chain_short_circuits_after_failure() {
    // three chained groups; the second fails to spawn, so the third never runs
    let mut st = chain_start();
    assert!(chain_should_run(&st, 3));
    chain_record(&mut st, true);
    assert!(chain_should_run(&st, 3));
    chain_record(&mut st, false);
    assert!(!chain_should_run(&st, 3));
    chain_record(&mut st, true);
    assert!(!chain_should_run(&st, 3));
}

#[test]
fn pipeline_stage_io_roles() {
    assert_eq!(stage_io(0, 3), (false, true));
    assert_eq!(stage_io(1, 3), (true, true));
    assert_eq!(stage_io(2, 3), (true, false));
    assert_eq!(stage_io(0, 1), (false, false));
}

#[test]
fn alias_lookup_tokenizes_replacement() {
    let mut c = Context::new(HOME.to_string());
    c.new_alias("ll".to_string(), "ls -al".to_string());
    let r = check_aliases(&mut c, &"ll".to_string());
    assert_eq!(r, Some(vec!["ls".to_string(), "-al".to_string()]));
    assert_eq!(check_aliases(&mut c, &"missing".to_string()), None);
}

#[test]
fn piped_alias_is_refused() {
    let mut c = Context::new(HOME.to_string());
    c.new_alias("bad".to_string(), "ls | wc".to_string());
    assert_eq!(check_aliases(&mut c, &"bad".to_string()), None);
}

#[test]
fn alias_resolution_only_interactive() {
    let mut c = Context::new(HOME.to_string());
    c.new_alias("ll".to_string(), "ls -al".to_string());
    let raw = vec!["ll".to_string(), "/tmp".to_string()];
    assert_eq!(
        resolve_command(&mut c, true, &raw),
        vec!["ls".to_string(), "-al".to_string(), "/tmp".to_string()]
    );
    assert_eq!(resolve_command(&mut c, false, &raw), raw);
}

#[test]
fn repl_line_classification() {
    assert_eq!(classify_line("exit"), ReplAction::Quit);
    assert_eq!(classify_line("  exit  "), ReplAction::Quit);
    assert_eq!(classify_line(""), ReplAction::Skip);
    assert_eq!(classify_line("   "), ReplAction::Skip);
    assert_eq!(classify_line("# note"), ReplAction::Skip);
    assert_eq!(classify_line("set tab_stop=8"), ReplAction::SetThenReload);
    assert_eq!(classify_line("settle down"), ReplAction::Run);
    assert_eq!(classify_line("?"), ReplAction::ShowStatus);
    assert_eq!(classify_line("ls -al"), ReplAction::Run);
}

#[test]
fn parse_entry_splits_on_whitespace() {
    assert_eq!(
        parse_entry("  ls   -a "),
        vec!["ls".to_string(), "-a".to_string()]
    );
    assert_eq!(parse_entry(""), Vec::<String>::new());
}
