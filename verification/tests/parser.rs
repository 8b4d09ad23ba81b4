use yui::parser::{split_ops, split_pipes, split_to_args, ArgTypes};

const HOME: &str = "/home/user";

fn tokens_of(r: ArgTypes) -> (Vec<String>, bool, bool) {
    match r {
        ArgTypes::Piped(v, op) => (v, true, op),
        ArgTypes::Norm(v, op) => (v, false, op),
    }
}

#[test]
fn test_split_ops() {
    assert_eq!(
        split_ops(&vec!["ls".to_string(), "&&".to_string(), "echo".to_string()]),
        vec![vec!["ls".to_string()], vec!["echo".to_string()]]
    );
    assert_eq!(
        split_ops(&vec![
            "ls".to_string(),
            "-al".to_string(),
            "&&".to_string(),
            "echo".to_string(),
            "hello space".to_string()
        ]),
        vec![
            vec!["ls".to_string(), "-al".to_string()],
            vec!["echo".to_string(), "hello space".to_string()]
        ]
    );
    assert_eq!(
        split_ops(&vec![
            "ls".to_string(),
            "-al".to_string(),
            ";".to_string(),
            "ls".to_string()
        ]),
        vec![vec!["ls".to_string(), "-al".to_string()], vec!["ls".to_string()]]
    );
    assert_eq!(
        split_ops(&vec![
            "ls".to_string(),
            "-al".to_string(),
            ";".to_string(),
            "ls".to_string(),
            "&&".to_string(),
            "ls".to_string()
        ]),
        vec![
            vec!["ls".to_string(), "-al".to_string()],
            vec!["ls".to_string()],
            vec!["ls".to_string()]
        ]
    );
}

#[test]
fn test_split_pipes() {
    assert_eq!(
        split_pipes(&vec!["ls".to_string(), "|".to_string(), "echo".to_string()]),
        vec![vec!["ls".to_string()], vec!["echo".to_string()]]
    );
    assert_eq!(
        split_pipes(&vec![
            "ls".to_string(),
            "-al".to_string(),
            "|".to_string(),
            "echo".to_string(),
            "hello space".to_string(),
            "|".to_string(),
            "echo".to_string()
        ]),
        vec![
            vec!["ls".to_string(), "-al".to_string()],
            vec!["echo".to_string(), "hello space".to_string()],
            vec!["echo".to_string()]
        ]
    );
}

#[test]
fn whitespace_runs_collapse() {
    let (toks, piped, op) = tokens_of(split_to_args("   ls  -a     -l  ".to_string(), HOME));
    assert!(!piped);
    assert!(!op);
    assert_eq!(toks, vec!["ls".to_string(), "-a".to_string(), "-l".to_string()]);
}

#[test]
fn whitespace_only_line_yields_one_empty_token() {
    let (toks, piped, op) = tokens_of(split_to_args("   ".to_string(), HOME));
    assert!(!piped);
    assert!(!op);
    assert_eq!(toks, vec!["".to_string()]);
}

#[test]
fn single_quotes_preserve_whitespace() {
    let (toks, piped, op) = tokens_of(split_to_args("ls 'single quotes'".to_string(), HOME));
    assert!(!piped);
    assert!(!op);
    assert_eq!(toks, vec!["ls".to_string(), "single quotes".to_string()]);
}

#[test]
fn double_quotes_preserve_whitespace() {
    let (toks, piped, op) = tokens_of(split_to_args("ls \"double quotes\"".to_string(), HOME));
    assert!(!piped);
    assert!(!op);
    assert_eq!(toks, vec!["ls".to_string(), "double quotes".to_string()]);
}

#[test]
fn unmatched_quote_takes_rest_of_line() {
    let (toks, piped, op) = tokens_of(split_to_args("echo 'abc def".to_string(), HOME));
    assert!(!piped);
    assert!(!op);
    assert_eq!(toks, vec!["echo".to_string(), "abc def".to_string()]);
}

#[test]
fn pipe_detection_and_splitting() {
    let r = split_to_args("ls | wc".to_string(), HOME);
    match r {
        ArgTypes::Piped(toks, op) => {
            assert!(!op);
            assert_eq!(toks, vec!["ls".to_string(), "|".to_string(), "wc".to_string()]);
            assert_eq!(
                split_pipes(&toks),
                vec![vec!["ls".to_string()], vec!["wc".to_string()]]
            );
        }
        ArgTypes::Norm(_, _) => panic!("expected a piped shape"),
    }
}

#[test]
fn operator_detection_and_chain_splitting() {
    let r = split_to_args("ls -al && echo 'hello space'".to_string(), HOME);
    match r {
        ArgTypes::Norm(toks, op) => {
            assert!(op);
            assert_eq!(
                toks,
                vec![
                    "ls".to_string(),
                    "-al".to_string(),
                    "&&".to_string(),
                    "echo".to_string(),
                    "hello space".to_string()
                ]
            );
            assert_eq!(
                split_ops(&toks),
                vec![
                    vec!["ls".to_string(), "-al".to_string()],
                    vec!["echo".to_string(), "hello space".to_string()]
                ]
            );
        }
        ArgTypes::Piped(_, _) => panic!("expected a plain shape"),
    }
}

#[test]
fn semicolon_sets_operator_flag() {
    let (toks, piped, op) = tokens_of(split_to_args("ls;wc".to_string(), HOME));
    assert!(!piped);
    assert!(op);
    assert_eq!(toks, vec!["ls".to_string(), ";".to_string(), "wc".to_string()]);
}

#[test]
fn lone_ampersand_is_swallowed() {
    let (toks, piped, op) = tokens_of(split_to_args("a & b".to_string(), HOME));
    assert!(!piped);
    assert!(!op);
    assert_eq!(toks, vec!["a".to_string(), "b".to_string()]);
}

#[test]
fn ampersand_pair_split_by_text_still_emits_operator() {
    // a lone & is swallowed while a second one is awaited, however far away:
    // the pair "a & x &" emits the operator at the second &, and the empty
    // trailing token follows from the unconditional final flush
    let (toks, piped, op) = tokens_of(split_to_args("a & x &".to_string(), HOME));
    assert!(!piped);
    assert!(op);
    assert_eq!(
        toks,
        vec!["a".to_string(), "x".to_string(), "&&".to_string(), "".to_string()]
    );
}

#[test]
fn quoted_pipe_is_literal() {
    let (toks, piped, op) = tokens_of(split_to_args("echo '|'".to_string(), HOME));
    assert!(!piped);
    assert!(!op);
    assert_eq!(toks, vec!["echo".to_string(), "|".to_string()]);
}

#[test]
fn adjacent_quoted_spans_are_separate_tokens() {
    // a quoted span ends at the next unquoted space like any other token, so
    // quoted sentinel characters pass through as separate literal arguments
    // and neither flag is set
    let r = split_to_args("echo '|' ';'".to_string(), HOME);
    match r {
        ArgTypes::Norm(toks, op) => {
            assert!(!op);
            assert_eq!(
                toks,
                vec!["echo".to_string(), "|".to_string(), ";".to_string()]
            );
        }
        ArgTypes::Piped(_, _) => panic!("expected a plain shape"),
    }
}

#[test]
fn quoted_tilde_is_its_own_literal_token() {
    let (toks, piped, op) = tokens_of(split_to_args("a '~' b".to_string(), HOME));
    assert!(!piped);
    assert!(!op);
    assert_eq!(toks, vec!["a".to_string(), "~".to_string(), "b".to_string()]);
}

#[test]
fn each_tilde_token_expands_separately() {
    // an expanded ~ is a token under construction; the following space ends
    // it, so the next ~ starts a token of its own and expands too
    let (toks, piped, op) = tokens_of(split_to_args("echo ~ ~".to_string(), HOME));
    assert!(!piped);
    assert!(!op);
    assert_eq!(
        toks,
        vec!["echo".to_string(), HOME.to_string(), HOME.to_string()]
    );
}

#[test]
fn round_trip_with_quoted_sentinels() {
    // a token holding sentinel characters survives the round trip when it
    // also holds a space and is re-quoted
    let group = vec!["echo".to_string(), "a | b ; c".to_string()];
    let r = split_to_args("echo 'a | b ; c'".to_string(), HOME);
    match r {
        ArgTypes::Norm(toks, op) => {
            assert!(!op);
            assert_eq!(toks, group);
            assert_eq!(split_pipes(&toks), vec![group.clone()]);
            assert_eq!(split_ops(&toks), vec![group]);
        }
        ArgTypes::Piped(_, _) => panic!("expected a plain shape"),
    }
}

#[test]
fn unspaced_pipe_emits_sentinel_before_partial_token() {
    // the pipe sentinel is emitted at once, without ending the token under
    // construction, so an unspaced pipe leaves the surrounding characters in
    // one later token
    let (toks, piped, op) = tokens_of(split_to_args("ls|wc".to_string(), HOME));
    assert!(piped);
    assert!(!op);
    assert_eq!(toks, vec!["|".to_string(), "lswc".to_string()]);
}

#[test]
fn mixed_pipe_and_operator_is_tagged_piped_with_op() {
    let r = split_to_args("ls | wc && echo x".to_string(), HOME);
    match r {
        ArgTypes::Piped(_, op) => assert!(op),
        ArgTypes::Norm(_, _) => panic!("expected a piped shape"),
    }
}

#[test]
fn home_expands_only_at_token_start() {
    let (toks, _, _) = tokens_of(split_to_args("echo ~".to_string(), HOME));
    assert_eq!(toks, vec!["echo".to_string(), HOME.to_string()]);
    let (toks2, _, _) = tokens_of(split_to_args("echo a~b".to_string(), HOME));
    assert_eq!(toks2, vec!["echo".to_string(), "a~b".to_string()]);
}

#[test]
fn home_expands_at_line_start() {
    let (toks, _, _) = tokens_of(split_to_args("~/bin/tool".to_string(), HOME));
    assert_eq!(toks, vec![format!("{}/bin/tool", HOME)]);
}

#[test]
fn round_trip_of_a_command_group() {
    // joining a group's tokens with single spaces, re-quoting the one that
    // holds a space, tokenizes back to the same group
    let group = vec!["echo".to_string(), "hello space".to_string(), "-n".to_string()];
    let line = "echo 'hello space' -n".to_string();
    let r = split_to_args(line, HOME);
    match r {
        ArgTypes::Norm(toks, op) => {
            assert!(!op);
            assert_eq!(toks, group);
            assert_eq!(split_ops(&toks), vec![group.clone()]);
            assert_eq!(split_pipes(&toks), vec![group]);
        }
        ArgTypes::Piped(_, _) => panic!("expected a plain shape"),
    }
}
