use yui::paths::{condense_home, expand_home, render_prompt, user_config_candidates};

const HOME: &str = "/home/user";

#[test]
fn expand_home_test() {
    assert_eq!(
        expand_home("~/Notes", HOME),
        [HOME.to_string(), "Notes".to_string()].join("/")
    );
    assert_eq!(expand_home("Some~String", HOME), "Some~String".to_string());
    assert_eq!(expand_home("~", HOME), "~".to_string());
    assert_eq!(
        expand_home("echo ~", HOME),
        ["echo".to_string(), HOME.to_string()].join(" ")
    );
}

#[test]
fn expand_home_between_spaces() {
    assert_eq!(expand_home("a ~ b", HOME), format!("a {} b", HOME));
}

#[test]
fn expand_home_consumed_tail_blocks_next() {
    // the spaces after a replaced ~ are consumed, so the next ~ has no
    // preceding space available and stays, unless the end-of-line rule
    // catches it
    assert_eq!(expand_home("x ~ ~ y", HOME), format!("x {} ~ y", HOME));
}

#[test]
fn condense_home_substitutes_tilde() {
    assert_eq!(condense_home("/home/user/Notes", HOME), "~/Notes");
    assert_eq!(condense_home("/etc", HOME), "/etc");
    assert_eq!(condense_home("/home/user/a/home/user/b", HOME), "~/a~/b");
}

#[test]
fn condense_home_with_empty_home_interleaves() {
    // an empty pattern matches at every character boundary, the end included
    assert_eq!(condense_home("ab", ""), "~a~b~");
}

#[test]
fn render_prompt_replaces_cwd() {
    assert_eq!(render_prompt("{cwd} > ", "~/Notes"), "~/Notes > ");
    assert_eq!(render_prompt("$ ", "~/Notes"), "$ ");
}

#[test]
fn config_candidates_in_priority_order() {
    let c = user_config_candidates(HOME, "/xdg");
    assert_eq!(
        c,
        vec![
            "/home/user/.yuirc".to_string(),
            "/xdg/yui/yuirc".to_string(),
            "/home/user/.config/yui/yuirc".to_string()
        ]
    );
}
