use yui::config::{
    convert_and_set_key, parse_i32, parse_usize, setblock_parse_and_exec, string_to_type,
    aliasblock_parse_and_exec, config_line_step, BellStyle, Color, ColorMode, CompletionType,
    ConfigTypes, EditMode, LineOutcome, YuiConfig,
};
use yui::context::Context;

fn ctx() -> Context {
    Context::new("/home/user".to_string())
}

#[test]
fn default_config_values() {
    let c = YuiConfig::default();
    assert!(c.hist_ign_space);
    assert!(!c.hist_ign_dups);
    assert_eq!(c.hist_max_size, 1000);
    assert_eq!(c.completion_type, CompletionType::List);
    assert_eq!(c.completion_limit, 50);
    assert_eq!(c.hinting_color, Color::BrightBlack);
    assert_eq!(c.keyseq_timeout, 10);
    assert_eq!(c.edit_mode, EditMode::Emacs);
    assert!(c.auto_add_history);
    assert_eq!(c.bell_style, BellStyle::Silent);
    assert_eq!(c.color_mode, ColorMode::Enabled);
    assert_eq!(c.tab_stop, 4);
    assert!(!c.check_cur_pos);
    assert_eq!(c.indent_size, 2);
    assert!(c.bracketed_paste);
}

#[test]
fn parse_usize_values() {
    assert_eq!(parse_usize("0"), Some(0));
    assert_eq!(parse_usize("1000"), Some(1000));
    assert_eq!(parse_usize("+4"), Some(4));
    assert_eq!(parse_usize("+"), None);
    assert_eq!(parse_usize(""), None);
    assert_eq!(parse_usize("12a"), None);
    assert_eq!(parse_usize("-3"), None);
    assert_eq!(parse_usize("99999999999999999999999999"), None);
}

#[test]
fn parse_i32_values() {
    assert_eq!(parse_i32("10"), Some(10));
    assert_eq!(parse_i32("-1"), Some(-1));
    assert_eq!(parse_i32("+7"), Some(7));
    assert_eq!(parse_i32("2147483647"), Some(2147483647));
    assert_eq!(parse_i32("2147483648"), None);
    assert_eq!(parse_i32("-2147483648"), Some(-2147483648));
    assert_eq!(parse_i32("-2147483649"), None);
    assert_eq!(parse_i32("-"), None);
    assert_eq!(parse_i32(""), None);
}

#[test]
fn string_to_type_values() {
    assert_eq!(string_to_type("TRUE", "boolean"), ConfigTypes::Boolean(true));
    assert_eq!(string_to_type("yes", "boolean"), ConfigTypes::Boolean(false));
    assert_eq!(string_to_type("42", "size"), ConfigTypes::Size(42));
    assert_eq!(string_to_type("+8", "size"), ConfigTypes::Size(8));
    assert_eq!(string_to_type("x", "size"), ConfigTypes::Error);
    assert_eq!(string_to_type("-5", "int32"), ConfigTypes::Num(-5));
    assert_eq!(
        string_to_type("Circular", "complete"),
        ConfigTypes::Completion(CompletionType::Circular)
    );
    assert_eq!(
        string_to_type("list", "complete"),
        ConfigTypes::Completion(CompletionType::List)
    );
    assert_eq!(
        string_to_type("BrightBlue", "colorname"),
        ConfigTypes::ColorNames(Color::BrightBlue)
    );
    assert_eq!(string_to_type("mauve", "colorname"), ConfigTypes::Error);
    assert_eq!(string_to_type("vi", "edit"), ConfigTypes::EditMode(EditMode::Vi));
    assert_eq!(string_to_type("none", "bell"), ConfigTypes::BellStyle(BellStyle::Silent));
    assert_eq!(
        string_to_type("Audible", "bell"),
        ConfigTypes::BellStyle(BellStyle::Audible)
    );
    assert_eq!(string_to_type("forced", "color"), ConfigTypes::Color(ColorMode::Forced));
    assert_eq!(string_to_type("anything", "nonsense"), ConfigTypes::Error);
}

#[test]
fn convert_and_set_key_updates_config() {
    let mut c = ctx();
    assert!(convert_and_set_key(&mut c, "tab_stop", "8"));
    assert_eq!(c.config.tab_stop, 8);
    assert!(convert_and_set_key(&mut c, "edit_mode", "vi"));
    assert_eq!(c.config.edit_mode, EditMode::Vi);
    assert!(convert_and_set_key(&mut c, "keyseq_timeout", "-1"));
    assert_eq!(c.config.keyseq_timeout, -1);
}

#[test]
fn convert_and_set_key_rejects_unknown_or_bad() {
    let mut c = ctx();
    assert!(!convert_and_set_key(&mut c, "no_such_option", "1"));
    assert!(!convert_and_set_key(&mut c, "tab_stop", "wide"));
    assert_eq!(c.config.tab_stop, 4);
}

#[test]
fn setblock_line_sets_key() {
    let mut c = ctx();
    assert!(setblock_parse_and_exec(&mut c, &"hist_max_size=500".to_string()));
    assert_eq!(c.config.hist_max_size, 500);
}

#[test]
fn setblock_line_without_equals_is_refused() {
    let mut c = ctx();
    assert!(!setblock_parse_and_exec(&mut c, &"hist_max_size".to_string()));
    assert_eq!(c.config.hist_max_size, 1000);
}

#[test]
fn setblock_value_stops_at_second_equals() {
    let mut c = ctx();
    assert!(setblock_parse_and_exec(&mut c, &"tab_stop=8=9".to_string()));
    assert_eq!(c.config.tab_stop, 8);
}

#[test]
fn aliasblock_line_binds_alias_stripping_quotes() {
    let mut c = ctx();
    assert!(aliasblock_parse_and_exec(&mut c, &"ll='ls -al'".to_string()));
    assert_eq!(c.alias_lookup("ll"), Some("ls -al".to_string()));
    assert!(aliasblock_parse_and_exec(&mut c, &"gg=\"git grep\"".to_string()));
    assert_eq!(c.alias_lookup("gg"), Some("git grep".to_string()));
    assert!(!aliasblock_parse_and_exec(&mut c, &"no assignment".to_string()));
}

#[test]
fn config_file_walkthrough() {
    let mut c = ctx();
    let mut in_set = false;
    let mut in_alias = false;
    assert_eq!(
        config_line_step(&mut c, &mut in_set, &mut in_alias, "# a comment"),
        LineOutcome::Skip
    );
    assert_eq!(config_line_step(&mut c, &mut in_set, &mut in_alias, "   "), LineOutcome::Skip);
    assert_eq!(
        config_line_step(&mut c, &mut in_set, &mut in_alias, "alias STARTBLOCK"),
        LineOutcome::Skip
    );
    assert!(in_alias);
    assert_eq!(
        config_line_step(&mut c, &mut in_set, &mut in_alias, "ll='ls -al'"),
        LineOutcome::Skip
    );
    assert_eq!(c.alias_lookup("ll"), Some("ls -al".to_string()));
    assert_eq!(
        config_line_step(&mut c, &mut in_set, &mut in_alias, "alias ENDBLOCK"),
        LineOutcome::Skip
    );
    assert!(!in_alias);
    assert_eq!(
        config_line_step(&mut c, &mut in_set, &mut in_alias, "set STARTBLOCK"),
        LineOutcome::Skip
    );
    assert!(in_set);
    assert_eq!(
        config_line_step(&mut c, &mut in_set, &mut in_alias, "tab_stop=8"),
        LineOutcome::Skip
    );
    assert_eq!(c.config.tab_stop, 8);
    assert_eq!(
        config_line_step(&mut c, &mut in_set, &mut in_alias, "bogus"),
        LineOutcome::BadSyntax
    );
    assert_eq!(
        config_line_step(&mut c, &mut in_set, &mut in_alias, "set ENDBLOCK"),
        LineOutcome::Skip
    );
    assert_eq!(
        config_line_step(&mut c, &mut in_set, &mut in_alias, "ls -al"),
        LineOutcome::RunLine
    );
}
