//! The session configuration: the option record, the typed values its
//! options take, and the parsing of option values and of configuration-file
//! `set` lines.
//!
//! Option values arrive as text and are converted to a typed value according
//! to the target each key expects: booleans, sizes, 32-bit numbers, and a
//! handful of named modes and colors. Keyword matching is case-insensitive
//! over the ASCII letters. An unknown key or an unconvertible value leaves
//! the configuration unchanged and reports failure; it never aborts the
//! session.

use vstd::prelude::*;

use crate::builtins::parse_assignment;
use crate::builtins::parse_assignment_spec;
use crate::context::Context;
use crate::strutil::{
    chars_eq, chars_to_string, str_chars, str_eq, strip_lead, strip_lead_chars, strip_trail,
    strip_trail_chars, subrange_chars, trim_chars, trim_spec,
};

verus! {

/// How completion candidates are offered.
#[derive(Clone, Copy, Debug, PartialEq, Eq, Structural)]
pub enum CompletionType {
    Circular,
    List,
}

/// The line editor's key binding style.
#[derive(Clone, Copy, Debug, PartialEq, Eq, Structural)]
pub enum EditMode {
    Emacs,
    Vi,
}

/// How the terminal bell is rendered.
#[derive(Clone, Copy, Debug, PartialEq, Eq, Structural)]
pub enum BellStyle {
    Audible,
    Visible,
    Silent,
}

/// Whether terminal colors are used.
#[derive(Clone, Copy, Debug, PartialEq, Eq, Structural)]
pub enum ColorMode {
    Enabled,
    Forced,
    Disabled,
}

/// The named terminal colors an option can take.
#[derive(Clone, Copy, Debug, PartialEq, Eq, Structural)]
pub enum Color {
    Black,
    Red,
    Green,
    Yellow,
    Blue,
    Magenta,
    Cyan,
    White,
    BrightBlack,
    BrightRed,
    BrightGreen,
    BrightYellow,
    BrightBlue,
    BrightMagenta,
    BrightCyan,
    BrightWhite,
}

/// The session's configuration record.
#[derive(Clone, Copy, Debug, PartialEq, Eq, Structural)]
pub struct YuiConfig {
    pub hist_ign_space: bool,
    pub hist_ign_dups: bool,
    pub hist_max_size: usize,
    pub completion_type: CompletionType,
    pub completion_limit: usize,
    pub hinting_color: Color,
    pub keyseq_timeout: i32,
    pub edit_mode: EditMode,
    pub auto_add_history: bool,
    pub bell_style: BellStyle,
    pub color_mode: ColorMode,
    pub tab_stop: usize,
    pub check_cur_pos: bool,
    pub indent_size: usize,
    pub bracketed_paste: bool,
}

/// The default configuration.
pub open spec fn default_config() -> YuiConfig {
    YuiConfig {
        hist_ign_space: true,
        hist_ign_dups: false,
        hist_max_size: 1000,
        completion_type: CompletionType::List,
        completion_limit: 50,
        hinting_color: Color::BrightBlack,
        keyseq_timeout: 10,
        edit_mode: EditMode::Emacs,
        auto_add_history: true,
        bell_style: BellStyle::Silent,
        color_mode: ColorMode::Enabled,
        tab_stop: 4,
        check_cur_pos: false,
        indent_size: 2,
        bracketed_paste: true,
    }
}

impl Default for YuiConfig {
    /// The default configuration.
    fn default() -> (r: YuiConfig)
        ensures
            r == default_config(),
    {
        YuiConfig {
            hist_ign_space: true,
            hist_ign_dups: false,
            hist_max_size: 1000,
            completion_type: CompletionType::List,
            completion_limit: 50,
            hinting_color: Color::BrightBlack,
            keyseq_timeout: 10,
            edit_mode: EditMode::Emacs,
            auto_add_history: true,
            bell_style: BellStyle::Silent,
            color_mode: ColorMode::Enabled,
            tab_stop: 4,
            check_cur_pos: false,
            indent_size: 2,
            bracketed_paste: true,
        }
    }
}

/// A decimal digit.
pub open spec fn is_digit(c: char) -> bool {
    ('0' as u32) <= (c as u32) && (c as u32) <= ('9' as u32)
}

/// The value of a decimal digit; any other character counts zero.
pub open spec fn digit_val(c: char) -> int {
    if is_digit(c) {
        (c as u32) - ('0' as u32)
    } else {
        0
    }
}

/// Whether a text is decimal digits only.
pub open spec fn all_digits(s: Seq<char>) -> bool {
    forall|i: int| 0 <= i < s.len() ==> is_digit(s[i])
}

/// The number a digit string denotes, most significant digit first.
pub open spec fn digits_val(s: Seq<char>) -> int
    decreases s.len(),
{
    if s.len() == 0 {
        0
    } else {
        digits_val(s.drop_last()) * 10 + digit_val(s.last())
    }
}

/// A prefix of a digit string denotes no more than the whole, and no string
/// denotes a negative number.
proof fn lemma_digits_val_prefix(s: Seq<char>, k: int)
    requires
        0 <= k <= s.len(),
    ensures
        0 <= digits_val(s.take(k)) <= digits_val(s),
    decreases s.len(),
{
    if s.len() == 0 {
        assert(s.take(k) =~= s);
    } else if k == s.len() {
        assert(s.take(k) =~= s);
        lemma_digits_val_prefix(s.drop_last(), s.len() - 1);
        assert(s.drop_last().take(s.len() - 1) =~= s.drop_last());
    } else {
        lemma_digits_val_prefix(s.drop_last(), k);
        assert(s.take(k) =~= s.drop_last().take(k));
        assert(digits_val(s.drop_last()) * 10 >= digits_val(s.drop_last()));
    }
}

/// No string denotes a negative number.
proof fn lemma_digits_val_nonneg(s: Seq<char>)
    ensures
        digits_val(s) >= 0,
{
    lemma_digits_val_prefix(s, s.len() as int);
    assert(s.take(s.len() as int) =~= s);
}

/// The number a nonempty digit string denotes, if every character is a digit
/// and the value fits the cap; `None` otherwise.
pub open spec fn parse_cap_spec(s: Seq<char>, cap: u64) -> Option<u64> {
    if s.len() > 0 && all_digits(s) && digits_val(s) <= cap {
        Some(digits_val(s) as u64)
    } else {
        None
    }
}

/// The value of a decimal digit.
fn digit_of(c: char) -> (r: Option<u64>)
    ensures
        r is Some <==> is_digit(c),
        r is Some ==> r->0 == digit_val(c),
{
    let u = c as u32;
    if u >= 48 && u <= 57 {
        Some((u - 48) as u64)
    } else {
        None
    }
}

/// Parse the digits of `s` from `from` on, refusing a value over `cap`.
fn parse_digits(s: &Vec<char>, from: usize, cap: u64) -> (r: Option<u64>)
    requires
        from <= s@.len(),
    ensures
        r == parse_cap_spec(s@.skip(from as int), cap),
{
    let n = s.len();
    if from == n {
        proof {
            assert(s@.skip(from as int) =~= Seq::<char>::empty());
        }
        return None;
    }
    let ghost ds = s@.skip(from as int);
    let mut acc: u64 = 0;
    let mut j: usize = from;
    while j < n
        invariant
            from <= j <= n,
            n == s@.len(),
            ds == s@.skip(from as int),
            all_digits(s@.subrange(from as int, j as int)),
            acc == digits_val(s@.subrange(from as int, j as int)),
            acc <= cap,
        decreases n - j,
    {
        let ghost pre = s@.subrange(from as int, j as int);
        proof {
            assert(s@.subrange(from as int, j + 1).drop_last() =~= pre);
            assert(s@.subrange(from as int, j + 1).last() == s@[j as int]);
        }
        let d = match digit_of(s[j]) {
            Some(d) => d,
            None => {
                // a non-digit anywhere refuses the whole text
                proof {
                    assert(!is_digit(ds[j - from]));
                }
                return None;
            },
        };
        let overflow = if d > cap {
            true
        } else {
            acc > (cap - d) / 10
        };
        if overflow {
            // the value would exceed the cap, and further digits only grow it
            proof {
                if d <= cap {
                    let x = (cap - d) as int;
                    vstd::arithmetic::div_mod::lemma_fundamental_div_mod(x, 10);
                    assert(acc >= x / 10 + 1);
                    assert(10 * acc >= 10 * (x / 10) + 10);
                }
                assert(acc * 10 + d > cap);
                assert(digits_val(s@.subrange(from as int, j + 1)) > cap);
                lemma_digits_val_prefix(ds, j + 1 - from);
                assert(ds.take(j + 1 - from) =~= s@.subrange(from as int, j + 1));
            }
            return None;
        }
        proof {
            let x = (cap - d) as int;
            vstd::arithmetic::div_mod::lemma_fundamental_div_mod(x, 10);
            assert(10 * acc <= 10 * (x / 10));
            assert(acc * 10 + d <= cap);
        }
        acc = acc * 10 + d;
        j = j + 1;
    }
    proof {
        assert(s@.subrange(from as int, n as int) =~= ds);
    }
    Some(acc)
}

/// Parse a `usize` option value: an optional `+`, then a nonempty string of
/// decimal digits whose value fits.
pub open spec fn parse_usize_spec(s: Seq<char>) -> Option<usize> {
    let ds = if s.len() > 0 && s[0] == '+' {
        s.drop_first()
    } else {
        s
    };
    if ds.len() > 0 && all_digits(ds) && digits_val(ds) <= usize::MAX {
        Some(digits_val(ds) as usize)
    } else {
        None
    }
}

/// Parse a `usize` option value.
pub fn parse_usize(s: &str) -> (r: Option<usize>)
    ensures
        r == parse_usize_spec(s@),
{
    let cs = str_chars(s);
    let from: usize = if cs.len() > 0 && cs[0] == '+' {
        1
    } else {
        0
    };
    proof {
        if from == 1 {
            assert(cs@.skip(1) =~= cs@.drop_first());
            lemma_digits_val_nonneg(cs@.drop_first());
        } else {
            assert(cs@.skip(0) =~= cs@);
            lemma_digits_val_nonneg(cs@);
        }
    }
    match parse_digits(&cs, from, usize::MAX as u64) {
        Some(n) => Some(n as usize),
        None => None,
    }
}

/// Parse an `i32` option value: an optional sign, then decimal digits, the
/// value in range.
pub open spec fn parse_i32_spec(s: Seq<char>) -> Option<i32> {
    if s.len() > 0 && s[0] == '-' {
        let ds = s.drop_first();
        if ds.len() > 0 && all_digits(ds) && digits_val(ds) <= 0x8000_0000 {
            Some((0 - digits_val(ds)) as i32)
        } else {
            None
        }
    } else {
        let ds = if s.len() > 0 && s[0] == '+' {
            s.drop_first()
        } else {
            s
        };
        if ds.len() > 0 && all_digits(ds) && digits_val(ds) <= 0x7fff_ffff {
            Some(digits_val(ds) as i32)
        } else {
            None
        }
    }
}

/// Parse an `i32` option value.
pub fn parse_i32(s: &str) -> (r: Option<i32>)
    ensures
        r == parse_i32_spec(s@),
{
    let cs = str_chars(s);
    if cs.len() > 0 && cs[0] == '-' {
        proof {
            assert(cs@.skip(1) =~= cs@.drop_first());
            lemma_digits_val_nonneg(cs@.drop_first());
        }
        match parse_digits(&cs, 1, 0x8000_0000) {
            Some(n) => {
                if n == 0x8000_0000 {
                    Some(-2147483648i32)
                } else {
                    Some(-(n as i32))
                }
            },
            None => None,
        }
    } else {
        if cs.len() > 0 && cs[0] == '+' {
            proof {
                assert(cs@.skip(1) =~= cs@.drop_first());
                lemma_digits_val_nonneg(cs@.drop_first());
            }
            match parse_digits(&cs, 1, 0x7fff_ffff) {
                Some(n) => Some(n as i32),
                None => None,
            }
        } else {
            proof {
                assert(cs@.skip(0) =~= cs@);
                lemma_digits_val_nonneg(cs@);
            }
            match parse_digits(&cs, 0, 0x7fff_ffff) {
                Some(n) => Some(n as i32),
                None => None,
            }
        }
    }
}

/// An ASCII capital letter lowered; any other character unchanged.
pub open spec fn lower_char(c: char) -> char {
    match c {
        'A' => 'a',
        'B' => 'b',
        'C' => 'c',
        'D' => 'd',
        'E' => 'e',
        'F' => 'f',
        'G' => 'g',
        'H' => 'h',
        'I' => 'i',
        'J' => 'j',
        'K' => 'k',
        'L' => 'l',
        'M' => 'm',
        'N' => 'n',
        'O' => 'o',
        'P' => 'p',
        'Q' => 'q',
        'R' => 'r',
        'S' => 's',
        'T' => 't',
        'U' => 'u',
        'V' => 'v',
        'W' => 'w',
        'X' => 'x',
        'Y' => 'y',
        'Z' => 'z',
        _ => c,
    }
}

/// A text with its ASCII capitals lowered.
pub open spec fn lower_seq(s: Seq<char>) -> Seq<char> {
    s.map(|i: int, c: char| lower_char(c))
}

/// An ASCII capital letter lowered; any other character unchanged.
fn lower_char_exec(c: char) -> (r: char)
    ensures
        r == lower_char(c),
{
    match c {
        'A' => 'a',
        'B' => 'b',
        'C' => 'c',
        'D' => 'd',
        'E' => 'e',
        'F' => 'f',
        'G' => 'g',
        'H' => 'h',
        'I' => 'i',
        'J' => 'j',
        'K' => 'k',
        'L' => 'l',
        'M' => 'm',
        'N' => 'n',
        'O' => 'o',
        'P' => 'p',
        'Q' => 'q',
        'R' => 'r',
        'S' => 's',
        'T' => 't',
        'U' => 'u',
        'V' => 'v',
        'W' => 'w',
        'X' => 'x',
        'Y' => 'y',
        'Z' => 'z',
        _ => c,
    }
}

/// Lower the ASCII capitals of a character vector.
fn lower_chars(s: &Vec<char>) -> (r: Vec<char>)
    ensures
        r@ == lower_seq(s@),
{
    let mut r: Vec<char> = Vec::new();
    let mut i: usize = 0;
    while i < s.len()
        invariant
            0 <= i <= s@.len(),
            r@ =~= lower_seq(s@).take(i as int),
        decreases s@.len() - i,
    {
        r.push(lower_char_exec(s[i]));
        i = i + 1;
    }
    proof {
        assert(r@ =~= lower_seq(s@));
    }
    r
}

/// Whether `s`, lowered, equals the (already lowercase) keyword `kw`.
fn lower_matches(s: &Vec<char>, kw: &str) -> (r: bool)
    ensures
        r == (lower_seq(s@) == kw@),
{
    let l = lower_chars(s);
    let k = str_chars(kw);
    chars_eq(&l, &k)
}

/// A typed option value, converted from text; `Error` stands for a text that
/// the target type cannot read.
#[derive(Clone, Copy, Debug, PartialEq, Eq, Structural)]
pub enum ConfigTypes {
    Boolean(bool),
    Size(usize),
    Num(i32),
    Completion(CompletionType),
    ColorNames(Color),
    EditMode(EditMode),
    BellStyle(BellStyle),
    Color(ColorMode),
    Error,
}

/// The color a lowered name denotes.
pub open spec fn color_of_name(l: Seq<char>) -> ConfigTypes {
    if l == "black"@ {
        ConfigTypes::ColorNames(Color::Black)
    } else if l == "red"@ {
        ConfigTypes::ColorNames(Color::Red)
    } else if l == "green"@ {
        ConfigTypes::ColorNames(Color::Green)
    } else if l == "yellow"@ {
        ConfigTypes::ColorNames(Color::Yellow)
    } else if l == "blue"@ {
        ConfigTypes::ColorNames(Color::Blue)
    } else if l == "magenta"@ {
        ConfigTypes::ColorNames(Color::Magenta)
    } else if l == "cyan"@ {
        ConfigTypes::ColorNames(Color::Cyan)
    } else if l == "white"@ {
        ConfigTypes::ColorNames(Color::White)
    } else if l == "brightblack"@ {
        ConfigTypes::ColorNames(Color::BrightBlack)
    } else if l == "brightred"@ {
        ConfigTypes::ColorNames(Color::BrightRed)
    } else if l == "brightgreen"@ {
        ConfigTypes::ColorNames(Color::BrightGreen)
    } else if l == "brightyellow"@ {
        ConfigTypes::ColorNames(Color::BrightYellow)
    } else if l == "brightblue"@ {
        ConfigTypes::ColorNames(Color::BrightBlue)
    } else if l == "brightmagenta"@ {
        ConfigTypes::ColorNames(Color::BrightMagenta)
    } else if l == "brightcyan"@ {
        ConfigTypes::ColorNames(Color::BrightCyan)
    } else if l == "brightwhite"@ {
        ConfigTypes::ColorNames(Color::BrightWhite)
    } else {
        ConfigTypes::Error
    }
}

/// Convert an option value from text according to the target a key expects:
/// `boolean` reads `true` (any case) as true and anything else as false;
/// `size` and `int32` read decimal numbers; the remaining targets read one of
/// a fixed set of names, case-insensitively. A text that a target cannot
/// read, or an unknown target, converts to `Error`.
pub open spec fn string_to_type_spec(s: Seq<char>, target: Seq<char>) -> ConfigTypes {
    let l = lower_seq(s);
    if target == "boolean"@ {
        ConfigTypes::Boolean(l == "true"@)
    } else if target == "size"@ {
        match parse_usize_spec(s) {
            Some(n) => ConfigTypes::Size(n),
            None => ConfigTypes::Error,
        }
    } else if target == "int32"@ {
        match parse_i32_spec(s) {
            Some(n) => ConfigTypes::Num(n),
            None => ConfigTypes::Error,
        }
    } else if target == "complete"@ {
        if l == "circular"@ {
            ConfigTypes::Completion(CompletionType::Circular)
        } else if l == "list"@ {
            ConfigTypes::Completion(CompletionType::List)
        } else {
            ConfigTypes::Error
        }
    } else if target == "colorname"@ {
        color_of_name(l)
    } else if target == "edit"@ {
        if l == "emacs"@ {
            ConfigTypes::EditMode(EditMode::Emacs)
        } else if l == "vi"@ {
            ConfigTypes::EditMode(EditMode::Vi)
        } else {
            ConfigTypes::Error
        }
    } else if target == "bell"@ {
        if l == "audible"@ {
            ConfigTypes::BellStyle(BellStyle::Audible)
        } else if l == "visible"@ {
            ConfigTypes::BellStyle(BellStyle::Visible)
        } else if l == "none"@ {
            ConfigTypes::BellStyle(BellStyle::Silent)
        } else {
            ConfigTypes::Error
        }
    } else if target == "color"@ {
        if l == "enabled"@ {
            ConfigTypes::Color(ColorMode::Enabled)
        } else if l == "forced"@ {
            ConfigTypes::Color(ColorMode::Forced)
        } else if l == "disabled"@ {
            ConfigTypes::Color(ColorMode::Disabled)
        } else {
            ConfigTypes::Error
        }
    } else {
        ConfigTypes::Error
    }
}

/// Convert an option value from text according to the target a key expects.
pub fn string_to_type(string: &str, target: &str) -> (r: ConfigTypes)
    ensures
        r == string_to_type_spec(string@, target@),
{
    let cs = str_chars(string);
    if str_eq(target, "boolean") {
        ConfigTypes::Boolean(lower_matches(&cs, "true"))
    } else if str_eq(target, "size") {
        match parse_usize(string) {
            Some(n) => ConfigTypes::Size(n),
            None => ConfigTypes::Error,
        }
    } else if str_eq(target, "int32") {
        match parse_i32(string) {
            Some(n) => ConfigTypes::Num(n),
            None => ConfigTypes::Error,
        }
    } else if str_eq(target, "complete") {
        if lower_matches(&cs, "circular") {
            ConfigTypes::Completion(CompletionType::Circular)
        } else if lower_matches(&cs, "list") {
            ConfigTypes::Completion(CompletionType::List)
        } else {
            ConfigTypes::Error
        }
    } else if str_eq(target, "colorname") {
        if lower_matches(&cs, "black") {
            ConfigTypes::ColorNames(Color::Black)
        } else if lower_matches(&cs, "red") {
            ConfigTypes::ColorNames(Color::Red)
        } else if lower_matches(&cs, "green") {
            ConfigTypes::ColorNames(Color::Green)
        } else if lower_matches(&cs, "yellow") {
            ConfigTypes::ColorNames(Color::Yellow)
        } else if lower_matches(&cs, "blue") {
            ConfigTypes::ColorNames(Color::Blue)
        } else if lower_matches(&cs, "magenta") {
            ConfigTypes::ColorNames(Color::Magenta)
        } else if lower_matches(&cs, "cyan") {
            ConfigTypes::ColorNames(Color::Cyan)
        } else if lower_matches(&cs, "white") {
            ConfigTypes::ColorNames(Color::White)
        } else if lower_matches(&cs, "brightblack") {
            ConfigTypes::ColorNames(Color::BrightBlack)
        } else if lower_matches(&cs, "brightred") {
            ConfigTypes::ColorNames(Color::BrightRed)
        } else if lower_matches(&cs, "brightgreen") {
            ConfigTypes::ColorNames(Color::BrightGreen)
        } else if lower_matches(&cs, "brightyellow") {
            ConfigTypes::ColorNames(Color::BrightYellow)
        } else if lower_matches(&cs, "brightblue") {
            ConfigTypes::ColorNames(Color::BrightBlue)
        } else if lower_matches(&cs, "brightmagenta") {
            ConfigTypes::ColorNames(Color::BrightMagenta)
        } else if lower_matches(&cs, "brightcyan") {
            ConfigTypes::ColorNames(Color::BrightCyan)
        } else if lower_matches(&cs, "brightwhite") {
            ConfigTypes::ColorNames(Color::BrightWhite)
        } else {
            ConfigTypes::Error
        }
    } else if str_eq(target, "edit") {
        if lower_matches(&cs, "emacs") {
            ConfigTypes::EditMode(EditMode::Emacs)
        } else if lower_matches(&cs, "vi") {
            ConfigTypes::EditMode(EditMode::Vi)
        } else {
            ConfigTypes::Error
        }
    } else if str_eq(target, "bell") {
        if lower_matches(&cs, "audible") {
            ConfigTypes::BellStyle(BellStyle::Audible)
        } else if lower_matches(&cs, "visible") {
            ConfigTypes::BellStyle(BellStyle::Visible)
        } else if lower_matches(&cs, "none") {
            ConfigTypes::BellStyle(BellStyle::Silent)
        } else {
            ConfigTypes::Error
        }
    } else if str_eq(target, "color") {
        if lower_matches(&cs, "enabled") {
            ConfigTypes::Color(ColorMode::Enabled)
        } else if lower_matches(&cs, "forced") {
            ConfigTypes::Color(ColorMode::Forced)
        } else if lower_matches(&cs, "disabled") {
            ConfigTypes::Color(ColorMode::Disabled)
        } else {
            ConfigTypes::Error
        }
    } else {
        ConfigTypes::Error
    }
}

/// The configuration after setting `key` from the text `raw`: `None` when
/// the key is unknown or the text cannot be read at the key's type.
pub open spec fn set_key_spec(cfg: YuiConfig, key: Seq<char>, raw: Seq<char>) -> Option<YuiConfig> {
    if key == "hist_ign_space"@ {
        match string_to_type_spec(raw, "boolean"@) {
            ConfigTypes::Boolean(b) => Some(YuiConfig { hist_ign_space: b, ..cfg }),
            _ => None,
        }
    } else if key == "hist_ign_dups"@ {
        match string_to_type_spec(raw, "boolean"@) {
            ConfigTypes::Boolean(b) => Some(YuiConfig { hist_ign_dups: b, ..cfg }),
            _ => None,
        }
    } else if key == "hist_max_size"@ {
        match string_to_type_spec(raw, "size"@) {
            ConfigTypes::Size(n) => Some(YuiConfig { hist_max_size: n, ..cfg }),
            _ => None,
        }
    } else if key == "completion_type"@ {
        match string_to_type_spec(raw, "complete"@) {
            ConfigTypes::Completion(v) => Some(YuiConfig { completion_type: v, ..cfg }),
            _ => None,
        }
    } else if key == "completion_limit"@ {
        match string_to_type_spec(raw, "size"@) {
            ConfigTypes::Size(n) => Some(YuiConfig { completion_limit: n, ..cfg }),
            _ => None,
        }
    } else if key == "hinting_color"@ {
        match string_to_type_spec(raw, "colorname"@) {
            ConfigTypes::ColorNames(v) => Some(YuiConfig { hinting_color: v, ..cfg }),
            _ => None,
        }
    } else if key == "keyseq_timeout"@ {
        match string_to_type_spec(raw, "int32"@) {
            ConfigTypes::Num(n) => Some(YuiConfig { keyseq_timeout: n, ..cfg }),
            _ => None,
        }
    } else if key == "edit_mode"@ {
        match string_to_type_spec(raw, "edit"@) {
            ConfigTypes::EditMode(v) => Some(YuiConfig { edit_mode: v, ..cfg }),
            _ => None,
        }
    } else if key == "auto_add_history"@ {
        match string_to_type_spec(raw, "boolean"@) {
            ConfigTypes::Boolean(b) => Some(YuiConfig { auto_add_history: b, ..cfg }),
            _ => None,
        }
    } else if key == "bell_style"@ {
        match string_to_type_spec(raw, "bell"@) {
            ConfigTypes::BellStyle(v) => Some(YuiConfig { bell_style: v, ..cfg }),
            _ => None,
        }
    } else if key == "color_mode"@ {
        match string_to_type_spec(raw, "color"@) {
            ConfigTypes::Color(v) => Some(YuiConfig { color_mode: v, ..cfg }),
            _ => None,
        }
    } else if key == "tab_stop"@ {
        match string_to_type_spec(raw, "size"@) {
            ConfigTypes::Size(n) => Some(YuiConfig { tab_stop: n, ..cfg }),
            _ => None,
        }
    } else if key == "check_cur_pos"@ {
        match string_to_type_spec(raw, "boolean"@) {
            ConfigTypes::Boolean(b) => Some(YuiConfig { check_cur_pos: b, ..cfg }),
            _ => None,
        }
    } else if key == "indent_size"@ {
        match string_to_type_spec(raw, "size"@) {
            ConfigTypes::Size(n) => Some(YuiConfig { indent_size: n, ..cfg }),
            _ => None,
        }
    } else if key == "bracketed_paste"@ {
        match string_to_type_spec(raw, "boolean"@) {
            ConfigTypes::Boolean(b) => Some(YuiConfig { bracketed_paste: b, ..cfg }),
            _ => None,
        }
    } else {
        None
    }
}

/// Set one configuration key from its textual value. Returns whether the key
/// was known and the value readable; on failure the configuration is
/// unchanged. Nothing else of the session is touched.
pub fn convert_and_set_key(ctx: &mut Context, key: &str, raw: &str) -> (r: bool)
    ensures
        r == (set_key_spec(old(ctx).config, key@, raw@) is Some),
        final(ctx).config == (match set_key_spec(old(ctx).config, key@, raw@) {
            Some(c) => c,
            None => old(ctx).config,
        }),
        final(ctx).home == old(ctx).home,
        final(ctx).histfile == old(ctx).histfile,
        final(ctx).aliases == old(ctx).aliases,
        final(ctx).laststatus == old(ctx).laststatus,
{
    if str_eq(key, "hist_ign_space") {
        match string_to_type(raw, "boolean") {
            ConfigTypes::Boolean(b) => {
                ctx.config.hist_ign_space = b;
                true
            },
            _ => false,
        }
    } else if str_eq(key, "hist_ign_dups") {
        match string_to_type(raw, "boolean") {
            ConfigTypes::Boolean(b) => {
                ctx.config.hist_ign_dups = b;
                true
            },
            _ => false,
        }
    } else if str_eq(key, "hist_max_size") {
        match string_to_type(raw, "size") {
            ConfigTypes::Size(n) => {
                ctx.config.hist_max_size = n;
                true
            },
            _ => false,
        }
    } else if str_eq(key, "completion_type") {
        match string_to_type(raw, "complete") {
            ConfigTypes::Completion(v) => {
                ctx.config.completion_type = v;
                true
            },
            _ => false,
        }
    } else if str_eq(key, "completion_limit") {
        match string_to_type(raw, "size") {
            ConfigTypes::Size(n) => {
                ctx.config.completion_limit = n;
                true
            },
            _ => false,
        }
    } else if str_eq(key, "hinting_color") {
        match string_to_type(raw, "colorname") {
            ConfigTypes::ColorNames(v) => {
                ctx.config.hinting_color = v;
                true
            },
            _ => false,
        }
    } else if str_eq(key, "keyseq_timeout") {
        match string_to_type(raw, "int32") {
            ConfigTypes::Num(n) => {
                ctx.config.keyseq_timeout = n;
                true
            },
            _ => false,
        }
    } else if str_eq(key, "edit_mode") {
        match string_to_type(raw, "edit") {
            ConfigTypes::EditMode(v) => {
                ctx.config.edit_mode = v;
                true
            },
            _ => false,
        }
    } else if str_eq(key, "auto_add_history") {
        match string_to_type(raw, "boolean") {
            ConfigTypes::Boolean(b) => {
                ctx.config.auto_add_history = b;
                true
            },
            _ => false,
        }
    } else if str_eq(key, "bell_style") {
        match string_to_type(raw, "bell") {
            ConfigTypes::BellStyle(v) => {
                ctx.config.bell_style = v;
                true
            },
            _ => false,
        }
    } else if str_eq(key, "color_mode") {
        match string_to_type(raw, "color") {
            ConfigTypes::Color(v) => {
                ctx.config.color_mode = v;
                true
            },
            _ => false,
        }
    } else if str_eq(key, "tab_stop") {
        match string_to_type(raw, "size") {
            ConfigTypes::Size(n) => {
                ctx.config.tab_stop = n;
                true
            },
            _ => false,
        }
    } else if str_eq(key, "check_cur_pos") {
        match string_to_type(raw, "boolean") {
            ConfigTypes::Boolean(b) => {
                ctx.config.check_cur_pos = b;
                true
            },
            _ => false,
        }
    } else if str_eq(key, "indent_size") {
        match string_to_type(raw, "size") {
            ConfigTypes::Size(n) => {
                ctx.config.indent_size = n;
                true
            },
            _ => false,
        }
    } else if str_eq(key, "bracketed_paste") {
        match string_to_type(raw, "boolean") {
            ConfigTypes::Boolean(b) => {
                ctx.config.bracketed_paste = b;
                true
            },
            _ => false,
        }
    } else {
        false
    }
}


/// The first position of `c` in `s`, if any.
pub open spec fn find_char(s: Seq<char>, c: char) -> Option<int>
    decreases s.len(),
{
    if s.len() == 0 {
        None
    } else if s[0] == c {
        Some(0int)
    } else {
        match find_char(s.drop_first(), c) {
            Some(i) => Some(i + 1),
            None => None,
        }
    }
}

/// What a find means: the position holds `c` and nothing before it does.
proof fn lemma_find_char(s: Seq<char>, c: char)
    ensures
        match find_char(s, c) {
            Some(i) => 0 <= i < s.len() && s[i] == c && forall|j: int| 0 <= j < i ==> s[j] != c,
            None => forall|j: int| 0 <= j < s.len() ==> s[j] != c,
        },
    decreases s.len(),
{
    if s.len() > 0 && s[0] != c {
        lemma_find_char(s.drop_first(), c);
        match find_char(s.drop_first(), c) {
            Some(i) => {
                assert(s[i + 1] == s.drop_first()[i]);
                assert forall|j: int| 0 <= j < i + 1 implies s[j] != c by {
                    if j > 0 {
                        assert(s.drop_first()[j - 1] != c);
                    }
                }
            },
            None => {
                assert forall|j: int| 0 <= j < s.len() implies s[j] != c by {
                    if j > 0 {
                        assert(s.drop_first()[j - 1] != c);
                    }
                }
            },
        }
    }
}

/// Find the first position of `c` in `s`.
fn find_char_at(s: &Vec<char>, c: char) -> (r: Option<usize>)
    ensures
        r is Some <==> find_char(s@, c) is Some,
        r is Some ==> Some(r->0 as int) == find_char(s@, c),
{
    let n = s.len();
    let mut i: usize = 0;
    while i < n
        invariant
            0 <= i <= n,
            n == s@.len(),
            forall|j: int| 0 <= j < i ==> s@[j] != c,
        decreases n - i,
    {
        if s[i] == c {
            proof {
                lemma_find_char(s@, c);
            }
            return Some(i);
        }
        i = i + 1;
    }
    proof {
        lemma_find_char(s@, c);
    }
    None
}

/// A configuration `set` line split at its equals signs: the key is
/// everything before the first `=`, the raw value the segment between the
/// first and the second `=` (or the rest, with no second). A line without `=`
/// does not split.
pub open spec fn setblock_split(s: Seq<char>) -> Option<(Seq<char>, Seq<char>)> {
    match find_char(s, '=') {
        None => None,
        Some(i) => {
            let rest = s.skip(i + 1);
            let raw = match find_char(rest, '=') {
                None => rest,
                Some(j) => rest.take(j),
            };
            Some((s.take(i), raw))
        },
    }
}

/// The configuration a `set` block line leaves: `None` when the line does not
/// split, its key is unknown, or its value unreadable.
pub open spec fn setblock_spec(cfg: YuiConfig, line: Seq<char>) -> Option<YuiConfig> {
    match setblock_split(line) {
        None => None,
        Some(kv) => set_key_spec(cfg, kv.0, kv.1),
    }
}

/// Apply one `set` block line of a configuration file: split it at its equals
/// signs and set the key. Returns whether the line took effect; a line that
/// does not parse leaves the configuration unchanged. Nothing else of the
/// session is touched.
pub fn setblock_parse_and_exec(ctx: &mut Context, setline: &String) -> (r: bool)
    ensures
        r == (setblock_spec(old(ctx).config, setline@) is Some),
        final(ctx).config == (match setblock_spec(old(ctx).config, setline@) {
            Some(c) => c,
            None => old(ctx).config,
        }),
        final(ctx).home == old(ctx).home,
        final(ctx).histfile == old(ctx).histfile,
        final(ctx).aliases == old(ctx).aliases,
        final(ctx).laststatus == old(ctx).laststatus,
{
    let cs = str_chars(setline.as_str());
    let i = match find_char_at(&cs, '=') {
        Some(i) => i,
        None => {
            return false;
        },
    };
    proof {
        lemma_find_char(cs@, '=');
    }
    let key = chars_to_string(&subrange_chars(&cs, 0, i));
    let rest = subrange_chars(&cs, i + 1, cs.len());
    proof {
        assert(rest@ =~= cs@.skip(i + 1));
        lemma_find_char(rest@, '=');
    }
    let raw = match find_char_at(&rest, '=') {
        Some(j) => chars_to_string(&subrange_chars(&rest, 0, j)),
        None => chars_to_string(&rest),
    };
    proof {
        assert(key@ =~= cs@.take(i as int));
    }
    convert_and_set_key(ctx, key.as_str(), raw.as_str())
}

/// An alias value as a configuration file writes it: the assignment's value
/// with every leading and trailing single quote removed, then every leading
/// and trailing double quote.
pub open spec fn alias_value_spec(v: Seq<char>) -> Seq<char> {
    strip_trail(strip_lead(strip_trail(strip_lead(v, '\''), '\''), '"'), '"')
}

/// Apply one `alias` block line of a configuration file: an assignment
/// `NAME=VALUE` binds the alias, the value stripped of its surrounding
/// quotes. Returns whether the line parsed; one that does not changes
/// nothing. Nothing else of the session is touched.
pub fn aliasblock_parse_and_exec(ctx: &mut Context, aliasline: &String) -> (r: bool)
    requires
        old(ctx).wf(),
    ensures
        final(ctx).wf(),
        r == (parse_assignment_spec(aliasline@) is Some),
        final(ctx).alias_map() == (match parse_assignment_spec(aliasline@) {
            Some(kv) => old(ctx).alias_map().insert(kv.0, alias_value_spec(kv.1)),
            None => old(ctx).alias_map(),
        }),
        final(ctx).config == old(ctx).config,
        final(ctx).home == old(ctx).home,
        final(ctx).histfile == old(ctx).histfile,
        final(ctx).laststatus == old(ctx).laststatus,
{
    match parse_assignment(aliasline.as_str()) {
        Some(kv) => {
            let (name, value) = kv;
            let vc = str_chars(value.as_str());
            let stripped = strip_trail_chars(
                &strip_lead_chars(&strip_trail_chars(&strip_lead_chars(&vc, '\''), '\''), '"'),
                '"',
            );
            ctx.new_alias(name, chars_to_string(&stripped));
            true
        },
        None => false,
    }
}

/// What becomes of one configuration-file line.
#[derive(Clone, Copy, Debug, PartialEq, Eq, Structural)]
pub enum LineOutcome {
    /// A comment, a blank line, a block marker, or a block line that took
    /// effect: move to the next line.
    Skip,
    /// A line outside any block: tokenize and execute it.
    RunLine,
    /// A block line that does not parse: report it and stop the file.
    BadSyntax,
}

/// One step of the configuration-file reader: the configuration, alias map
/// and block flags after the line, and what to do next. In priority order: a
/// line starting with `#` is a comment; a blank line is skipped; the block
/// markers toggle their flags; inside an alias block the line binds an alias;
/// inside a set block it sets an option; anything else is a command to run.
pub open spec fn config_step_spec(
    cfg: YuiConfig,
    m: Map<Seq<char>, Seq<char>>,
    sb: bool,
    ab: bool,
    line: Seq<char>,
) -> (YuiConfig, Map<Seq<char>, Seq<char>>, bool, bool, LineOutcome) {
    let t = trim_spec(line);
    if line.len() > 0 && line[0] == '#' {
        (cfg, m, sb, ab, LineOutcome::Skip)
    } else if t.len() == 0 {
        (cfg, m, sb, ab, LineOutcome::Skip)
    } else if t == "set STARTBLOCK"@ {
        (cfg, m, true, ab, LineOutcome::Skip)
    } else if t == "set ENDBLOCK"@ {
        (cfg, m, false, ab, LineOutcome::Skip)
    } else if t == "alias STARTBLOCK"@ {
        (cfg, m, sb, true, LineOutcome::Skip)
    } else if t == "alias ENDBLOCK"@ {
        (cfg, m, sb, false, LineOutcome::Skip)
    } else if ab {
        match parse_assignment_spec(line) {
            Some(kv) => (cfg, m.insert(kv.0, alias_value_spec(kv.1)), sb, ab, LineOutcome::Skip),
            None => (cfg, m, sb, ab, LineOutcome::BadSyntax),
        }
    } else if sb {
        match setblock_spec(cfg, line) {
            Some(c2) => (c2, m, sb, ab, LineOutcome::Skip),
            None => (cfg, m, sb, ab, LineOutcome::BadSyntax),
        }
    } else {
        (cfg, m, sb, ab, LineOutcome::RunLine)
    }
}

/// Read one configuration-file line: toggle block state, apply block lines to
/// the session, and say what the caller does next.
pub fn config_line_step(
    ctx: &mut Context,
    in_setblock: &mut bool,
    in_aliasblock: &mut bool,
    line: &str,
) -> (r: LineOutcome)
    requires
        old(ctx).wf(),
    ensures
        final(ctx).wf(),
        (final(ctx).config, final(ctx).alias_map(), *final(in_setblock), *final(in_aliasblock), r)
            == config_step_spec(
            old(ctx).config,
            old(ctx).alias_map(),
            *old(in_setblock),
            *old(in_aliasblock),
            line@,
        ),
        final(ctx).home == old(ctx).home,
        final(ctx).histfile == old(ctx).histfile,
        final(ctx).laststatus == old(ctx).laststatus,
{
    let cs = str_chars(line);
    if cs.len() > 0 && cs[0] == '#' {
        return LineOutcome::Skip;
    }
    let t = trim_chars(&cs);
    if t.len() == 0 {
        return LineOutcome::Skip;
    }
    if chars_eq(&t, &str_chars("set STARTBLOCK")) {
        *in_setblock = true;
        return LineOutcome::Skip;
    }
    if chars_eq(&t, &str_chars("set ENDBLOCK")) {
        *in_setblock = false;
        return LineOutcome::Skip;
    }
    if chars_eq(&t, &str_chars("alias STARTBLOCK")) {
        *in_aliasblock = true;
        return LineOutcome::Skip;
    }
    if chars_eq(&t, &str_chars("alias ENDBLOCK")) {
        *in_aliasblock = false;
        return LineOutcome::Skip;
    }
    if *in_aliasblock {
        let owned = String::from_str(line);
        if aliasblock_parse_and_exec(ctx, &owned) {
            return LineOutcome::Skip;
        } else {
            return LineOutcome::BadSyntax;
        }
    }
    if *in_setblock {
        let owned = String::from_str(line);
        if setblock_parse_and_exec(ctx, &owned) {
            return LineOutcome::Skip;
        } else {
            return LineOutcome::BadSyntax;
        }
    }
    LineOutcome::RunLine
}

} // verus!
