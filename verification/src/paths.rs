//! Home-directory path helpers: expanding `~` to the home directory in the
//! places where it stands for it, condensing the home directory back to `~`,
//! the candidate locations of the user's configuration file, and prompt
//! rendering.
//!
//! Expansion rewrites the text in four passes, each replacing every
//! occurrence of one pattern, left to right and without overlap: a `~`
//! between spaces, a `~` after spaces and before a slash, a `~` before a
//! slash at the start of the text (after optional spaces), and a `~` after
//! spaces followed only by spaces up to the end. A `~` embedded in other text
//! is left alone.

use vstd::prelude::*;

use crate::strutil::{chars_to_string, clone_chars, str_chars};

verus! {

/// First pass: a `~` between spaces becomes the home directory. `avail` says
/// whether the text is preceded by a space that no earlier replacement
/// consumed. The spaces around a replaced `~` are kept, but the run of spaces
/// after it is consumed, so it cannot license the next replacement.
pub open spec fn expand_between_spaces(s: Seq<char>, home: Seq<char>, avail: bool) -> Seq<char>
    decreases s.len(), 0int,
{
    if s.len() == 0 {
        s
    } else if s[0] == '~' && avail && s.len() >= 2 && s[1] == ' ' {
        home + expand_between_tail(s.drop_first(), home)
    } else {
        seq![s[0]] + expand_between_spaces(s.drop_first(), home, s[0] == ' ')
    }
}

/// The consumed run of spaces after a replaced `~`: copied, but unavailable
/// as the space before a further `~`.
pub open spec fn expand_between_tail(s: Seq<char>, home: Seq<char>) -> Seq<char>
    decreases s.len(), 1int,
{
    if s.len() > 0 && s[0] == ' ' {
        seq![' '] + expand_between_tail(s.drop_first(), home)
    } else {
        expand_between_spaces(s, home, false)
    }
}

/// Second pass: a `~` after a space and before a `/` becomes the home
/// directory.
pub open spec fn expand_before_slash(s: Seq<char>, home: Seq<char>, avail: bool) -> Seq<char>
    decreases s.len(),
{
    if s.len() == 0 {
        s
    } else if s[0] == '~' && avail && s.len() >= 2 && s[1] == '/' {
        home + seq!['/'] + expand_before_slash(s.skip(2), home, false)
    } else {
        seq![s[0]] + expand_before_slash(s.drop_first(), home, s[0] == ' ')
    }
}

/// Third pass: a `~/` at the start of the text (after optional spaces)
/// has its `~` become the home directory.
pub open spec fn expand_at_start(s: Seq<char>, home: Seq<char>) -> Seq<char>
    decreases s.len(),
{
    if s.len() > 0 && s[0] == ' ' {
        seq![' '] + expand_at_start(s.drop_first(), home)
    } else if s.len() >= 2 && s[0] == '~' && s[1] == '/' {
        home + s.drop_first()
    } else {
        s
    }
}

/// Whether a text is spaces only.
pub open spec fn all_spaces(s: Seq<char>) -> bool
    decreases s.len(),
{
    s.len() == 0 || (s[0] == ' ' && all_spaces(s.drop_first()))
}

/// Fourth pass: a `~` after a space and followed only by spaces up to the
/// end becomes the home directory.
pub open spec fn expand_at_end(s: Seq<char>, home: Seq<char>, avail: bool) -> Seq<char>
    decreases s.len(),
{
    if s.len() == 0 {
        s
    } else if s[0] == '~' && avail && all_spaces(s.drop_first()) {
        home + s.drop_first()
    } else {
        seq![s[0]] + expand_at_end(s.drop_first(), home, s[0] == ' ')
    }
}

/// The four passes in order.
pub open spec fn expand_home_spec(text: Seq<char>, home: Seq<char>) -> Seq<char> {
    expand_at_end(
        expand_at_start(
            expand_before_slash(expand_between_spaces(text, home, false), home, false),
            home,
        ),
        home,
        false,
    )
}

/// Exec form of the first pass, on the suffix of `s` from `i`.
fn exec_between(s: &Vec<char>, i: usize, home: &Vec<char>, avail: bool) -> (r: Vec<char>)
    requires
        i <= s@.len(),
    ensures
        r@ == expand_between_spaces(s@.skip(i as int), home@, avail),
    decreases s@.len() - i, 0int,
{
    if i == s.len() {
        proof {
            assert(s@.skip(i as int) =~= Seq::<char>::empty());
        }
        Vec::new()
    } else {
        let c = s[i];
        proof {
            assert(s@.skip(i as int)[0] == s@[i as int]);
            assert(s@.skip(i as int).drop_first() =~= s@.skip(i + 1));
        }
        if c == '~' && avail && i + 1 < s.len() && s[i + 1] == ' ' {
            let mut r = clone_chars(home);
            let mut rest = exec_between_tail(s, i + 1, home);
            r.append(&mut rest);
            r
        } else {
            let rest = exec_between(s, i + 1, home, c == ' ');
            let mut r = rest;
            r.insert(0, c);
            proof {
                assert(r@ =~= seq![c] + expand_between_spaces(s@.skip(i + 1), home@, c == ' '));
            }
            r
        }
    }
}

/// Exec form of the consumed space run after a replacement.
fn exec_between_tail(s: &Vec<char>, i: usize, home: &Vec<char>) -> (r: Vec<char>)
    requires
        i <= s@.len(),
    ensures
        r@ == expand_between_tail(s@.skip(i as int), home@),
    decreases s@.len() - i, 1int,
{
    if i < s.len() && s[i] == ' ' {
        proof {
            assert(s@.skip(i as int)[0] == s@[i as int]);
            assert(s@.skip(i as int).drop_first() =~= s@.skip(i + 1));
        }
        let rest = exec_between_tail(s, i + 1, home);
        let mut r = rest;
        r.insert(0, ' ');
        proof {
            assert(r@ =~= seq![' '] + expand_between_tail(s@.skip(i + 1), home@));
        }
        r
    } else {
        proof {
            if i == s@.len() {
                assert(s@.skip(i as int) =~= Seq::<char>::empty());
            } else {
                assert(s@.skip(i as int)[0] == s@[i as int]);
            }
        }
        exec_between(s, i, home, false)
    }
}

/// Exec form of the second pass, on the suffix of `s` from `i`.
fn exec_before_slash(s: &Vec<char>, i: usize, home: &Vec<char>, avail: bool) -> (r: Vec<char>)
    requires
        i <= s@.len(),
    ensures
        r@ == expand_before_slash(s@.skip(i as int), home@, avail),
    decreases s@.len() - i,
{
    if i == s.len() {
        proof {
            assert(s@.skip(i as int) =~= Seq::<char>::empty());
        }
        Vec::new()
    } else {
        let c = s[i];
        proof {
            assert(s@.skip(i as int)[0] == s@[i as int]);
            assert(s@.skip(i as int).drop_first() =~= s@.skip(i + 1));
        }
        if c == '~' && avail && i + 1 < s.len() && s[i + 1] == '/' {
            proof {
                assert(s@.skip(i as int).skip(2) =~= s@.skip(i + 2));
            }
            let mut r = clone_chars(home);
            r.push('/');
            let mut rest = exec_before_slash(s, i + 2, home, false);
            r.append(&mut rest);
            proof {
                assert(r@ =~= home@ + seq!['/'] + expand_before_slash(
                    s@.skip(i + 2),
                    home@,
                    false,
                ));
            }
            r
        } else {
            let rest = exec_before_slash(s, i + 1, home, c == ' ');
            let mut r = rest;
            r.insert(0, c);
            proof {
                assert(r@ =~= seq![c] + expand_before_slash(s@.skip(i + 1), home@, c == ' '));
            }
            r
        }
    }
}

/// Exec form of the third pass, on the suffix of `s` from `i`.
fn exec_at_start(s: &Vec<char>, i: usize, home: &Vec<char>) -> (r: Vec<char>)
    requires
        i <= s@.len(),
    ensures
        r@ == expand_at_start(s@.skip(i as int), home@),
    decreases s@.len() - i,
{
    proof {
        if i < s@.len() {
            assert(s@.skip(i as int)[0] == s@[i as int]);
            assert(s@.skip(i as int).drop_first() =~= s@.skip(i + 1));
        } else {
            assert(s@.skip(i as int) =~= Seq::<char>::empty());
        }
    }
    if i < s.len() && s[i] == ' ' {
        let rest = exec_at_start(s, i + 1, home);
        let mut r = rest;
        r.insert(0, ' ');
        proof {
            assert(r@ =~= seq![' '] + expand_at_start(s@.skip(i + 1), home@));
        }
        r
    } else if i < s.len() && i + 1 < s.len() && s[i] == '~' && s[i + 1] == '/' {
        let mut r = clone_chars(home);
        let mut rest = suffix_chars(s, i + 1);
        r.append(&mut rest);
        proof {
            assert(r@ =~= home@ + s@.skip(i as int).drop_first());
        }
        r
    } else {
        let r = suffix_chars(s, i);
        r
    }
}

/// The characters of `s` from `i` on.
fn suffix_chars(s: &Vec<char>, i: usize) -> (r: Vec<char>)
    requires
        i <= s@.len(),
    ensures
        r@ == s@.skip(i as int),
{
    let mut r: Vec<char> = Vec::new();
    let mut j: usize = i;
    while j < s.len()
        invariant
            i <= j <= s@.len(),
            r@ =~= s@.subrange(i as int, j as int),
        decreases s@.len() - j,
    {
        r.push(s[j]);
        j = j + 1;
    }
    proof {
        assert(r@ =~= s@.skip(i as int));
    }
    r
}

/// Whether `s` holds only spaces from `i` on.
fn exec_all_spaces(s: &Vec<char>, i: usize) -> (r: bool)
    requires
        i <= s@.len(),
    ensures
        r == all_spaces(s@.skip(i as int)),
    decreases s@.len() - i,
{
    proof {
        if i < s@.len() {
            assert(s@.skip(i as int)[0] == s@[i as int]);
            assert(s@.skip(i as int).drop_first() =~= s@.skip(i + 1));
        } else {
            assert(s@.skip(i as int) =~= Seq::<char>::empty());
        }
    }
    if i == s.len() {
        true
    } else if s[i] == ' ' {
        exec_all_spaces(s, i + 1)
    } else {
        false
    }
}

/// Exec form of the fourth pass, on the suffix of `s` from `i`.
fn exec_at_end(s: &Vec<char>, i: usize, home: &Vec<char>, avail: bool) -> (r: Vec<char>)
    requires
        i <= s@.len(),
    ensures
        r@ == expand_at_end(s@.skip(i as int), home@, avail),
    decreases s@.len() - i,
{
    if i == s.len() {
        proof {
            assert(s@.skip(i as int) =~= Seq::<char>::empty());
        }
        Vec::new()
    } else {
        let c = s[i];
        proof {
            assert(s@.skip(i as int)[0] == s@[i as int]);
            assert(s@.skip(i as int).drop_first() =~= s@.skip(i + 1));
        }
        if c == '~' && avail && exec_all_spaces(s, i + 1) {
            let mut r = clone_chars(home);
            let mut rest = suffix_chars(s, i + 1);
            r.append(&mut rest);
            proof {
                assert(r@ =~= home@ + s@.skip(i as int).drop_first());
            }
            r
        } else {
            let rest = exec_at_end(s, i + 1, home, c == ' ');
            let mut r = rest;
            r.insert(0, c);
            proof {
                assert(r@ =~= seq![c] + expand_at_end(s@.skip(i + 1), home@, c == ' '));
            }
            r
        }
    }
}

/// Expand `~` to the home directory wherever it stands between spaces, after
/// a space and before a slash, at the (space-padded) start of the text before
/// a slash, or after a space at the (space-padded) end of the text. A `~`
/// embedded in other text is left alone.
pub fn expand_home(text: &str, home: &str) -> (r: String)
    ensures
        r@ == expand_home_spec(text@, home@),
{
    let cs = str_chars(text);
    let hc = str_chars(home);
    let p1 = exec_between(&cs, 0, &hc, false);
    proof {
        assert(cs@.skip(0) =~= cs@);
        assert(p1@.skip(0) =~= p1@);
    }
    let p2 = exec_before_slash(&p1, 0, &hc, false);
    proof {
        assert(p2@.skip(0) =~= p2@);
    }
    let p3 = exec_at_start(&p2, 0, &hc);
    proof {
        assert(p3@.skip(0) =~= p3@);
    }
    let p4 = exec_at_end(&p3, 0, &hc, false);
    chars_to_string(&p4)
}

/// Replace every occurrence of `pat` in `s`, left to right and without
/// overlap, by `to`. An empty pattern matches at every character boundary,
/// the end included.
pub open spec fn replace_all_spec(s: Seq<char>, pat: Seq<char>, to: Seq<char>) -> Seq<char>
    decreases s.len(),
{
    if pat.len() == 0 {
        if s.len() == 0 {
            to
        } else {
            to + seq![s[0]] + replace_all_spec(s.drop_first(), pat, to)
        }
    } else if s.len() >= pat.len() && s.take(pat.len() as int) == pat {
        to + replace_all_spec(s.skip(pat.len() as int), pat, to)
    } else if s.len() == 0 {
        s
    } else {
        seq![s[0]] + replace_all_spec(s.drop_first(), pat, to)
    }
}

/// Whether `pat` occurs in `s` at position `i`.
fn matches_at(s: &Vec<char>, i: usize, pat: &Vec<char>) -> (r: bool)
    requires
        i <= s@.len(),
    ensures
        r == (s@.len() - i >= pat@.len() && s@.skip(i as int).take(pat@.len() as int) == pat@),
{
    if s.len() - i < pat.len() {
        return false;
    }
    let n = s.len();
    let mut k: usize = 0;
    while k < pat.len()
        invariant
            0 <= k <= pat@.len(),
            n == s@.len(),
            i + pat@.len() <= n,
            forall|j: int| 0 <= j < k ==> s@[i + j] == pat@[j],
        decreases pat@.len() - k,
    {
        if s[i + k] != pat[k] {
            proof {
                assert(s@.skip(i as int).take(pat@.len() as int)[k as int] == s@[i + k]);
            }
            return false;
        }
        k = k + 1;
    }
    proof {
        assert(s@.skip(i as int).take(pat@.len() as int) =~= pat@);
    }
    true
}

/// Exec form of `replace_all_spec`, on the suffix of `s` from `i`.
fn exec_replace(s: &Vec<char>, i: usize, pat: &Vec<char>, to: &Vec<char>) -> (r: Vec<char>)
    requires
        i <= s@.len(),
    ensures
        r@ == replace_all_spec(s@.skip(i as int), pat@, to@),
    decreases s@.len() - i + 1,
{
    proof {
        if i < s@.len() {
            assert(s@.skip(i as int)[0] == s@[i as int]);
            assert(s@.skip(i as int).drop_first() =~= s@.skip(i + 1));
        } else {
            assert(s@.skip(i as int) =~= Seq::<char>::empty());
        }
    }
    if pat.len() == 0 {
        if i == s.len() {
            clone_chars(to)
        } else {
            let mut r = clone_chars(to);
            r.push(s[i]);
            let mut rest = exec_replace(s, i + 1, pat, to);
            r.append(&mut rest);
            proof {
                assert(r@ =~= to@ + seq![s@[i as int]] + replace_all_spec(
                    s@.skip(i + 1),
                    pat@,
                    to@,
                ));
            }
            r
        }
    } else if matches_at(s, i, pat) {
        let n = s.len();
        proof {
            assert(i + pat@.len() <= n);
            assert(s@.skip(i as int).skip(pat@.len() as int) =~= s@.skip(i + pat@.len()));
        }
        let mut r = clone_chars(to);
        let mut rest = exec_replace(s, i + pat.len(), pat, to);
        r.append(&mut rest);
        r
    } else if i == s.len() {
        Vec::new()
    } else {
        let rest = exec_replace(s, i + 1, pat, to);
        let mut r = rest;
        r.insert(0, s[i]);
        proof {
            assert(r@ =~= seq![s@[i as int]] + replace_all_spec(s@.skip(i + 1), pat@, to@));
        }
        r
    }
}

/// Substitute `~` for every occurrence of the home directory.
pub fn condense_home(text: &str, home: &str) -> (r: String)
    ensures
        r@ == replace_all_spec(text@, home@, seq!['~']),
{
    let cs = str_chars(text);
    let hc = str_chars(home);
    let mut tilde: Vec<char> = Vec::new();
    tilde.push('~');
    proof {
        assert(tilde@ =~= seq!['~']);
        assert(cs@.skip(0) =~= cs@);
    }
    let r = exec_replace(&cs, 0, &hc, &tilde);
    chars_to_string(&r)
}

/// Render a prompt template: every `{cwd}` placeholder becomes the given
/// working-directory text.
pub fn render_prompt(template: &str, cwd: &str) -> (r: String)
    ensures
        r@ == replace_all_spec(template@, seq!['{', 'c', 'w', 'd', '}'], cwd@),
{
    let ts = str_chars(template);
    let cw = str_chars(cwd);
    let mut pat: Vec<char> = Vec::new();
    pat.push('{');
    pat.push('c');
    pat.push('w');
    pat.push('d');
    pat.push('}');
    proof {
        assert(pat@ =~= seq!['{', 'c', 'w', 'd', '}']);
        assert(ts@.skip(0) =~= ts@);
    }
    let r = exec_replace(&ts, 0, &pat, &cw);
    chars_to_string(&r)
}

/// The three candidate configuration-file paths, in priority order: under
/// the home directory, under the XDG configuration directory, and under
/// `.config` in the home directory.
pub fn user_config_candidates(home: &str, xdg: &str) -> (r: Vec<String>)
    ensures
        r.deep_view() =~= seq![
            home@ + "/.yuirc"@,
            xdg@ + "/yui/yuirc"@,
            home@ + "/.config/yui/yuirc"@,
        ],
{
    let mut r: Vec<String> = Vec::new();
    r.push(String::from_str(home).concat("/.yuirc"));
    r.push(String::from_str(xdg).concat("/yui/yuirc"));
    r.push(String::from_str(home).concat("/.config/yui/yuirc"));
    r
}

} // verus!
