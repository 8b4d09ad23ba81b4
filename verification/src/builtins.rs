//! The builtin commands' decision logic: recognising a builtin name, the
//! `NAME=VALUE` assignment grammar shared by `export`, `set` and `alias`, the
//! line `echo` prints, the directory `cd` changes to, and applying `alias`
//! assignments to the session. The host program performs the I/O these
//! decisions call for.

use vstd::prelude::*;

use crate::context::Context;
use crate::strutil::{chars_to_string, str_chars, trim_chars, trim_spec};
use vstd::slice::slice_index_get;

verus! {

/// The builtin commands.
#[derive(Clone, Copy, Debug, PartialEq, Eq, Structural)]
pub enum BuiltinKind {
    Cd,
    Echo,
    Export,
    SetOption,
    Alias,
    History,
    Version,
    ListBuiltins,
}

/// The builtin a command name denotes, if any.
pub open spec fn builtin_of_spec(name: Seq<char>) -> Option<BuiltinKind> {
    if name == "cd"@ {
        Some(BuiltinKind::Cd)
    } else if name == "echo"@ {
        Some(BuiltinKind::Echo)
    } else if name == "export"@ {
        Some(BuiltinKind::Export)
    } else if name == "set"@ {
        Some(BuiltinKind::SetOption)
    } else if name == "alias"@ {
        Some(BuiltinKind::Alias)
    } else if name == "history"@ {
        Some(BuiltinKind::History)
    } else if name == "version"@ {
        Some(BuiltinKind::Version)
    } else if name == "builtins"@ {
        Some(BuiltinKind::ListBuiltins)
    } else {
        None
    }
}

/// Recognise a builtin command name; the executor dispatches there instead of
/// spawning a process.
pub fn builtin_of(name: &str) -> (r: Option<BuiltinKind>)
    ensures
        r == builtin_of_spec(name@),
{
    if crate::strutil::str_eq(name, "cd") {
        Some(BuiltinKind::Cd)
    } else if crate::strutil::str_eq(name, "echo") {
        Some(BuiltinKind::Echo)
    } else if crate::strutil::str_eq(name, "export") {
        Some(BuiltinKind::Export)
    } else if crate::strutil::str_eq(name, "set") {
        Some(BuiltinKind::SetOption)
    } else if crate::strutil::str_eq(name, "alias") {
        Some(BuiltinKind::Alias)
    } else if crate::strutil::str_eq(name, "history") {
        Some(BuiltinKind::History)
    } else if crate::strutil::str_eq(name, "version") {
        Some(BuiltinKind::Version)
    } else if crate::strutil::str_eq(name, "builtins") {
        Some(BuiltinKind::ListBuiltins)
    } else {
        None
    }
}

/// A word character of an assignment name: an ASCII letter, digit or
/// underscore.
pub open spec fn is_word_char(c: char) -> bool {
    (('a' as u32) <= (c as u32) && (c as u32) <= ('z' as u32)) || (('A' as u32) <= (c as u32) && (c
        as u32) <= ('Z' as u32)) || (('0' as u32) <= (c as u32) && (c as u32) <= ('9' as u32)) || c
        == '_'
}

/// The length of the leading run of word characters.
pub open spec fn word_prefix_len(s: Seq<char>) -> int
    decreases s.len(),
{
    if s.len() > 0 && is_word_char(s[0]) {
        1 + word_prefix_len(s.drop_first())
    } else {
        0
    }
}

/// An assignment `NAME=VALUE`: a nonempty name of word characters, an equals
/// sign, and the rest (which may itself contain equals signs) as the value.
pub open spec fn parse_assignment_spec(s: Seq<char>) -> Option<(Seq<char>, Seq<char>)> {
    let k = word_prefix_len(s);
    if 1 <= k < s.len() && s[k] == '=' {
        Some((s.take(k), s.skip(k + 1)))
    } else {
        None
    }
}

/// The leading word-character run ends at the first non-word character.
proof fn lemma_word_prefix(s: Seq<char>, k: int)
    requires
        0 <= k <= s.len(),
        forall|j: int| 0 <= j < k ==> is_word_char(s[j]),
        k < s.len() ==> !is_word_char(s[k]),
    ensures
        word_prefix_len(s) == k,
    decreases k,
{
    if k > 0 {
        lemma_word_prefix(s.drop_first(), k - 1);
    }
}

/// Exec check for a word character.
fn is_word_char_exec(c: char) -> (r: bool)
    ensures
        r == is_word_char(c),
{
    let u = c as u32;
    (u >= 97 && u <= 122) || (u >= 65 && u <= 90) || (u >= 48 && u <= 57) || c == '_'
}

/// Parse an assignment `NAME=VALUE`: the name and the value, or `None` where
/// the text is not of that form.
pub fn parse_assignment(s: &str) -> (r: Option<(String, String)>)
    ensures
        r is Some <==> parse_assignment_spec(s@) is Some,
        r is Some ==> ((r->0).0@, (r->0).1@) == parse_assignment_spec(s@)->0,
{
    let cs = str_chars(s);
    let n = cs.len();
    let mut k: usize = 0;
    while k < n && is_word_char_exec(cs[k])
        invariant
            0 <= k <= n,
            n == cs@.len(),
            forall|j: int| 0 <= j < k ==> is_word_char(cs@[j]),
        decreases n - k,
    {
        k = k + 1;
    }
    proof {
        lemma_word_prefix(cs@, k as int);
    }
    if k == 0 || k == n {
        return None;
    }
    if cs[k] != '=' {
        return None;
    }
    let mut name: Vec<char> = Vec::new();
    let mut i: usize = 0;
    while i < k
        invariant
            0 <= i <= k <= cs@.len(),
            name@ =~= cs@.take(k as int).take(i as int),
        decreases k - i,
    {
        proof {
            assert(cs@.take(k as int)[i as int] == cs@[i as int]);
        }
        name.push(cs[i]);
        i = i + 1;
    }
    let mut value: Vec<char> = Vec::new();
    let mut j: usize = k + 1;
    while j < n
        invariant
            k + 1 <= j <= n,
            n == cs@.len(),
            value@ =~= cs@.skip(k + 1).take(j - (k + 1)),
        decreases n - j,
    {
        value.push(cs[j]);
        j = j + 1;
    }
    proof {
        assert(name@ =~= cs@.take(k as int));
        assert(value@ =~= cs@.skip(k + 1));
    }
    Some((chars_to_string(&name), chars_to_string(&value)))
}

/// The words of an `echo`, joined by single spaces, with a trailing space
/// after each word and the whole trimmed.
pub open spec fn echo_join(ts: Seq<Seq<char>>) -> Seq<char>
    decreases ts.len(),
{
    if ts.len() == 0 {
        Seq::empty()
    } else {
        ts[0] + seq![' '] + echo_join(ts.drop_first())
    }
}

/// The line `echo` prints for its arguments.
pub open spec fn echo_spec(ts: Seq<Seq<char>>) -> Seq<char> {
    trim_spec(echo_join(ts))
}

/// The line `echo` prints: its arguments joined by single spaces, the whole
/// trimmed of surrounding whitespace.
pub fn echo_line(args: &[String]) -> (r: String)
    ensures
        r@ == echo_spec(args.deep_view()),
{
    let mut out: Vec<char> = Vec::new();
    let n = args.len();
    let mut i: usize = 0;
    proof {
        assert(args.deep_view().skip(0) =~= args.deep_view());
    }
    while i < n
        invariant
            0 <= i <= n,
            n == args@.len(),
            args.deep_view().len() == n,
            echo_join(args.deep_view()) == out@ + echo_join(args.deep_view().skip(i as int)),
        decreases n - i,
    {
        let ghost dv = args.deep_view();
        let w = str_chars(slice_index_get(args, i).as_str());
        let mut j: usize = 0;
        let ghost pre = out@;
        while j < w.len()
            invariant
                0 <= j <= w@.len(),
                out@ =~= pre + w@.take(j as int),
            decreases w@.len() - j,
        {
            out.push(w[j]);
            j = j + 1;
        }
        out.push(' ');
        proof {
            assert(w@ == dv[i as int]);
            assert(out@ =~= pre + dv[i as int] + seq![' ']);
            assert(dv.skip(i as int)[0] == dv[i as int]);
            assert(dv.skip(i as int).drop_first() =~= dv.skip(i + 1));
            assert(echo_join(dv.skip(i as int)) == dv[i as int] + seq![' '] + echo_join(
                dv.skip(i + 1),
            ));
            assert(pre + (dv[i as int] + seq![' '] + echo_join(dv.skip(i + 1))) =~= (pre + dv[
                i as int
            ] + seq![' ']) + echo_join(dv.skip(i + 1)));
        }
        i = i + 1;
    }
    proof {
        assert(args.deep_view().skip(n as int) =~= Seq::<Seq<char>>::empty());
        assert(echo_join(args.deep_view()) == out@);
    }
    let t = trim_chars(&out);
    chars_to_string(&t)
}

/// The directory `cd` changes to: the home directory when no argument is
/// given, the one argument otherwise; more than one argument is an error and
/// changes nothing.
pub fn cd_target(args: &[String], home: &str) -> (r: Option<String>)
    ensures
        args@.len() == 0 ==> (r is Some && r->0@ == home@),
        args@.len() == 1 ==> (r is Some && r->0@ == args@[0]@),
        args@.len() > 1 ==> r is None,
{
    if args.len() == 0 {
        Some(String::from_str(home))
    } else if args.len() > 1 {
        None
    } else {
        Some(slice_index_get(args, 0).clone())
    }
}

/// The alias table after applying `alias` arguments in order: each argument
/// that parses as `NAME=VALUE` binds the name; the first that does not stops
/// the run there, the flag turning false.
pub open spec fn alias_fold(m: Map<Seq<char>, Seq<char>>, args: Seq<Seq<char>>) -> (
    Map<Seq<char>, Seq<char>>,
    bool,
)
    decreases args.len(),
{
    if args.len() == 0 {
        (m, true)
    } else {
        match parse_assignment_spec(args[0]) {
            Some(kv) => alias_fold(m.insert(kv.0, kv.1), args.drop_first()),
            None => (m, false),
        }
    }
}

/// Apply `alias` arguments to the session: each `NAME=VALUE` argument binds
/// the alias, in order, until the first argument that is no assignment, which
/// stops the run and reports failure. Nothing else of the session is touched.
pub fn alias_apply(ctx: &mut Context, args: &[String]) -> (ok: bool)
    requires
        old(ctx).wf(),
    ensures
        final(ctx).wf(),
        final(ctx).alias_map() == alias_fold(old(ctx).alias_map(), args.deep_view()).0,
        ok == alias_fold(old(ctx).alias_map(), args.deep_view()).1,
        final(ctx).config == old(ctx).config,
        final(ctx).home == old(ctx).home,
        final(ctx).histfile == old(ctx).histfile,
        final(ctx).laststatus == old(ctx).laststatus,
{
    let n = args.len();
    let mut i: usize = 0;
    proof {
        assert(args.deep_view().skip(0) =~= args.deep_view());
    }
    while i < n
        invariant
            0 <= i <= n,
            n == args@.len(),
            args.deep_view().len() == n,
            ctx.wf(),
            alias_fold(old(ctx).alias_map(), args.deep_view()) == alias_fold(
                ctx.alias_map(),
                args.deep_view().skip(i as int),
            ),
            ctx.config == old(ctx).config,
            ctx.home == old(ctx).home,
            ctx.histfile == old(ctx).histfile,
            ctx.laststatus == old(ctx).laststatus,
        decreases n - i,
    {
        let ghost dv = args.deep_view();
        proof {
            assert(dv.skip(i as int)[0] == dv[i as int]);
            assert(dv.skip(i as int).drop_first() =~= dv.skip(i + 1));
        }
        let a = slice_index_get(args, i);
        proof {
            assert(a@ == dv[i as int]);
        }
        match parse_assignment(a.as_str()) {
            Some(kv) => {
                let (name, value) = kv;
                ctx.new_alias(name, value);
            },
            None => {
                return false;
            },
        }
        i = i + 1;
    }
    proof {
        assert(args.deep_view().skip(n as int) =~= Seq::<Seq<char>>::empty());
    }
    true
}

} // verus!
