//! The tokenizer: a character-level state machine that turns one raw input
//! line into an ordered token sequence, tagged with the line's shape (piped or
//! plain) and an operator flag; and the splitters that partition a token
//! sequence into command groups on the sentinel tokens `|`, `&&` and `;`.
//!
//! The machine reads the line left to right. While a quote is open, space,
//! pipe and operator characters lose their special meaning and are copied
//! into the token under construction; the matching closing quote clears the
//! marker without being copied, and an unmatched opening quote silently takes
//! the rest of the line (leniency, not an error). Outside quotes, runs of
//! spaces end the current token, an unquoted `|` emits a standalone pipe
//! token, `&&` and `;` emit standalone operator tokens (a lone `&` is
//! swallowed while a second one is awaited), and a `~` at the start of a
//! token expands to the home directory.

use vstd::prelude::*;

use crate::strutil::{
    chars_to_string, str_chars, trim_chars, trim_end_chars, trim_end_spec, trim_spec,
};
use vstd::slice::slice_index_get;

verus! {

/// The tokenizer's state: tokens emitted so far, the token under
/// construction, the open quote (if any), whether the previous character was
/// an unconsumed token-boundary space, whether a first `&` is pending, and
/// whether a pipe or an operator sentinel has been emitted.
pub struct TokSt {
    pub toks: Seq<Seq<char>>,
    pub cur: Seq<char>,
    pub quote: Option<char>,
    pub prev_space: bool,
    pub amp: bool,
    pub has_pipe: bool,
    pub has_op: bool,
}

/// The state at the start of a line: nothing emitted, no quote open, and a
/// token boundary (so that a leading `~` expands).
pub open spec fn tok_init() -> TokSt {
    TokSt {
        toks: Seq::empty(),
        cur: Seq::empty(),
        quote: None,
        prev_space: true,
        amp: false,
        has_pipe: false,
        has_op: false,
    }
}

/// End the token under construction: trim it and emit it unless it is empty.
pub open spec fn tok_flush(toks: Seq<Seq<char>>, cur: Seq<char>) -> Seq<Seq<char>> {
    if trim_spec(cur).len() > 0 {
        toks.push(trim_spec(cur))
    } else {
        toks
    }
}

/// One step of the tokenizer on character `c`. The branch order matters:
/// quotes first, then pipe, home expansion, spaces, `&`, `;`, and finally an
/// ordinary character. The token-boundary flag `prev_space` is set by a run
/// of unquoted spaces and cleared by everything else — opening or closing a
/// quote and copying a quoted character included — so a quoted span ends at
/// the next unquoted space like any other token.
pub open spec fn tok_step(st: TokSt, c: char, home: Seq<char>) -> TokSt {
    if (c == '"' || c == '\'') && st.quote is None {
        TokSt { quote: Some(c), prev_space: false, ..st }
    } else if (c == '"' || c == '\'') && st.quote == Some(c) {
        TokSt { quote: None, prev_space: false, ..st }
    } else if c == '|' && st.quote is None {
        // the pipe sentinel is emitted at once; the token under construction
        // is left as it is
        TokSt { toks: st.toks.push(seq!['|']), has_pipe: true, prev_space: false, ..st }
    } else if c == '~' && st.prev_space && st.quote is None {
        // home expansion, only at the start of a token
        TokSt { cur: st.cur + home, prev_space: false, ..st }
    } else if c == ' ' && st.quote is Some {
        TokSt { cur: st.cur.push(' '), prev_space: false, ..st }
    } else if c == ' ' {
        if st.prev_space {
            st
        } else {
            TokSt { toks: tok_flush(st.toks, st.cur), cur: Seq::empty(), prev_space: true, ..st }
        }
    } else if c == '&' && st.quote is None {
        if st.amp {
            TokSt {
                toks: tok_flush(st.toks, st.cur).push(seq!['&', '&']),
                cur: Seq::empty(),
                prev_space: false,
                amp: false,
                has_op: true,
                ..st
            }
        } else {
            // a lone & is swallowed while a second one is awaited
            TokSt { prev_space: false, amp: true, ..st }
        }
    } else if c == '&' {
        TokSt { cur: st.cur.push('&'), prev_space: false, amp: false, ..st }
    } else if c == ';' && st.quote is None {
        TokSt {
            toks: tok_flush(st.toks, st.cur).push(seq![';']),
            cur: Seq::empty(),
            prev_space: false,
            has_op: true,
            ..st
        }
    } else if c == ';' {
        TokSt { cur: st.cur.push(';'), prev_space: false, ..st }
    } else {
        TokSt { cur: st.cur.push(c), prev_space: false, ..st }
    }
}

/// Run the tokenizer over `s` from state `st`.
pub open spec fn tok_run(st: TokSt, s: Seq<char>, home: Seq<char>) -> TokSt
    decreases s.len(),
{
    if s.len() == 0 {
        st
    } else {
        tok_run(tok_step(st, s[0], home), s.drop_first(), home)
    }
}

/// The machine's state after the whole line (with trailing whitespace
/// removed) has been read.
pub open spec fn tok_final(line: Seq<char>, home: Seq<char>) -> TokSt {
    tok_run(tok_init(), trim_end_spec(line), home)
}

/// The tokens of a line: what the run emitted, then the trailing partial
/// token, trimmed and appended unconditionally (a whitespace-only line thus
/// yields a single empty token, which callers must filter).
pub open spec fn tok_tokens(line: Seq<char>, home: Seq<char>) -> Seq<Seq<char>> {
    let st = tok_final(line, home);
    st.toks.push(trim_spec(st.cur))
}

/// Whether the line contains an unquoted pipe.
pub open spec fn tok_piped(line: Seq<char>, home: Seq<char>) -> bool {
    tok_final(line, home).has_pipe
}

/// Whether the line contains an unquoted `&&` or `;`.
pub open spec fn tok_op(line: Seq<char>, home: Seq<char>) -> bool {
    tok_final(line, home).has_op
}

/// A tokenized line: *Piped* holds a token sequence containing at least one
/// pipe sentinel, *Norm* one with none. The boolean flags the presence of the
/// operator sentinels `&&`/`;` in either shape.
pub enum ArgTypes {
    Piped(Vec<String>, bool),
    Norm(Vec<String>, bool),
}

impl ArgTypes {
    /// The token sequence of either shape.
    pub open spec fn tokens(&self) -> Seq<Seq<char>> {
        match self {
            ArgTypes::Piped(v, _) => v.deep_view(),
            ArgTypes::Norm(v, _) => v.deep_view(),
        }
    }

    /// Whether the shape is *Piped*.
    pub open spec fn piped(&self) -> bool {
        match self {
            ArgTypes::Piped(_, _) => true,
            ArgTypes::Norm(_, _) => false,
        }
    }

    /// The operator flag of either shape.
    pub open spec fn op_flag(&self) -> bool {
        match self {
            ArgTypes::Piped(_, b) => *b,
            ArgTypes::Norm(_, b) => *b,
        }
    }
}

/// Push one token; the deep view grows by the token's characters.
pub(crate) fn push_token(toks: &mut Vec<String>, s: String)
    ensures
        final(toks).deep_view() == old(toks).deep_view().push(s@),
{
    let ghost sv = s@;
    toks.push(s);
    proof {
        assert(toks.deep_view() =~= old(toks).deep_view().push(sv));
    }
}

/// End the token under construction and emit it unless it trims to nothing.
fn flush_token(toks: &mut Vec<String>, cur: &Vec<char>)
    ensures
        final(toks).deep_view() == tok_flush(old(toks).deep_view(), cur@),
{
    let t = trim_chars(cur);
    if t.len() > 0 {
        push_token(toks, chars_to_string(&t));
    }
}

/// Tokenize one line. `home` is the resolved home directory, substituted for
/// an unquoted `~` at the start of a token. The result carries the tokens and
/// the line's shape: *Piped* exactly when an unquoted pipe occurred, with the
/// operator flag set exactly when an unquoted `&&` or `;` occurred.
pub fn split_to_args(line: String, home: &str) -> (res: ArgTypes)
    ensures
        res.tokens() == tok_tokens(line@, home@),
        res.piped() == tok_piped(line@, home@),
        res.op_flag() == tok_op(line@, home@),
{
    let raw = str_chars(line.as_str());
    let cs = trim_end_chars(&raw);
    let hc = str_chars(home);
    let mut toks: Vec<String> = Vec::new();
    let mut cur: Vec<char> = Vec::new();
    let mut quote: Option<char> = None;
    let mut prev_space: bool = true;
    let mut amp: bool = false;
    let mut has_pipe: bool = false;
    let mut has_op: bool = false;
    let n = cs.len();
    let mut i: usize = 0;
    proof {
        assert(toks.deep_view() =~= Seq::<Seq<char>>::empty());
        assert(cs@.skip(0) =~= cs@);
        assert((TokSt {
            toks: toks.deep_view(),
            cur: cur@,
            quote: quote,
            prev_space: prev_space,
            amp: amp,
            has_pipe: has_pipe,
            has_op: has_op,
        }) == tok_init());
    }
    while i < n
        invariant
            0 <= i <= n,
            n == cs@.len(),
            hc@ == home@,
            tok_run(
                (TokSt {
                    toks: toks.deep_view(),
                    cur: cur@,
                    quote: quote,
                    prev_space: prev_space,
                    amp: amp,
                    has_pipe: has_pipe,
                    has_op: has_op,
                }),
                cs@.skip(i as int),
                home@,
            ) == tok_run(tok_init(), cs@, home@),
        decreases n - i,
    {
        let ghost st_pre = TokSt {
            toks: toks.deep_view(),
            cur: cur@,
            quote: quote,
            prev_space: prev_space,
            amp: amp,
            has_pipe: has_pipe,
            has_op: has_op,
        };
        let c = cs[i];
        if (c == '"' || c == '\'') && quote.is_none() {
            quote = Some(c);
            prev_space = false;
        } else if (c == '"' || c == '\'') && (match quote { Some(q) => q == c, None => false }) {
            quote = None;
            prev_space = false;
        } else if c == '|' && quote.is_none() {
            push_token(&mut toks, String::from_str("|"));
            has_pipe = true;
            prev_space = false;
            proof {
                reveal_strlit("|");
                assert(("|")@ =~= seq!['|']);
                assert(toks.deep_view() =~= st_pre.toks.push(seq!['|']));
            }
        } else if c == '~' && prev_space && quote.is_none() {
            let mut j: usize = 0;
            while j < hc.len()
                invariant
                    0 <= j <= hc@.len(),
                    cur@ =~= st_pre.cur + hc@.take(j as int),
                decreases hc@.len() - j,
            {
                cur.push(hc[j]);
                j = j + 1;
            }
            prev_space = false;
            proof {
                assert(cur@ =~= st_pre.cur + home@);
            }
        } else if c == ' ' && quote.is_some() {
            cur.push(' ');
            prev_space = false;
        } else if c == ' ' {
            if !prev_space {
                flush_token(&mut toks, &cur);
                cur = Vec::new();
                prev_space = true;
            }
        } else if c == '&' && quote.is_none() {
            if amp {
                flush_token(&mut toks, &cur);
                push_token(&mut toks, String::from_str("&&"));
                cur = Vec::new();
                prev_space = false;
                amp = false;
                has_op = true;
                proof {
                    reveal_strlit("&&");
                    assert(("&&")@ =~= seq!['&', '&']);
                    assert(toks.deep_view() =~= tok_flush(st_pre.toks, st_pre.cur).push(
                        seq!['&', '&'],
                    ));
                }
            } else {
                prev_space = false;
                amp = true;
            }
        } else if c == '&' {
            cur.push('&');
            prev_space = false;
            amp = false;
        } else if c == ';' && quote.is_none() {
            flush_token(&mut toks, &cur);
            push_token(&mut toks, String::from_str(";"));
            cur = Vec::new();
            prev_space = false;
            has_op = true;
            proof {
                reveal_strlit(";");
                assert((";")@ =~= seq![';']);
                assert(toks.deep_view() =~= tok_flush(st_pre.toks, st_pre.cur).push(seq![';']));
            }
        } else if c == ';' {
            cur.push(';');
            prev_space = false;
        } else {
            cur.push(c);
            prev_space = false;
        }
        proof {
            let st_post = TokSt {
                toks: toks.deep_view(),
                cur: cur@,
                quote: quote,
                prev_space: prev_space,
                amp: amp,
                has_pipe: has_pipe,
                has_op: has_op,
            };
            assert(st_post == tok_step(st_pre, c, home@));
            assert(cs@.skip(i as int)[0] == cs@[i as int]);
            assert(cs@.skip(i as int).drop_first() =~= cs@.skip(i + 1));
            assert(tok_run(st_pre, cs@.skip(i as int), home@) == tok_run(
                st_post,
                cs@.skip(i + 1),
                home@,
            ));
        }
        i = i + 1;
    }
    let ghost st_end = TokSt {
        toks: toks.deep_view(),
        cur: cur@,
        quote: quote,
        prev_space: prev_space,
        amp: amp,
        has_pipe: has_pipe,
        has_op: has_op,
    };
    proof {
        assert(cs@.skip(n as int) =~= Seq::<char>::empty());
        assert(cs@ == trim_end_spec(line@));
        assert(st_end == tok_final(line@, home@));
    }
    flush_token_final(&mut toks, &cur);
    proof {
        assert(toks.deep_view() == tok_tokens(line@, home@));
    }
    if has_pipe && has_op {
        ArgTypes::Piped(toks, true)
    } else if has_op {
        ArgTypes::Norm(toks, true)
    } else if has_pipe {
        ArgTypes::Piped(toks, false)
    } else {
        ArgTypes::Norm(toks, false)
    }
}

/// Emit the trailing partial token, trimmed, even when it is empty.
fn flush_token_final(toks: &mut Vec<String>, cur: &Vec<char>)
    ensures
        final(toks).deep_view() == old(toks).deep_view().push(trim_spec(cur@)),
{
    push_token(toks, chars_to_string(&trim_chars(cur)));
}

/// The pipe sentinel token.
pub open spec fn is_pipe_sep(t: Seq<char>) -> bool {
    t == seq!['|']
}

/// The operator sentinel tokens.
pub open spec fn is_op_sep(t: Seq<char>) -> bool {
    t == seq!['&', '&'] || t == seq![';']
}

/// Which sentinel a split is on: the pipe, or the operators.
pub open spec fn is_sep(t: Seq<char>, on_pipe: bool) -> bool {
    if on_pipe {
        is_pipe_sep(t)
    } else {
        is_op_sep(t)
    }
}

/// Split a token sequence into groups on the chosen sentinel, accumulator
/// form: `cur` is the group under construction and `acc` the finished groups.
/// Every sentinel ends a group, so a sequence with `n` sentinels yields
/// `n + 1` groups, empty ones included.
pub open spec fn split_acc(
    ts: Seq<Seq<char>>,
    on_pipe: bool,
    cur: Seq<Seq<char>>,
    acc: Seq<Seq<Seq<char>>>,
) -> Seq<Seq<Seq<char>>>
    decreases ts.len(),
{
    if ts.len() == 0 {
        acc.push(cur)
    } else if is_sep(ts[0], on_pipe) {
        split_acc(ts.drop_first(), on_pipe, Seq::empty(), acc.push(cur))
    } else {
        split_acc(ts.drop_first(), on_pipe, cur.push(ts[0]), acc)
    }
}

/// The command groups of a token sequence, split on the chosen sentinel.
pub open spec fn split_spec(ts: Seq<Seq<char>>, on_pipe: bool) -> Seq<Seq<Seq<char>>> {
    split_acc(ts, on_pipe, Seq::empty(), Seq::empty())
}

/// Whether a token is the pipe sentinel.
pub fn is_pipe_token(s: &String) -> (r: bool)
    ensures
        r == is_pipe_sep(s@),
{
    let st = s.as_str();
    let r = st.unicode_len() == 1 && st.get_char(0) == '|';
    proof {
        if r {
            assert(s@ =~= seq!['|']);
        }
    }
    r
}

/// Whether a token is one of the operator sentinels.
pub fn is_op_token(s: &String) -> (r: bool)
    ensures
        r == is_op_sep(s@),
{
    let st = s.as_str();
    let n = st.unicode_len();
    let r = (n == 2 && st.get_char(0) == '&' && st.get_char(1) == '&') || (n == 1 && st.get_char(0)
        == ';');
    proof {
        if n == 2 && s@[0] == '&' && s@[1] == '&' {
            assert(s@ =~= seq!['&', '&']);
        }
        if n == 1 && s@[0] == ';' {
            assert(s@ =~= seq![';']);
        }
    }
    r
}

/// Push one finished group; the deep view grows by the group's tokens.
fn push_group(acc: &mut Vec<Vec<String>>, g: Vec<String>)
    ensures
        final(acc).deep_view() == old(acc).deep_view().push(g.deep_view()),
{
    let ghost gv = g.deep_view();
    acc.push(g);
    proof {
        assert(acc.deep_view() =~= old(acc).deep_view().push(gv));
    }
}

/// Split a token sequence into command groups on the chosen sentinel.
fn split_on(all: &[String], on_pipe: bool) -> (r: Vec<Vec<String>>)
    ensures
        r.deep_view() == split_spec(all.deep_view(), on_pipe),
{
    let mut acc: Vec<Vec<String>> = Vec::new();
    let mut cur: Vec<String> = Vec::new();
    let n = all.len();
    let mut i: usize = 0;
    proof {
        assert(acc.deep_view() =~= Seq::<Seq<Seq<char>>>::empty());
        assert(cur.deep_view() =~= Seq::<Seq<char>>::empty());
        assert(all.deep_view().skip(0) =~= all.deep_view());
    }
    while i < n
        invariant
            0 <= i <= n,
            n == all@.len(),
            all.deep_view().len() == n,
            forall|j: int| 0 <= j < n ==> all.deep_view()[j] == all@[j]@,
            split_acc(all.deep_view().skip(i as int), on_pipe, cur.deep_view(), acc.deep_view())
                == split_spec(all.deep_view(), on_pipe),
        decreases n - i,
    {
        let t = slice_index_get(all, i);
        let ghost pre_cur = cur.deep_view();
        let ghost pre_acc = acc.deep_view();
        let sep = if on_pipe {
            is_pipe_token(t)
        } else {
            is_op_token(t)
        };
        if sep {
            push_group(&mut acc, cur);
            cur = Vec::new();
            proof {
                assert(cur.deep_view() =~= Seq::<Seq<char>>::empty());
            }
        } else {
            push_token(&mut cur, t.clone());
        }
        proof {
            let dv = all.deep_view();
            assert(dv.skip(i as int)[0] == dv[i as int]);
            assert(dv.skip(i as int).drop_first() =~= dv.skip(i + 1));
            assert(split_acc(dv.skip(i as int), on_pipe, pre_cur, pre_acc) == split_acc(
                dv.skip(i + 1),
                on_pipe,
                cur.deep_view(),
                acc.deep_view(),
            ));
        }
        i = i + 1;
    }
    proof {
        assert(all.deep_view().skip(n as int) =~= Seq::<Seq<char>>::empty());
    }
    push_group(&mut acc, cur);
    acc
}

/// Split a token sequence into pipeline stages on the pipe sentinel.
pub fn split_pipes(all: &[String]) -> (r: Vec<Vec<String>>)
    ensures
        r.deep_view() == split_spec(all.deep_view(), true),
{
    split_on(all, true)
}

/// Split a token sequence into chained command groups on the operator
/// sentinels.
pub fn split_ops(all: &[String]) -> (r: Vec<Vec<String>>)
    ensures
        r.deep_view() == split_spec(all.deep_view(), false),
{
    split_on(all, false)
}

} // verus!
