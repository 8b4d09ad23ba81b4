//! The process executor's decision logic. The executor realizes a tagged
//! token sequence as processes in one of four ways: a single command, a
//! pipeline split on the pipe sentinel, a chain split on the operator
//! sentinels and run in order with failure short-circuiting, or an outright
//! rejection of the ambiguous piped-and-chained combination. The decisions —
//! which shape a line takes, which groups run, which stage reads and writes a
//! captured pipe, and when a chain stops — are made here; the host program
//! spawns the processes and relays their output.

use vstd::prelude::*;

use crate::context::Context;
use crate::parser::{
    push_token, split_ops, split_pipes, split_spec, split_to_args, tok_piped, tok_tokens, ArgTypes,
};
use crate::strutil::{chars_eq, chars_to_string, is_ws_char, str_chars, trim_chars, trim_spec, words, words_acc};
use vstd::slice::slice_index_get;

verus! {

/// What the executor does with a tagged token sequence.
pub enum Action {
    /// Spawn one command group (after alias and builtin dispatch).
    RunSingle(Vec<String>),
    /// Run the groups as a pipeline, each stage's output relayed to the next.
    RunPiped(Vec<Vec<String>>),
    /// Run the groups in order, stopping at the first failure.
    RunChained(Vec<Vec<String>>),
    /// A line both piped and operator-chained: ambiguous precedence, nothing
    /// runs.
    RejectMixed,
}

/// Decide what to do with a tokenized line: a plain line runs as one command,
/// a piped line is split on the pipe sentinel, an operator-flagged plain line
/// is split on the operator sentinels, and a line both piped and
/// operator-flagged is rejected outright.
pub fn choose_action(raw: ArgTypes) -> (r: Action)
    ensures
        (r is RejectMixed) == (raw.piped() && raw.op_flag()),
        (!raw.piped() && !raw.op_flag()) ==> (r is RunSingle && r->RunSingle_0.deep_view()
            == raw.tokens()),
        (raw.piped() && !raw.op_flag()) ==> (r is RunPiped && r->RunPiped_0.deep_view()
            == split_spec(raw.tokens(), true)),
        (!raw.piped() && raw.op_flag()) ==> (r is RunChained && r->RunChained_0.deep_view()
            == split_spec(raw.tokens(), false)),
{
    match raw {
        ArgTypes::Norm(data, false) => Action::RunSingle(data),
        ArgTypes::Piped(data, false) => {
            let parts = split_pipes(data.as_slice());
            Action::RunPiped(parts)
        },
        ArgTypes::Norm(data, true) => {
            let parts = split_ops(data.as_slice());
            Action::RunChained(parts)
        },
        ArgTypes::Piped(_data, true) => Action::RejectMixed,
    }
}

/// Look the leading token of a command up in the alias table: `Some` holds
/// the tokens of the alias's replacement line, unless that line is itself
/// piped, which no alias may be. The session itself is left unchanged.
pub fn check_aliases(ctx: &mut Context, c: &String) -> (r: Option<Vec<String>>)
    requires
        old(ctx).wf(),
    ensures
        *final(ctx) == *old(ctx),
        (r is Some) == (old(ctx).alias_map().contains_key(c@) && !tok_piped(
            old(ctx).alias_map()[c@],
            old(ctx).home@,
        )),
        r is Some ==> r->0.deep_view() == tok_tokens(old(ctx).alias_map()[c@], old(ctx).home@),
{
    let looked = ctx.alias_lookup(c.as_str());
    match looked {
        Some(line) => {
            match split_to_args(line, ctx.home.as_str()) {
                ArgTypes::Norm(toks, _) => Some(toks),
                ArgTypes::Piped(_, _) => None,
            }
        },
        None => None,
    }
}

/// The command a group resolves to: in an interactive session, a leading
/// token bound as an alias is replaced by the alias's tokens; otherwise the
/// group is unchanged.
pub fn resolve_command(ctx: &mut Context, interactive: bool, raw: &[String]) -> (r: Vec<String>)
    requires
        old(ctx).wf(),
        raw@.len() > 0,
    ensures
        *final(ctx) == *old(ctx),
        (interactive && old(ctx).alias_map().contains_key(raw.deep_view()[0]) && !tok_piped(
            old(ctx).alias_map()[raw.deep_view()[0]],
            old(ctx).home@,
        )) ==> r.deep_view() == tok_tokens(
            old(ctx).alias_map()[raw.deep_view()[0]],
            old(ctx).home@,
        ) + raw.deep_view().skip(1),
        !(interactive && old(ctx).alias_map().contains_key(raw.deep_view()[0]) && !tok_piped(
            old(ctx).alias_map()[raw.deep_view()[0]],
            old(ctx).home@,
        )) ==> r.deep_view() == raw.deep_view(),
{
    let first = slice_index_get(raw, 0);
    proof {
        assert(first@ == raw.deep_view()[0]);
    }
    let expansion = if interactive {
        check_aliases(ctx, first)
    } else {
        None
    };
    match expansion {
        Some(d) => {
            let mut r = d;
            let mut i: usize = 1;
            while i < raw.len()
                invariant
                    1 <= i <= raw@.len(),
                    raw.deep_view().len() == raw@.len(),
                    r.deep_view() =~= tok_tokens(
                        old(ctx).alias_map()[raw.deep_view()[0]],
                        old(ctx).home@,
                    ) + raw.deep_view().subrange(1, i as int),
                decreases raw@.len() - i,
            {
                push_token(&mut r, slice_index_get(raw, i).clone());
                proof {
                    assert(raw.deep_view().subrange(1, i + 1) =~= raw.deep_view().subrange(
                        1,
                        i as int,
                    ).push(raw.deep_view()[i as int]));
                }
                i = i + 1;
            }
            proof {
                assert(raw.deep_view().subrange(1, raw@.len() as int) =~= raw.deep_view().skip(1));
            }
            r
        },
        None => {
            let mut r: Vec<String> = Vec::new();
            let mut i: usize = 0;
            proof {
                assert(r.deep_view() =~= Seq::<Seq<char>>::empty());
            }
            while i < raw.len()
                invariant
                    0 <= i <= raw@.len(),
                    raw.deep_view().len() == raw@.len(),
                    r.deep_view() =~= raw.deep_view().take(i as int),
                decreases raw@.len() - i,
            {
                push_token(&mut r, slice_index_get(raw, i).clone());
                i = i + 1;
            }
            proof {
                assert(raw.deep_view().take(raw@.len() as int) =~= raw.deep_view());
            }
            r
        },
    }
}

/// Where a chain run stands: the next group to consider, and whether a
/// failure has halted the chain.
pub struct ChainState {
    pub idx: usize,
    pub halted: bool,
}

/// A chain run at its first group, not halted.
pub fn chain_start() -> (r: ChainState)
    ensures
        r.idx == 0,
        !r.halted,
{
    ChainState { idx: 0, halted: false }
}

/// Whether the chain's current group runs: only while no earlier group has
/// failed and groups remain. After a failure nothing runs — the chain
/// short-circuits.
pub fn chain_should_run(st: &ChainState, len: usize) -> (r: bool)
    ensures
        r == (!st.halted && st.idx < len),
{
    !st.halted && st.idx < len
}

/// Record the current group's outcome and move on: a failed spawn or wait
/// halts the chain for good — once halted, a chain never resumes.
pub fn chain_record(st: &mut ChainState, ok: bool)
    requires
        old(st).idx < usize::MAX,
    ensures
        final(st).idx == old(st).idx + 1,
        final(st).halted == (old(st).halted || !ok),
{
    st.idx = st.idx + 1;
    if !ok {
        st.halted = true;
    }
}

/// Where a pipeline stage reads and writes: every stage but the first takes
/// its input from the relay buffer, and every stage but the last has its
/// output captured rather than inherited.
pub fn stage_io(idx: usize, len: usize) -> (r: (bool, bool))
    requires
        idx < len,
    ensures
        r.0 == (idx > 0),
        r.1 == (idx + 1 < len),
{
    (idx > 0, idx + 1 < len)
}

/// What the read loop does with one raw line.
#[derive(Clone, Copy, Debug, PartialEq, Eq, Structural)]
pub enum ReplAction {
    /// The line is `exit`: leave the session.
    Quit,
    /// Blank or a comment: read the next line.
    Skip,
    /// A `set` command: run it, then reload the line editor.
    SetThenReload,
    /// The line is `?`: show the last exit status.
    ShowStatus,
    /// Anything else: tokenize and execute.
    Run,
}

/// Classify one raw line, on its trimmed text: `exit` quits; an empty line or
/// one starting with `#` is skipped; `set` followed by whitespace runs and
/// then reloads the editor; `?` shows the last exit status; everything else
/// is executed.
pub open spec fn classify_line_spec(line: Seq<char>) -> ReplAction {
    let t = trim_spec(line);
    if t == "exit"@ {
        ReplAction::Quit
    } else if t.len() == 0 {
        ReplAction::Skip
    } else if t[0] == '#' {
        ReplAction::Skip
    } else if t.len() >= 4 && t.take(3) == "set"@ && crate::strutil::is_ws(t[3]) {
        ReplAction::SetThenReload
    } else if t == "?"@ {
        ReplAction::ShowStatus
    } else {
        ReplAction::Run
    }
}

/// Classify one raw line of the read loop.
pub fn classify_line(line: &str) -> (r: ReplAction)
    ensures
        r == classify_line_spec(line@),
{
    let cs = str_chars(line);
    let t = trim_chars(&cs);
    let ext = str_chars("exit");
    if chars_eq(&t, &ext) {
        return ReplAction::Quit;
    }
    if t.len() == 0 {
        return ReplAction::Skip;
    }
    if t[0] == '#' {
        return ReplAction::Skip;
    }
    if t.len() >= 4 && t[0] == 's' && t[1] == 'e' && t[2] == 't' && is_ws_char(t[3]) {
        proof {
            reveal_strlit("set");
            assert(trim_spec(line@).take(3) =~= "set"@);
        }
        return ReplAction::SetThenReload;
    }
    proof {
        if trim_spec(line@).len() >= 4 && trim_spec(line@).take(3) == "set"@ {
            reveal_strlit("set");
            assert(t@[0] == trim_spec(line@).take(3)[0]);
            assert(t@[1] == trim_spec(line@).take(3)[1]);
            assert(t@[2] == trim_spec(line@).take(3)[2]);
        }
    }
    let q = str_chars("?");
    if chars_eq(&t, &q) {
        return ReplAction::ShowStatus;
    }
    ReplAction::Run
}

/// Split an entry into whitespace-separated arguments, the leading one the
/// command name: the legacy entry path's parse step.
pub fn parse_entry(u: &str) -> (r: Vec<String>)
    ensures
        r.deep_view() == words(u@),
{
    let cs = str_chars(u);
    let mut toks: Vec<String> = Vec::new();
    let mut cur: Vec<char> = Vec::new();
    let n = cs.len();
    let mut i: usize = 0;
    proof {
        assert(toks.deep_view() =~= Seq::<Seq<char>>::empty());
        assert(cs@.skip(0) =~= cs@);
    }
    while i < n
        invariant
            0 <= i <= n,
            n == cs@.len(),
            words(cs@) == words_acc(cs@.skip(i as int), cur@, toks.deep_view()),
        decreases n - i,
    {
        let ghost pre_cur = cur@;
        let ghost pre_toks = toks.deep_view();
        proof {
            assert(cs@.skip(i as int)[0] == cs@[i as int]);
            assert(cs@.skip(i as int).drop_first() =~= cs@.skip(i + 1));
        }
        let c = cs[i];
        if is_ws_char(c) {
            if cur.len() > 0 {
                push_token(&mut toks, chars_to_string(&cur));
                cur = Vec::new();
            } else {
                proof {
                    assert(pre_cur =~= Seq::<char>::empty());
                }
            }
            proof {
                assert(words_acc(cs@.skip(i as int), pre_cur, pre_toks) == words_acc(
                    cs@.skip(i + 1),
                    Seq::empty(),
                    if pre_cur.len() > 0 {
                        pre_toks.push(pre_cur)
                    } else {
                        pre_toks
                    },
                ));
            }
        } else {
            cur.push(c);
        }
        i = i + 1;
    }
    proof {
        assert(cs@.skip(n as int) =~= Seq::<char>::empty());
    }
    if cur.len() > 0 {
        push_token(&mut toks, chars_to_string(&cur));
    }
    toks
}

} // verus!
