//! Laws of the tokenizer and the splitters, stated over the whole input
//! space and proved from the specifications alone: whitespace collapsing on
//! plain lines, and the round trip from a command group's tokens through
//! re-quoting, joining and tokenizing back to the same group.

use vstd::prelude::*;

use crate::parser::{
    is_sep, split_acc, split_spec, tok_init, tok_op, tok_piped, tok_run, tok_step, tok_tokens,
    TokSt,
};
use crate::strutil::{
    is_ws, lemma_trim_end_last, lemma_trim_end_noop, lemma_trim_id, trim_end_spec, trim_spec,
    words, words_acc,
};

verus! {

/// A character with no special meaning to the tokenizer: a space, or an
/// ordinary character (no quote, pipe, operator, home marker, and no other
/// whitespace).
pub open spec fn plain_char(c: char) -> bool {
    c == ' ' || (!is_ws(c) && c != '"' && c != '\'' && c != '|' && c != '&' && c != ';' && c != '~')
}

/// A line of plain characters only.
pub open spec fn plain_line(s: Seq<char>) -> bool {
    forall|i: int| 0 <= i < s.len() ==> plain_char(s[i])
}

/// Appending a space to the input adds no word.
proof fn lemma_words_snoc_space(s: Seq<char>, cur: Seq<char>, acc: Seq<Seq<char>>)
    ensures
        words_acc(s.push(' '), cur, acc) == words_acc(s, cur, acc),
    decreases s.len(),
{
    if s.len() == 0 {
        assert(s.push(' ').len() == 1);
        assert(s.push(' ')[0] == ' ');
        assert(s.push(' ').drop_first() =~= Seq::<char>::empty());
        assert(words_acc(s.push(' '), cur, acc) == words_acc(
            Seq::<char>::empty(),
            Seq::<char>::empty(),
            if cur.len() > 0 {
                acc.push(cur)
            } else {
                acc
            },
        ));
    } else {
        assert(s.push(' ')[0] == s[0]);
        assert(s.push(' ').drop_first() =~= s.drop_first().push(' '));
        if is_ws(s[0]) {
            lemma_words_snoc_space(s.drop_first(), Seq::empty(), if cur.len() > 0 {
                acc.push(cur)
            } else {
                acc
            });
        } else {
            lemma_words_snoc_space(s.drop_first(), cur.push(s[0]), acc);
        }
    }
}

/// Trimming trailing whitespace from a plain line changes no words and keeps
/// it plain.
proof fn lemma_plain_trim_end(line: Seq<char>)
    requires
        plain_line(line),
    ensures
        plain_line(trim_end_spec(line)),
        words(trim_end_spec(line)) == words(line),
    decreases line.len(),
{
    if line.len() > 0 && is_ws(line.last()) {
        assert(plain_char(line.last()));
        assert(line.last() == ' ');
        assert(plain_line(line.drop_last()));
        lemma_plain_trim_end(line.drop_last());
        assert(line =~= line.drop_last().push(' '));
        lemma_words_snoc_space(line.drop_last(), Seq::empty(), Seq::empty());
    }
}

/// Running the tokenizer over plain characters mirrors word splitting: no
/// quote opens, no flag is set, and the emitted tokens with the pending token
/// are exactly the words so far.
proof fn lemma_plain_run(s: Seq<char>, st: TokSt, home: Seq<char>)
    requires
        plain_line(s),
        st.quote is None,
        forall|i: int| 0 <= i < st.cur.len() ==> !is_ws(st.cur[i]),
        st.prev_space ==> st.cur.len() == 0,
    ensures
        tok_run(st, s, home).quote is None,
        tok_run(st, s, home).has_pipe == st.has_pipe,
        tok_run(st, s, home).has_op == st.has_op,
        forall|i: int|
            0 <= i < tok_run(st, s, home).cur.len() ==> !is_ws(tok_run(st, s, home).cur[i]),
        tok_run(st, s, home).prev_space ==> tok_run(st, s, home).cur.len() == 0,
        tok_run(st, s, home).cur.len() > 0 ==> tok_run(st, s, home).toks.push(
            tok_run(st, s, home).cur,
        ) == words_acc(s, st.cur, st.toks),
        tok_run(st, s, home).cur.len() == 0 ==> tok_run(st, s, home).toks == words_acc(
            s,
            st.cur,
            st.toks,
        ),
        s.len() > 0 && s.last() != ' ' ==> tok_run(st, s, home).cur.len() > 0,
    decreases s.len(),
{
    if s.len() > 0 {
        let c = s[0];
        assert(plain_char(c));
        let st1 = tok_step(st, c, home);
        assert(plain_line(s.drop_first()));
        if c == ' ' {
            if st.prev_space {
                assert(st1 == st);
                assert(st.cur =~= Seq::<char>::empty());
            } else {
                if st.cur.len() > 0 {
                    lemma_trim_id(st.cur);
                } else {
                    assert(trim_spec(st.cur) == st.cur);
                }
                assert(st1.toks == (if st.cur.len() > 0 {
                    st.toks.push(st.cur)
                } else {
                    st.toks
                }));
            }
        } else {
            assert(st1.cur == st.cur.push(c));
            assert(!is_ws(c));
        }
        lemma_plain_run(s.drop_first(), st1, home);
        if s.len() == 1 {
            assert(s.last() == c);
        } else {
            assert(s.last() == s.drop_first().last());
        }
    }
}

/// Tokenizing a line of plain characters — spaces and ordinary characters,
/// with no quotes, pipes, operators or home markers — collapses every run of
/// whitespace to a single boundary and trims the ends: the tokens are exactly
/// the line's space-separated words, one empty token when the line has none,
/// and the line is tagged plain with the operator flag clear.
pub proof fn lemma_plain_line_tokens(line: Seq<char>, home: Seq<char>)
    requires
        plain_line(line),
    ensures
        !tok_piped(line, home),
        !tok_op(line, home),
        words(line).len() > 0 ==> tok_tokens(line, home) == words(line),
        words(line).len() == 0 ==> tok_tokens(line, home) == seq![Seq::<char>::empty()],
{
    let t = trim_end_spec(line);
    lemma_plain_trim_end(line);
    lemma_trim_end_last(line);
    lemma_plain_run(t, tok_init(), home);
    let st2 = tok_run(tok_init(), t, home);
    if st2.cur.len() > 0 {
        lemma_trim_id(st2.cur);
        assert(tok_tokens(line, home) == words_acc(t, Seq::empty(), Seq::empty()));
        assert(words(line).len() > 0) by {
            assert(words(line) == st2.toks.push(st2.cur));
        }
    } else {
        if t.len() > 0 {
            assert(!is_ws(t.last()));
            assert(t.last() != ' ');
            assert(false);
        }
        assert(t =~= Seq::<char>::empty());
        assert(st2 == tok_init());
        assert(trim_spec(st2.cur) =~= Seq::<char>::empty());
        assert(tok_tokens(line, home) =~= seq![Seq::<char>::empty()]);
        assert(words(line) == words_acc(t, Seq::empty(), Seq::empty()));
    }
}

/// A token the round trip can write back: nonempty and whitespace-free at
/// both ends. A token holding a space is written back quoted and may hold
/// anything but the quote character itself; a space-free token is written
/// bare and must be free of every character the tokenizer treats specially
/// (quotes, the pipe, the operator characters and the home marker).
pub open spec fn good_token(t: Seq<char>) -> bool {
    t.len() > 0 && !is_ws(t[0]) && !is_ws(t.last()) && if contains_space(t) {
        forall|i: int| 0 <= i < t.len() ==> t[i] != '\''
    } else {
        forall|i: int|
            0 <= i < t.len() ==> (t[i] != '"' && t[i] != '\'' && t[i] != '|' && t[i] != '&' && t[i]
                != ';' && t[i] != '~')
    }
}

/// Whether a token needs re-quoting to survive tokenization: it contains a
/// space.
pub open spec fn contains_space(t: Seq<char>) -> bool {
    exists|i: int| 0 <= i < t.len() && t[i] == ' '
}

/// A token written back into a line: wrapped in single quotes when it
/// contains a space, bare otherwise.
pub open spec fn requote(t: Seq<char>) -> Seq<char> {
    if contains_space(t) {
        seq!['\''] + t + seq!['\'']
    } else {
        t
    }
}

/// A command group written back into a line: its tokens re-quoted and joined
/// by single spaces.
pub open spec fn join_tokens(ts: Seq<Seq<char>>) -> Seq<char>
    decreases ts.len(),
{
    if ts.len() == 0 {
        Seq::empty()
    } else if ts.len() == 1 {
        requote(ts[0])
    } else {
        requote(ts[0]) + seq![' '] + join_tokens(ts.drop_first())
    }
}

/// Running the tokenizer over a concatenation runs it over the parts in
/// order.
proof fn lemma_tok_run_concat(st: TokSt, a: Seq<char>, b: Seq<char>, home: Seq<char>)
    ensures
        tok_run(st, a + b, home) == tok_run(tok_run(st, a, home), b, home),
    decreases a.len(),
{
    if a.len() == 0 {
        assert(a + b =~= b);
    } else {
        assert((a + b)[0] == a[0]);
        assert((a + b).drop_first() =~= a.drop_first() + b);
        lemma_tok_run_concat(tok_step(st, a[0], home), a.drop_first(), b, home);
    }
}

/// Ordinary characters (no specials, no spaces) outside quotes accumulate
/// onto the pending token, and nothing else moves.
proof fn lemma_run_regular(st: TokSt, w: Seq<char>, home: Seq<char>)
    requires
        st.quote is None,
        forall|i: int|
            0 <= i < w.len() ==> (w[i] != '"' && w[i] != '\'' && w[i] != '|' && w[i] != '&' && w[i]
                != ';' && w[i] != '~' && w[i] != ' '),
    ensures
        tok_run(st, w, home) == (TokSt {
            cur: st.cur + w,
            prev_space: if w.len() > 0 {
                false
            } else {
                st.prev_space
            },
            ..st
        }),
    decreases w.len(),
{
    if w.len() == 0 {
        assert(st.cur + w =~= st.cur);
        assert(tok_run(st, w, home) == st);
    } else {
        let st1 = tok_step(st, w[0], home);
        assert(st1.cur == st.cur.push(w[0]));
        lemma_run_regular(st1, w.drop_first(), home);
        assert(st.cur.push(w[0]) + w.drop_first() =~= st.cur + w);
    }
}

/// From a token boundary, one re-quoted token lands whole in the pending
/// token: quotes leave no trace, nothing is emitted and no shape flag moves.
/// (The pending-`&` flag is left unstated: a quoted `&` clears it, and the
/// join never lets it matter.)
proof fn lemma_run_token(st: TokSt, t: Seq<char>, home: Seq<char>)
    requires
        good_token(t),
        st.quote is None,
        st.prev_space,
        st.cur.len() == 0,
    ensures
        tok_run(st, requote(t), home).quote is None,
        tok_run(st, requote(t), home).cur == t,
        !tok_run(st, requote(t), home).prev_space,
        tok_run(st, requote(t), home).toks == st.toks,
        tok_run(st, requote(t), home).has_pipe == st.has_pipe,
        tok_run(st, requote(t), home).has_op == st.has_op,
{
    if contains_space(t) {
        let q = seq!['\''];
        assert(requote(t) =~= q + (t + q));
        lemma_tok_run_concat(st, q, t + q, home);
        assert(q[0] == '\'');
        assert(q.drop_first() =~= Seq::<char>::empty());
        let st1 = tok_run(st, q, home);
        let stq = tok_step(st, '\'', home);
        assert(st1 == tok_run(stq, q.drop_first(), home));
        assert(tok_run(stq, q.drop_first(), home) == stq);
        assert(st1 == (TokSt { quote: Some('\''), prev_space: false, ..st }));
        lemma_tok_run_concat(st1, t, q, home);
        lemma_run_quoted_any(st1, t, home);
        let st2 = tok_run(st1, t, home);
        assert(st1.cur + t =~= t);
        assert(st2.cur == t && !st2.prev_space && st2.quote == Some('\''));
        assert(st2.toks == st.toks && st2.has_pipe == st.has_pipe && st2.has_op == st.has_op);
        let st3 = tok_run(st2, q, home);
        let stq2 = tok_step(st2, '\'', home);
        assert(st3 == tok_run(stq2, q.drop_first(), home));
        assert(tok_run(stq2, q.drop_first(), home) == stq2);
    } else {
        assert(forall|i: int|
            0 <= i < t.len() ==> (t[i] != '"' && t[i] != '\'' && t[i] != '|' && t[i] != '&' && t[i]
                != ';' && t[i] != '~' && t[i] != ' '));
        lemma_run_regular(st, t, home);
        assert(st.cur + t =~= t);
    }
}

/// From a token boundary, a joined command group emits exactly its leading
/// tokens and leaves the last one pending; no quote stays open and no shape
/// flag moves.
proof fn lemma_run_join(ts: Seq<Seq<char>>, st: TokSt, home: Seq<char>)
    requires
        ts.len() > 0,
        forall|k: int| 0 <= k < ts.len() ==> good_token(ts[k]),
        st.quote is None,
        st.prev_space,
        st.cur.len() == 0,
    ensures
        tok_run(st, join_tokens(ts), home).quote is None,
        tok_run(st, join_tokens(ts), home).toks == st.toks + ts.drop_last(),
        tok_run(st, join_tokens(ts), home).cur == ts.last(),
        !tok_run(st, join_tokens(ts), home).prev_space,
        tok_run(st, join_tokens(ts), home).has_pipe == st.has_pipe,
        tok_run(st, join_tokens(ts), home).has_op == st.has_op,
    decreases ts.len(),
{
    if ts.len() == 1 {
        lemma_run_token(st, ts[0], home);
        assert(st.toks + ts.drop_last() =~= st.toks);
    } else {
        let sp = seq![' '];
        assert(join_tokens(ts) =~= requote(ts[0]) + (sp + join_tokens(ts.drop_first())));
        lemma_tok_run_concat(st, requote(ts[0]), sp + join_tokens(ts.drop_first()), home);
        lemma_run_token(st, ts[0], home);
        let st1 = tok_run(st, requote(ts[0]), home);
        lemma_tok_run_concat(st1, sp, join_tokens(ts.drop_first()), home);
        let st2 = tok_run(st1, sp, home);
        assert(sp[0] == ' ');
        assert(sp.drop_first() =~= Seq::<char>::empty());
        let stsp = tok_step(st1, ' ', home);
        assert(st2 == tok_run(stsp, sp.drop_first(), home));
        assert(tok_run(stsp, sp.drop_first(), home) == stsp);
        assert(st2 == stsp);
        lemma_trim_id(ts[0]);
        assert(st2.toks == st.toks.push(ts[0]));
        assert(st2.cur =~= Seq::<char>::empty());
        assert(st2.prev_space && st2.quote is None);
        assert(st2.has_pipe == st.has_pipe && st2.has_op == st.has_op);
        assert(forall|k: int| 0 <= k < ts.drop_first().len() ==> good_token(ts.drop_first()[k]));
        lemma_run_join(ts.drop_first(), st2, home);
        assert(st.toks.push(ts[0]) + ts.drop_first().drop_last() =~= st.toks + ts.drop_last());
        assert(ts.drop_first().last() == ts.last());
    }
}

/// Splitting a token sequence that holds no sentinel yields the one group.
proof fn lemma_split_acc_no_sentinel(
    ts: Seq<Seq<char>>,
    on_pipe: bool,
    cur: Seq<Seq<char>>,
    acc: Seq<Seq<Seq<char>>>,
)
    requires
        forall|k: int| 0 <= k < ts.len() ==> !is_sep(ts[k], on_pipe),
    ensures
        split_acc(ts, on_pipe, cur, acc) == acc.push(cur + ts),
    decreases ts.len(),
{
    if ts.len() == 0 {
        assert(cur + ts =~= cur);
    } else {
        lemma_split_acc_no_sentinel(ts.drop_first(), on_pipe, cur.push(ts[0]), acc);
        assert(cur.push(ts[0]) + ts.drop_first() =~= cur + ts);
    }
}

/// Re-tokenizing a command group's tokens — joined by single spaces, any
/// token containing a space re-quoted — reproduces an equivalent tagged shape
/// and partition: the same tokens come back, the line is plain with the
/// operator flag clear, and splitting on either sentinel yields the one
/// original group.
pub proof fn lemma_round_trip(ts: Seq<Seq<char>>, home: Seq<char>)
    requires
        ts.len() > 0,
        forall|k: int| 0 <= k < ts.len() ==> good_token(ts[k]),
    ensures
        tok_tokens(join_tokens(ts), home) == ts,
        !tok_piped(join_tokens(ts), home),
        !tok_op(join_tokens(ts), home),
        split_spec(ts, true) == seq![ts],
        split_spec(ts, false) == seq![ts],
{
    let line = join_tokens(ts);
    lemma_join_last(ts);
    lemma_trim_end_noop(line);
    lemma_run_join(ts, tok_init(), home);
    let st = tok_run(tok_init(), line, home);
    lemma_trim_id(ts.last());
    assert(tok_tokens(line, home) =~= (Seq::<Seq<char>>::empty() + ts.drop_last()).push(
        ts.last(),
    ));
    assert((Seq::<Seq<char>>::empty() + ts.drop_last()).push(ts.last()) =~= ts);
    assert forall|k: int| 0 <= k < ts.len() implies !is_sep(ts[k], true) && !is_sep(
        ts[k],
        false,
    ) by {
        // a sentinel token holds no space, so a space-holding (quoted) token
        // is no sentinel; a bare token is free of sentinel characters
        if contains_space(ts[k]) {
            let i = choose|i: int| 0 <= i < ts[k].len() && ts[k][i] == ' ';
            assert(ts[k][i] == ' ');
            assert(seq!['|'][0] == '|' && seq![';'][0] == ';');
            assert(seq!['&', '&'][0] == '&' && seq!['&', '&'][1] == '&');
        } else {
            if ts[k] == seq!['|'] {
                assert(ts[k][0] == '|');
            }
            if ts[k] == seq!['&', '&'] {
                assert(ts[k][0] == '&');
            }
            if ts[k] == seq![';'] {
                assert(ts[k][0] == ';');
            }
        }
    }
    lemma_split_acc_no_sentinel(ts, true, Seq::empty(), Seq::empty());
    lemma_split_acc_no_sentinel(ts, false, Seq::empty(), Seq::empty());
    assert(Seq::<Seq<char>>::empty() + ts =~= ts);
    assert(Seq::<Seq<Seq<char>>>::empty().push(ts) =~= seq![ts]);
}

/// A joined group is nonempty and ends in no whitespace: a bare token's last
/// character, or a closing quote.
proof fn lemma_join_last(ts: Seq<Seq<char>>)
    requires
        ts.len() > 0,
        forall|k: int| 0 <= k < ts.len() ==> good_token(ts[k]),
    ensures
        join_tokens(ts).len() > 0,
        !is_ws(join_tokens(ts).last()),
    decreases ts.len(),
{
    if ts.len() == 1 {
        if contains_space(ts[0]) {
            assert(requote(ts[0]).last() == '\'');
        } else {
            assert(requote(ts[0]).last() == ts[0].last());
        }
    } else {
        assert(forall|k: int| 0 <= k < ts.drop_first().len() ==> good_token(ts.drop_first()[k]));
        lemma_join_last(ts.drop_first());
        assert(join_tokens(ts).last() == join_tokens(ts.drop_first()).last());
    }
}


/// The flags never lie: a run that has seen an unquoted pipe has emitted the
/// pipe sentinel among its tokens, and one that has seen an unquoted operator
/// has emitted `&&` or `;`.
proof fn lemma_run_flags_emit(st: TokSt, s: Seq<char>, home: Seq<char>)
    requires
        st.has_pipe ==> st.toks.contains(seq!['|']),
        st.has_op ==> (st.toks.contains(seq!['&', '&']) || st.toks.contains(seq![';'])),
    ensures
        tok_run(st, s, home).has_pipe ==> tok_run(st, s, home).toks.contains(seq!['|']),
        tok_run(st, s, home).has_op ==> (tok_run(st, s, home).toks.contains(seq!['&', '&'])
            || tok_run(st, s, home).toks.contains(seq![';'])),
    decreases s.len(),
{
    if s.len() > 0 {
        let st1 = tok_step(st, s[0], home);
        assert(st1.has_pipe ==> st1.toks.contains(seq!['|'])) by {
            if st1.has_pipe {
                if st.has_pipe {
                    let i = choose|i: int| 0 <= i < st.toks.len() && st.toks[i] == seq!['|'];
                    lemma_step_keeps_tokens(st, s[0], home, i);
                } else {
                    assert(st1.toks.last() == seq!['|']);
                }
            }
        }
        assert(st1.has_op ==> (st1.toks.contains(seq!['&', '&']) || st1.toks.contains(
            seq![';'],
        ))) by {
            if st1.has_op {
                if st.has_op {
                    if st.toks.contains(seq!['&', '&']) {
                        let i = choose|i: int|
                            0 <= i < st.toks.len() && st.toks[i] == seq!['&', '&'];
                        lemma_step_keeps_tokens(st, s[0], home, i);
                    } else {
                        let i = choose|i: int| 0 <= i < st.toks.len() && st.toks[i] == seq![';'];
                        lemma_step_keeps_tokens(st, s[0], home, i);
                    }
                } else {
                    assert(st1.toks.last() == seq!['&', '&'] || st1.toks.last() == seq![';']);
                }
            }
        }
        lemma_run_flags_emit(st1, s.drop_first(), home);
    }
}

/// A step never removes or changes an emitted token.
proof fn lemma_step_keeps_tokens(st: TokSt, c: char, home: Seq<char>, i: int)
    requires
        0 <= i < st.toks.len(),
    ensures
        tok_step(st, c, home).toks.len() >= st.toks.len(),
        tok_step(st, c, home).toks[i] == st.toks[i],
{
}

/// The shape invariant behind the tagging: a line tagged *Piped* truly holds
/// the pipe sentinel among its tokens, and an operator-flagged line holds an
/// operator sentinel — whatever the order in which the sentinels appeared.
/// (The converse is deliberately false: a quoted sentinel becomes an ordinary
/// token without raising a flag, which is the one way to pass it as a literal
/// argument.)
pub proof fn lemma_flags_mean_sentinels(line: Seq<char>, home: Seq<char>)
    ensures
        tok_piped(line, home) ==> tok_tokens(line, home).contains(seq!['|']),
        tok_op(line, home) ==> (tok_tokens(line, home).contains(seq!['&', '&']) || tok_tokens(
            line,
            home,
        ).contains(seq![';'])),
{
    let st = tok_run(tok_init(), trim_end_spec(line), home);
    lemma_run_flags_emit(tok_init(), trim_end_spec(line), home);
    if st.has_pipe {
        let i = choose|i: int| 0 <= i < st.toks.len() && st.toks[i] == seq!['|'];
        assert(tok_tokens(line, home)[i] == seq!['|']);
    }
    if st.has_op {
        if st.toks.contains(seq!['&', '&']) {
            let i = choose|i: int| 0 <= i < st.toks.len() && st.toks[i] == seq!['&', '&'];
            assert(tok_tokens(line, home)[i] == seq!['&', '&']);
        } else {
            let i = choose|i: int| 0 <= i < st.toks.len() && st.toks[i] == seq![';'];
            assert(tok_tokens(line, home)[i] == seq![';']);
        }
    }
}


/// Inside a quote, any characters but the delimiting quote accumulate
/// verbatim onto the pending token; nothing is emitted, no shape flag moves,
/// and each copied character marks a token under construction.
proof fn lemma_run_quoted_any(st: TokSt, w: Seq<char>, home: Seq<char>)
    requires
        st.quote == Some('\''),
        forall|i: int| 0 <= i < w.len() ==> w[i] != '\'',
    ensures
        tok_run(st, w, home).quote == st.quote,
        tok_run(st, w, home).toks == st.toks,
        tok_run(st, w, home).cur == st.cur + w,
        tok_run(st, w, home).has_pipe == st.has_pipe,
        tok_run(st, w, home).has_op == st.has_op,
        tok_run(st, w, home).prev_space == (if w.len() == 0 {
            st.prev_space
        } else {
            false
        }),
    decreases w.len(),
{
    if w.len() == 0 {
        assert(st.cur + w =~= st.cur);
    } else {
        let st1 = tok_step(st, w[0], home);
        assert(st1.cur == st.cur.push(w[0]));
        lemma_run_quoted_any(st1, w.drop_first(), home);
        assert(st.cur.push(w[0]) + w.drop_first() =~= st.cur + w);
    }
}

/// Quoted spans are preserved verbatim: a line that is one single-quoted
/// span yields exactly that span as its one token — internal whitespace and
/// even sentinel characters kept, only the delimiting quotes stripped (and
/// the token trimmed at its ends, as every token is). No shape flag is set,
/// whatever the span holds.
pub proof fn lemma_quoted_span_verbatim(w: Seq<char>, home: Seq<char>)
    requires
        forall|i: int| 0 <= i < w.len() ==> w[i] != '\'',
    ensures
        tok_tokens(seq!['\''] + w + seq!['\''], home) == seq![trim_spec(w)],
        !tok_piped(seq!['\''] + w + seq!['\''], home),
        !tok_op(seq!['\''] + w + seq!['\''], home),
{
    let q = seq!['\''];
    let line = q + w + q;
    assert(line.last() == '\'');
    lemma_trim_end_noop(line);
    assert(line =~= q + (w + q));
    lemma_tok_run_concat(tok_init(), q, w + q, home);
    assert(q[0] == '\'');
    assert(q.drop_first() =~= Seq::<char>::empty());
    let st1 = tok_run(tok_init(), q, home);
    let stq = tok_step(tok_init(), '\'', home);
    assert(st1 == tok_run(stq, q.drop_first(), home));
    assert(tok_run(stq, q.drop_first(), home) == stq);
    assert(st1 == (TokSt { quote: Some('\''), prev_space: false, ..tok_init() }));
    lemma_tok_run_concat(st1, w, q, home);
    lemma_run_quoted_any(st1, w, home);
    let st2 = tok_run(st1, w, home);
    assert(st2.cur =~= w);
    let st3 = tok_run(st2, q, home);
    let stq2 = tok_step(st2, '\'', home);
    assert(st3 == tok_run(stq2, q.drop_first(), home));
    assert(tok_run(stq2, q.drop_first(), home) == stq2);
    assert(st3.quote is None && st3.cur == w && st3.toks == st2.toks);
    assert(st3.toks =~= Seq::<Seq<char>>::empty());
    assert(tok_tokens(line, home) =~= seq![trim_spec(w)]);
}


/// One tokenizer step, written as a run over the remaining input: the fuel
/// step the expansion law unfolds by hand.
proof fn lemma_run_one(st: TokSt, s: Seq<char>, home: Seq<char>)
    requires
        s.len() > 0,
    ensures
        tok_run(st, s, home) == tok_run(tok_step(st, s[0], home), s.drop_first(), home),
{
}

/// Home expansion happens exactly at the start of a token: for every home
/// path free of whitespace at its ends, `echo ~` expands the `~` to the home
/// path, while the `~` inside `echo a~b` is copied literally. Both lines stay
/// plain with no operator flag.
pub proof fn lemma_home_expansion_at_token_start(home: Seq<char>)
    requires
        trim_spec(home) == home,
    ensures
        tok_tokens(seq!['e', 'c', 'h', 'o', ' ', '~'], home) == seq![
            seq!['e', 'c', 'h', 'o'],
            home,
        ],
        !tok_piped(seq!['e', 'c', 'h', 'o', ' ', '~'], home),
        !tok_op(seq!['e', 'c', 'h', 'o', ' ', '~'], home),
        tok_tokens(seq!['e', 'c', 'h', 'o', ' ', 'a', '~', 'b'], home) == seq![
            seq!['e', 'c', 'h', 'o'],
            seq!['a', '~', 'b'],
        ],
        !tok_piped(seq!['e', 'c', 'h', 'o', ' ', 'a', '~', 'b'], home),
        !tok_op(seq!['e', 'c', 'h', 'o', ' ', 'a', '~', 'b'], home),
{
    let e4 = seq!['e', 'c', 'h', 'o'];
    let boundary = lemma_echo_boundary(e4, home);
    // the first line: a lone ~ right after the space expands in place
    let line1 = seq!['e', 'c', 'h', 'o', ' ', '~'];
    assert(line1.last() == '~');
    lemma_trim_end_noop(line1);
    assert(line1 =~= (e4 + seq![' ']) + seq!['~']);
    lemma_tok_run_concat(tok_init(), e4 + seq![' '], seq!['~'], home);
    let st3 = tok_run(boundary, seq!['~'], home);
    lemma_run_one(boundary, seq!['~'], home);
    assert(seq!['~'].drop_first() =~= Seq::<char>::empty());
    assert(st3 == tok_step(boundary, '~', home));
    assert(st3.cur =~= home);
    assert(tok_tokens(line1, home) =~= seq![e4, home]);
    // the second line: the ~ stands mid-token and is copied literally
    let line2 = seq!['e', 'c', 'h', 'o', ' ', 'a', '~', 'b'];
    assert(line2.last() == 'b');
    lemma_trim_end_noop(line2);
    let tail = seq!['a', '~', 'b'];
    assert(line2 =~= (e4 + seq![' ']) + tail);
    lemma_tok_run_concat(tok_init(), e4 + seq![' '], tail, home);
    lemma_run_one(boundary, tail, home);
    let sta = tok_step(boundary, 'a', home);
    assert(sta.cur =~= seq!['a']);
    assert(tail.drop_first() =~= seq!['~', 'b']);
    assert(tok_run(boundary, tail, home) == tok_run(sta, seq!['~', 'b'], home));
    lemma_run_one(sta, seq!['~', 'b'], home);
    let stt = tok_step(sta, '~', home);
    assert(stt.cur =~= seq!['a', '~']);
    assert(seq!['~', 'b'].drop_first() =~= seq!['b']);
    assert(tok_run(sta, seq!['~', 'b'], home) == tok_run(stt, seq!['b'], home));
    lemma_run_one(stt, seq!['b'], home);
    let stb = tok_step(stt, 'b', home);
    assert(stb.cur =~= seq!['a', '~', 'b']);
    assert(seq!['b'].drop_first() =~= Seq::<char>::empty());
    assert(tok_run(stt, seq!['b'], home) == stb);
    lemma_trim_id(seq!['a', '~', 'b']);
    assert(tok_tokens(line2, home) =~= seq![e4, seq!['a', '~', 'b']]);
}

/// Running `echo ` from the start leaves the machine at a token boundary with
/// the one token emitted.
proof fn lemma_echo_boundary(e4: Seq<char>, home: Seq<char>) -> (r: TokSt)
    requires
        e4 == seq!['e', 'c', 'h', 'o'],
    ensures
        r == tok_run(tok_init(), e4 + seq![' '], home),
        r.toks == seq![e4],
        r.cur == Seq::<char>::empty(),
        r.quote is None,
        r.prev_space,
        !r.amp,
        !r.has_pipe,
        !r.has_op,
{
    assert(e4[0] == 'e' && e4[1] == 'c' && e4[2] == 'h' && e4[3] == 'o');
    lemma_run_regular(tok_init(), e4, home);
    let st1 = tok_run(tok_init(), e4, home);
    assert(st1.cur =~= e4);
    lemma_tok_run_concat(tok_init(), e4, seq![' '], home);
    lemma_run_one(st1, seq![' '], home);
    assert(seq![' '].drop_first() =~= Seq::<char>::empty());
    let st2 = tok_step(st1, ' ', home);
    assert(tok_run(tok_init(), e4 + seq![' '], home) == st2);
    lemma_trim_id(e4);
    assert(st2.toks =~= seq![e4]);
    st2
}

} // verus!
