//! The mathematical model of chain parsing.
//!
//! A flat token list is split on the separator tokens `;`, `&&` and `||`
//! into atomic commands; the separator that closes a command fixes the
//! command's gating rule, and a trailing command (closed by the end of the
//! input rather than a separator) never gates anything, so it is closed with
//! the unconditional rule. Closing an empty buffer is the parse failure.

use crate::command::CommandModel;
use crate::command::ProceedIf;
use crate::command::and_tok;
use crate::command::or_tok;
use crate::command::semi_tok;
use crate::command::separator_rule;
use vstd::prelude::*;

verus! {

/// Closes a non-empty token buffer into a command: first token the
/// executable name, the rest its arguments.
pub open spec fn close_command(buf: Seq<Seq<char>>, rule: ProceedIf) -> CommandModel {
    CommandModel { name: buf[0], args: buf.skip(1), rule }
}

/// Parses the token list `toks`, with `buf` holding the tokens of the
/// command currently being accumulated. `None` is the empty-command parse
/// failure.
pub open spec fn parse_chain(toks: Seq<Seq<char>>, buf: Seq<Seq<char>>) -> Option<
    Seq<CommandModel>,
>
    decreases toks.len(),
{
    if toks.len() == 0 {
        if buf.len() == 0 {
            Some(Seq::<CommandModel>::empty())
        } else {
            Some(seq![close_command(buf, ProceedIf::Any)])
        }
    } else {
        match separator_rule(toks[0]) {
            Some(rule) => {
                if buf.len() == 0 {
                    None
                } else {
                    match parse_chain(toks.skip(1), Seq::<Seq<char>>::empty()) {
                        Some(rest) => Some(seq![close_command(buf, rule)] + rest),
                        None => None,
                    }
                }
            },
            None => parse_chain(toks.skip(1), buf.push(toks[0])),
        }
    }
}

/// The separator token that stands for a gating rule; the inverse of
/// [`separator_rule`].
pub open spec fn rule_token(rule: ProceedIf) -> Seq<char> {
    match rule {
        ProceedIf::Any => semi_tok(),
        ProceedIf::Success => and_tok(),
        ProceedIf::Failure => or_tok(),
    }
}

/// Flattens a parsed chain back into a token list, joining the commands
/// with the separator each command's gating rule stands for. The last
/// command contributes no separator.
pub open spec fn flatten_chain(cmds: Seq<CommandModel>) -> Seq<Seq<char>>
    decreases cmds.len(),
{
    if cmds.len() == 0 {
        Seq::<Seq<char>>::empty()
    } else if cmds.len() == 1 {
        seq![cmds[0].name] + cmds[0].args
    } else {
        seq![cmds[0].name] + cmds[0].args + seq![rule_token(cmds[0].rule)] + flatten_chain(
            cmds.skip(1),
        )
    }
}

/// Whether a token is one of the three separators.
pub open spec fn is_separator(tok: Seq<char>) -> bool {
    separator_rule(tok) is Some
}

/// Every separator stands strictly between two ordinary tokens: none leads,
/// none trails, and no two are adjacent.
pub open spec fn separators_well_placed(toks: Seq<Seq<char>>) -> bool {
    forall|i: int|
        0 <= i < toks.len() && is_separator(#[trigger] toks[i]) ==> 0 < i && i + 1 < toks.len()
            && !is_separator(toks[i + 1])
}

proof fn lemma_parse_flatten(toks: Seq<Seq<char>>, buf: Seq<Seq<char>>)
    requires
        forall|i: int|
            0 <= i < toks.len() && is_separator(#[trigger] toks[i]) ==> i + 1 < toks.len()
                && !is_separator(toks[i + 1]),
        toks.len() > 0 && is_separator(toks[0]) ==> buf.len() > 0,
    ensures
        parse_chain(toks, buf) is Some,
        flatten_chain(parse_chain(toks, buf)->Some_0) == buf + toks,
        buf.len() > 0 || toks.len() > 0 ==> parse_chain(toks, buf)->Some_0.len() > 0,
    decreases toks.len(),
{
    if toks.len() == 0 {
        if buf.len() == 0 {
            assert(flatten_chain(parse_chain(toks, buf)->Some_0) =~= buf + toks);
        } else {
            assert(seq![buf[0]] + buf.skip(1) =~= buf + toks);
        }
    } else {
        let tail = toks.skip(1);
        assert(tail.len() == toks.len() - 1);
        assert forall|j: int| 0 <= j < tail.len() && is_separator(#[trigger] tail[j]) implies j + 1
            < tail.len() && !is_separator(tail[j + 1]) by {
            assert(tail[j] == toks[j + 1]);
            assert(toks[j + 2] == tail[j + 1]);
        }
        match separator_rule(toks[0]) {
            Some(rule) => {
                assert(!is_separator(toks[1]));
                assert(tail[0] == toks[1]);
                lemma_parse_flatten(tail, Seq::<Seq<char>>::empty());
                let rest = parse_chain(tail, Seq::<Seq<char>>::empty())->Some_0;
                assert(flatten_chain(rest) == Seq::<Seq<char>>::empty() + tail);
                assert(Seq::<Seq<char>>::empty() + tail =~= tail);
                let closed = close_command(buf, rule);
                let r = seq![closed] + rest;
                assert(parse_chain(toks, buf) == Some(r));
                assert(r.len() >= 2);
                assert(r[0] == closed);
                assert(r.skip(1) =~= rest);
                assert(rule_token(rule) == toks[0]);
                assert(flatten_chain(r) == seq![closed.name] + closed.args + seq![
                    rule_token(closed.rule),
                ] + flatten_chain(rest));
                assert(seq![buf[0]] + buf.skip(1) + seq![toks[0]] + tail =~= buf + toks);
            },
            None => {
                assert(toks.len() > 1 && is_separator(tail[0]) ==> buf.push(toks[0]).len() > 0);
                lemma_parse_flatten(tail, buf.push(toks[0]));
                assert(parse_chain(toks, buf) == parse_chain(tail, buf.push(toks[0])));
                assert(buf.push(toks[0]) + tail =~= buf + toks);
            },
        }
    }
}

/// Round trip of parsing: for every non-empty token list whose separators
/// are well placed (none leading, none trailing, none doubled), parsing
/// succeeds and joining the parsed commands back with the separator tokens
/// their gating rules stand for reproduces the original token list.
pub proof fn lemma_parse_flatten_roundtrip(toks: Seq<Seq<char>>)
    requires
        toks.len() > 0,
        separators_well_placed(toks),
    ensures
        parse_chain(toks, Seq::<Seq<char>>::empty()) is Some,
        flatten_chain(parse_chain(toks, Seq::<Seq<char>>::empty())->Some_0) == toks,
{
    assert(!is_separator(toks[0]));
    lemma_parse_flatten(toks, Seq::<Seq<char>>::empty());
    assert(Seq::<Seq<char>>::empty() + toks =~= toks);
}

proof fn lemma_parse_fails(toks: Seq<Seq<char>>, buf: Seq<Seq<char>>)
    requires
        exists|i: int|
            0 <= i < toks.len() && is_separator(#[trigger] toks[i]) && (if i == 0 {
                buf.len() == 0
            } else {
                is_separator(toks[i - 1])
            }),
    ensures
        parse_chain(toks, buf) is None,
    decreases toks.len(),
{
    let i = choose|i: int|
        0 <= i < toks.len() && is_separator(#[trigger] toks[i]) && (if i == 0 {
            buf.len() == 0
        } else {
            is_separator(toks[i - 1])
        });
    let tail = toks.skip(1);
    if i == 0 {
        assert(parse_chain(toks, buf) is None);
    } else {
        match separator_rule(toks[0]) {
            Some(rule) => {
                if buf.len() > 0 {
                    assert(tail[i - 1] == toks[i]);
                    if i - 1 == 0 {
                        assert(0 <= i - 1 < tail.len() && is_separator(tail[i - 1])
                            && Seq::<Seq<char>>::empty().len() == 0);
                    } else {
                        assert(tail[i - 2] == toks[i - 1]);
                        assert(0 <= i - 1 < tail.len() && is_separator(tail[i - 1])
                            && is_separator(tail[i - 2]));
                    }
                    lemma_parse_fails(tail, Seq::<Seq<char>>::empty());
                }
            },
            None => {
                assert(!is_separator(toks[0]));
                assert(i >= 2) by {
                    if i == 1 {
                        assert(is_separator(toks[0]));
                    }
                }
                assert(tail[i - 1] == toks[i]);
                assert(tail[i - 2] == toks[i - 1]);
                assert(0 <= i - 1 < tail.len() && is_separator(tail[i - 1]) && is_separator(
                    tail[i - 2],
                ));
                lemma_parse_fails(tail, buf.push(toks[0]));
            },
        }
    }
}

proof fn lemma_parse_succeeds(toks: Seq<Seq<char>>, buf: Seq<Seq<char>>)
    requires
        forall|i: int|
            0 < i < toks.len() && is_separator(#[trigger] toks[i]) ==> !is_separator(toks[i - 1]),
        toks.len() > 0 && is_separator(toks[0]) ==> buf.len() > 0,
    ensures
        parse_chain(toks, buf) is Some,
    decreases toks.len(),
{
    if toks.len() > 0 {
        let tail = toks.skip(1);
        assert forall|j: int| 0 < j < tail.len() && is_separator(#[trigger] tail[j]) implies
            !is_separator(tail[j - 1]) by {
            assert(tail[j] == toks[j + 1]);
            assert(tail[j - 1] == toks[j]);
        }
        match separator_rule(toks[0]) {
            Some(_) => {
                if toks.len() > 1 {
                    assert(tail[0] == toks[1]);
                    assert(!is_separator(toks[1]));
                }
                lemma_parse_succeeds(tail, Seq::<Seq<char>>::empty());
            },
            None => {
                if toks.len() > 1 {
                    assert(tail[0] == toks[1]);
                }
                lemma_parse_succeeds(tail, buf.push(toks[0]));
            },
        }
    }
}

/// A token list with a leading separator, or with two adjacent separators,
/// fails to parse with the empty-command error: some separator closes an
/// empty command buffer.
pub proof fn lemma_parse_rejects_empty_command(toks: Seq<Seq<char>>)
    requires
        exists|i: int|
            0 <= i < toks.len() && is_separator(#[trigger] toks[i]) && (i == 0 || is_separator(
                toks[i - 1],
            )),
    ensures
        parse_chain(toks, Seq::<Seq<char>>::empty()) is None,
{
    let i = choose|i: int|
        0 <= i < toks.len() && is_separator(#[trigger] toks[i]) && (i == 0 || is_separator(
            toks[i - 1],
        ));
    if i == 0 {
        assert(0 <= i < toks.len() && is_separator(toks[i]) && Seq::<Seq<char>>::empty().len()
            == 0);
    } else {
        assert(0 <= i < toks.len() && is_separator(toks[i]) && is_separator(toks[i - 1]));
    }
    lemma_parse_fails(toks, Seq::<Seq<char>>::empty());
}

/// Exactly when parsing fails: a token list fails to parse if and only if
/// some separator leads it or follows another separator. In particular a
/// trailing separator alone does not fail: it closes the last command and
/// leaves an empty buffer, which the end of the input accepts.
pub proof fn lemma_parse_failure_characterized(toks: Seq<Seq<char>>)
    ensures
        parse_chain(toks, Seq::<Seq<char>>::empty()) is None <==> exists|i: int|
            0 <= i < toks.len() && is_separator(#[trigger] toks[i]) && (i == 0 || is_separator(
                toks[i - 1],
            )),
{
    if exists|i: int|
        0 <= i < toks.len() && is_separator(#[trigger] toks[i]) && (i == 0 || is_separator(
            toks[i - 1],
        )) {
        lemma_parse_rejects_empty_command(toks);
    } else {
        if toks.len() > 0 && is_separator(toks[0]) {
            let w: int = 0;
            assert(0 <= w < toks.len() && is_separator(toks[w]) && (w == 0 || is_separator(
                toks[w - 1],
            )));
            assert(false);
        }
        assert forall|i: int| 0 < i < toks.len() && is_separator(#[trigger] toks[i]) implies
            !is_separator(toks[i - 1]) by {
            if is_separator(toks[i - 1]) {
                assert(0 <= i < toks.len() && is_separator(toks[i]) && is_separator(toks[i - 1]));
            }
        }
        lemma_parse_succeeds(toks, Seq::<Seq<char>>::empty());
    }
}

} // verus!
