//! Placeholder substitution: rewriting `{}` inside argument strings.
//!
//! Each triggered rebuild substitutes the path of the changed file for every
//! literal occurrence of the two-character placeholder `{}` in every argument
//! of every command. Substitution is textual and left to right; overlapping
//! matches cannot arise because the two placeholder characters differ.

use crate::command::CommandModel;
use vstd::prelude::*;
use vstd::string::StrSliceExecFns;
use vstd::string::StringExecFns;

verus! {

/// The result of replacing every occurrence of `{}` in `s` by `path`,
/// scanning left to right.
pub open spec fn replace_placeholder_spec(s: Seq<char>, path: Seq<char>) -> Seq<char>
    decreases s.len(),
{
    if s.len() >= 2 && s[0] == '{' && s[1] == '}' {
        path + replace_placeholder_spec(s.skip(2), path)
    } else if s.len() >= 1 {
        seq![s[0]] + replace_placeholder_spec(s.skip(1), path)
    } else {
        Seq::<char>::empty()
    }
}

/// The result of substituting `path` for the placeholder in every argument
/// of an argument list.
pub open spec fn subst_args(args: Seq<Seq<char>>, path: Seq<char>) -> Seq<Seq<char>> {
    args.map_values(|a: Seq<char>| replace_placeholder_spec(a, path))
}

/// The result of substituting `path` into every argument of one command.
/// The executable name and the gating rule are untouched.
pub open spec fn subst_command(c: CommandModel, path: Seq<char>) -> CommandModel {
    CommandModel { name: c.name, args: subst_args(c.args, path), rule: c.rule }
}

/// The result of substituting `path` into every argument of every command
/// of a chain.
pub open spec fn subst_chain(cmds: Seq<CommandModel>, path: Seq<char>) -> Seq<CommandModel> {
    cmds.map_values(|c: CommandModel| subst_command(c, path))
}

/// Whether `s` contains an occurrence of the placeholder `{}`.
pub open spec fn has_placeholder(s: Seq<char>) -> bool {
    exists|i: int| 0 <= i && i + 1 < s.len() && (#[trigger] s[i]) == '{' && s[i + 1] == '}'
}

/// Replacing in a string free of the placeholder changes nothing.
pub proof fn lemma_no_placeholder_identity(s: Seq<char>, path: Seq<char>)
    requires
        !has_placeholder(s),
    ensures
        replace_placeholder_spec(s, path) == s,
    decreases s.len(),
{
    if s.len() >= 2 && s[0] == '{' && s[1] == '}' {
        let w: int = 0;
        assert(0 <= w && w + 1 < s.len() && s[w] == '{' && s[w + 1] == '}');
        assert(false);
    } else if s.len() >= 1 {
        assert(!has_placeholder(s.skip(1))) by {
            if has_placeholder(s.skip(1)) {
                let i = choose|i: int|
                    0 <= i && i + 1 < s.skip(1).len() && (#[trigger] s.skip(1)[i]) == '{'
                        && s.skip(1)[i + 1] == '}';
                assert(s[i + 1] == '{');
                assert(s[i + 2] == '}');
                assert(has_placeholder(s));
            }
        }
        lemma_no_placeholder_identity(s.skip(1), path);
        assert(seq![s[0]] + s.skip(1) =~= s);
    } else {
        assert(replace_placeholder_spec(s, path) =~= s);
    }
}

/// Substitution is idempotent whenever the placeholder does not recur in the
/// substituted string: a second replacement with the same path changes
/// nothing.
pub proof fn lemma_replace_idempotent(s: Seq<char>, path: Seq<char>)
    requires
        !has_placeholder(replace_placeholder_spec(s, path)),
    ensures
        replace_placeholder_spec(replace_placeholder_spec(s, path), path)
            == replace_placeholder_spec(s, path),
{
    lemma_no_placeholder_identity(replace_placeholder_spec(s, path), path);
}

/// Substitution into a whole chain is idempotent when the placeholder does
/// not recur after replacement: if no argument of the resolved chain still
/// contains `{}`, substituting the same path a second time yields the same
/// resolved chain.
pub proof fn lemma_subst_chain_idempotent(cmds: Seq<CommandModel>, path: Seq<char>)
    requires
        forall|k: int, j: int|
            0 <= k < cmds.len() && 0 <= j < subst_chain(cmds, path)[k].args.len()
                ==> !has_placeholder(#[trigger] subst_chain(cmds, path)[k].args[j]),
    ensures
        subst_chain(subst_chain(cmds, path), path) == subst_chain(cmds, path),
{
    assert forall|k: int| 0 <= k < cmds.len() implies subst_chain(subst_chain(cmds, path), path)[k]
        == subst_chain(cmds, path)[k] by {
        let c = subst_command(cmds[k], path);
        assert(subst_chain(cmds, path)[k] == c);
        assert forall|j: int| 0 <= j < c.args.len() implies replace_placeholder_spec(
            c.args[j],
            path,
        ) == c.args[j] by {
            assert(!has_placeholder(subst_chain(cmds, path)[k].args[j]));
            lemma_no_placeholder_identity(c.args[j], path);
        }
        assert(subst_args(c.args, path) =~= c.args);
        assert(subst_command(c, path) =~= c);
    }
    assert(subst_chain(subst_chain(cmds, path), path) =~= subst_chain(cmds, path));
}

/// Replaces every occurrence of `{}` in `s` by `path`.
pub fn replace_placeholder(s: &str, path: &str) -> (r: String)
    ensures
        r@ == replace_placeholder_spec(s@, path@),
{
    let n = s.unicode_len();
    let mut out = String::new();
    let mut i: usize = 0;
    proof {
        assert(s@.skip(0) =~= s@);
        assert(Seq::<char>::empty() + replace_placeholder_spec(s@, path@)
            =~= replace_placeholder_spec(s@, path@));
    }
    while i < n
        invariant
            i <= n,
            n == s@.len(),
            replace_placeholder_spec(s@, path@) == out@ + replace_placeholder_spec(
                s@.skip(i as int),
                path@,
            ),
        decreases n - i,
    {
        if i + 1 < n && s.get_char(i) == '{' && s.get_char(i + 1) == '}' {
            let ghost pre = out@;
            out.append(path);
            proof {
                let rest = s@.skip(i as int);
                assert(rest[0] == s@[i as int]);
                assert(rest[1] == s@[i as int + 1]);
                assert(rest.skip(2) =~= s@.skip(i as int + 2));
                assert((pre + path@) + replace_placeholder_spec(s@.skip(i as int + 2), path@)
                    =~= pre + (path@ + replace_placeholder_spec(s@.skip(i as int + 2), path@)));
            }
            i += 2;
        } else {
            let ghost pre = out@;
            let piece = s.substring_char(i, i + 1);
            out.append(piece);
            proof {
                let rest = s@.skip(i as int);
                assert(rest[0] == s@[i as int]);
                if rest.len() >= 2 {
                    assert(rest[1] == s@[i as int + 1]);
                }
                assert(piece@ =~= seq![s@[i as int]]);
                assert(rest.skip(1) =~= s@.skip(i as int + 1));
                assert((pre + piece@) + replace_placeholder_spec(s@.skip(i as int + 1), path@)
                    =~= pre + (piece@ + replace_placeholder_spec(s@.skip(i as int + 1), path@)));
            }
            i += 1;
        }
    }
    proof {
        assert(s@.skip(n as int) =~= Seq::<char>::empty());
        assert(out@ + Seq::<char>::empty() =~= out@);
    }
    out
}

} // verus!
