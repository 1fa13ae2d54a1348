//! Atomic commands and the chain separator tokens.
//!
//! A command chain is written as a flat token list in which the tokens `;`,
//! `&&` and `||` separate atomic commands. The separator that follows an
//! atomic command determines its gating rule: whether the chain proceeds to
//! the next command unconditionally, only on success, or only on failure.

use crate::subst::replace_placeholder;
use crate::subst::replace_placeholder_spec;
use crate::subst::subst_args;
use vstd::pervasive::VecAdditionalExecFns;
use vstd::prelude::*;
use vstd::string::StrSliceExecFns;

verus! {

/// Gating rule of an atomic command: does the chain proceed to the next
/// command after this one exits?
#[derive(Debug, Clone, Copy, PartialEq, Eq, Structural)]
pub enum ProceedIf {
    /// Proceed whatever the exit status was (separator `;`).
    Any,
    /// Proceed only if the command exited successfully (separator `&&`).
    Success,
    /// Proceed only if the command exited unsuccessfully (separator `||`).
    Failure,
}

/// Error of chain parsing.
#[derive(Debug, Clone, Copy, PartialEq, Eq, Structural)]
pub enum CommandParseError {
    /// A separator token closed an empty command, or a command was built
    /// from zero tokens.
    EmptyCommand,
}

/// Mathematical model of one atomic command: executable name, arguments,
/// and the gating rule attached by the separator that followed it.
#[verifier::ext_equal]
pub ghost struct CommandModel {
    pub name: Seq<char>,
    pub args: Seq<Seq<char>>,
    pub rule: ProceedIf,
}

/// One atomic command of a chain.
#[derive(Debug, Clone)]
pub struct SimpleCommand {
    pub command: String,
    pub args: Vec<String>,
    pub proceed_if: ProceedIf,
}

impl View for SimpleCommand {
    type V = CommandModel;

    open spec fn view(&self) -> CommandModel {
        CommandModel { name: self.command@, args: self.args.deep_view(), rule: self.proceed_if }
    }
}

impl DeepView for SimpleCommand {
    type V = CommandModel;

    open spec fn deep_view(&self) -> CommandModel {
        self.view()
    }
}

/// The token `;`.
pub open spec fn semi_tok() -> Seq<char> {
    seq![';']
}

/// The token `&&`.
pub open spec fn and_tok() -> Seq<char> {
    seq!['&', '&']
}

/// The token `||`.
pub open spec fn or_tok() -> Seq<char> {
    seq!['|', '|']
}

/// The gating rule a separator token stands for, or `None` for an ordinary
/// token.
pub open spec fn separator_rule(tok: Seq<char>) -> Option<ProceedIf> {
    if tok =~= semi_tok() {
        Some(ProceedIf::Any)
    } else if tok =~= and_tok() {
        Some(ProceedIf::Success)
    } else if tok =~= or_tok() {
        Some(ProceedIf::Failure)
    } else {
        None
    }
}

/// Decides whether a token is one of the three separators, and which gating
/// rule it stands for.
pub fn classify_separator(tok: &String) -> (r: Option<ProceedIf>)
    ensures
        r == separator_rule(tok@),
{
    let s = tok.as_str();
    let n = s.unicode_len();
    if n == 1 && s.get_char(0) == ';' {
        proof {
            assert(tok@ =~= semi_tok());
        }
        Some(ProceedIf::Any)
    } else if n == 2 && s.get_char(0) == '&' && s.get_char(1) == '&' {
        proof {
            assert(tok@ =~= and_tok());
        }
        Some(ProceedIf::Success)
    } else if n == 2 && s.get_char(0) == '|' && s.get_char(1) == '|' {
        proof {
            assert(tok@ =~= or_tok());
        }
        Some(ProceedIf::Failure)
    } else {
        proof {
            assert(!(tok@ =~= semi_tok()));
            assert(!(tok@ =~= and_tok()));
            assert(!(tok@ =~= or_tok()));
        }
        None
    }
}

impl SimpleCommand {
    /// Builds an atomic command from its tokens: the first token is the
    /// executable name, the rest are its arguments. Zero tokens are a parse
    /// error.
    pub fn new(command_line: &Vec<String>, proceed_if: ProceedIf) -> (r: Result<
        SimpleCommand,
        CommandParseError,
    >)
        ensures
            r is Err <==> command_line@.len() == 0,
            r is Err ==> r->Err_0 == CommandParseError::EmptyCommand,
            r is Ok ==> r->Ok_0@.name == command_line.deep_view()[0],
            r is Ok ==> r->Ok_0@.args == command_line.deep_view().skip(1),
            r is Ok ==> r->Ok_0@.rule == proceed_if,
    {
        if command_line.len() == 0 {
            return Err(CommandParseError::EmptyCommand);
        }
        let command = command_line[0].clone();
        let mut args: Vec<String> = Vec::new();
        let mut i: usize = 1;
        while i < command_line.len()
            invariant
                1 <= i <= command_line@.len(),
                args.deep_view() =~= command_line.deep_view().subrange(1, i as int),
            decreases command_line@.len() - i,
        {
            let ghost pre = args.deep_view();
            args.push(command_line[i].clone());
            proof {
                let dv = command_line.deep_view();
                assert(args.deep_view() =~= pre.push(dv[i as int]));
                assert(dv.subrange(1, i as int).push(dv[i as int]) =~= dv.subrange(
                    1,
                    i as int + 1,
                ));
            }
            i += 1;
        }
        proof {
            assert(args.deep_view() =~= command_line.deep_view().skip(1));
        }
        Ok(SimpleCommand { command, args, proceed_if })
    }

    /// An equal copy of the command, usable where the model of the copy
    /// matters.
    pub fn duplicate(&self) -> (r: SimpleCommand)
        ensures
            r@ == self@,
    {
        let command = self.command.clone();
        let mut args: Vec<String> = Vec::new();
        let mut i: usize = 0;
        while i < self.args.len()
            invariant
                i <= self.args@.len(),
                args.deep_view() =~= self.args.deep_view().subrange(0, i as int),
            decreases self.args@.len() - i,
        {
            let ghost pre = args.deep_view();
            args.push(self.args[i].clone());
            proof {
                let dv = self.args.deep_view();
                assert(args.deep_view() =~= pre.push(dv[i as int]));
                assert(dv.subrange(0, i as int).push(dv[i as int]) =~= dv.subrange(
                    0,
                    i as int + 1,
                ));
            }
            i += 1;
        }
        proof {
            assert(args.deep_view() =~= self.args.deep_view());
        }
        SimpleCommand { command, args, proceed_if: self.proceed_if }
    }

    /// Substitutes `path` for every occurrence of the placeholder `{}` in
    /// every argument. The executable name and the gating rule are left
    /// untouched.
    pub fn set_filename(&mut self, path: &str)
        ensures
            final(self)@.name == old(self)@.name,
            final(self)@.rule == old(self)@.rule,
            final(self)@.args == subst_args(old(self)@.args, path@),
    {
        let ghost orig = self.args.deep_view();
        let mut i: usize = 0;
        while i < self.args.len()
            invariant
                i <= self.args@.len(),
                self.args@.len() == orig.len(),
                self.command == old(self).command,
                self.proceed_if == old(self).proceed_if,
                forall|k: int|
                    0 <= k < i ==> self.args@[k]@ == replace_placeholder_spec(orig[k], path@),
                forall|k: int| i <= k < orig.len() ==> self.args@[k]@ == orig[k],
            decreases self.args@.len() - i,
        {
            let replaced = replace_placeholder(self.args[i].as_str(), path);
            self.args.set(i, replaced);
            i += 1;
        }
        proof {
            assert(self.args.deep_view() =~= subst_args(orig, path@));
        }
    }
}

} // verus!
