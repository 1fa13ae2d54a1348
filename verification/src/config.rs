//! The chain template: parsing the command line and substituting the
//! triggering path.
//!
//! A [`RebuildConfig`] is built once from the command-line tokens and is
//! immutable thereafter; each triggered rebuild derives a resolved copy with
//! the placeholder replaced by the triggering path (unless substitution is
//! disabled with the verbatim flag).

use crate::chain::close_command;
use crate::chain::parse_chain;
use crate::command::CommandModel;
use crate::command::CommandParseError;
use crate::command::ProceedIf;
use crate::command::SimpleCommand;
use crate::command::classify_separator;
use crate::subst::subst_chain;
use crate::subst::subst_command;
use vstd::prelude::*;

verus! {

/// Mathematical model of a chain template: the parsed commands and the
/// verbatim flag.
#[verifier::ext_equal]
pub ghost struct ConfigModel {
    pub commands: Seq<CommandModel>,
    pub verbatim: bool,
}

/// The commands of the resolved chain one rebuild runs: the template's
/// commands, with the triggering path substituted for the placeholder
/// unless the verbatim flag disables substitution.
pub open spec fn resolved_commands(cfg: ConfigModel, path: Seq<char>) -> Seq<CommandModel> {
    if cfg.verbatim {
        cfg.commands
    } else {
        subst_chain(cfg.commands, path)
    }
}

/// A chain template: the parsed atomic commands, in order, and the flag
/// that disables placeholder substitution.
#[derive(Debug, Clone)]
pub struct RebuildConfig {
    pub commands: Vec<SimpleCommand>,
    pub verbatim: bool,
}

impl View for RebuildConfig {
    type V = ConfigModel;

    open spec fn view(&self) -> ConfigModel {
        ConfigModel { commands: self.commands.deep_view(), verbatim: self.verbatim }
    }
}

impl RebuildConfig {
    /// Parses the flat command-line token list into a chain template,
    /// splitting on the separator tokens `;`, `&&` and `||`. Fails with
    /// [`CommandParseError::EmptyCommand`] exactly when a separator closes
    /// an empty command buffer.
    pub fn new(cmdline: Vec<String>, verbatim: bool) -> (r: Result<
        RebuildConfig,
        CommandParseError,
    >)
        ensures
            r is Ok <==> parse_chain(cmdline.deep_view(), Seq::<Seq<char>>::empty()) is Some,
            r is Ok ==> r->Ok_0@.commands == parse_chain(
                cmdline.deep_view(),
                Seq::<Seq<char>>::empty(),
            )->Some_0,
            r is Ok ==> r->Ok_0@.verbatim == verbatim,
            r is Err ==> r->Err_0 == CommandParseError::EmptyCommand,
    {
        let ghost toks = cmdline.deep_view();
        let mut commands: Vec<SimpleCommand> = Vec::new();
        let mut single_command: Vec<String> = Vec::new();
        let mut i: usize = 0;
        proof {
            assert(toks.skip(0) =~= toks);
            assert(single_command.deep_view() =~= Seq::<Seq<char>>::empty());
            assert(commands.deep_view() =~= Seq::<CommandModel>::empty());
            if parse_chain(toks, Seq::<Seq<char>>::empty()) is Some {
                assert(commands.deep_view() + parse_chain(toks, Seq::<Seq<char>>::empty())->Some_0
                    =~= parse_chain(toks, Seq::<Seq<char>>::empty())->Some_0);
            }
        }
        while i < cmdline.len()
            invariant
                i <= cmdline@.len(),
                toks == cmdline.deep_view(),
                toks.len() == cmdline@.len(),
                parse_chain(toks.skip(i as int), single_command.deep_view()) is Some
                    ==> parse_chain(toks, Seq::<Seq<char>>::empty()) == Some(
                    commands.deep_view() + parse_chain(
                        toks.skip(i as int),
                        single_command.deep_view(),
                    )->Some_0,
                ),
                parse_chain(toks.skip(i as int), single_command.deep_view()) is None
                    ==> parse_chain(toks, Seq::<Seq<char>>::empty()) is None,
            decreases cmdline@.len() - i,
        {
            let ghost pre_cmds = commands.deep_view();
            let ghost pre_buf = single_command.deep_view();
            proof {
                assert(toks.skip(i as int)[0] == toks[i as int]);
                assert(toks.skip(i as int).skip(1) =~= toks.skip(i as int + 1));
            }
            let tok = &cmdline[i];
            match classify_separator(tok) {
                Some(rule) => {
                    match SimpleCommand::new(&single_command, rule) {
                        Ok(cmd) => {
                            proof {
                                assert(cmd@ =~= close_command(pre_buf, rule));
                            }
                            commands.push(cmd);
                            proof {
                                assert(commands.deep_view() =~= pre_cmds.push(cmd@));
                            }
                        },
                        Err(e) => {
                            return Err(e);
                        },
                    }
                    single_command = Vec::new();
                    proof {
                        assert(single_command.deep_view() =~= Seq::<Seq<char>>::empty());
                        if parse_chain(toks.skip(i as int + 1), Seq::<Seq<char>>::empty())
                            is Some {
                            let rest = parse_chain(
                                toks.skip(i as int + 1),
                                Seq::<Seq<char>>::empty(),
                            )->Some_0;
                            assert(pre_cmds + (seq![
                                close_command(pre_buf, rule),
                            ] + rest) =~= commands.deep_view() + rest);
                        }
                    }
                },
                None => {
                    single_command.push(tok.clone());
                    proof {
                        assert(single_command.deep_view() =~= pre_buf.push(toks[i as int]));
                    }
                },
            }
            i += 1;
        }
        proof {
            assert(toks.skip(i as int) =~= Seq::<Seq<char>>::empty());
        }
        let ghost final_buf = single_command.deep_view();
        if single_command.len() > 0 {
            match SimpleCommand::new(&single_command, ProceedIf::Any) {
                Ok(cmd) => {
                    proof {
                        assert(cmd@ =~= close_command(final_buf, ProceedIf::Any));
                    }
                    let ghost pre_cmds = commands.deep_view();
                    commands.push(cmd);
                    proof {
                        assert(commands.deep_view() =~= pre_cmds.push(cmd@));
                        assert(pre_cmds + seq![cmd@] =~= pre_cmds.push(cmd@));
                    }
                },
                Err(e) => {
                    return Err(e);
                },
            }
        } else {
            proof {
                assert(commands.deep_view() + Seq::<CommandModel>::empty()
                    =~= commands.deep_view());
            }
        }
        Ok(RebuildConfig { commands, verbatim })
    }

    /// Derives the resolved chain for one triggered rebuild: a copy of the
    /// template in which, unless the verbatim flag is set, every
    /// occurrence of the placeholder in every argument is replaced by
    /// `path`. The template itself is never changed.
    pub fn set_filename(&self, path: &str) -> (r: RebuildConfig)
        ensures
            r@.verbatim == self@.verbatim,
            r@.commands == resolved_commands(self@, path@),
            self@.verbatim ==> r@.commands == self@.commands,
            !self@.verbatim ==> r@.commands == subst_chain(self@.commands, path@),
    {
        let mut commands: Vec<SimpleCommand> = Vec::new();
        let mut i: usize = 0;
        while i < self.commands.len()
            invariant
                i <= self.commands@.len(),
                commands@.len() == i,
                forall|k: int|
                    0 <= k < i ==> commands.deep_view()[k] == (if self.verbatim {
                        self.commands.deep_view()[k]
                    } else {
                        subst_command(self.commands.deep_view()[k], path@)
                    }),
            decreases self.commands@.len() - i,
        {
            let ghost pre = commands.deep_view();
            let mut cmd = self.commands[i].duplicate();
            if !self.verbatim {
                cmd.set_filename(path);
            }
            commands.push(cmd);
            proof {
                assert(commands.deep_view() =~= pre.push(cmd@));
            }
            i += 1;
        }
        proof {
            if self.verbatim {
                assert(commands.deep_view() =~= self.commands.deep_view());
            } else {
                assert(commands.deep_view() =~= subst_chain(self.commands.deep_view(), path@));
            }
        }
        RebuildConfig { commands, verbatim: self.verbatim }
    }
}

} // verus!
