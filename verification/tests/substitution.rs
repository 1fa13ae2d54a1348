use watchrun::command::{ProceedIf, SimpleCommand};
use watchrun::config::RebuildConfig;
use watchrun::subst::replace_placeholder;

fn toks(words: &[&str]) -> Vec<String> {
    words.iter().map(|w| w.to_string()).collect()
}

#[test]
fn replace_single_occurrence() {
    assert_eq!(replace_placeholder("cp {} /tmp", "a.txt"), "cp a.txt /tmp");
}

#[test]
fn replace_all_occurrences() {
    assert_eq!(replace_placeholder("{}-{}", "x"), "x-x");
    assert_eq!(replace_placeholder("{}{}{}", "ab"), "ababab");
}

#[test]
fn replace_without_occurrence_is_identity() {
    assert_eq!(replace_placeholder("plain", "x"), "plain");
    assert_eq!(replace_placeholder("", "x"), "");
    assert_eq!(replace_placeholder("{ }", "x"), "{ }");
    assert_eq!(replace_placeholder("}{", "x"), "}{");
}

#[test]
fn replace_scans_left_to_right() {
    // The match at the first position wins; the brace before it stays.
    assert_eq!(replace_placeholder("{{}}", "x"), "{x}");
    assert_eq!(replace_placeholder("{{}}", ""), "{}");
}

#[test]
fn set_filename_rewrites_arguments_only() {
    let mut cmd =
        SimpleCommand::new(&toks(&["{}", "{}", "before-{}-after"]), ProceedIf::Any).unwrap();
    cmd.set_filename("f.txt");
    // The executable name keeps its placeholder; every argument is rewritten.
    assert_eq!(cmd.command, "{}");
    assert_eq!(
        cmd.args,
        vec!["f.txt".to_string(), "before-f.txt-after".to_string()]
    );
}

#[test]
fn config_set_filename_resolves_every_command() {
    let config =
        RebuildConfig::new(toks(&["cc", "{}", "&&", "echo", "built", "{}"]), false).unwrap();
    let resolved = config.set_filename("main.c");
    assert_eq!(resolved.commands[0].args, vec!["main.c".to_string()]);
    assert_eq!(
        resolved.commands[1].args,
        vec!["built".to_string(), "main.c".to_string()]
    );
    // The template itself is never mutated.
    assert_eq!(config.commands[0].args, vec!["{}".to_string()]);
}

#[test]
fn verbatim_leaves_every_argument_alone() {
    let config =
        RebuildConfig::new(toks(&["echo", "{}", ";", "touch", "{}"]), true).unwrap();
    let resolved = config.set_filename("f.txt");
    assert_eq!(resolved.commands[0].args, vec!["{}".to_string()]);
    assert_eq!(resolved.commands[1].args, vec!["{}".to_string()]);
    assert!(resolved.verbatim);
}

#[test]
fn substitution_twice_gives_same_resolved_chain() {
    // Idempotence on an input whose placeholder does not recur after
    // replacement.
    let config = RebuildConfig::new(toks(&["cp", "{}", "{}.bak"]), false).unwrap();
    let once = config.set_filename("notes.txt");
    let twice = once.set_filename("notes.txt");
    assert_eq!(once.commands[0].args, twice.commands[0].args);
    assert_eq!(once.commands[0].command, twice.commands[0].command);
    assert_eq!(once.commands.len(), twice.commands.len());
}
