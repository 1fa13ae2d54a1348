use watchrun::command::ProceedIf;
use watchrun::config::RebuildConfig;
use watchrun::dispatch::{
    dispatch_action, DispatchAction, ManagerMessage, Reaper, ReaperAction,
};
use watchrun::executor::{continue_after, rebuild_sync, CommandOutcome};

fn toks(words: &[&str]) -> Vec<String> {
    words.iter().map(|w| w.to_string()).collect()
}

#[test]
fn gate_any_proceeds_on_any_exit() {
    assert!(continue_after(ProceedIf::Any, CommandOutcome::Exited(true)));
    assert!(continue_after(ProceedIf::Any, CommandOutcome::Exited(false)));
}

#[test]
fn gate_success_proceeds_only_on_success() {
    assert!(continue_after(ProceedIf::Success, CommandOutcome::Exited(true)));
    assert!(!continue_after(ProceedIf::Success, CommandOutcome::Exited(false)));
}

#[test]
fn gate_failure_proceeds_only_on_failure() {
    assert!(!continue_after(ProceedIf::Failure, CommandOutcome::Exited(true)));
    assert!(continue_after(ProceedIf::Failure, CommandOutcome::Exited(false)));
}

#[test]
fn spawn_failure_never_proceeds() {
    assert!(!continue_after(ProceedIf::Any, CommandOutcome::SpawnFailed));
    assert!(!continue_after(ProceedIf::Success, CommandOutcome::SpawnFailed));
    assert!(!continue_after(ProceedIf::Failure, CommandOutcome::SpawnFailed));
}

#[test]
fn semicolon_runs_second_command_either_way() {
    let config = RebuildConfig::new(toks(&["a", ";", "b"]), false).unwrap();
    let failing = vec![CommandOutcome::Exited(false), CommandOutcome::Exited(true)];
    let passing = vec![CommandOutcome::Exited(true), CommandOutcome::Exited(true)];
    assert_eq!(rebuild_sync(&config, &failing), 2);
    assert_eq!(rebuild_sync(&config, &passing), 2);
}

#[test]
fn and_chain_skips_marker_after_failure() {
    // The scenario [exit-1 command, "&&", marker] never reaches the marker.
    let config = RebuildConfig::new(toks(&["exit1", "&&", "marker"]), false).unwrap();
    let outcomes = vec![CommandOutcome::Exited(false), CommandOutcome::Exited(true)];
    assert_eq!(rebuild_sync(&config, &outcomes), 1);
}

#[test]
fn and_chain_reaches_marker_after_success() {
    let config = RebuildConfig::new(toks(&["ok", "&&", "marker"]), false).unwrap();
    let outcomes = vec![CommandOutcome::Exited(true), CommandOutcome::Exited(true)];
    assert_eq!(rebuild_sync(&config, &outcomes), 2);
}

#[test]
fn or_chain_reaches_marker_after_failure() {
    // The scenario [exit-1 command, "||", marker] always reaches the marker.
    let config = RebuildConfig::new(toks(&["exit1", "||", "marker"]), false).unwrap();
    let outcomes = vec![CommandOutcome::Exited(false), CommandOutcome::Exited(true)];
    assert_eq!(rebuild_sync(&config, &outcomes), 2);
}

#[test]
fn or_chain_skips_marker_after_success() {
    let config = RebuildConfig::new(toks(&["ok", "||", "marker"]), false).unwrap();
    let outcomes = vec![CommandOutcome::Exited(true), CommandOutcome::Exited(true)];
    assert_eq!(rebuild_sync(&config, &outcomes), 1);
}

#[test]
fn spawn_failure_terminates_the_chain() {
    let config = RebuildConfig::new(toks(&["gone", ";", "b", ";", "c"]), false).unwrap();
    let outcomes = vec![
        CommandOutcome::SpawnFailed,
        CommandOutcome::Exited(true),
        CommandOutcome::Exited(true),
    ];
    assert_eq!(rebuild_sync(&config, &outcomes), 1);
}

#[test]
fn empty_chain_runs_nothing() {
    let config = RebuildConfig::new(Vec::new(), false).unwrap();
    assert_eq!(rebuild_sync(&config, &Vec::new()), 0);
}

#[test]
fn sync_dispatch_runs_inline() {
    assert_eq!(dispatch_action(false), DispatchAction::RunInline);
}

#[test]
fn async_dispatch_spawns_detached() {
    assert_eq!(dispatch_action(true), DispatchAction::SpawnDetached);
}

#[test]
fn reaper_joins_work_in_submission_order_then_stops() {
    let mut reaper = Reaper::new();
    assert!(reaper.running);
    assert_eq!(reaper.step(ManagerMessage::NewWork(1)), ReaperAction::Join(1));
    assert_eq!(reaper.step(ManagerMessage::NewWork(2)), ReaperAction::Join(2));
    assert_eq!(reaper.step(ManagerMessage::NewWork(3)), ReaperAction::Join(3));
    assert!(reaper.running);
    assert_eq!(reaper.step(ManagerMessage::Finish), ReaperAction::Stop);
    assert!(!reaper.running);
}
