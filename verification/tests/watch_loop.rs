use watchrun::config::RebuildConfig;
use watchrun::watch::{LoopAction, WatchEvent, WatchLoop, WatchState};

fn toks(words: &[&str]) -> Vec<String> {
    words.iter().map(|w| w.to_string()).collect()
}

fn chain(words: &[&str]) -> RebuildConfig {
    RebuildConfig::new(toks(words), false).unwrap()
}

#[test]
fn write_event_dispatches_resolved_rebuild() {
    let mut event_loop = WatchLoop::new(chain(&["cc", "{}"]));
    let action = event_loop.handle_event(WatchEvent::Write("main.c".to_string()));
    match action {
        LoopAction::Rebuild(resolved) => {
            assert_eq!(resolved.commands[0].command, "cc");
            assert_eq!(resolved.commands[0].args, vec!["main.c".to_string()]);
        }
        _ => panic!("a write event must dispatch a rebuild"),
    }
    assert_eq!(event_loop.state, WatchState::Watching);
}

#[test]
fn each_write_resolves_against_its_own_path() {
    let mut event_loop = WatchLoop::new(chain(&["cc", "{}"]));
    let first = event_loop.handle_event(WatchEvent::Write("a.c".to_string()));
    let second = event_loop.handle_event(WatchEvent::Write("b.c".to_string()));
    match (first, second) {
        (LoopAction::Rebuild(a), LoopAction::Rebuild(b)) => {
            assert_eq!(a.commands[0].args, vec!["a.c".to_string()]);
            assert_eq!(b.commands[0].args, vec!["b.c".to_string()]);
        }
        _ => panic!("both write events must dispatch rebuilds"),
    }
}

#[test]
fn other_events_are_ignored() {
    let mut event_loop = WatchLoop::new(chain(&["make"]));
    assert!(matches!(event_loop.handle_event(WatchEvent::Other), LoopAction::Ignore));
    assert_eq!(event_loop.state, WatchState::Watching);
}

#[test]
fn source_error_warns_and_keeps_watching() {
    let mut event_loop = WatchLoop::new(chain(&["make"]));
    assert!(matches!(
        event_loop.handle_event(WatchEvent::SourceError),
        LoopAction::WarnEventSource
    ));
    assert_eq!(event_loop.state, WatchState::Watching);
}

#[test]
fn remove_event_stops_the_loop() {
    let mut event_loop = WatchLoop::new(chain(&["make"]));
    assert!(matches!(
        event_loop.handle_event(WatchEvent::Remove),
        LoopAction::StopAndDrain
    ));
    assert_eq!(event_loop.state, WatchState::Stopped);
}

#[test]
fn no_write_is_processed_after_remove() {
    let mut event_loop = WatchLoop::new(chain(&["make"]));
    event_loop.handle_event(WatchEvent::Remove);
    let after = event_loop.handle_event(WatchEvent::Write("f".to_string()));
    assert!(matches!(after, LoopAction::Ignore));
    assert_eq!(event_loop.state, WatchState::Stopped);
    let again = event_loop.handle_event(WatchEvent::Remove);
    assert!(matches!(again, LoopAction::Ignore));
}
