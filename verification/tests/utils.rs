use rusty_valve::text_map::TextMap;
use rusty_valve::utils::conn_tracker::ConnTracker;
use rusty_valve::utils::interrupt::{Interrupt, InterruptAction, Interrupts};
use rusty_valve::utils::logging::{
    message_stream, LogFile, LogLevel, LogStream, LoggerConfig,
};
use rusty_valve::utils::task_tracker::{
    send_outcome, tracking_signal_channel, SendFault, SignalChannel, TaskCounter, TaskTracker,
    TaskWaiter, TrackerInner, TrackingSignal,
};

fn text(s: &str) -> Option<String> {
    Some(s.to_string())
}

#[test]
fn log_levels_from_the_environment() {
    let level = |variable: Option<&str>, debug_build: bool| {
        let config = LoggerConfig::with_environment(variable.map(|s| s.to_string()), debug_build);
        assert_eq!(config.print_level, config.logfile_level);
        config.print_level
    };
    assert_eq!(level(None, true), LogLevel::Trace);
    assert_eq!(level(None, false), LogLevel::Info);
    assert_eq!(level(Some("nonsense"), false), LogLevel::Info);
    assert_eq!(level(Some("ERROR"), true), LogLevel::Error);
    assert_eq!(level(Some(""), false), LogLevel::Error);
    assert_eq!(level(Some("off"), false), LogLevel::Off);
    assert_eq!(level(Some("0"), false), LogLevel::Off);
    assert_eq!(level(Some("+1"), false), LogLevel::Error);
    assert_eq!(level(Some("2"), false), LogLevel::Warn);
    assert_eq!(level(Some("3"), true), LogLevel::Info);
    assert_eq!(level(Some("004"), false), LogLevel::Debug);
    assert_eq!(level(Some("5"), false), LogLevel::Trace);
    assert_eq!(level(Some("6"), false), LogLevel::Info);
    assert_eq!(level(Some("99999999999999999999999"), false), LogLevel::Info);
    assert_eq!(level(Some(" info"), true), LogLevel::Trace);
}

#[test]
fn log_is_printed_without_a_file() {
    let mut config = LoggerConfig::with_environment(None, false);
    assert!(config.prints());
    config.log_path = text("/var/log");
    assert!(!config.prints());
    config.stdout_log = Some(true);
    assert!(config.prints());
    config.log_path = None;
    config.stdout_log = Some(false);
    assert!(!config.prints());
}

#[test]
fn log_plans() {
    let config = |path: Option<&str>| LoggerConfig {
        print_level: LogLevel::Info,
        logfile_level: LogLevel::Debug,
        stdout_log: None,
        log_path: path.map(|p| p.to_string()),
    };
    let plan = config(None).plan(false, None, None);
    assert_eq!(plan.print, Some(LogLevel::Info));
    assert_eq!(plan.file, None);
    let plan = config(Some("/var/log")).plan(true, text("log"), text("/var"));
    assert_eq!(plan.print, None);
    assert_eq!(
        plan.file,
        Some((
            LogFile::Daily { directory: "/var/log".to_string(), prefix: "log".to_string() },
            LogLevel::Debug
        ))
    );
    let plan = config(Some("/var/log/x")).plan(false, text("x"), text("/var/log"));
    assert_eq!(
        plan.file,
        Some((
            LogFile::Single { directory: "/var/log".to_string(), name: "x".to_string() },
            LogLevel::Debug
        ))
    );
    assert_eq!(config(Some("/")).plan(false, None, None).file, None);
    assert_eq!(config(Some("x/..")).plan(false, None, text("x")).file, None);
}

#[test]
fn signals_and_channels() {
    assert_eq!(TrackingSignal::TaskStarted.name(), "start");
    assert_eq!(TrackingSignal::TaskStopped.name(), "stop");
    let signal = TrackingSignal::TaskStopped;
    assert_eq!(send_outcome(signal, Ok(())), Ok(()));
    assert_eq!(send_outcome(signal, Err(SendFault::Full)), Err(signal));
    assert_eq!(send_outcome(signal, Err(SendFault::Closed)), Err(signal));
    assert_eq!(tracking_signal_channel(Some(5000)), SignalChannel::Bounded(5000));
    assert_eq!(tracking_signal_channel(None), SignalChannel::Unbounded);
}

#[test]
fn tasks_are_counted_while_they_run() {
    let waiter: TaskWaiter<char, char, u8> = TaskWaiter::new('s', 'r', 0);
    assert_eq!(waiter.settings.max_conns, None);
    assert_eq!(waiter.settings.max_conn_time, None);
    let mut counter = TaskCounter::new();
    let parent = waiter.create_tracker("weak", 1);
    assert!(!parent.local_task);
    let child = parent.child(Some('s'), 2, &mut counter).unwrap();
    let grandchild = child.child(Some('s'), 3, &mut counter).unwrap();
    assert_eq!(counter.current_task_count(), 2);
    assert!(matches!(grandchild.inner, TrackerInner::Child('s')));
    assert_eq!(grandchild.cancellation_token, 3);
    // each task has its own token cancelled, and a parent none
    assert_eq!(grandchild.token_to_cancel(), Some(&3));
    assert_eq!(child.token_to_cancel(), Some(&2));
    assert_eq!(parent.token_to_cancel(), None);
    assert_eq!(grandchild.stopped(&mut counter), Some(TrackingSignal::TaskStopped));
    assert_eq!(child.stopped(&mut counter), Some(TrackingSignal::TaskStopped));
    assert_eq!(counter.current_task_count(), 0);
    assert_eq!(parent.stopped(&mut counter), None);
    assert_eq!(counter.current_task_count(), 0);
    // a task whose channel is closed is counted though it has no tracker
    assert!(parent.child(None, 4, &mut counter).is_none());
    assert_eq!(counter.current_task_count(), 1);
    counter.stop();
    counter.stop();
    assert_eq!(counter.current_task_count(), usize::MAX);
    counter.start();
    assert_eq!(counter.current_task_count(), 0);
}

#[test]
fn trackers_and_waiters() {
    let waiter: TaskWaiter<char, char, u8> = TaskWaiter::new('s', 'r', 0);
    let local = waiter.create_local_tracker("weak", 1);
    assert!(local.local_task);
    let mut counter = TaskCounter::new();
    assert!(local.child(Some('s'), 2, &mut counter).unwrap().local_task);
    let (tracker, waiter) = TaskTracker::new("weak", 1, 's', 'r', 2);
    assert!(!tracker.local_task);
    assert!(matches!(tracker.inner, TrackerInner::Parent("weak")));
    assert_eq!((tracker.cancellation_token, waiter.cancellation_token), (1, 2));
    assert_eq!((waiter.signal_sender, waiter.signal_receiver), ('s', 'r'));
    let (tracker, _) = TaskTracker::new_local("weak", 1, 's', 'r', 2);
    assert!(!tracker.local_task);
}

#[test]
fn trackers_are_closed_when_both_are() {
    let mut pair = ConnTracker::new('t', 'c');
    assert_eq!((*pair.task_tracker(), *pair.cancellation_token()), ('t', 'c'));
    assert!(!pair.is_closed(false, false));
    assert!(!pair.is_closed(true, false));
    assert!(!pair.is_closed(false, true));
    assert!(!pair.child('t', 'd').is_closed(true, false));
    assert!(pair.is_closed(true, true));
}

#[test]
fn closed_trackers_stay_closed() {
    let mut pair = ConnTracker::new('t', 'c');
    assert!(pair.is_closed(true, true));
    // the tracker is reopened
    assert!(pair.is_closed(true, false));
    assert!(pair.is_closed(true, true));
    assert!(pair.is_closed(true, false));
    let mut child = pair.child('t', 'd');
    assert_eq!((*child.task_tracker(), *child.cancellation_token()), ('t', 'd'));
    assert!(child.is_closed(true, false));
}

#[test]
fn log_streams() {
    assert_eq!(message_stream(Some(LogLevel::Info), LogLevel::Error), Some(LogStream::Stderr));
    assert_eq!(message_stream(Some(LogLevel::Info), LogLevel::Warn), Some(LogStream::Stderr));
    assert_eq!(message_stream(Some(LogLevel::Info), LogLevel::Info), Some(LogStream::Stdout));
    assert_eq!(message_stream(Some(LogLevel::Info), LogLevel::Debug), None);
    assert_eq!(message_stream(Some(LogLevel::Trace), LogLevel::Trace), Some(LogStream::Stdout));
    assert_eq!(message_stream(Some(LogLevel::Error), LogLevel::Warn), None);
    assert_eq!(message_stream(Some(LogLevel::Off), LogLevel::Error), None);
    assert_eq!(message_stream(Some(LogLevel::Trace), LogLevel::Off), None);
    assert_eq!(message_stream(None, LogLevel::Error), None);
    assert_eq!(LogLevel::Off.stream(), None);
    assert_eq!(LogLevel::Error.stream(), Some(LogStream::Stderr));
    assert_eq!(LogLevel::Warn.stream(), Some(LogStream::Stderr));
    assert_eq!(LogLevel::Info.stream(), Some(LogStream::Stdout));
    assert_eq!(LogLevel::Debug.stream(), Some(LogStream::Stdout));
    assert_eq!(LogLevel::Trace.stream(), Some(LogStream::Stdout));
}

#[test]
fn interrupts_up_to_the_limit() {
    let mut interrupts = Interrupts::new(2);
    for count in 0..2 {
        assert!(interrupts.waiting());
        assert_eq!(
            interrupts.handle(Interrupt::Keyboard),
            InterruptAction::Shutdown { count, limit: 2 }
        );
    }
    assert!(!interrupts.waiting());
    let mut interrupts = Interrupts::new(5);
    assert_eq!(interrupts.handle(Interrupt::Terminate), InterruptAction::Leave);
    assert!(!interrupts.waiting());
    assert!(!Interrupts::new(0).waiting());
    // the request to terminate comes after some interrupts
    let mut interrupts = Interrupts::new(3);
    assert_eq!(
        interrupts.handle(Interrupt::Keyboard),
        InterruptAction::Shutdown { count: 0, limit: 3 }
    );
    assert!(interrupts.waiting());
    assert_eq!(interrupts.handle(Interrupt::Terminate), InterruptAction::Leave);
    assert!(!interrupts.waiting());
}

#[test]
fn text_maps() {
    let mut map = TextMap::from_entries(vec![("a".to_string(), 1), ("c".to_string(), 2)]);
    assert!(!map.is_empty());
    assert_eq!(map.get("b"), None);
    map.insert("b".to_string(), 3);
    map.insert("b".to_string(), 4);
    assert_eq!(map.get("b"), Some(&4));
    assert_eq!(map.remove("b"), Some(4));
    assert_eq!(map.remove("b"), None);
    assert_eq!(map.remove("a"), Some(1));
    assert_eq!(map.remove("c"), Some(2));
    assert!(map.is_empty());
    assert!(map.into_entries().is_empty());
}
