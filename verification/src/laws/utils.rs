//! The log, the counting of tasks, and interrupts.

use vstd::prelude::*;
use crate::laws::text::{case_of_ascii_letters, other_case};
use crate::text::{same_ignoring_case, unsigned_value};
use crate::utils::conn_tracker::ConnTracker;
use crate::utils::interrupt::{Interrupt, InterruptAction, Interrupts};
use crate::utils::logging::{
    level_value, message_stream, opt_text, LogFile, LogLevel, LogPlan, LogStream, LoggerConfig,
};
use crate::utils::task_tracker::{
    send_outcome, tracking_signal_channel, SendFault, SignalChannel, TaskCounter, TaskTracker,
    TaskWaiter, TrackerInner, TrackingSignal,
};

verus! {

/// A text that may be missing is seen as it is.
pub proof fn texts_are_seen_whole(s: String)
    ensures
        opt_text(Some(s)) == Some(s@),
        opt_text(None) is None,
{
}

/// A level by its number.
pub open spec fn level_number(level: LogLevel) -> nat {
    match level {
        LogLevel::Off => 0,
        LogLevel::Error => 1,
        LogLevel::Warn => 2,
        LogLevel::Info => 3,
        LogLevel::Debug => 4,
        LogLevel::Trace => 5,
    }
}

/// A number from zero to five is the level with that number, and no larger number is a level.
pub proof fn levels_have_numbers(s: Seq<char>, level: LogLevel)
    requires
        unsigned_value(s) is Some,
    ensures
        level_value(s) == Some(level) <==> unsigned_value(s) == Some(level_number(level)),
        unsigned_value(s)->0 > 5 ==> level_value(s) is None,
{
}

/// The words for the levels, small.
pub open spec fn level_word(level: LogLevel) -> Seq<char> {
    match level {
        LogLevel::Off => seq!['o', 'f', 'f'],
        LogLevel::Error => seq!['e', 'r', 'r', 'o', 'r'],
        LogLevel::Warn => seq!['w', 'a', 'r', 'n'],
        LogLevel::Info => seq!['i', 'n', 'f', 'o'],
        LogLevel::Debug => seq!['d', 'e', 'b', 'u', 'g'],
        LogLevel::Trace => seq!['t', 'r', 'a', 'c', 'e'],
    }
}

proof fn lemma_words()
    ensures
        level_word(LogLevel::Off) == "off"@,
        level_word(LogLevel::Error) == "error"@,
        level_word(LogLevel::Warn) == "warn"@,
        level_word(LogLevel::Info) == "info"@,
        level_word(LogLevel::Debug) == "debug"@,
        level_word(LogLevel::Trace) == "trace"@,
{
    reveal_strlit("off");
    reveal_strlit("error");
    reveal_strlit("warn");
    reveal_strlit("info");
    reveal_strlit("debug");
    reveal_strlit("trace");
    assert(level_word(LogLevel::Off) =~= "off"@);
    assert(level_word(LogLevel::Error) =~= "error"@);
    assert(level_word(LogLevel::Warn) =~= "warn"@);
    assert(level_word(LogLevel::Info) =~= "info"@);
    assert(level_word(LogLevel::Debug) =~= "debug"@);
    assert(level_word(LogLevel::Trace) =~= "trace"@);
}

/// A word for a level has its length and its first letter, small or capital.
proof fn lemma_first_letter(s: Seq<char>, level: LogLevel)
    requires
        same_ignoring_case(s, level_word(level)),
    ensures
        s.len() == level_word(level).len(),
        s.len() > 0,
        s[0] == level_word(level)[0] || other_case(s[0], level_word(level)[0]),
{
    case_of_ascii_letters(s, level_word(level));
    assert(s[0] == level_word(level)[0] || other_case(s[0], level_word(level)[0]));
}

/// A text that is no number is a level by its word, each letter small or capital. The empty text is
/// the level for errors, and no other text is a level.
pub proof fn levels_have_words(s: Seq<char>, level: LogLevel)
    requires
        unsigned_value(s) is None,
    ensures
        s.len() == 0 ==> level_value(s) == Some(LogLevel::Error),
        s.len() > 0 ==> (level_value(s) == Some(level) <==> s.len() == level_word(level).len()
            && forall|i: int|
            0 <= i < s.len() ==> (#[trigger] s[i] == level_word(level)[i] || other_case(
                s[i],
                level_word(level)[i],
            ))),
{
    lemma_words();
    case_of_ascii_letters(s, level_word(level));
    if s.len() > 0 {
        if same_ignoring_case(s, level_word(level)) {
            lemma_first_letter(s, level);
        }
        if same_ignoring_case(s, level_word(LogLevel::Off)) {
            lemma_first_letter(s, LogLevel::Off);
        }
        if same_ignoring_case(s, level_word(LogLevel::Error)) {
            lemma_first_letter(s, LogLevel::Error);
        }
        if same_ignoring_case(s, level_word(LogLevel::Warn)) {
            lemma_first_letter(s, LogLevel::Warn);
        }
        if same_ignoring_case(s, level_word(LogLevel::Info)) {
            lemma_first_letter(s, LogLevel::Info);
        }
        if same_ignoring_case(s, level_word(LogLevel::Debug)) {
            lemma_first_letter(s, LogLevel::Debug);
        }
        if same_ignoring_case(s, level_word(LogLevel::Trace)) {
            lemma_first_letter(s, LogLevel::Trace);
        }
    }
}

/// The log starts with the level that the environment gives. Where it gives none that can be read,
/// a debug build logs everything and another build what is for information. Nothing is said yet of
/// a file or of printing.
pub proof fn the_environment_sets_the_level(
    variable: Option<String>,
    debug_build: bool,
    r: LoggerConfig,
)
    requires
        call_ensures(LoggerConfig::with_environment, (variable, debug_build), r),
    ensures
        r.logfile_level == r.print_level,
        r.stdout_log is None,
        r.log_path is None,
        match variable {
            Some(text) => match level_value(text@) {
                Some(level) => r.print_level == level,
                None => r.print_level == if debug_build {
                    LogLevel::Trace
                } else {
                    LogLevel::Info
                },
            },
            None => r.print_level == if debug_build {
                LogLevel::Trace
            } else {
                LogLevel::Info
            },
        },
{
}

/// A message is printed where its level is not above the one to print, errors and warnings to
/// standard error and the others to standard output. `Off` is the level of no message.
pub proof fn messages_go_to_one_stream(
    print: Option<LogLevel>,
    level: LogLevel,
    stream: Option<LogStream>,
    r: Option<LogStream>,
)
    requires
        call_ensures(LogLevel::stream, (level,), stream),
        call_ensures(message_stream, (print, level), r),
    ensures
        level is Off ==> stream is None,
        level is Error || level is Warn ==> stream == Some(LogStream::Stderr),
        level is Info || level is Debug || level is Trace ==> stream == Some(LogStream::Stdout),
        print is None ==> r is None,
        print matches Some(limit) ==> r == if level_number(level) <= level_number(limit) {
            stream
        } else {
            None
        },
{
}

/// The log is printed as the settings say, or else where there is no file for it. It goes to the
/// file of its path: a new file every day where the path is a directory, and one file otherwise, if
/// the path has a name and a parent.
pub proof fn the_log_is_planned(
    config: LoggerConfig,
    prints: bool,
    is_directory: bool,
    name: Option<String>,
    parent: Option<String>,
    plan: LogPlan,
)
    requires
        call_ensures(LoggerConfig::prints, (&config,), prints),
        call_ensures(LoggerConfig::plan, (config, is_directory, name, parent), plan),
    ensures
        prints <==> config.stdout_log == Some(true) || config.stdout_log is None && config.log_path
            is None,
        plan.print == if prints {
            Some(config.print_level)
        } else {
            None
        },
        plan.file is Some <==> config.log_path is Some && (is_directory || name is Some && parent
            is Some),
        plan.file matches Some((file, level)) ==> {
            &&& level == config.logfile_level
            &&& match file {
                LogFile::Daily { directory, prefix } => {
                    &&& is_directory
                    &&& directory@ == config.log_path->0@
                    &&& prefix@ == "log"@
                },
                LogFile::Single { directory, name: n } => {
                    &&& !is_directory
                    &&& directory@ == parent->0@
                    &&& n@ == name->0@
                },
            }
        },
{
}

/// A counter starts at zero. A task that starts adds one to it and a task that stops takes one
/// away, and it wraps round.
pub proof fn tasks_are_counted_by_one(
    fresh: TaskCounter,
    zero: usize,
    before: TaskCounter,
    n: usize,
    started: TaskCounter,
    more: usize,
    stopped: TaskCounter,
    less: usize,
)
    requires
        call_ensures(TaskCounter::new, (), fresh),
        call_ensures(TaskCounter::current_task_count, (&fresh,), zero),
        call_ensures(TaskCounter::current_task_count, (&before,), n),
        exists|c: &mut TaskCounter|
            *c == before && *final(c) == started && #[trigger] call_ensures(
                TaskCounter::start,
                (c,),
                (),
            ),
        call_ensures(TaskCounter::current_task_count, (&started,), more),
        exists|c: &mut TaskCounter|
            *c == before && *final(c) == stopped && #[trigger] call_ensures(
                TaskCounter::stop,
                (c,),
                (),
            ),
        call_ensures(TaskCounter::current_task_count, (&stopped,), less),
    ensures
        zero == 0,
        n < usize::MAX ==> more == n + 1,
        n == usize::MAX ==> more == 0,
        n > 0 ==> less == n - 1,
        n == 0 ==> less == usize::MAX,
{
}

/// A signal has its word, and one that is not taken comes back. A channel has the bound of its
/// buffer, and none without a buffer.
pub proof fn signals_are_sent_or_come_back(
    signal: TrackingSignal,
    word: &'static str,
    fault: SendFault,
    sent: Result<(), TrackingSignal>,
    refused: Result<(), TrackingSignal>,
    buffer: usize,
    bounded: SignalChannel,
    unbounded: SignalChannel,
)
    requires
        call_ensures(TrackingSignal::name, (&signal,), word),
        call_ensures(send_outcome, (signal, Ok::<(), SendFault>(())), sent),
        call_ensures(send_outcome, (signal, Err::<(), SendFault>(fault)), refused),
        call_ensures(tracking_signal_channel, (Some(buffer),), bounded),
        call_ensures(tracking_signal_channel, (None::<usize>,), unbounded),
    ensures
        signal is TaskStarted ==> word@ == "start"@,
        signal is TaskStopped ==> word@ == "stop"@,
        sent is Ok,
        refused == Err::<(), TrackingSignal>(signal),
        bounded == SignalChannel::Bounded(buffer),
        unbounded == SignalChannel::Unbounded,
{
}

/// A tracker and its waiter are made from what they are given, without bounds on the tasks. A
/// tracker that a waiter makes has the bounds of the waiter, and only a local one ties its tasks to
/// a thread.
pub proof fn trackers_keep_what_they_are_given<W, S, C, R>(
    weak: W,
    token: C,
    sender: S,
    receiver: R,
    waiter_token: C,
    made: (TaskTracker<W, S, C>, TaskWaiter<R, S, C>),
    made_local: (TaskTracker<W, S, C>, TaskWaiter<R, S, C>),
    waiter: TaskWaiter<R, S, C>,
    tracker: TaskTracker<W, S, C>,
    local: TaskTracker<W, S, C>,
)
    requires
        call_ensures(
            TaskTracker::<W, S, C>::new::<R>,
            (weak, token, sender, receiver, waiter_token),
            made,
        ),
        call_ensures(
            TaskTracker::<W, S, C>::new_local::<R>,
            (weak, token, sender, receiver, waiter_token),
            made_local,
        ),
        call_ensures(TaskWaiter::<R, S, C>::new, (sender, receiver, waiter_token), waiter),
        call_ensures(TaskWaiter::<R, S, C>::create_tracker::<W>, (&waiter, weak, token), tracker),
        call_ensures(
            TaskWaiter::<R, S, C>::create_local_tracker::<W>,
            (&waiter, weak, token),
            local,
        ),
    ensures
        made.0.inner == TrackerInner::<W, S>::Parent(weak),
        made.0.settings.max_conns is None && made.0.settings.max_conn_time is None,
        made.0.cancellation_token == token,
        !made.0.local_task,
        made.1.settings == made.0.settings,
        made.1.cancellation_token == waiter_token,
        made.1.signal_sender == sender,
        made.1.signal_receiver == receiver,
        made_local == made,
        waiter == made.1,
        tracker.inner == TrackerInner::<W, S>::Parent(weak),
        tracker.settings == waiter.settings,
        tracker.cancellation_token == token,
        !tracker.local_task,
        local.inner == TrackerInner::<W, S>::Parent(weak),
        local.settings == waiter.settings,
        local.cancellation_token == token,
        local.local_task,
{
}

/// A task that starts is counted, and has a tracker of its own where the channel is open. When that
/// goes away the task is discounted, its stop is signalled and its token is the one to cancel. A
/// parent that goes away counts, signals and cancels nothing.
pub proof fn tasks_start_and_stop<W, S, C>(
    tracker: TaskTracker<W, S, C>,
    sender: Option<S>,
    token: C,
    before: TaskCounter,
    child: Option<TaskTracker<W, S, C>>,
    during: TaskCounter,
    any: TaskTracker<W, S, C>,
    signal: Option<TrackingSignal>,
    after: TaskCounter,
    cancelled: Option<&C>,
    n: usize,
    more: usize,
    left: usize,
)
    requires
        exists|c: &mut TaskCounter|
            *c == before && *final(c) == during && #[trigger] call_ensures(
                TaskTracker::<W, S, C>::child,
                (&tracker, sender, token, c),
                child,
            ),
        exists|c: &mut TaskCounter|
            *c == during && *final(c) == after && #[trigger] call_ensures(
                TaskTracker::<W, S, C>::stopped,
                (&any, c),
                signal,
            ),
        call_ensures(TaskTracker::<W, S, C>::token_to_cancel, (&any,), cancelled),
        call_ensures(TaskCounter::current_task_count, (&before,), n),
        call_ensures(TaskCounter::current_task_count, (&during,), more),
        call_ensures(TaskCounter::current_task_count, (&after,), left),
    ensures
        n < usize::MAX ==> more == n + 1,
        n == usize::MAX ==> more == 0,
        child is Some <==> sender is Some,
        child matches Some(c) ==> {
            &&& c.inner == TrackerInner::<W, S>::Child(sender->0)
            &&& c.settings == tracker.settings
            &&& c.cancellation_token == token
            &&& c.local_task == tracker.local_task
        },
        any.inner is Child ==> {
            &&& signal == Some(TrackingSignal::TaskStopped)
            &&& cancelled == Some(&any.cancellation_token)
            &&& left == n
        },
        any.inner is Parent ==> signal is None && cancelled is None && left == more,
{
}

/// A pair starts open and keeps its tracker and its token. It is found closed where its token is
/// cancelled and its tracker closed, and stays so. What is below a pair is closed where the pair
/// is.
pub proof fn pairs_are_closed_for_good<T, C>(
    tracker: T,
    token: C,
    fresh: ConnTracker<T, C>,
    before: ConnTracker<T, C>,
    cancelled: bool,
    tracker_closed: bool,
    found: bool,
    after: ConnTracker<T, C>,
    again: bool,
    later: ConnTracker<T, C>,
    below: ConnTracker<T, C>,
    of_tracker: &T,
    of_token: &C,
)
    requires
        call_ensures(ConnTracker::<T, C>::new, (tracker, token), fresh),
        exists|p: &mut ConnTracker<T, C>|
            *p == before && *final(p) == after && #[trigger] call_ensures(
                ConnTracker::<T, C>::is_closed,
                (p, cancelled, tracker_closed),
                found,
            ),
        exists|p: &mut ConnTracker<T, C>|
            *p == after && *final(p) == later && #[trigger] call_ensures(
                ConnTracker::<T, C>::is_closed,
                (p, false, false),
                again,
            ),
        call_ensures(ConnTracker::<T, C>::child, (&after, tracker, token), below),
        call_ensures(ConnTracker::<T, C>::task_tracker, (&below,), of_tracker),
        call_ensures(ConnTracker::<T, C>::cancellation_token, (&below,), of_token),
    ensures
        !fresh@.found_closed,
        fresh@.task_tracker == tracker,
        fresh@.cancellation_token == token,
        found <==> before@.found_closed || cancelled && tracker_closed,
        again == found,
        later@.task_tracker == before@.task_tracker,
        later@.cancellation_token == before@.cancellation_token,
        below@.found_closed == found,
        *of_tracker == tracker,
        *of_token == token,
{
}

/// Interrupts are waited for up to the limit. One from the keyboard is counted and shuts down, with
/// the number of those before it; the request to terminate ends the waiting.
pub proof fn interrupts_are_handled(
    limit: usize,
    fresh: Interrupts,
    before: Interrupts,
    waiting: bool,
    interrupt: Interrupt,
    action: InterruptAction,
    after: Interrupts,
    still: bool,
)
    requires
        call_ensures(Interrupts::new, (limit,), fresh),
        call_ensures(Interrupts::waiting, (&before,), waiting),
        waiting,
        exists|i: &mut Interrupts|
            *i == before && *final(i) == after && #[trigger] call_ensures(
                Interrupts::handle,
                (i, interrupt),
                action,
            ),
        call_ensures(Interrupts::waiting, (&after,), still),
    ensures
        fresh@.count == 0,
        fresh@.limit == limit,
        !fresh@.left,
        before@.count < before@.limit,
        !before@.left,
        after@.limit == before@.limit,
        interrupt is Keyboard ==> {
            &&& action matches InterruptAction::Shutdown { count, limit: of } && count
                == before@.count && of == before@.limit
            &&& after@.count == before@.count + 1
            &&& still <==> before@.count + 1 < before@.limit
        },
        interrupt is Terminate ==> action is Leave && !still,
{
}

} // verus!
