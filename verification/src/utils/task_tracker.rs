//! The trackers that count tasks and signal when they start and stop.

use vstd::prelude::*;
use crate::config::settings::Seconds;
use crate::utils::lemma_next_mod;

verus! {

/// What a tracker tells its waiter.
#[derive(Clone, Copy, Debug, PartialEq, Eq, Structural)]
pub enum TrackingSignal {
    TaskStarted,
    TaskStopped,
}

impl TrackingSignal {
    /// The word for the signal.
    pub open spec fn word(self) -> Seq<char> {
        match self {
            TrackingSignal::TaskStarted => "start"@,
            TrackingSignal::TaskStopped => "stop"@,
        }
    }

    /// The word by which the signal is logged.
    pub fn name(&self) -> (r: &'static str)
        ensures
            r@ == self.word(),
    {
        match self {
            TrackingSignal::TaskStarted => "start",
            TrackingSignal::TaskStopped => "stop",
        }
    }
}

/// Why a signal was not taken.
#[derive(Clone, Copy, Debug, PartialEq, Eq, Structural)]
pub enum SendFault {
    Full,
    Closed,
}

/// A signal that is not taken, for whatever reason, is handed back.
pub fn send_outcome(signal: TrackingSignal, sent: Result<(), SendFault>) -> (r: Result<
    (),
    TrackingSignal,
>)
    ensures
        match sent {
            Ok(_) => r == Ok::<(), TrackingSignal>(()),
            Err(_) => r == Err::<(), TrackingSignal>(signal),
        },
{
    match sent {
        Ok(_) => Ok(()),
        Err(_) => Err(signal),
    }
}

/// The channel that signals go through.
#[derive(Clone, Copy, Debug, PartialEq, Eq, Structural)]
pub enum SignalChannel {
    Bounded(usize),
    Unbounded,
}

/// The channel for a buffer. Without a buffer it has no bound; a buffer cannot be empty.
pub fn tracking_signal_channel(buffer: Option<usize>) -> (r: SignalChannel)
    requires
        buffer != Some(0usize),
    ensures
        match buffer {
            Some(n) => r == SignalChannel::Bounded(n),
            None => r == SignalChannel::Unbounded,
        },
{
    match buffer {
        Some(n) => SignalChannel::Bounded(n),
        None => SignalChannel::Unbounded,
    }
}

/// The bounds of the tasks that are tracked.
#[derive(Clone, Copy, Debug, PartialEq, Eq, Structural)]
pub struct TrackerSettings {
    pub max_conn_time: Option<Seconds>,
    pub max_conns: Option<usize>,
}

impl Default for TrackerSettings {
    fn default() -> (r: Self)
        ensures
            r.max_conn_time is None,
            r.max_conns is None,
    {
        TrackerSettings { max_conn_time: None, max_conns: None }
    }
}

/// The number of tasks, which trackers share. It wraps round.
#[derive(Debug)]
pub struct TaskCounter {
    count: usize,
}

impl View for TaskCounter {
    type V = nat;

    closed spec fn view(&self) -> nat {
        self.count as nat
    }
}

/// The count after a task has started or stopped.
pub open spec fn counted(count: nat, signal: TrackingSignal) -> nat {
    match signal {
        TrackingSignal::TaskStarted => if count == usize::MAX {
            0
        } else {
            count + 1
        },
        TrackingSignal::TaskStopped => if count == 0 {
            usize::MAX as nat
        } else {
            (count - 1) as nat
        },
    }
}

/// The count after tasks have started and stopped in turn.
pub open spec fn counted_all(count: nat, signals: Seq<TrackingSignal>) -> nat
    decreases signals.len(),
{
    if signals.len() == 0 {
        count
    } else {
        counted(counted_all(count, signals.drop_last()), signals.last())
    }
}

/// How many tasks have started more than have stopped.
pub open spec fn balance(signals: Seq<TrackingSignal>) -> int
    decreases signals.len(),
{
    if signals.len() == 0 {
        0
    } else {
        balance(signals.drop_last()) + if signals.last() == TrackingSignal::TaskStarted {
            1int
        } else {
            -1int
        }
    }
}

impl TaskCounter {
    pub fn new() -> (r: Self)
        ensures
            r@ == 0,
    {
        TaskCounter { count: 0 }
    }

    /// The number of tasks.
    pub fn current_task_count(&self) -> (n: usize)
        ensures
            n == self@,
    {
        self.count
    }

    /// Counts a task that starts.
    pub fn start(&mut self)
        ensures
            final(self)@ == counted(old(self)@, TrackingSignal::TaskStarted),
    {
        self.count = self.count.wrapping_add(1);
    }

    /// Discounts a task that stops.
    pub fn stop(&mut self)
        ensures
            final(self)@ == counted(old(self)@, TrackingSignal::TaskStopped),
    {
        self.count = self.count.wrapping_sub(1);
    }
}

/// However tasks start and stop, the count tells how many have started more than have stopped. When
/// all have stopped it is what it was.
pub proof fn tasks_are_counted(count: nat, signals: Seq<TrackingSignal>)
    requires
        count <= usize::MAX,
    ensures
        counted_all(count, signals) <= usize::MAX,
        counted_all(count, signals) == (count + balance(signals)) % (usize::MAX + 1),
        balance(signals) == 0 ==> counted_all(count, signals) == count,
    decreases signals.len(),
{
    let m = usize::MAX + 1;
    if signals.len() == 0 {
        vstd::arithmetic::div_mod::lemma_small_mod(count, m as nat);
    } else {
        let front = signals.drop_last();
        tasks_are_counted(count, front);
        let n = count + balance(front);
        if signals.last() == TrackingSignal::TaskStarted {
            lemma_next_mod(n, m);
        } else {
            lemma_next_mod(n - 1, m);
            vstd::arithmetic::div_mod::lemma_mod_bound(n - 1, m);
        }
        if balance(signals) == 0 {
            vstd::arithmetic::div_mod::lemma_small_mod(count, m as nat);
        }
    }
}

/// What a tracker holds of the channel to its waiter. The tracker of a running task keeps the
/// channel open.
pub enum TrackerInner<W, S> {
    Parent(W),
    Child(S),
}

/// A tracker of tasks.
pub struct TaskTracker<W, S, C> {
    pub inner: TrackerInner<W, S>,
    pub settings: TrackerSettings,
    pub cancellation_token: C,
    pub local_task: bool,
}

/// What waits for the tasks.
pub struct TaskWaiter<R, S, C> {
    pub settings: TrackerSettings,
    pub cancellation_token: C,
    pub signal_receiver: R,
    /// Keeps the channel open.
    pub signal_sender: S,
}

impl<R, S, C> TaskWaiter<R, S, C> {
    pub fn new(signal_sender: S, signal_receiver: R, cancellation_token: C) -> (r: Self)
        ensures
            r.settings.max_conn_time is None,
            r.settings.max_conns is None,
            r.cancellation_token == cancellation_token,
            r.signal_receiver == signal_receiver,
            r.signal_sender == signal_sender,
    {
        TaskWaiter {
            settings: TrackerSettings::default(),
            cancellation_token,
            signal_receiver,
            signal_sender,
        }
    }

    /// A tracker for the tasks that are waited for. `sender` is the weak end of the channel and
    /// `cancellation_token` a token below the waiter's own.
    pub fn create_tracker<W>(&self, sender: W, cancellation_token: C) -> (r: TaskTracker<W, S, C>)
        ensures
            r == (TaskTracker::<W, S, C> {
                inner: TrackerInner::Parent(sender),
                settings: self.settings,
                cancellation_token,
                local_task: false,
            }),
    {
        TaskTracker {
            inner: TrackerInner::Parent(sender),
            settings: self.settings,
            cancellation_token,
            local_task: false,
        }
    }

    /// A tracker whose tasks stay on the thread that starts them.
    pub fn create_local_tracker<W>(&self, sender: W, cancellation_token: C) -> (r: TaskTracker<
        W,
        S,
        C,
    >)
        ensures
            r == (TaskTracker::<W, S, C> {
                inner: TrackerInner::Parent(sender),
                settings: self.settings,
                cancellation_token,
                local_task: true,
            }),
    {
        let mut task_tracker = self.create_tracker(sender, cancellation_token);
        task_tracker.local_task = true;
        task_tracker
    }
}

impl<W, S, C> TaskTracker<W, S, C> {
    /// A tracker and its waiter, each with a token of its own.
    pub fn new<R>(
        weak_sender: W,
        tracker_token: C,
        signal_sender: S,
        signal_receiver: R,
        waiter_token: C,
    ) -> (r: (Self, TaskWaiter<R, S, C>))
        ensures
            r.0.inner == TrackerInner::<W, S>::Parent(weak_sender),
            r.0.settings.max_conn_time is None,
            r.0.settings.max_conns is None,
            r.0.cancellation_token == tracker_token,
            !r.0.local_task,
            r.1 == (TaskWaiter {
                settings: r.0.settings,
                cancellation_token: waiter_token,
                signal_receiver,
                signal_sender,
            }),
    {
        let task_tracker = TaskTracker {
            inner: TrackerInner::Parent(weak_sender),
            settings: TrackerSettings::default(),
            cancellation_token: tracker_token,
            local_task: false,
        };
        let task_waiter = TaskWaiter {
            settings: task_tracker.settings,
            cancellation_token: waiter_token,
            signal_receiver,
            signal_sender,
        };
        (task_tracker, task_waiter)
    }

    /// A tracker and its waiter, as `new` makes them. The tasks are not bound to a thread either.
    pub fn new_local<R>(
        weak_sender: W,
        tracker_token: C,
        signal_sender: S,
        signal_receiver: R,
        waiter_token: C,
    ) -> (r: (Self, TaskWaiter<R, S, C>))
        ensures
            r.0.inner == TrackerInner::<W, S>::Parent(weak_sender),
            r.0.settings.max_conn_time is None,
            r.0.settings.max_conns is None,
            r.0.cancellation_token == tracker_token,
            !r.0.local_task,
            r.1 == (TaskWaiter {
                settings: r.0.settings,
                cancellation_token: waiter_token,
                signal_receiver,
                signal_sender,
            }),
    {
        let (mut task_tracker, task_waiter) = Self::new(
            weak_sender,
            tracker_token,
            signal_sender,
            signal_receiver,
            waiter_token,
        );
        task_tracker.local_task = false;
        (task_tracker, task_waiter)
    }

    /// The tracker of a task that starts with the given end of the channel and the given token.
    pub open spec fn with_task(self, sender: S, cancellation_token: C) -> Self {
        TaskTracker {
            inner: TrackerInner::Child(sender),
            settings: self.settings,
            cancellation_token,
            local_task: self.local_task,
        }
    }

    /// The signal that is sent when the tracker goes away.
    pub open spec fn last_signal(self) -> Option<TrackingSignal> {
        match self.inner {
            TrackerInner::Child(_) => Some(TrackingSignal::TaskStopped),
            TrackerInner::Parent(_) => None,
        }
    }

    /// The token that is cancelled when the tracker goes away.
    pub open spec fn last_token(self) -> Option<C> {
        match self.inner {
            TrackerInner::Child(_) => Some(self.cancellation_token),
            TrackerInner::Parent(_) => None,
        }
    }

    /// The count when the tracker has gone away.
    pub open spec fn last_count(self, count: nat) -> nat {
        match self.last_signal() {
            Some(signal) => counted(count, signal),
            None => count,
        }
    }

    /// The tracker of a task that starts. `sender` is what became of the tracker's end of the
    /// channel: a parent may find the channel closed, and then there is no tracker, though the task
    /// is counted. The tracker of a running task keeps the channel open. `cancellation_token` is a
    /// token below the tracker's own.
    pub fn child(
        &self,
        sender: Option<S>,
        cancellation_token: C,
        task_counter: &mut TaskCounter,
    ) -> (r: Option<Self>)
        requires
            self.inner is Child ==> sender is Some,
        ensures
            final(task_counter)@ == counted(old(task_counter)@, TrackingSignal::TaskStarted),
            match sender {
                Some(s) => r == Some(self.with_task(s, cancellation_token)),
                None => r is None,
            },
            self.inner is Child ==> r is Some,
    {
        task_counter.start();
        match sender {
            Some(s) => Some(
                TaskTracker {
                    inner: TrackerInner::Child(s),
                    settings: self.settings,
                    cancellation_token,
                    local_task: self.local_task,
                },
            ),
            None => None,
        }
    }

    /// The signal to send when the tracker goes away. Only the tracker of a task has one, and the
    /// task is then discounted.
    pub fn stopped(&self, task_counter: &mut TaskCounter) -> (r: Option<TrackingSignal>)
        ensures
            r == self.last_signal(),
            final(task_counter)@ == self.last_count(old(task_counter)@),
    {
        match &self.inner {
            TrackerInner::Child(_) => {
                task_counter.stop();
                Some(TrackingSignal::TaskStopped)
            },
            TrackerInner::Parent(_) => None,
        }
    }

    /// The token to cancel when the tracker goes away: the tracker's own, where it is the tracker
    /// of a task.
    pub fn token_to_cancel(&self) -> (r: Option<&C>)
        ensures
            match r {
                Some(token) => self.last_token() == Some(*token),
                None => self.last_token() is None,
            },
    {
        match &self.inner {
            TrackerInner::Child(_) => Some(&self.cancellation_token),
            TrackerInner::Parent(_) => None,
        }
    }
}

/// When the tracker of a task goes away, the count is what it was before the task started, one
/// signal tells that the task has stopped, and of all tokens its own is cancelled. When a parent
/// goes away, nothing is counted, sent or cancelled.
pub proof fn stopping_undoes_starting<W, S, C>(
    tracker: TaskTracker<W, S, C>,
    sender: S,
    cancellation_token: C,
    count: nat,
)
    requires
        count <= usize::MAX,
    ensures
        ({
            let child = tracker.with_task(sender, cancellation_token);
            &&& child.last_count(counted(count, TrackingSignal::TaskStarted)) == count
            &&& child.last_signal() == Some(TrackingSignal::TaskStopped)
            &&& forall|token: C| child.last_token() == Some(token) <==> token == cancellation_token
        }),
        tracker.inner is Parent ==> {
            &&& tracker.last_count(count) == count
            &&& tracker.last_signal() is None
            &&& tracker.last_token() is None
        },
{
}

} // verus!
