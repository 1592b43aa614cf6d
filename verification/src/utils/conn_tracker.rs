//! A task tracker and a cancellation token that are passed on together.

use vstd::prelude::*;

verus! {

/// The tracker of tasks and the token that cancels them. A pair that has been found closed stays
/// closed, whatever becomes of the tracker.
pub struct ConnTracker<T, C> {
    task_tracker: T,
    cancellation_token: C,
    found_closed: bool,
}

/// A pair as a value.
pub struct ConnTrackerView<T, C> {
    pub task_tracker: T,
    pub cancellation_token: C,
    /// The pair has been found closed.
    pub found_closed: bool,
}

impl<T, C> View for ConnTracker<T, C> {
    type V = ConnTrackerView<T, C>;

    closed spec fn view(&self) -> ConnTrackerView<T, C> {
        ConnTrackerView {
            task_tracker: self.task_tracker,
            cancellation_token: self.cancellation_token,
            found_closed: self.found_closed,
        }
    }
}

/// Whether a pair is closed: it has been found closed before, or its token is cancelled and its
/// tracker closed.
pub open spec fn closed_now(found_closed: bool, cancelled: bool, tracker_closed: bool) -> bool {
    found_closed || cancelled && tracker_closed
}

/// Whether a pair has been found closed by then, where it was looked at in turn. Each look finds
/// the token cancelled or not, and the tracker closed or not.
pub open spec fn closed_after(found_closed: bool, looks: Seq<(bool, bool)>) -> bool
    decreases looks.len(),
{
    if looks.len() == 0 {
        found_closed
    } else {
        closed_now(closed_after(found_closed, looks.drop_last()), looks.last().0, looks.last().1)
    }
}

impl<T, C> ConnTracker<T, C> {
    pub fn new(task_tracker: T, cancellation_token: C) -> (r: Self)
        ensures
            r@ == (ConnTrackerView { task_tracker, cancellation_token, found_closed: false }),
    {
        ConnTracker { task_tracker, cancellation_token, found_closed: false }
    }

    /// The tracker of the tasks.
    pub fn task_tracker(&self) -> (r: &T)
        ensures
            *r == self@.task_tracker,
    {
        &self.task_tracker
    }

    /// The token that cancels them.
    pub fn cancellation_token(&self) -> (r: &C)
        ensures
            *r == self@.cancellation_token,
    {
        &self.cancellation_token
    }

    /// A pair below this one, with the same tracker and a token below the token of this one. What
    /// is below a closed pair is closed.
    pub fn child(&self, task_tracker: T, cancellation_token: C) -> (r: Self)
        ensures
            r@ == (ConnTrackerView {
                task_tracker,
                cancellation_token,
                found_closed: self@.found_closed,
            }),
    {
        ConnTracker { task_tracker, cancellation_token, found_closed: self.found_closed }
    }

    /// Looks whether the pair is closed. `cancelled` and `tracker_closed` are what its token and
    /// its tracker say.
    pub fn is_closed(&mut self, cancelled: bool, tracker_closed: bool) -> (r: bool)
        ensures
            r == closed_now(old(self)@.found_closed, cancelled, tracker_closed),
            final(self)@ == (ConnTrackerView { found_closed: r, ..old(self)@ }),
    {
        self.found_closed = self.found_closed || (cancelled && tracker_closed);
        self.found_closed
    }
}

/// A pair that has been found closed is found closed by every later look, though its tracker be
/// reopened.
pub proof fn closed_pairs_stay_closed(
    found_closed: bool,
    looks: Seq<(bool, bool)>,
    later: Seq<(bool, bool)>,
)
    requires
        closed_after(found_closed, looks),
    ensures
        closed_after(found_closed, looks + later),
    decreases later.len(),
{
    if later.len() == 0 {
        assert(looks + later =~= looks);
    } else {
        closed_pairs_stay_closed(found_closed, looks, later.drop_last());
        assert((looks + later).drop_last() =~= looks + later.drop_last());
    }
}

} // verus!
