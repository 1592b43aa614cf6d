//! How interrupts end the program.

use vstd::prelude::*;

verus! {

/// What reached the program from outside.
#[derive(Clone, Copy, Debug, PartialEq, Eq, Structural)]
pub enum Interrupt {
    /// An interrupt from the keyboard.
    Keyboard,
    /// The request to terminate.
    Terminate,
}

/// What an interrupt leads to.
#[derive(Clone, Copy, Debug, PartialEq, Eq, Structural)]
pub enum InterruptAction {
    /// Tell how many interrupts there were before this one, out of how many, and shut down.
    Shutdown { count: usize, limit: usize },
    /// Do nothing more.
    Leave,
}

/// The interrupts that are waited for.
pub struct Interrupts {
    count: usize,
    limit: usize,
    left: bool,
}

/// The interrupts that are waited for, as a value.
#[verifier::ext_equal]
pub struct InterruptsView {
    pub count: nat,
    pub limit: nat,
    /// Nothing more is done.
    pub left: bool,
}

impl View for Interrupts {
    type V = InterruptsView;

    closed spec fn view(&self) -> InterruptsView {
        InterruptsView { count: self.count as nat, limit: self.limit as nat, left: self.left }
    }
}

impl InterruptsView {
    /// Another interrupt is waited for.
    pub open spec fn is_waiting(self) -> bool {
        !self.left && self.count < self.limit
    }

    /// What holds after an interrupt.
    pub open spec fn after(self, interrupt: Interrupt) -> InterruptsView {
        match interrupt {
            Interrupt::Keyboard => InterruptsView { count: self.count + 1, ..self },
            Interrupt::Terminate => InterruptsView { left: true, ..self },
        }
    }

    /// What holds after some interrupts. Once none is waited for, none counts.
    pub open spec fn after_all(self, interrupts: Seq<Interrupt>) -> InterruptsView
        decreases interrupts.len(),
    {
        if interrupts.len() == 0 {
            self
        } else {
            let before = self.after_all(interrupts.drop_last());
            if before.is_waiting() {
                before.after(interrupts.last())
            } else {
                before
            }
        }
    }
}

impl Interrupts {
    pub fn new(limit: usize) -> (r: Self)
        ensures
            r@ == (InterruptsView { count: 0, limit: limit as nat, left: false }),
    {
        Interrupts { count: 0, limit, left: false }
    }

    /// Whether another interrupt is waited for.
    pub fn waiting(&self) -> (r: bool)
        ensures
            r == self@.is_waiting(),
    {
        !self.left && self.count < self.limit
    }

    /// Decides what an interrupt leads to.
    pub fn handle(&mut self, interrupt: Interrupt) -> (r: InterruptAction)
        requires
            old(self)@.is_waiting(),
        ensures
            final(self)@ == old(self)@.after(interrupt),
            match interrupt {
                Interrupt::Keyboard => r matches InterruptAction::Shutdown { count, limit } && count
                    == old(self)@.count && limit == old(self)@.limit,
                Interrupt::Terminate => r == InterruptAction::Leave,
            },
    {
        match interrupt {
            Interrupt::Keyboard => {
                let count = self.count;
                self.count = count + 1;
                InterruptAction::Shutdown { count, limit: self.limit }
            },
            Interrupt::Terminate => {
                self.left = true;
                InterruptAction::Leave
            },
        }
    }
}

/// Waiting ends at the first request to terminate or after as many interrupts from the keyboard as
/// the limit says, whichever comes first, and not before. `first` is the place of that request, or
/// the number of interrupts where there is none.
pub proof fn waiting_ends(limit: usize, interrupts: Seq<Interrupt>, first: int)
    requires
        0 <= first <= interrupts.len(),
        forall|i: int| 0 <= i < first ==> #[trigger] interrupts[i] == Interrupt::Keyboard,
        first < interrupts.len() ==> interrupts[first] == Interrupt::Terminate,
    ensures
        ({
            let after = (InterruptsView { count: 0, limit: limit as nat, left: false }).after_all(
                interrupts,
            );
            &&& after.limit == limit
            &&& after.count == if first < limit {
                first
            } else {
                limit as int
            }
            &&& after.left <==> first < interrupts.len() && first < limit
            &&& after.is_waiting() <==> first == interrupts.len() && first < limit
        }),
    decreases interrupts.len(),
{
    if interrupts.len() > 0 {
        let front = interrupts.drop_last();
        if first < interrupts.len() {
            waiting_ends(limit, front, first);
        } else {
            waiting_ends(limit, front, first - 1);
            assert(interrupts[first - 1] == Interrupt::Keyboard);
        }
    }
}

} // verus!
