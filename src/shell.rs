use vstd::prelude::*;

verus! {

/// What the user or the host did about closing the application.
#[derive(Clone, Copy, Debug, PartialEq, Eq, Structural)]
pub enum CloseEvent {
    /// The host asks to close the window.
    CloseRequested,
    /// The user answered yes in the confirmation prompt.
    Confirm,
    /// The user answered no in the confirmation prompt.
    Cancel,
}

/// What the shell asks of the host in answer.
#[derive(Clone, Copy, Debug, PartialEq, Eq, Structural)]
pub enum CloseAction {
    /// Nothing: the host goes on as it was going.
    Nothing,
    /// Cancel the pending close and show the confirmation prompt.
    CancelClose,
    /// Close the window: the user confirmed.
    Close,
}

/// The shutdown confirmation flow: a close is cancelled and a prompt shown
/// until the user confirms.
#[derive(Clone, Copy, Debug, PartialEq, Eq, Structural)]
pub struct ShutdownGuard {
    pub confirm_close_modal_open: bool,
    pub shutdown_confirmed: bool,
}

/// One step of the flow.
pub open spec fn step(s: ShutdownGuard, e: CloseEvent) -> (ShutdownGuard, CloseAction) {
    match e {
        CloseEvent::CloseRequested => if s.shutdown_confirmed {
            (s, CloseAction::Nothing)
        } else {
            (ShutdownGuard { confirm_close_modal_open: true, ..s }, CloseAction::CancelClose)
        },
        CloseEvent::Confirm => if s.confirm_close_modal_open {
            (
                ShutdownGuard { confirm_close_modal_open: false, shutdown_confirmed: true },
                CloseAction::Close,
            )
        } else {
            (s, CloseAction::Nothing)
        },
        CloseEvent::Cancel => if s.confirm_close_modal_open {
            (ShutdownGuard { confirm_close_modal_open: false, ..s }, CloseAction::Nothing)
        } else {
            (s, CloseAction::Nothing)
        },
    }
}

/// The state after `events`, and how many times the window was closed.
pub open spec fn run(s: ShutdownGuard, events: Seq<CloseEvent>) -> (ShutdownGuard, nat)
    decreases events.len(),
{
    if events.len() == 0 {
        (s, 0)
    } else {
        let (s1, a) = step(s, events[0]);
        let (s2, n) = run(s1, events.drop_first());
        (s2, n + if a == CloseAction::Close { 1nat } else { 0nat })
    }
}

/// A state that the flow can reach: once confirmed, no prompt is open.
pub open spec fn reachable(s: ShutdownGuard) -> bool {
    s.shutdown_confirmed ==> !s.confirm_close_modal_open
}

impl ShutdownGuard {
    pub fn new() -> (r: ShutdownGuard)
        ensures
            !r.confirm_close_modal_open,
            !r.shutdown_confirmed,
    {
        ShutdownGuard { confirm_close_modal_open: false, shutdown_confirmed: false }
    }

    /// Takes one event and says what the host is to do.
    pub fn handle(&mut self, e: CloseEvent) -> (r: CloseAction)
        ensures
            (*final(self), r) == step(*old(self), e),
    {
        match e {
            CloseEvent::CloseRequested => {
                if self.shutdown_confirmed {
                    CloseAction::Nothing
                } else {
                    self.confirm_close_modal_open = true;
                    CloseAction::CancelClose
                }
            },
            CloseEvent::Confirm => {
                if self.confirm_close_modal_open {
                    self.confirm_close_modal_open = false;
                    self.shutdown_confirmed = true;
                    CloseAction::Close
                } else {
                    CloseAction::Nothing
                }
            },
            CloseEvent::Cancel => {
                if self.confirm_close_modal_open {
                    self.confirm_close_modal_open = false;
                }
                CloseAction::Nothing
            },
        }
    }
}

/// Running `a` and then `b` is running `a + b`.
pub proof fn lemma_run_append(s: ShutdownGuard, a: Seq<CloseEvent>, b: Seq<CloseEvent>)
    ensures
        run(s, a + b) == {
            let (s1, n1) = run(s, a);
            let (s2, n2) = run(s1, b);
            (s2, n1 + n2)
        },
    decreases a.len(),
{
    if a.len() == 0 {
        assert(a + b =~= b);
    } else {
        let (s1, _) = step(s, a[0]);
        assert((a + b).drop_first() =~= a.drop_first() + b);
        lemma_run_append(s1, a.drop_first(), b);
    }
}

/// Without a confirmation the window is never closed, however often a close
/// is requested, and the flow stays unconfirmed.
pub proof fn lemma_no_close_without_confirm(s: ShutdownGuard, events: Seq<CloseEvent>)
    requires
        !s.shutdown_confirmed,
        forall|i: int| 0 <= i < events.len() ==> events[i] != CloseEvent::Confirm,
    ensures
        run(s, events).1 == 0,
        !run(s, events).0.shutdown_confirmed,
    decreases events.len(),
{
    if events.len() > 0 {
        let (s1, _) = step(s, events[0]);
        assert forall|i: int| 0 <= i < events.drop_first().len() implies events.drop_first()[i]
            != CloseEvent::Confirm by {
            assert(events.drop_first()[i] == events[i + 1]);
        }
        lemma_no_close_without_confirm(s1, events.drop_first());
    }
}

/// From a reachable state the window is closed at most once, whatever
/// happens; from an unconfirmed one, only if the user confirms.
pub proof fn lemma_close_at_most_once(s: ShutdownGuard, events: Seq<CloseEvent>)
    requires
        reachable(s),
    ensures
        reachable(run(s, events).0),
        run(s, events).1 <= 1,
        s.shutdown_confirmed ==> run(s, events).1 == 0,
        run(s, events).1 == 1 ==> run(s, events).0.shutdown_confirmed,
        s.shutdown_confirmed ==> run(s, events).0.shutdown_confirmed,
    decreases events.len(),
{
    if events.len() > 0 {
        let (s1, _) = step(s, events[0]);
        lemma_close_at_most_once(s1, events.drop_first());
    }
}

/// After any number of cancelled requests, a request confirmed once closes
/// the window exactly once, and nothing after it closes it again.
pub proof fn lemma_confirm_closes_once(
    before: Seq<CloseEvent>,
    after: Seq<CloseEvent>,
)
    requires
        forall|i: int| 0 <= i < before.len() ==> before[i] != CloseEvent::Confirm,
    ensures
        ({
            let s0 = ShutdownGuard { confirm_close_modal_open: false, shutdown_confirmed: false };
            let events = before + seq![CloseEvent::CloseRequested, CloseEvent::Confirm] + after;
            run(s0, events).1 == 1 && run(s0, events).0.shutdown_confirmed
        }),
{
    let s0 = ShutdownGuard { confirm_close_modal_open: false, shutdown_confirmed: false };
    let mid = seq![CloseEvent::CloseRequested, CloseEvent::Confirm];
    lemma_no_close_without_confirm(s0, before);
    lemma_close_at_most_once(s0, before);
    let s1 = run(s0, before).0;
    lemma_run_append(s0, before, mid);
    lemma_run_append(s0, before + mid, after);
    assert(mid.drop_first().drop_first() =~= Seq::<CloseEvent>::empty());
    assert(mid.drop_first() =~= seq![CloseEvent::Confirm]);
    assert(mid[0] == CloseEvent::CloseRequested);
    assert(mid.drop_first()[0] == CloseEvent::Confirm);
    let t1 = step(s1, CloseEvent::CloseRequested).0;
    let t2 = step(t1, CloseEvent::Confirm).0;
    assert(run(t2, mid.drop_first().drop_first()) == (t2, 0nat));
    assert(run(t1, mid.drop_first()) == (t2, 1nat));
    assert(run(s1, mid) == (t2, 1nat));
    let s2 = run(s1, mid).0;
    assert(s2.shutdown_confirmed && !s2.confirm_close_modal_open);
    assert(run(s1, mid).1 == 1);
    lemma_close_at_most_once(s2, after);
}

} // verus!
