//! An idle-reservation notifier for tests and development that only records its notices.
use crate::domain::idle::IdleReservation;
use crate::domain::notification::NotificationError;
use crate::text::owned;
use vstd::prelude::*;

verus! {

/// A call made on the notifier that changes what it does or keeps.
pub enum IdleCall {
    /// `notify_idle` with this notice.
    Notify(IdleReservation),
    /// `set_failing` with this setting.
    SetFailing(bool),
}

/// Whether sends fail after the calls: the last setting made, not failing before any.
pub open spec fn failing_after(calls: Seq<IdleCall>) -> bool
    decreases calls.len(),
{
    if calls.len() == 0 {
        false
    } else {
        match calls.last() {
            IdleCall::SetFailing(b) => b,
            IdleCall::Notify(_) => failing_after(calls.drop_last()),
        }
    }
}

/// The notices the calls got sent: those passed to `notify_idle` while sends did not fail,
/// in call order.
pub open spec fn accepted(calls: Seq<IdleCall>) -> Seq<IdleReservation>
    decreases calls.len(),
{
    if calls.len() == 0 {
        Seq::empty()
    } else {
        match calls.last() {
            IdleCall::Notify(x) => if failing_after(calls.drop_last()) {
                accepted(calls.drop_last())
            } else {
                accepted(calls.drop_last()).push(x)
            },
            IdleCall::SetFailing(_) => accepted(calls.drop_last()),
        }
    }
}

/// Records the notices it is asked to send, or fails when told to.
pub struct MockIdleReservationNotifier {
    notices: Vec<IdleReservation>,
    fails: bool,
    /// The calls made on it since it was made.
    calls: Ghost<Seq<IdleCall>>,
}

impl MockIdleReservationNotifier {
    /// What it keeps is what its calls made it keep.
    #[verifier::type_invariant]
    closed spec fn follows_calls(&self) -> bool {
        &&& self.notices@ == accepted(self.calls@)
        &&& self.fails == failing_after(self.calls@)
    }

    /// The calls made on the notifier since it was made, in order.
    pub closed spec fn calls(&self) -> Seq<IdleCall> {
        self.calls@
    }

    /// A notifier on which no call was made: it has sent nothing and does not fail.
    pub fn new() -> (n: MockIdleReservationNotifier)
        ensures
            n.calls() == Seq::<IdleCall>::empty(),
            accepted(n.calls()).len() == 0,
            !failing_after(n.calls()),
    {
        MockIdleReservationNotifier { notices: Vec::new(), fails: false, calls: Ghost(Seq::empty()) }
    }

    /// The notices sent so far: those passed to `notify_idle` while sends did not fail, in
    /// call order.
    pub fn sent_notices(&self) -> (n: &[IdleReservation])
        ensures
            n@ == accepted(self.calls()),
    {
        proof {
            use_type_invariant(self);
        }
        self.notices.as_slice()
    }

    /// Whether later sends fail, until the next setting.
    pub fn set_failing(&mut self, failing: bool)
        ensures
            final(self).calls() == old(self).calls().push(IdleCall::SetFailing(failing)),
            failing_after(final(self).calls()) == failing,
            accepted(final(self).calls()) == accepted(old(self).calls()),
    {
        proof {
            use_type_invariant(&*self);
        }
        let mut taken = MockIdleReservationNotifier::new();
        std::mem::swap(self, &mut taken);
        proof {
            use_type_invariant(&taken);
        }
        let MockIdleReservationNotifier { notices, fails: _, calls } = taken;
        let ghost next = calls@.push(IdleCall::SetFailing(failing));
        assert(next.drop_last() =~= calls@);
        *self = MockIdleReservationNotifier { notices, fails: failing, calls: Ghost(next) };
    }

    /// Records the notice, unless sends are failing, in which case it fails.
    pub fn notify_idle(&mut self, idle: IdleReservation) -> (r: Result<(), NotificationError>)
        ensures
            final(self).calls() == old(self).calls().push(IdleCall::Notify(idle)),
            failing_after(final(self).calls()) == failing_after(old(self).calls()),
            failing_after(old(self).calls()) ==> (r matches Err(NotificationError::SendFailure(m))
                && m@ == "test induced failure"@) && accepted(final(self).calls()) == accepted(
                old(self).calls(),
            ),
            !failing_after(old(self).calls()) ==> r is Ok && accepted(final(self).calls())
                == accepted(old(self).calls()).push(idle),
    {
        proof {
            use_type_invariant(&*self);
        }
        let mut taken = MockIdleReservationNotifier::new();
        std::mem::swap(self, &mut taken);
        proof {
            use_type_invariant(&taken);
        }
        let MockIdleReservationNotifier { mut notices, fails, calls } = taken;
        let ghost next = calls@.push(IdleCall::Notify(idle));
        assert(next.drop_last() =~= calls@);
        if fails {
            *self = MockIdleReservationNotifier { notices, fails, calls: Ghost(next) };
            return Err(NotificationError::SendFailure(owned("test induced failure")));
        }
        notices.push(idle);
        *self = MockIdleReservationNotifier { notices, fails, calls: Ghost(next) };
        Ok(())
    }
}

/// Over any run of calls on a new notifier, the notices it sent are exactly those passed to
/// `notify_idle` while sends did not fail, in call order; a call while failing sends nothing
/// and every call after `set_failing(false)` sends again.
pub proof fn lemma_notices_over_calls(calls: Seq<IdleCall>, idle: IdleReservation, failing: bool)
    ensures
        accepted(calls.push(IdleCall::Notify(idle))) == if failing_after(calls) {
            accepted(calls)
        } else {
            accepted(calls).push(idle)
        },
        accepted(calls.push(IdleCall::SetFailing(failing))) == accepted(calls),
        failing_after(calls.push(IdleCall::SetFailing(failing))) == failing,
        failing_after(calls.push(IdleCall::Notify(idle))) == failing_after(calls),
        forall|i: int|
            0 <= i < accepted(calls).len() ==> exists|k: int|
                0 <= k < calls.len() && calls[k] == IdleCall::Notify(#[trigger] accepted(calls)[i])
                    && !failing_after(calls.subrange(0, k)),
        accepted(calls).len() <= calls.len(),
    decreases calls.len(),
{
    let a = calls.push(IdleCall::Notify(idle));
    let b = calls.push(IdleCall::SetFailing(failing));
    assert(a.drop_last() =~= calls);
    assert(b.drop_last() =~= calls);
    if calls.len() > 0 {
        let d = calls.drop_last();
        lemma_notices_over_calls(d, idle, failing);
        assert forall|i: int| 0 <= i < accepted(calls).len() implies exists|k: int|
            0 <= k < calls.len() && calls[k] == IdleCall::Notify(#[trigger] accepted(calls)[i])
                && !failing_after(calls.subrange(0, k)) by {
            assert(calls.subrange(0, calls.len() - 1) =~= d);
            if i < accepted(d).len() {
                let k = choose|k: int|
                    0 <= k < d.len() && d[k] == IdleCall::Notify(#[trigger] accepted(d)[i])
                        && !failing_after(d.subrange(0, k));
                assert(calls[k] == d[k]);
                assert(calls.subrange(0, k) =~= d.subrange(0, k));
                assert(accepted(calls)[i] == accepted(d)[i]);
            } else {
                assert(calls[calls.len() - 1] == calls.last());
            }
        }
    }
}

} // verus!
