//! Calls to the platform around the GHCB.
//!
//! What the processor, the page tables and the hypervisor do is out of this
//! library's hands. It says which calls are to be made, with which arguments
//! and in which order, and what follows from their outcomes. Whoever holds a
//! [`CallSequence`] makes the call that [`CallSequence::current`] names, hands
//! its outcome to [`CallSequence::advance`], and goes on until the sequence is
//! finished.

use vstd::prelude::*;

use crate::types::{PhysAddr, VirtAddr};

verus! {

/// One call to the platform.
#[derive(Clone, Copy, Debug, PartialEq, Eq, Structural)]
pub enum PlatformCall {
    /// Read the SEV status register and remember what it says.
    SevStatusInit,
    /// Set or clear the guest's validation of a page.
    Pvalidate { vaddr: VirtAddr, huge_page: bool, valid: bool },
    /// Ask the hypervisor, through the GHCB register, to take a page back.
    InvalidatePage { paddr: PhysAddr },
    /// Ask the hypervisor, through the GHCB register, to hand a page over.
    ValidatePage { paddr: PhysAddr },
    /// Tell the hypervisor where the GHCB is; 0 for nowhere.
    RegisterGhcb { paddr: PhysAddr },
    /// Map a page unencrypted.
    MapPageShared { vaddr: VirtAddr },
    /// Map a page encrypted.
    MapPageEncrypted { vaddr: VirtAddr },
    /// Flush the translation buffers, global entries included.
    FlushTlbGlobal,
    /// Write the GHCB register.
    WriteGhcbMsr { value: u64 },
    /// Leave the guest, with a `VMGEXIT` instruction.
    VmgExit,
    /// Ask the hypervisor, through the GHCB register, to terminate the guest.
    RequestTermination,
}

impl PlatformCall {
    /// Whether the call reports failures. The outcome of one that does not is
    /// of no consequence.
    pub open spec fn spec_can_fail(self) -> bool {
        match self {
            PlatformCall::Pvalidate { .. } => true,
            PlatformCall::InvalidatePage { .. } => true,
            PlatformCall::ValidatePage { .. } => true,
            PlatformCall::RegisterGhcb { .. } => true,
            PlatformCall::MapPageShared { .. } => true,
            PlatformCall::MapPageEncrypted { .. } => true,
            PlatformCall::SevStatusInit => false,
            PlatformCall::FlushTlbGlobal => false,
            PlatformCall::WriteGhcbMsr { .. } => false,
            PlatformCall::VmgExit => false,
            PlatformCall::RequestTermination => false,
        }
    }

    /// Whether the call reports failures.
    #[verifier::when_used_as_spec(spec_can_fail)]
    pub fn can_fail(self) -> (b: bool)
        ensures
            b == self.spec_can_fail(),
    {
        match self {
            PlatformCall::Pvalidate { .. } => true,
            PlatformCall::InvalidatePage { .. } => true,
            PlatformCall::ValidatePage { .. } => true,
            PlatformCall::RegisterGhcb { .. } => true,
            PlatformCall::MapPageShared { .. } => true,
            PlatformCall::MapPageEncrypted { .. } => true,
            _ => false,
        }
    }

    /// Whether a call that came out this way has failed.
    pub open spec fn failed(self, outcome: Result<(), ()>) -> bool {
        outcome is Err && self.spec_can_fail()
    }
}

/// What the holder of a sequence has to do next.
#[derive(Clone, Copy, Debug, PartialEq, Eq)]
pub enum Step {
    /// Make this call, and hand its outcome over.
    Call(PlatformCall),
    /// Nothing: the sequence has ended in this way.
    Finished(Result<(), ()>),
}

/// How far a sequence of calls has come: the abstract state of a
/// [`CallSequence`].
pub enum Progress {
    /// These calls are still to be made, the first of them now.
    Pending(Seq<PlatformCall>),
    /// The sequence has ended in this way.
    Finished(Result<(), ()>),
}

impl Progress {
    /// Before the first of `calls`. A sequence of no calls has succeeded.
    pub open spec fn start(calls: Seq<PlatformCall>) -> Progress {
        if calls.len() == 0 {
            Progress::Finished(Ok(()))
        } else {
            Progress::Pending(calls)
        }
    }

    /// After the outcome of the current call: a failure ends the sequence, a
    /// success leads to the next call.
    pub open spec fn after(self, outcome: Result<(), ()>) -> Progress {
        match self {
            Progress::Pending(calls) => {
                if calls.first().failed(outcome) {
                    Progress::Finished(Err(()))
                } else {
                    Progress::start(calls.drop_first())
                }
            },
            Progress::Finished(result) => Progress::Finished(result),
        }
    }

    /// After all these outcomes, one by one.
    pub open spec fn after_all(self, outcomes: Seq<Result<(), ()>>) -> Progress
        decreases outcomes.len(),
    {
        if outcomes.len() == 0 {
            self
        } else {
            self.after(outcomes.first()).after_all(outcomes.drop_first())
        }
    }

    /// The step that this state asks for.
    pub open spec fn step(self) -> Step {
        match self {
            Progress::Pending(calls) => Step::Call(calls.first()),
            Progress::Finished(result) => Step::Finished(result),
        }
    }
}

/// How many calls a sequence can hold.
pub const MAX_CALLS: usize = 5;

/// Platform calls to be made one after the other, up to the first that fails.
/// They are the first `count` of `calls`.
pub struct CallSequence {
    calls: [PlatformCall; MAX_CALLS],
    count: usize,
    done: usize,
    failed: bool,
}

impl View for CallSequence {
    type V = Progress;

    closed spec fn view(&self) -> Progress {
        if self.failed {
            Progress::Finished(Err(()))
        } else {
            Progress::start(self.calls@.subrange(self.done as int, self.count as int))
        }
    }
}

impl CallSequence {
    #[verifier::type_invariant]
    spec fn well_formed(self) -> bool {
        self.done <= self.count <= MAX_CALLS
    }

    /// A sequence that makes `calls`.
    pub(crate) fn new<const N: usize>(calls: [PlatformCall; N]) -> (sequence: Self)
        requires
            N <= MAX_CALLS,
        ensures
            sequence@ == Progress::start(calls@),
    {
        let mut slots = [PlatformCall::VmgExit; MAX_CALLS];
        let mut i: usize = 0;
        while i < N
            invariant
                i <= N <= MAX_CALLS,
                forall|j: int| 0 <= j < i ==> slots@[j] == calls@[j],
            decreases N - i,
        {
            slots[i] = calls[i];
            i += 1;
        }
        assert(slots@.subrange(0, N as int) =~= calls@);
        CallSequence { calls: slots, count: N, done: 0, failed: false }
    }

    /// The call to be made now, or how the sequence has ended.
    pub fn current(&self) -> (step: Step)
        ensures
            step == self@.step(),
    {
        proof {
            use_type_invariant(self);
        }
        if self.failed {
            Step::Finished(Err(()))
        } else if self.done < self.count {
            Step::Call(self.calls[self.done])
        } else {
            Step::Finished(Ok(()))
        }
    }

    /// Takes the outcome of the current call. A sequence that has ended stays
    /// as it is.
    pub fn advance(&mut self, outcome: Result<(), ()>)
        ensures
            final(self)@ == old(self)@.after(outcome),
    {
        proof {
            use_type_invariant(&*self);
        }
        if !self.failed && self.done < self.count {
            let ghost pending = self.calls@.subrange(self.done as int, self.count as int);
            assert(pending.drop_first() =~= self.calls@.subrange(
                self.done + 1,
                self.count as int,
            ));
            if outcome.is_err() && self.calls[self.done].can_fail() {
                self.failed = true;
            } else {
                self.done += 1;
            }
        }
    }
}

/// As long as nothing fails the calls come one by one, in their order, and
/// when the last has succeeded so has the sequence.
pub proof fn law_calls_come_in_order(calls: Seq<PlatformCall>, outcomes: Seq<Result<(), ()>>)
    requires
        outcomes.len() <= calls.len(),
        forall|i: int| 0 <= i < outcomes.len() ==> !(#[trigger] calls[i]).failed(outcomes[i]),
    ensures
        Progress::start(calls).after_all(outcomes) == Progress::start(
            calls.skip(outcomes.len() as int),
        ),
    decreases outcomes.len(),
{
    if outcomes.len() == 0 {
        assert(calls.skip(0) =~= calls);
    } else {
        let calls_after = calls.drop_first();
        let outcomes_after = outcomes.drop_first();
        assert(!calls[0].failed(outcomes[0]));
        assert forall|i: int| 0 <= i < outcomes_after.len() implies !(
        #[trigger] calls_after[i]).failed(outcomes_after[i]) by {
            assert(!calls[i + 1].failed(outcomes[i + 1]));
        }
        law_calls_come_in_order(calls_after, outcomes_after);
        assert(calls_after.skip(outcomes_after.len() as int) =~= calls.skip(
            outcomes.len() as int,
        ));
    }
}

/// The first failure ends the sequence: no call is made after it, whatever
/// further outcomes are handed over.
pub proof fn law_first_failure_ends_the_sequence(
    calls: Seq<PlatformCall>,
    outcomes: Seq<Result<(), ()>>,
    at: int,
)
    requires
        0 <= at < calls.len(),
        at < outcomes.len(),
        calls[at].failed(outcomes[at]),
        forall|i: int| 0 <= i < at ==> !(#[trigger] calls[i]).failed(outcomes[i]),
    ensures
        Progress::start(calls).after_all(outcomes) == Progress::Finished(Err(())),
    decreases at,
{
    let calls_after = calls.drop_first();
    let outcomes_after = outcomes.drop_first();
    if at == 0 {
        law_finished_sequence_stays(Err(()), outcomes_after);
    } else {
        assert(!calls[0].failed(outcomes[0]));
        assert forall|i: int| 0 <= i < at - 1 implies !(#[trigger] calls_after[i]).failed(
            outcomes_after[i],
        ) by {
            assert(!calls[i + 1].failed(outcomes[i + 1]));
        }
        law_first_failure_ends_the_sequence(calls_after, outcomes_after, at - 1);
    }
}

/// A sequence that has ended stays as it is.
pub proof fn law_finished_sequence_stays(result: Result<(), ()>, outcomes: Seq<Result<(), ()>>)
    ensures
        Progress::Finished(result).after_all(outcomes) == Progress::Finished(result),
    decreases outcomes.len(),
{
    if outcomes.len() > 0 {
        law_finished_sequence_stays(result, outcomes.drop_first());
    }
}

/// With an outcome for every call the sequence has ended, in success if and
/// only if no call has failed.
pub proof fn law_sequence_succeeds_unless_a_call_fails(
    calls: Seq<PlatformCall>,
    outcomes: Seq<Result<(), ()>>,
)
    requires
        outcomes.len() == calls.len(),
    ensures
        Progress::start(calls).after_all(outcomes) == Progress::Finished(
            if exists|i: int| 0 <= i < calls.len() && (#[trigger] calls[i]).failed(outcomes[i]) {
                Err::<(), ()>(())
            } else {
                Ok(())
            },
        ),
    decreases calls.len(),
{
    if calls.len() == 0 {
    } else if calls[0].failed(outcomes[0]) {
        law_finished_sequence_stays(Err(()), outcomes.drop_first());
    } else {
        let calls_after = calls.drop_first();
        let outcomes_after = outcomes.drop_first();
        law_sequence_succeeds_unless_a_call_fails(calls_after, outcomes_after);
        if exists|i: int| 0 <= i < calls.len() && (#[trigger] calls[i]).failed(outcomes[i]) {
            let i = choose|i: int|
                0 <= i < calls.len() && (#[trigger] calls[i]).failed(outcomes[i]);
            assert(calls_after[i - 1].failed(outcomes_after[i - 1]));
        } else {
            assert forall|i: int| 0 <= i < calls_after.len() implies !(
            #[trigger] calls_after[i]).failed(outcomes_after[i]) by {
                assert(!calls[i + 1].failed(outcomes[i + 1]));
            }
        }
    }
}

/// The calls that change the state or the mapping of a page, and the one that
/// registers the GHCB, report failures; the others do not.
pub proof fn law_calls_that_can_fail(call: PlatformCall, outcome: Result<(), ()>)
    ensures
        call.spec_can_fail() <==> call is Pvalidate || call is InvalidatePage || call is ValidatePage
            || call is RegisterGhcb || call is MapPageShared || call is MapPageEncrypted,
        call.failed(outcome) <==> outcome is Err && !(call is SevStatusInit || call
            is FlushTlbGlobal || call is WriteGhcbMsr || call is VmgExit || call
            is RequestTermination),
{
}

/// How one outcome moves a sequence on: the calls are made from the first to
/// the last, a failure ends them in failure, and the end of the calls ends them
/// in success.
pub proof fn law_one_call_at_a_time(
    calls: Seq<PlatformCall>,
    outcome: Result<(), ()>,
    result: Result<(), ()>,
)
    ensures
        calls.len() == 0 ==> Progress::start(calls) == Progress::Finished(Ok(())),
        calls.len() > 0 ==> Progress::start(calls) == Progress::Pending(calls),
        calls.len() > 0 ==> Progress::Pending(calls).step() == Step::Call(calls[0]),
        Progress::Finished(result).step() == Step::Finished(result),
        Progress::Finished(result).after(outcome) == Progress::Finished(result),
        calls.len() > 0 && outcome is Err && (calls[0] is Pvalidate || calls[0] is InvalidatePage
            || calls[0] is ValidatePage || calls[0] is RegisterGhcb || calls[0] is MapPageShared
            || calls[0] is MapPageEncrypted) ==> Progress::Pending(calls).after(outcome)
            == Progress::Finished(Err(())),
        calls.len() == 1 && (outcome is Ok || calls[0] is SevStatusInit || calls[0]
            is FlushTlbGlobal || calls[0] is WriteGhcbMsr || calls[0] is VmgExit || calls[0]
            is RequestTermination) ==> Progress::Pending(calls).after(outcome)
            == Progress::Finished(Ok(())),
        calls.len() > 1 && (outcome is Ok || calls[0] is SevStatusInit || calls[0]
            is FlushTlbGlobal || calls[0] is WriteGhcbMsr || calls[0] is VmgExit || calls[0]
            is RequestTermination) ==> Progress::Pending(calls).after(outcome)
            == Progress::Pending(calls.subrange(1, calls.len() as int)),
{
}

} // verus!
