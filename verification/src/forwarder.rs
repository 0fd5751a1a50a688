//! The forwarder of one peer of the learning switch: it reads frames from
//! the peer's interface and sends each to the address that the peer's first
//! datagram came from. A failed read or send ends it: it reports the peer's
//! MAC on the feedback channel, once, and stops. It never touches the
//! tables of the switch.

use vstd::prelude::*;
use crate::relay::PeerAddress;

verus! {

/// Where a forwarder stands.
#[derive(Clone, Copy, Debug, PartialEq, Eq)]
pub enum Phase {
    /// About to read a frame from the interface.
    Reading,
    /// About to send the frame that was read.
    Sending,
    /// A read or a send failed: about to report the peer gone.
    Failed,
    /// The report is made: nothing is left to do.
    Done,
}

/// What a forwarder does next.
#[derive(Clone, Copy, Debug, PartialEq, Eq)]
pub enum Step {
    /// Read one frame from the peer's interface.
    Read,
    /// Send the frame just read, as one datagram, to this address.
    Send(PeerAddress),
    /// Put this MAC address on the feedback channel.
    Notify([u8; 6]),
    /// Terminate.
    Stop,
}

impl Phase {
    /// The phase that follows when the step of this phase succeeded (`ok`)
    /// or failed. A failed read or send leads to the report; the report
    /// leads to the end, whether it could be made or not.
    pub open spec fn following(self, ok: bool) -> Phase {
        match self {
            Phase::Reading => if ok {
                Phase::Sending
            } else {
                Phase::Failed
            },
            Phase::Sending => if ok {
                Phase::Reading
            } else {
                Phase::Failed
            },
            Phase::Failed => Phase::Done,
            Phase::Done => Phase::Done,
        }
    }

    /// The phase after the results `results`, in order, from the start.
    pub open spec fn after(results: Seq<bool>) -> Phase
        decreases results.len(),
    {
        if results.len() == 0 {
            Phase::Reading
        } else {
            Phase::after(results.drop_last()).following(results.last())
        }
    }

    /// How many reports were due in the course of `results`: the number of
    /// steps, the one after the last result included, that found the
    /// forwarder in the phase `Failed`.
    pub open spec fn reports(results: Seq<bool>) -> nat
        decreases results.len(),
    {
        let now: nat = if Phase::after(results) is Failed {
            1
        } else {
            0
        };
        if results.len() == 0 {
            now
        } else {
            Phase::reports(results.drop_last()) + now
        }
    }
}

/// One peer's forwarder: the peer's MAC address, the address its frames go
/// to, fixed when the peer was admitted, and the phase.
#[derive(Clone, Copy, Debug, PartialEq, Eq)]
pub struct Forwarder {
    pub mac: [u8; 6],
    pub dest: PeerAddress,
    pub phase: Phase,
}

impl Forwarder {
    /// The step that is due in this state.
    pub open spec fn due(self) -> Step {
        match self.phase {
            Phase::Reading => Step::Read,
            Phase::Sending => Step::Send(self.dest),
            Phase::Failed => Step::Notify(self.mac),
            Phase::Done => Step::Stop,
        }
    }

    /// The forwarder of the peer `mac`, whose first datagram came from
    /// `dest`. It starts by reading.
    pub fn new(mac: [u8; 6], dest: PeerAddress) -> (f: Forwarder)
        ensures
            f == (Forwarder { mac, dest, phase: Phase::Reading }),
    {
        Forwarder { mac, dest, phase: Phase::Reading }
    }

    /// The step to perform now.
    pub fn next(&self) -> (step: Step)
        ensures
            step == self.due(),
    {
        match self.phase {
            Phase::Reading => Step::Read,
            Phase::Sending => Step::Send(self.dest),
            Phase::Failed => Step::Notify(self.mac),
            Phase::Done => Step::Stop,
        }
    }

    /// Records whether the step that was due succeeded, and moves on.
    /// Neither the MAC address nor the destination ever change.
    pub fn advance(&mut self, ok: bool)
        ensures
            final(self).phase == old(self).phase.following(ok),
            final(self).mac == old(self).mac,
            final(self).dest == old(self).dest,
    {
        let phase = match self.phase {
            Phase::Reading => if ok {
                Phase::Sending
            } else {
                Phase::Failed
            },
            Phase::Sending => if ok {
                Phase::Reading
            } else {
                Phase::Failed
            },
            Phase::Failed => Phase::Done,
            Phase::Done => Phase::Done,
        };
        self.phase = phase;
    }
}

/// A forwarder reports at most once: in any run it is in the phase `Failed`
/// at most one time, exactly one time once it is done, and not at all while
/// it still reads and sends.
pub proof fn lemma_reports_once(results: Seq<bool>)
    ensures
        Phase::reports(results) <= 1,
        Phase::after(results) is Done ==> Phase::reports(results) == 1,
        Phase::after(results) is Failed ==> Phase::reports(results) == 1,
        Phase::after(results) is Reading || Phase::after(results) is Sending ==> Phase::reports(
            results,
        ) == 0,
    decreases results.len(),
{
    if results.len() > 0 {
        lemma_reports_once(results.drop_last());
    }
}

/// A forwarder goes on exactly as long as every read and send succeeds:
/// it still reads or sends after `results` if and only if all of them are
/// successes.
pub proof fn lemma_runs_while_ok(results: Seq<bool>)
    ensures
        (Phase::after(results) is Reading || Phase::after(results) is Sending) <==> forall|i: int|
            0 <= i < results.len() ==> results[i],
    decreases results.len(),
{
    if results.len() > 0 {
        let init = results.drop_last();
        lemma_runs_while_ok(init);
        if forall|i: int| 0 <= i < results.len() ==> results[i] {
            assert forall|i: int| 0 <= i < init.len() implies init[i] by {
                assert(init[i] == results[i]);
            }
            assert(results[results.len() - 1]);
        }
        if Phase::after(results) is Reading || Phase::after(results) is Sending {
            assert forall|i: int| 0 <= i < results.len() implies results[i] by {
                if i < init.len() {
                    assert(init[i] == results[i]);
                }
            }
        }
    }
}

} // verus!
