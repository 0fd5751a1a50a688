//! The learning switch together with its feedback channel, as one
//! mathematical system, and what holds of every run of it. The forwarders
//! of peers only append to the channel; the receiver loop alone takes from
//! it and alone changes the tables.

use vstd::prelude::*;
use crate::ports::{grant, is_lowest_free, lemma_grant, lemma_lowest_free_unique, occupied};
use crate::switch::{
    lemma_capacity_is_fullness, lemma_evict_consistent, lemma_init_consistent,
    lemma_learn_consistent, lemma_on_unknown_consistent, Outcome, Release, SwitchModel, Verdict,
};

verus! {

/// What happens around the switch.
pub enum Event {
    /// A frame arrives whose source address is this one.
    Frame([u8; 6]),
    /// The forwarder of this peer failed and reports the peer gone.
    PeerLost([u8; 6]),
}

/// The tables of the switch and the eviction notices not yet taken from the
/// feedback channel, oldest first.
pub struct Session {
    pub tables: SwitchModel,
    pub pending: Seq<[u8; 6]>,
}

impl Session {
    /// A switch of `capacity` free slots, no peers and no notices.
    pub open spec fn start(capacity: nat) -> Session {
        Session { tables: SwitchModel::init(capacity), pending: Seq::empty() }
    }

    /// The notice that the channel hands out next, if it holds one.
    pub open spec fn next_notice(self) -> Option<[u8; 6]> {
        if self.pending.len() > 0 {
            Some(self.pending[0])
        } else {
            None
        }
    }

    /// The forwarder of `mac` reports its peer gone: the notice is queued,
    /// the tables stay.
    pub open spec fn report(self, mac: [u8; 6]) -> Session {
        Session { tables: self.tables, pending: self.pending.push(mac) }
    }

    /// A frame from `mac` arrives. A known sender is forwarded to, and
    /// neither the tables nor the channel change. For an unknown sender at
    /// most one notice leaves the channel.
    pub open spec fn deliver(self, mac: [u8; 6]) -> (Session, Outcome) {
        if self.tables.knows(mac) {
            (
                self,
                Outcome {
                    released: None,
                    verdict: Verdict::Forward { port: self.tables.port_of(mac) },
                },
            )
        } else {
            let (tables, outcome) = self.tables.on_unknown(mac, self.next_notice());
            let pending = if self.pending.len() > 0 {
                self.pending.drop_first()
            } else {
                self.pending
            };
            (Session { tables, pending }, outcome)
        }
    }

    /// The session after one event.
    pub open spec fn step(self, event: Event) -> Session {
        match event {
            Event::Frame(mac) => self.deliver(mac).0,
            Event::PeerLost(mac) => self.report(mac),
        }
    }

    /// The session after `events`, in order, on a new switch.
    pub open spec fn run(capacity: nat, events: Seq<Event>) -> Session
        decreases events.len(),
    {
        if events.len() == 0 {
            Session::start(capacity)
        } else {
            Session::run(capacity, events.drop_last()).step(events.last())
        }
    }
}

/// The peer table and the port-slot table agree in every reachable state:
/// whatever frames and failures came, there are as many peers as occupied
/// slots, never more than the capacity, and no two peers share a slot.
pub proof fn lemma_reachable_consistent(capacity: nat, events: Seq<Event>)
    requires
        capacity <= usize::MAX,
    ensures
        Session::run(capacity, events).tables.consistent(),
        Session::run(capacity, events).tables.ports.len() == capacity,
        Session::run(capacity, events).tables.peers.dom().len() == occupied(
            Session::run(capacity, events).tables.ports,
        ),
        Session::run(capacity, events).tables.peers.dom().len() <= capacity,
        forall|j: u64, k: u64|
            #![trigger
                Session::run(capacity, events).tables.peers[j],
                Session::run(capacity, events).tables.peers[k]
            ]
            Session::run(capacity, events).tables.peers.contains_key(j) && Session::run(
                capacity,
                events,
            ).tables.peers.contains_key(k) && j != k ==> Session::run(capacity, events).tables.peers[j]
                != Session::run(capacity, events).tables.peers[k],
    decreases events.len(),
{
    if events.len() == 0 {
        lemma_init_consistent(capacity);
    } else {
        let before = Session::run(capacity, events.drop_last());
        lemma_reachable_consistent(capacity, events.drop_last());
        match events.last() {
            Event::Frame(mac) => {
                if !before.tables.knows(mac) {
                    lemma_on_unknown_consistent(before.tables, mac, before.next_notice());
                }
            },
            Event::PeerLost(mac) => {},
        }
    }
    lemma_capacity_is_fullness(Session::run(capacity, events).tables);
}

/// The capacity boundary: when the table is at capacity, a frame from an
/// unknown sender is dropped and the tables stay as they are, unless the
/// channel holds a notice for a peer of the table.
pub proof fn lemma_full_table_drops(s: Session, mac: [u8; 6])
    requires
        s.tables.consistent(),
        s.tables.at_capacity(),
        !s.tables.knows(mac),
        s.next_notice() matches Some(lost) ==> !s.tables.knows(lost),
    ensures
        s.deliver(mac).1 == (Outcome { released: None, verdict: Verdict::Drop }),
        s.deliver(mac).0.tables == s.tables,
{
}

/// Where room is left, a new peer is admitted: when the table is below
/// capacity, a frame from an unknown sender is admitted whatever the channel
/// holds, on a slot that was free or that the applied notice freed.
pub proof fn lemma_room_admits(s: Session, mac: [u8; 6])
    requires
        s.tables.consistent(),
        !s.tables.at_capacity(),
        !s.tables.knows(mac),
    ensures
        s.deliver(mac).1.verdict is Admit,
        s.deliver(mac).0.tables.knows(mac),
{
    lemma_capacity_is_fullness(s.tables);
    match s.next_notice() {
        Some(lost) => {
            lemma_evict_consistent(s.tables, lost);
            lemma_capacity_is_fullness(s.tables.evict(lost));
            lemma_learn_consistent(s.tables.evict(lost), mac);
        },
        None => {
            lemma_learn_consistent(s.tables, mac);
        },
    }
}

/// A drained eviction makes room: when the table is at capacity and the
/// channel holds a notice for the peer `lost`, a frame from an unknown
/// sender evicts `lost` and is admitted on the slot that `lost` held.
pub proof fn lemma_eviction_makes_room(s: Session, mac: [u8; 6], lost: [u8; 6])
    requires
        s.tables.consistent(),
        s.tables.at_capacity(),
        !s.tables.knows(mac),
        s.next_notice() == Some(lost),
        s.tables.knows(lost),
    ensures
        s.deliver(mac).1 == (Outcome {
            released: Some(Release { mac: lost, port: s.tables.port_of(lost) }),
            verdict: Verdict::Admit { port: s.tables.port_of(lost) },
        }),
        s.deliver(mac).0.tables.lookup(mac) == Some(s.tables.port_of(lost)),
        !s.deliver(mac).0.tables.knows(lost),
{
    let port = s.tables.port_of(lost);
    let swept = s.tables.evict(lost);
    lemma_capacity_is_fullness(s.tables);
    lemma_evict_consistent(s.tables, lost);
    lemma_capacity_is_fullness(swept);
    assert(is_lowest_free(swept.ports, port as int));
    lemma_grant(swept.ports);
    lemma_lowest_free_unique(swept.ports, port as int, grant(swept.ports).unwrap() as int);
    lemma_learn_consistent(swept, mac);
}

/// Eviction is lazy: a notice for `lost` that a forwarder queues changes no
/// table, and while it is pending a frame from any known sender, `lost`
/// itself included, is forwarded to that sender's slot with the tables and
/// the queue untouched. The notice is applied only when a frame from an
/// unknown sender takes it from the head of the queue.
pub proof fn lemma_eviction_is_lazy(s: Session, lost: [u8; 6], known: [u8; 6], unknown: [u8; 6])
    requires
        s.tables.knows(known),
        !s.tables.knows(unknown),
    ensures
        s.report(lost).tables == s.tables,
        s.report(lost).pending == s.pending.push(lost),
        s.report(lost).deliver(known).0 == s.report(lost),
        s.report(lost).deliver(known).1 == (Outcome {
            released: None,
            verdict: Verdict::Forward { port: s.tables.port_of(known) },
        }),
        s.pending.len() == 0 ==> s.report(lost).deliver(unknown).1.released == s.tables.released(
            lost,
        ) && s.report(lost).deliver(unknown).0.pending == s.pending,
{
    if s.pending.len() == 0 {
        assert(s.report(lost).pending.drop_first() =~= s.pending);
    }
}

/// One notice at most for each frame: a frame from an unknown sender takes
/// the oldest pending notice from the channel and applies it, and leaves
/// every later notice where it was.
pub proof fn lemma_one_notice_per_frame(s: Session, unknown: [u8; 6])
    requires
        !s.tables.knows(unknown),
    ensures
        s.pending.len() > 0 ==> s.deliver(unknown).0.pending == s.pending.drop_first()
            && s.deliver(unknown).1.released == s.tables.released(s.pending[0])
            && s.deliver(unknown).0.tables == s.tables.evict(s.pending[0]).learn(unknown).0,
        s.pending.len() == 0 ==> s.deliver(unknown).0.pending == s.pending && s.deliver(
            unknown,
        ).1.released is None && s.deliver(unknown).0.tables == s.tables.learn(unknown).0,
{
}

/// Entries are made and removed, never rewritten: a peer that is in the
/// table before and after a frame is on the same slot before and after.
pub proof fn lemma_entries_are_never_rewritten(s: Session, mac: [u8; 6], peer: [u8; 6])
    requires
        s.tables.knows(peer),
        s.deliver(mac).0.tables.knows(peer),
    ensures
        s.deliver(mac).0.tables.port_of(peer) == s.tables.port_of(peer),
{
}

/// The fast path for known senders: once a frame from `mac` was admitted,
/// `mac` is in the table on the slot of the admission, and a later frame
/// from it, whatever the channel holds, is forwarded to that slot and
/// changes neither table.
pub proof fn lemma_known_mac_fast_path(s: Session, mac: [u8; 6])
    requires
        s.tables.consistent(),
    ensures
        s.deliver(mac).1.verdict matches Verdict::Admit { port } ==> s.deliver(mac).0.tables.lookup(
            mac,
        ) == Some(port),
        s.tables.knows(mac) ==> s.deliver(mac).0 == s && s.deliver(mac).1 == (Outcome {
            released: None,
            verdict: Verdict::Forward { port: s.tables.port_of(mac) },
        }),
        s.deliver(mac).1.verdict matches Verdict::Admit { port } ==> s.deliver(mac).0.deliver(
            mac,
        ) == (
            s.deliver(mac).0,
            Outcome { released: None, verdict: Verdict::Forward { port } },
        ),
{
    if !s.tables.knows(mac) {
        match s.next_notice() {
            Some(lost) => {
                lemma_evict_consistent(s.tables, lost);
                lemma_learn_consistent(s.tables.evict(lost), mac);
            },
            None => {
                lemma_learn_consistent(s.tables, mac);
            },
        }
    }
}

} // verus!
