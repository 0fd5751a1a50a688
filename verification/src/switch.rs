//! The learning switch: one receiver loop owns a peer table, from MAC
//! address to port slot, and the port-slot table that goes with it. A frame
//! from a known MAC is forwarded to that peer's interface. A frame from an
//! unknown MAC first applies at most one pending eviction notice, then
//! admits the new peer on the lowest free slot, or is dropped at capacity.

use vstd::prelude::*;
use std::collections::HashMap;
use std::sync::mpsc::Receiver;
use crate::mac::{key_of, mac_key};
use crate::ports::{
    after_get, after_put, all_free, get_port, grant, is_full, lemma_all_free, lemma_grant,
    lemma_occupied_bound, lemma_occupied_update, occupied, put_port,
};

verus! {

/// A peer that left the table, and the port slot that it gave back.
#[derive(Clone, Copy, Debug, PartialEq, Eq)]
pub struct Release {
    pub mac: [u8; 6],
    pub port: usize,
}

/// What becomes of a received frame.
#[derive(Clone, Copy, Debug, PartialEq, Eq)]
pub enum Verdict {
    /// The sender is known: write the frame to the interface of this slot.
    Forward { port: usize },
    /// The sender is new and got this slot: open the slot's interface, write
    /// the frame to it and start the peer's forwarder.
    Admit { port: usize },
    /// The sender is new and the table is full: the frame is lost.
    Drop,
}

/// The result of handling one received frame: the eviction that was applied
/// on the way, if any, and what to do with the frame.
#[derive(Clone, Copy, Debug, PartialEq, Eq)]
pub struct Outcome {
    pub released: Option<Release>,
    pub verdict: Verdict,
}

/// The two tables of the switch as mathematical values.
#[verifier::ext_equal]
pub struct SwitchModel {
    /// The port-slot table: `0` for a free slot.
    pub ports: Seq<u8>,
    /// The peer table: from the key of a MAC address to the peer's slot.
    pub peers: Map<u64, usize>,
}

impl SwitchModel {
    /// A switch of `capacity` free slots and no peers.
    pub open spec fn init(capacity: nat) -> SwitchModel {
        SwitchModel { ports: all_free(capacity), peers: Map::empty() }
    }

    /// The peer table has an entry for `mac`.
    pub open spec fn knows(self, mac: [u8; 6]) -> bool {
        self.peers.contains_key(mac_key(mac@))
    }

    /// The slot of the peer `mac`.
    pub open spec fn port_of(self, mac: [u8; 6]) -> usize {
        self.peers[mac_key(mac@)]
    }

    /// The slot of the peer `mac`, if the table has it.
    pub open spec fn lookup(self, mac: [u8; 6]) -> Option<usize> {
        if self.knows(mac) {
            Some(self.port_of(mac))
        } else {
            None
        }
    }

    /// Some peer holds slot `i`.
    pub open spec fn owned(self, i: int) -> bool {
        exists|k: u64| self.peers.contains_key(k) && #[trigger] self.peers[k] == i
    }

    /// The table holds as many peers as there are slots.
    pub open spec fn at_capacity(self) -> bool {
        self.peers.dom().len() >= self.ports.len()
    }

    /// The two tables agree: there are as many peers as occupied slots,
    /// every peer holds an occupied slot of its own, and every occupied slot
    /// is held by a peer.
    pub open spec fn consistent(self) -> bool {
        &&& self.ports.len() <= usize::MAX
        &&& self.peers.dom().finite()
        &&& self.peers.dom().len() == occupied(self.ports)
        &&& forall|k: u64| #[trigger]
            self.peers.contains_key(k) ==> self.peers[k] < self.ports.len()
                && self.ports[self.peers[k] as int] != 0
        &&& forall|j: u64, k: u64|
            #![trigger self.peers.contains_key(j), self.peers.contains_key(k)]
            self.peers.contains_key(j) && self.peers.contains_key(k) && j != k ==> self.peers[j]
                != self.peers[k]
        &&& forall|i: int|
            0 <= i < self.ports.len() && self.ports[i] != 0 ==> #[trigger] self.owned(i)
    }

    /// What an eviction notice for `mac` gives back: the peer's slot, or
    /// nothing where the table has no such peer.
    pub open spec fn released(self, mac: [u8; 6]) -> Option<Release> {
        if self.knows(mac) {
            Some(Release { mac, port: self.port_of(mac) })
        } else {
            None
        }
    }

    /// The tables after an eviction notice for `mac`: the peer's slot is
    /// free and its entry gone. Without such a peer nothing changes.
    pub open spec fn evict(self, mac: [u8; 6]) -> SwitchModel {
        if self.knows(mac) {
            SwitchModel {
                ports: after_put(self.ports, self.port_of(mac)),
                peers: self.peers.remove(mac_key(mac@)),
            }
        } else {
            self
        }
    }

    /// Admission of the new peer `mac`: at capacity nothing changes and the
    /// frame is dropped; else the peer gets the lowest free slot.
    pub open spec fn learn(self, mac: [u8; 6]) -> (SwitchModel, Verdict) {
        if self.at_capacity() {
            (self, Verdict::Drop)
        } else {
            let port = grant(self.ports).unwrap();
            (
                SwitchModel {
                    ports: after_get(self.ports),
                    peers: self.peers.insert(mac_key(mac@), port),
                },
                Verdict::Admit { port },
            )
        }
    }

    /// A frame from the unknown sender `mac`, with the eviction notice that
    /// was pending, if one was: the notice is applied first, then the sender
    /// is admitted or the frame dropped.
    pub open spec fn on_unknown(self, mac: [u8; 6], notice: Option<[u8; 6]>) -> (
        SwitchModel,
        Outcome,
    ) {
        let swept = match notice {
            Some(lost) => self.evict(lost),
            None => self,
        };
        let released = match notice {
            Some(lost) => self.released(lost),
            None => None,
        };
        let (after, verdict) = swept.learn(mac);
        (after, Outcome { released, verdict })
    }
}

/// An empty switch is consistent.
pub proof fn lemma_init_consistent(capacity: nat)
    requires
        capacity <= usize::MAX,
    ensures
        SwitchModel::init(capacity).consistent(),
{
    lemma_all_free(capacity);
}

/// In a consistent switch the peer table is at capacity exactly when no
/// slot is free.
pub proof fn lemma_capacity_is_fullness(m: SwitchModel)
    requires
        m.consistent(),
    ensures
        m.at_capacity() <==> is_full(m.ports),
        m.at_capacity() <==> grant(m.ports) is None,
        m.peers.dom().len() <= m.ports.len(),
{
    lemma_occupied_bound(m.ports);
}

/// Eviction keeps the two tables consistent and the number of slots.
pub proof fn lemma_evict_consistent(m: SwitchModel, mac: [u8; 6])
    requires
        m.consistent(),
    ensures
        m.evict(mac).consistent(),
        m.evict(mac).ports.len() == m.ports.len(),
{
    if m.knows(mac) {
        let key = mac_key(mac@);
        let port = m.port_of(mac);
        let after = m.evict(mac);
        lemma_occupied_update(m.ports, port as int, 0u8);
        assert forall|k: u64| #[trigger] after.peers.contains_key(k) implies after.peers[k]
            < after.ports.len() && after.ports[after.peers[k] as int] != 0 by {
            assert(m.peers.contains_key(k) && m.peers.contains_key(key));
        }
        assert forall|i: int|
            0 <= i < after.ports.len() && after.ports[i] != 0 implies #[trigger] after.owned(
            i,
        ) by {
            assert(m.owned(i));
            let k = choose|k: u64| m.peers.contains_key(k) && #[trigger] m.peers[k] == i;
            assert(after.peers.contains_key(k) && after.peers[k] == i);
        }
    }
}

/// Admission keeps the two tables consistent and the number of slots, and
/// leaves the sender in the peer table on the slot that the verdict names.
pub proof fn lemma_learn_consistent(m: SwitchModel, mac: [u8; 6])
    requires
        m.consistent(),
        !m.knows(mac),
    ensures
        m.learn(mac).0.consistent(),
        m.learn(mac).0.ports.len() == m.ports.len(),
        m.learn(mac).1 matches Verdict::Admit { port } ==> m.learn(mac).0.lookup(mac) == Some(port)
            && port < m.ports.len() && m.ports[port as int] == 0,
        m.learn(mac).1 is Drop ==> m.learn(mac).0 == m,
        !(m.learn(mac).1 is Forward),
{
    lemma_capacity_is_fullness(m);
    if !m.at_capacity() {
        let key = mac_key(mac@);
        let port = grant(m.ports).unwrap();
        let after = m.learn(mac).0;
        lemma_grant(m.ports);
        lemma_occupied_update(m.ports, port as int, 1u8);
        assert forall|j: u64, k: u64|
            #![trigger after.peers.contains_key(j), after.peers.contains_key(k)]
            after.peers.contains_key(j) && after.peers.contains_key(k) && j != k implies after.peers[j]
            != after.peers[k] by {
            if j != key {
                assert(m.peers.contains_key(j));
            }
            if k != key {
                assert(m.peers.contains_key(k));
            }
        }
        assert forall|i: int|
            0 <= i < after.ports.len() && after.ports[i] != 0 implies #[trigger] after.owned(
            i,
        ) by {
            if i == port {
                assert(after.peers.contains_key(key) && after.peers[key] == i);
            } else {
                assert(m.owned(i));
                let k = choose|k: u64| m.peers.contains_key(k) && #[trigger] m.peers[k] == i;
                assert(after.peers.contains_key(k) && after.peers[k] == i);
            }
        }
    }
}

/// Handling a frame from an unknown sender keeps the two tables consistent
/// and the number of slots.
pub proof fn lemma_on_unknown_consistent(m: SwitchModel, mac: [u8; 6], notice: Option<[u8; 6]>)
    requires
        m.consistent(),
        !m.knows(mac),
    ensures
        m.on_unknown(mac, notice).0.consistent(),
        m.on_unknown(mac, notice).0.ports.len() == m.ports.len(),
{
    match notice {
        Some(lost) => {
            lemma_evict_consistent(m, lost);
            lemma_learn_consistent(m.evict(lost), mac);
        },
        None => {
            lemma_learn_consistent(m, mac);
        },
    }
}

/// The receiving end of the feedback channel on which the forwarders of
/// peers report, by MAC address, that their peer is gone.
#[verifier::external_type_specification]
#[verifier::external_body]
#[verifier::reject_recursive_types(T)]
pub struct ExReceiver<T>(std::sync::mpsc::Receiver<T>);

/// Takes one eviction notice from the feedback channel without waiting:
/// `std::sync::mpsc::Receiver::try_recv`. The notice comes from other
/// threads, so nothing is claimed of it; an empty and a disconnected channel
/// both give `None`.
#[verifier::external_body]
fn poll_notice(feedback: &Receiver<[u8; 6]>) -> (notice: Option<[u8; 6]>) {
    match feedback.try_recv() {
        Ok(lost) => Some(lost),
        Err(_) => None,
    }
}

/// The learning switch's bookkeeping. Only the receiver loop holds it.
pub struct Switch {
    ports: Vec<u8>,
    peers: HashMap<u64, usize>,
}

impl View for Switch {
    type V = SwitchModel;

    closed spec fn view(&self) -> SwitchModel {
        SwitchModel { ports: self.ports@, peers: self.peers@ }
    }
}

impl Switch {
    /// The invariant of the switch: its two tables are consistent.
    pub open spec fn wf(&self) -> bool {
        self@.consistent()
    }

    /// A switch for up to `capacity` peers, with none yet.
    pub fn new(capacity: usize) -> (s: Switch)
        ensures
            s.wf(),
            s@ == SwitchModel::init(capacity as nat),
    {
        let mut ports: Vec<u8> = Vec::new();
        let mut i: usize = 0;
        while i < capacity
            invariant
                i <= capacity,
                ports@ =~= all_free(i as nat),
            decreases capacity - i,
        {
            ports.push(0);
            i += 1;
        }
        let s = Switch { ports, peers: HashMap::new() };
        proof {
            lemma_init_consistent(capacity as nat);
            assert(s@ =~= SwitchModel::init(capacity as nat));
        }
        s
    }

    /// The number of port slots.
    pub fn capacity(&self) -> (n: usize)
        ensures
            n == self@.ports.len(),
    {
        self.ports.len()
    }

    /// The port-slot table: `0` for a free slot.
    pub fn port_table(&self) -> (table: &[u8])
        ensures
            table@ == self@.ports,
    {
        self.ports.as_slice()
    }

    /// The number of peers in the table.
    pub fn len(&self) -> (n: usize)
        ensures
            n == self@.peers.dom().len(),
    {
        self.peers.len()
    }

    /// The slot of the peer `mac`, if the table has it. The tables stay as
    /// they are.
    pub fn lookup(&self, mac: &[u8; 6]) -> (r: Option<usize>)
        ensures
            r == self@.lookup(*mac),
    {
        let key = key_of(mac);
        match self.peers.get(&key) {
            Some(port) => Some(*port),
            None => None,
        }
    }

    /// Applies one eviction notice: the peer `mac` leaves the table and its
    /// slot is free again. Returns what was released, or `None`, with
    /// nothing changed, where the table has no such peer.
    pub fn evict(&mut self, mac: &[u8; 6]) -> (r: Option<Release>)
        requires
            old(self).wf(),
        ensures
            final(self).wf(),
            final(self)@ == old(self)@.evict(*mac),
            r == old(self)@.released(*mac),
    {
        let key = key_of(mac);
        proof {
            lemma_evict_consistent(self@, *mac);
        }
        match self.peers.remove(&key) {
            Some(port) => {
                put_port(self.ports.as_mut_slice(), port);
                assert(self@ =~= old(self)@.evict(*mac));
                Some(Release { mac: *mac, port })
            },
            None => {
                assert(self@ =~= old(self)@);
                None
            },
        }
    }

    /// Admits the new peer `mac` on the lowest free slot, or drops it when
    /// the table is at capacity.
    pub fn learn(&mut self, mac: &[u8; 6]) -> (v: Verdict)
        requires
            old(self).wf(),
            !old(self)@.knows(*mac),
        ensures
            final(self).wf(),
            (final(self)@, v) == old(self)@.learn(*mac),
    {
        proof {
            lemma_capacity_is_fullness(self@);
            lemma_learn_consistent(self@, *mac);
        }
        if self.peers.len() >= self.ports.len() {
            return Verdict::Drop;
        }
        let port = get_port(self.ports.as_mut_slice()).unwrap();
        self.peers.insert(key_of(mac), port);
        assert(self@ =~= old(self)@.learn(*mac).0);
        Verdict::Admit { port }
    }

    /// Handles a frame from a sender that the table does not have, given
    /// the eviction notice taken from the feedback channel, if there was
    /// one: the notice is applied, then the sender admitted or the frame
    /// dropped.
    pub fn on_unknown(&mut self, mac: &[u8; 6], notice: Option<[u8; 6]>) -> (out: Outcome)
        requires
            old(self).wf(),
            !old(self)@.knows(*mac),
        ensures
            final(self).wf(),
            (final(self)@, out) == old(self)@.on_unknown(*mac, notice),
    {
        let released = match notice {
            Some(lost) => self.evict(&lost),
            None => None,
        };
        let verdict = self.learn(mac);
        Outcome { released, verdict }
    }

    /// Handles one received frame with source address `mac`. A known sender
    /// is forwarded to, and neither the tables nor the feedback channel are
    /// touched. For an unknown sender at most one eviction notice is taken
    /// from `feedback` and the frame handled as `on_unknown` says.
    pub fn on_datagram(&mut self, mac: &[u8; 6], feedback: &Receiver<[u8; 6]>) -> (out: Outcome)
        requires
            old(self).wf(),
        ensures
            final(self).wf(),
            old(self)@.knows(*mac) ==> final(self)@ == old(self)@ && out == (Outcome {
                released: None,
                verdict: Verdict::Forward { port: old(self)@.port_of(*mac) },
            }),
            !old(self)@.knows(*mac) ==> exists|notice: Option<[u8; 6]>|
                (final(self)@, out) == #[trigger] old(self)@.on_unknown(*mac, notice),
    {
        match self.lookup(mac) {
            Some(port) => Outcome { released: None, verdict: Verdict::Forward { port } },
            None => {
                let notice = poll_notice(feedback);
                self.on_unknown(mac, notice)
            },
        }
    }
}

} // verus!
