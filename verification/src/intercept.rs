//! Breakpoints: the registry of exchanges held for the user's decision. A held exchange
//! is registered with its stage and original message and a one-shot channel; resolving
//! it sends the decision through the channel. Waiting on the channel is left to the
//! caller.
use vstd::prelude::*;
use std::collections::hash_map::RandomState;
use dashmap::DashMap;
use tokio::sync::oneshot::{Receiver, Sender};
use crate::error::InterceptError;
use crate::handler::InterceptDecision;
use crate::message::{HttpMessage, MsgView};
use crate::text::string_from_str;

verus! {

#[verifier::external_type_specification]
#[verifier::external_body]
#[verifier::reject_recursive_types(T)]
pub struct ExOneshotSender<T>(Sender<T>);

#[verifier::external_type_specification]
#[verifier::external_body]
#[verifier::reject_recursive_types(T)]
pub struct ExOneshotReceiver<T>(Receiver<T>);

#[verifier::external_type_specification]
#[verifier::external_body]
pub struct ExOneshotRecvError(tokio::sync::oneshot::error::RecvError);

/// `tokio::sync::oneshot::channel`: a new channel, its sender and its receiver.
#[verifier::external_body]
fn decision_channel() -> (r: (Sender<InterceptDecision>, Receiver<InterceptDecision>)) {
    tokio::sync::oneshot::channel::<InterceptDecision>()
}

/// `oneshot::Sender::send`: delivers the decision, or gives it back when the receiver
/// is gone (which depends on the waiting task; nothing is stated of it).
#[verifier::external_body]
fn send_decision(tx: Sender<InterceptDecision>, d: InterceptDecision) -> (r: Result<(), InterceptDecision>) {
    tx.send(d)
}

/// A held exchange: its stage (`request` or `response`), the original message, and
/// the sender of its channel while the decision has not been sent.
pub struct PendingEntry {
    pub stage: String,
    pub original: HttpMessage,
    pub sender: Option<Sender<InterceptDecision>>,
}

pub type PendingMap = DashMap<String, PendingEntry, RandomState>;

/// The entries of a pending map, keyed by the view of their key.
pub uninterp spec fn pending_contents(m: PendingMap) -> Map<Seq<char>, PendingEntry>;

/// `DashMap::new`: an empty map.
#[verifier::external_body]
fn pending_new() -> (m: PendingMap)
    ensures
        pending_contents(m) =~= Map::empty(),
{
    DashMap::new()
}

/// `DashMap::insert`: sets the key's entry (the previous one is dropped).
#[verifier::external_body]
fn pending_insert(m: &mut PendingMap, k: String, v: PendingEntry)
    ensures
        pending_contents(*final(m)) == pending_contents(*old(m)).insert(k@, v),
{
    m.insert(k, v);
}

/// `DashMap::remove`: removes the key, giving its entry back.
#[verifier::external_body]
fn pending_remove(m: &mut PendingMap, k: &str) -> (r: Option<PendingEntry>)
    ensures
        pending_contents(*final(m)) == pending_contents(*old(m)).remove(k@),
        pending_contents(*old(m)).dom().contains(k@) ==> r == Some(pending_contents(*old(m))[k@]),
        !pending_contents(*old(m)).dom().contains(k@) ==> r is None,
{
    m.remove(k).map(|(_, v)| v)
}

/// `DashMap::get`, the stage copied.
#[verifier::external_body]
fn pending_stage(m: &PendingMap, k: &str) -> (r: Option<String>)
    ensures
        pending_contents(*m).dom().contains(k@) ==> (r is Some && r.unwrap()@ == pending_contents(*m)[k@].stage@),
        !pending_contents(*m).dom().contains(k@) ==> r is None,
{
    m.get(k).map(|e| e.stage.clone())
}

/// `DashMap::get`, the original message copied.
#[verifier::external_body]
fn pending_original(m: &PendingMap, k: &str) -> (r: Option<HttpMessage>)
    ensures
        pending_contents(*m).dom().contains(k@) ==> (r is Some && r.unwrap()@ == pending_contents(*m)[k@].original@),
        !pending_contents(*m).dom().contains(k@) ==> r is None,
{
    m.get(k).map(|e| e.original.clone())
}

/// `DashMap::iter`: every key with its stage, once each, in an unspecified order.
#[verifier::external_body]
fn pending_list(m: &PendingMap) -> (r: Vec<(String, String)>)
    ensures
        r@.len() == pending_contents(*m).dom().len(),
        forall|i: int| 0 <= i < r@.len() ==> pending_contents(*m).dom().contains(#[trigger] r@[i].0@),
        forall|i: int| 0 <= i < r@.len() ==> pending_contents(*m)[#[trigger] r@[i].0@].stage@ == r@[i].1@,
        forall|i: int, j: int| 0 <= i < j < r@.len() ==> r@[i].0@ != r@[j].0@,
        forall|k: Seq<char>|
            #[trigger] pending_contents(*m).dom().contains(k) ==> exists|i: int|
                0 <= i < r@.len() && r@[i].0@ == k,
{
    m.iter().map(|e| (e.key().clone(), e.stage.clone())).collect()
}

/// `DashMap::clear`: removes every entry (dropping their senders).
#[verifier::external_body]
fn pending_clear(m: &mut PendingMap)
    ensures
        pending_contents(*final(m)) =~= Map::empty(),
{
    m.clear()
}

/// What the registry knows of a held exchange: stage, original message, and whether the
/// decision is still to be sent.
pub struct PendingView {
    pub stage: Seq<char>,
    pub original: MsgView,
    pub awaiting: bool,
}

pub open spec fn entry_view(e: PendingEntry) -> PendingView {
    PendingView { stage: e.stage@, original: e.original@, awaiting: e.sender is Some }
}

/// The registry of held exchanges, keyed by flow id.
pub struct InterceptRegistry {
    pending: PendingMap,
}

impl View for InterceptRegistry {
    type V = Map<Seq<char>, PendingView>;

    closed spec fn view(&self) -> Map<Seq<char>, PendingView> {
        pending_contents(self.pending).map_values(|e: PendingEntry| entry_view(e))
    }
}

impl InterceptRegistry {
    pub fn new() -> (r: Self)
        ensures
            r@ =~= Map::<Seq<char>, PendingView>::empty(),
    {
        InterceptRegistry { pending: pending_new() }
    }

    /// Holds an exchange: records its stage and original message and returns the
    /// receiver on which the decision will arrive.
    pub fn register(&mut self, flow_id: &str, stage: &str, original: HttpMessage) -> (r: Receiver<
        InterceptDecision,
    >)
        ensures
            final(self)@ == old(self)@.insert(
                flow_id@,
                PendingView { stage: stage@, original: original@, awaiting: true },
            ),
    {
        let (tx, rx) = decision_channel();
        let entry = PendingEntry { stage: string_from_str(stage), original, sender: Some(tx) };
        pending_insert(&mut self.pending, string_from_str(flow_id), entry);
        proof {
            assert(self@ =~= old(self)@.insert(
                flow_id@,
                PendingView { stage: stage@, original: original@, awaiting: true },
            ));
        }
        rx
    }

    /// Forgets a held exchange once its wait has ended (in any way).
    pub fn release(&mut self, flow_id: &str)
        ensures
            final(self)@ == old(self)@.remove(flow_id@),
    {
        let _ = pending_remove(&mut self.pending, flow_id);
        proof {
            assert(self@ =~= old(self)@.remove(flow_id@));
        }
    }

    /// Sends the user's decision to a held exchange. Errors: `NotFound(flow_id)` when
    /// no exchange is held under that id, or its decision was already sent;
    /// `AlreadyResolved(flow_id)` when the waiting side is gone, in which case the entry
    /// is forgotten.
    pub fn resolve(&mut self, flow_id: &str, decision: InterceptDecision) -> (r: Result<(), InterceptError>)
        ensures
            !old(self)@.dom().contains(flow_id@) ==> (r matches Err(InterceptError::NotFound(m)) && m@
                == flow_id@ && final(self)@ == old(self)@),
            old(self)@.dom().contains(flow_id@) && !old(self)@[flow_id@].awaiting ==> (r matches Err(
                InterceptError::NotFound(m),
            ) && m@ == flow_id@ && final(self)@ == old(self)@),
            old(self)@.dom().contains(flow_id@) && old(self)@[flow_id@].awaiting ==> match r {
                Ok(_) => final(self)@ == old(self)@.insert(
                    flow_id@,
                    PendingView { awaiting: false, ..old(self)@[flow_id@] },
                ),
                Err(InterceptError::AlreadyResolved(m)) => m@ == flow_id@ && final(self)@ == old(
                    self,
                )@.remove(flow_id@),
                Err(_) => false,
            },
    {
        let ghost before = self@;
        match pending_remove(&mut self.pending, flow_id) {
            None => {
                proof {
                    assert(self@ =~= before);
                }
                Err(InterceptError::NotFound(string_from_str(flow_id)))
            },
            Some(entry) => {
                let PendingEntry { stage, original, sender } = entry;
                match sender {
                    None => {
                        pending_insert(
                            &mut self.pending,
                            string_from_str(flow_id),
                            PendingEntry { stage, original, sender: None },
                        );
                        proof {
                            assert(self@ =~= before);
                        }
                        Err(InterceptError::NotFound(string_from_str(flow_id)))
                    },
                    Some(tx) => {
                        match send_decision(tx, decision) {
                            Ok(()) => {
                                pending_insert(
                                    &mut self.pending,
                                    string_from_str(flow_id),
                                    PendingEntry { stage, original, sender: None },
                                );
                                proof {
                                    assert(self@ =~= before.insert(
                                        flow_id@,
                                        PendingView { awaiting: false, ..before[flow_id@] },
                                    ));
                                }
                                Ok(())
                            },
                            Err(_) => {
                                proof {
                                    assert(self@ =~= before.remove(flow_id@));
                                }
                                Err(InterceptError::AlreadyResolved(string_from_str(flow_id)))
                            },
                        }
                    },
                }
            },
        }
    }

    /// The original message of a held exchange.
    pub fn get_original(&self, flow_id: &str) -> (r: Option<HttpMessage>)
        ensures
            self@.dom().contains(flow_id@) ==> (r matches Some(o) && o@ == self@[flow_id@].original),
            !self@.dom().contains(flow_id@) ==> r is None,
    {
        pending_original(&self.pending, flow_id)
    }

    /// The stage of a held exchange.
    pub fn get_stage(&self, flow_id: &str) -> (r: Option<String>)
        ensures
            self@.dom().contains(flow_id@) ==> (r matches Some(s) && s@ == self@[flow_id@].stage),
            !self@.dom().contains(flow_id@) ==> r is None,
    {
        pending_stage(&self.pending, flow_id)
    }

    /// Every held exchange with its stage, once each, in no particular order.
    pub fn list_pending(&self) -> (r: Vec<(String, String)>)
        ensures
            r@.len() == self@.dom().len(),
            forall|i: int| 0 <= i < r@.len() ==> self@.dom().contains(#[trigger] r@[i].0@),
            forall|i: int| 0 <= i < r@.len() ==> self@[#[trigger] r@[i].0@].stage == r@[i].1@,
            forall|i: int, j: int| 0 <= i < j < r@.len() ==> r@[i].0@ != r@[j].0@,
    {
        let r = pending_list(&self.pending);
        proof {
            assert(self@.dom() =~= pending_contents(self.pending).dom());
        }
        r
    }

    /// Forgets every held exchange whose decision has not been sent: its sender is
    /// dropped, so its wait ends with an error. Exchanges whose decision was sent stay
    /// until their waits release them.
    pub fn cancel_all(&mut self)
        ensures
            final(self)@ =~= Map::new(
                |k: Seq<char>| old(self)@.dom().contains(k) && !old(self)@[k].awaiting,
                |k: Seq<char>| old(self)@[k],
            ),
    {
        let ids = pending_list(&self.pending);
        let ghost m0 = pending_contents(self.pending);
        let mut i: usize = 0;
        while i < ids.len()
            invariant
                i <= ids@.len(),
                forall|a: int, b: int| 0 <= a < b < ids@.len() ==> ids@[a].0@ != ids@[b].0@,
                forall|a: int| 0 <= a < ids@.len() ==> m0.dom().contains(#[trigger] ids@[a].0@),
                forall|k: Seq<char>|
                    #[trigger] pending_contents(self.pending).dom().contains(k) <==> (
                    m0.dom().contains(k) && !(listed_before(ids@, i as int, k)
                        && m0[k].sender is Some)),
                forall|k: Seq<char>|
                    #[trigger] pending_contents(self.pending).dom().contains(k) ==> pending_contents(
                        self.pending,
                    )[k] == m0[k],
            decreases ids.len() - i,
        {
            let ghost key = ids@[i as int].0@;
            assert(!listed_before(ids@, i as int, key));
            let ghost before = pending_contents(self.pending);
            assert(before.dom().contains(key));
            let removed = pending_remove(&mut self.pending, ids[i].0.as_str());
            match removed {
                Some(entry) => {
                    if entry.sender.is_none() {
                        pending_insert(&mut self.pending, ids[i].0.clone(), entry);
                        assert(pending_contents(self.pending) =~= before);
                    }
                },
                None => {},
            }
            proof {
                assert forall|k: Seq<char>|
                    listed_before(ids@, i + 1, k) <==> (listed_before(ids@, i as int, k) || k
                        == key) by {
                    if listed_before(ids@, i + 1, k) && !listed_before(ids@, i as int, k) {
                        let j = choose|j: int| 0 <= j < i + 1 && ids@[j].0@ == k;
                        assert(j == i);
                    }
                    if k == key {
                        assert(ids@[i as int].0@ == k);
                    }
                    if listed_before(ids@, i as int, k) {
                        let j = choose|j: int| 0 <= j < i && ids@[j].0@ == k;
                        assert(0 <= j < i + 1 && ids@[j].0@ == k);
                    }
                }
            }
            i += 1;
        }
        proof {
            assert forall|k: Seq<char>| m0.dom().contains(k) implies listed_before(
                ids@,
                ids@.len() as int,
                k,
            ) by {
                let j = choose|j: int| 0 <= j < ids@.len() && ids@[j].0@ == k;
                assert(0 <= j < ids@.len() && ids@[j].0@ == k);
            }
        }
    }
}

/// The key `k` is among the first `i` listed keys.
pub open spec fn listed_before(ids: Seq<(String, String)>, i: int, k: Seq<char>) -> bool {
    exists|j: int| 0 <= j < i && ids[j].0@ == k
}

/// A decision is delivered at most once: once `resolve` has sent one, the entry is no
/// longer awaiting, so a second `resolve` is answered `NotFound`; a registered entry
/// awaits its decision and keeps its stage.
pub proof fn lemma_decision_sent_once(m: Map<Seq<char>, PendingView>, id: Seq<char>, stage: Seq<char>, original: MsgView)
    ensures
        m.insert(id, PendingView { stage: stage, original: original, awaiting: true })[id].awaiting,
        m.insert(id, PendingView { stage: stage, original: original, awaiting: true })[id].stage == stage,
        m.dom().contains(id) ==> m.insert(id, PendingView { awaiting: false, ..m[id] }).dom().contains(id)
            && !m.insert(id, PendingView { awaiting: false, ..m[id] })[id].awaiting,
{
}

} // verus!
