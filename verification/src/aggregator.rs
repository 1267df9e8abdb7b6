//! Batching of traffic events: events are gathered for a short window after the first
//! one arrives (or until a batch is full) and then published together. This is the
//! decision logic of the aggregation task; the task itself (channels, timers) runs it.
use vstd::prelude::*;
use crate::flow::TrafficEvent;
use crate::handler::EventView;

verus! {

/// Default aggregation window, in milliseconds.
pub const DEFAULT_BATCH_WINDOW_MS: u64 = 32;

/// Default capacity of the published-batch channel.
pub const DEFAULT_BROADCAST_CAPACITY: usize = 256;

/// Default capacity of the incoming-event channel.
pub const DEFAULT_MPSC_CAPACITY: usize = 1024;

/// A batch is published early once it holds this many events.
pub const MAX_BATCH_SIZE: usize = 64;

/// What the aggregation task observed.
pub enum AggregatorInput {
    /// An event arrived.
    Event(TrafficEvent),
    /// The window of the current batch has elapsed.
    WindowElapsed,
    /// Every sender is gone.
    Closed,
}

/// What the aggregation task does next.
pub enum AggregatorAction {
    /// Wait (without a deadline) for the first event of a batch.
    WaitFirst,
    /// A batch has begun: start its window and keep receiving until it elapses.
    StartWindow,
    /// Keep receiving until the window elapses.
    KeepWindow,
    /// Publish this batch, then wait for the first event of the next.
    Publish(Vec<TrafficEvent>),
    /// Publish this last batch (if any) and stop.
    Finish(Option<Vec<TrafficEvent>>),
}

pub open spec fn events_view(v: Seq<TrafficEvent>) -> Seq<EventView> {
    Seq::new(v.len(), |i: int| v[i]@)
}

/// The batching state: the events gathered so far, whether a window is open, whether
/// the task has stopped; with the history of events received and published.
pub struct Batcher {
    batch: Vec<TrafficEvent>,
    in_window: bool,
    stopped: bool,
    received: Ghost<Seq<EventView>>,
    published: Ghost<Seq<EventView>>,
}

impl Batcher {
    /// Nothing is lost or reordered: what was published, followed by the pending batch,
    /// is what was received. A batch never exceeds `MAX_BATCH_SIZE`; a window is open
    /// exactly when the batch is not empty; a stopped task holds nothing.
    #[verifier::type_invariant]
    closed spec fn consistent(self) -> bool {
        &&& self.published@ + events_view(self.batch@) == self.received@
        &&& self.batch@.len() < MAX_BATCH_SIZE
        &&& self.in_window <==> self.batch@.len() > 0
        &&& self.stopped ==> self.batch@.len() == 0
    }

    pub closed spec fn received(&self) -> Seq<EventView> {
        self.received@
    }

    pub closed spec fn published(&self) -> Seq<EventView> {
        self.published@
    }

    pub closed spec fn pending(&self) -> Seq<EventView> {
        events_view(self.batch@)
    }

    pub closed spec fn is_stopped(&self) -> bool {
        self.stopped
    }

    pub fn new() -> (r: Self)
        ensures
            r.received() == Seq::<EventView>::empty(),
            r.published() == Seq::<EventView>::empty(),
            r.pending() == Seq::<EventView>::empty(),
            !r.is_stopped(),
    {
        let r = Batcher {
            batch: Vec::new(),
            in_window: false,
            stopped: false,
            received: Ghost(Seq::empty()),
            published: Ghost(Seq::empty()),
        };
        assert(events_view(r.batch@) =~= Seq::<EventView>::empty());
        r
    }

    /// Takes the next step. An event opens a window when none is open; it is added to
    /// the batch, which is published at once when it reaches `MAX_BATCH_SIZE`. When the
    /// window elapses the batch is published. When the senders are gone the pending
    /// events (if any) are published and the task stops. A stopped task does nothing.
    pub fn step(&mut self, input: AggregatorInput) -> (r: AggregatorAction)
        ensures
            final(self).published() + final(self).pending() == final(self).received(),
            final(self).pending().len() < MAX_BATCH_SIZE,
            old(self).is_stopped() ==> final(self).received() == old(self).received()
                && final(self).published() == old(self).published() && final(self).is_stopped()
                && r matches AggregatorAction::Finish(None),
            !old(self).is_stopped() ==> match input {
                AggregatorInput::Event(e) => {
                    &&& final(self).received() == old(self).received().push(e@)
                    &&& !final(self).is_stopped()
                    &&& if old(self).pending().len() + 1 >= MAX_BATCH_SIZE {
                        &&& r matches AggregatorAction::Publish(b) && events_view(b@) == old(self).pending().push(e@)
                        &&& final(self).published() == old(self).published() + old(self).pending().push(e@)
                        &&& final(self).pending() == Seq::<EventView>::empty()
                    } else {
                        &&& final(self).published() == old(self).published()
                        &&& final(self).pending() == old(self).pending().push(e@)
                        &&& (if old(self).pending().len() == 0 {
                            r is StartWindow
                        } else {
                            r is KeepWindow
                        })
                    }
                },
                AggregatorInput::WindowElapsed => {
                    &&& final(self).received() == old(self).received()
                    &&& final(self).published() == old(self).published() + old(self).pending()
                    &&& final(self).pending() == Seq::<EventView>::empty()
                    &&& !final(self).is_stopped()
                    &&& if old(self).pending().len() > 0 {
                        r matches AggregatorAction::Publish(b) && events_view(b@) == old(self).pending()
                    } else {
                        r is WaitFirst
                    }
                },
                AggregatorInput::Closed => {
                    &&& final(self).received() == old(self).received()
                    &&& final(self).published() == old(self).published() + old(self).pending()
                    &&& final(self).pending() == Seq::<EventView>::empty()
                    &&& final(self).is_stopped()
                    &&& if old(self).pending().len() > 0 {
                        r matches AggregatorAction::Finish(Some(b)) && events_view(b@) == old(self).pending()
                    } else {
                        r matches AggregatorAction::Finish(None)
                    }
                },
            },
    {
        proof {
            use_type_invariant(&*self);
        }
        if self.stopped {
            return AggregatorAction::Finish(None);
        }
        match input {
            AggregatorInput::Event(e) => {
                let ghost ev = e@;
                let mut cur = Batcher::new();
                std::mem::swap(&mut cur, self);
                let Batcher { batch, in_window: was_open, stopped: _, received: old_received, published: old_published } = cur;
                let mut batch = batch;
                let ghost before = events_view(batch@);
                batch.push(e);
                assert(events_view(batch@) =~= before.push(ev));
                let ghost received = old_received@.push(ev);
                if batch.len() >= MAX_BATCH_SIZE {
                    let ghost published = old_published@ + events_view(batch@);
                    *self = Batcher {
                        batch: Vec::new(),
                        in_window: false,
                        stopped: false,
                        received: Ghost(received),
                        published: Ghost(published),
                    };
                    assert(events_view(self.batch@) =~= Seq::<EventView>::empty());
                    assert(self.published@ + events_view(self.batch@) =~= self.received@);
                    AggregatorAction::Publish(batch)
                } else {
                    let ghost published = old_published@;
                    *self = Batcher {
                        batch,
                        in_window: true,
                        stopped: false,
                        received: Ghost(received),
                        published: Ghost(published),
                    };
                    assert(self.published@ + events_view(self.batch@) =~= self.received@);
                    if was_open {
                        AggregatorAction::KeepWindow
                    } else {
                        AggregatorAction::StartWindow
                    }
                }
            },
            AggregatorInput::WindowElapsed => {
                let mut cur = Batcher::new();
                std::mem::swap(&mut cur, self);
                let Batcher { batch, in_window: _, stopped: _, received: old_received, published: old_published } = cur;
                let ghost published = old_published@ + events_view(batch@);
                let ghost received = old_received@;
                *self = Batcher {
                    batch: Vec::new(),
                    in_window: false,
                    stopped: false,
                    received: Ghost(received),
                    published: Ghost(published),
                };
                assert(events_view(self.batch@) =~= Seq::<EventView>::empty());
                assert(self.published@ + events_view(self.batch@) =~= self.received@);
                if batch.len() > 0 {
                    AggregatorAction::Publish(batch)
                } else {
                    AggregatorAction::WaitFirst
                }
            },
            AggregatorInput::Closed => {
                let mut cur = Batcher::new();
                std::mem::swap(&mut cur, self);
                let Batcher { batch, in_window: _, stopped: _, received: old_received, published: old_published } = cur;
                let ghost published = old_published@ + events_view(batch@);
                let ghost received = old_received@;
                *self = Batcher {
                    batch: Vec::new(),
                    in_window: false,
                    stopped: true,
                    received: Ghost(received),
                    published: Ghost(published),
                };
                assert(events_view(self.batch@) =~= Seq::<EventView>::empty());
                assert(self.published@ + events_view(self.batch@) =~= self.received@);
                if batch.len() > 0 {
                    AggregatorAction::Finish(Some(batch))
                } else {
                    AggregatorAction::Finish(None)
                }
            },
        }
    }
}

} // verus!
