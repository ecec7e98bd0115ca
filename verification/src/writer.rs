//! The batching decisions of the event writer: events are collected into
//! batches, each batch is written in arrival order, and consecutive events
//! of a batch are linked by `temporal_next` edges.
use vstd::prelude::*;

use crate::error::StorageError;
use crate::events::Event;

verus! {

/// Configuration for batch writes
#[derive(Debug)]
pub struct WriterConfig {
    /// Buffer size before forced flush (events)
    pub batch_size: usize,
    /// Time-based flush interval
    pub flush_interval_ms: u64,
    /// Max queue size before dropping
    pub max_queue_size: usize,
}

impl Default for WriterConfig {
    /// Batches of 50, a flush every 200 ms, and a queue of 10 000 events.
    fn default() -> (r: Self)
        ensures
            r.batch_size == 50,
            r.flush_interval_ms == 200,
            r.max_queue_size == 10_000,
    {
        WriterConfig { batch_size: 50, flush_interval_ms: 200, max_queue_size: 10_000 }
    }
}

/// What reaches the writer task.
pub enum WriterInput {
    /// An event arrived from the queue.
    Received(Event),
    /// The flush interval elapsed.
    Tick,
    /// The queue was closed: no more events will arrive.
    Closed,
}

/// What the writer task does after an input.
pub struct WriterStep {
    /// A batch to write now, in arrival order.
    pub flush: Option<Vec<Event>>,
    /// Whether the task ends.
    pub stop: bool,
}

/// The outcome of one input for a batch holding `batch`: the events to
/// write now (if any), the batch that remains, and whether the task ends.
pub open spec fn writer_step(batch: Seq<Event>, batch_size: nat, input: WriterInput) -> (
    Option<Seq<Event>>,
    Seq<Event>,
    bool,
) {
    match input {
        WriterInput::Received(e) => {
            let b = batch.push(e);
            if b.len() >= batch_size {
                (Some(b), Seq::empty(), false)
            } else {
                (None, b, false)
            }
        },
        WriterInput::Tick => if batch.len() > 0 {
            (Some(batch), Seq::empty(), false)
        } else {
            (None, batch, false)
        },
        WriterInput::Closed => if batch.len() > 0 {
            (Some(batch), Seq::empty(), true)
        } else {
            (None, batch, true)
        },
    }
}

/// The events an input adds to the writer.
pub open spec fn received(input: WriterInput) -> Seq<Event> {
    match input {
        WriterInput::Received(e) => seq![e],
        _ => Seq::empty(),
    }
}

/// The events written now, if any.
pub open spec fn flushed(f: Option<Seq<Event>>) -> Seq<Event> {
    match f {
        Some(s) => s,
        None => Seq::empty(),
    }
}

/// The pending batch of the writer task.
pub struct BatchWriter {
    batch: Vec<Event>,
    batch_size: usize,
}

impl BatchWriter {
    /// A pending batch never reaches the batch size.
    #[verifier::type_invariant]
    spec fn below_limit(self) -> bool {
        self.batch@.len() == 0 || self.batch@.len() < self.batch_size
    }

    /// The events waiting to be written, in arrival order.
    pub closed spec fn pending(&self) -> Seq<Event> {
        self.batch@
    }

    /// The number of events that forces a write.
    pub closed spec fn size_limit(&self) -> nat {
        self.batch_size as nat
    }

    /// An empty batch that is written once it holds `config.batch_size` events.
    pub fn new(config: &WriterConfig) -> (r: BatchWriter)
        ensures
            r.pending() == Seq::<Event>::empty(),
            r.size_limit() == config.batch_size,
    {
        BatchWriter { batch: Vec::new(), batch_size: config.batch_size }
    }

    /// Handles one input: an event joins the batch, and the batch is
    /// written once it is full; a tick writes a batch that is not empty;
    /// closing writes what is left and ends the task. The batch left
    /// pending never reaches the batch size.
    pub fn on_input(&mut self, input: WriterInput) -> (r: WriterStep)
        ensures
            final(self).size_limit() == old(self).size_limit(),
            final(self).pending().len() == 0 || final(self).pending().len() < final(self).size_limit(),
            ({
                let (f, b, stop) = writer_step(old(self).pending(), old(self).size_limit(), input);
                &&& final(self).pending() == b
                &&& r.stop == stop
                &&& match r.flush {
                    Some(v) => f == Some(v@),
                    None => f is None,
                }
            }),
    {
        proof {
            use_type_invariant(&*self);
        }
        match input {
            WriterInput::Received(e) => {
                if self.batch.len() >= self.batch_size || self.batch_size - self.batch.len() <= 1 {
                    let mut full: Vec<Event> = Vec::new();
                    std::mem::swap(&mut full, &mut self.batch);
                    full.push(e);
                    proof {
                        use_type_invariant(&*self);
                    }
                    WriterStep { flush: Some(full), stop: false }
                } else {
                    let mut pending: Vec<Event> = Vec::new();
                    std::mem::swap(&mut pending, &mut self.batch);
                    pending.push(e);
                    self.batch = pending;
                    proof {
                        use_type_invariant(&*self);
                    }
                    WriterStep { flush: None, stop: false }
                }
            },
            WriterInput::Tick => {
                if self.batch.len() > 0 {
                    let mut full: Vec<Event> = Vec::new();
                    std::mem::swap(&mut full, &mut self.batch);
                    proof {
                        use_type_invariant(&*self);
                    }
                    WriterStep { flush: Some(full), stop: false }
                } else {
                    WriterStep { flush: None, stop: false }
                }
            },
            WriterInput::Closed => {
                if self.batch.len() > 0 {
                    let mut full: Vec<Event> = Vec::new();
                    std::mem::swap(&mut full, &mut self.batch);
                    proof {
                        use_type_invariant(&*self);
                    }
                    WriterStep { flush: Some(full), stop: true }
                } else {
                    WriterStep { flush: None, stop: true }
                }
            },
        }
    }
}

/// Runs a whole sequence of inputs from a batch holding `batch`: all the
/// events written, in order, and the batch that remains.
pub open spec fn writer_run(batch: Seq<Event>, batch_size: nat, inputs: Seq<WriterInput>) -> (
    Seq<Event>,
    Seq<Event>,
)
    decreases inputs.len(),
{
    if inputs.len() == 0 {
        (Seq::empty(), batch)
    } else {
        let (f, b, _) = writer_step(batch, batch_size, inputs[0]);
        let (rest, last) = writer_run(b, batch_size, inputs.drop_first());
        (flushed(f) + rest, last)
    }
}

/// All the events that a sequence of inputs brings.
pub open spec fn received_all(inputs: Seq<WriterInput>) -> Seq<Event>
    decreases inputs.len(),
{
    if inputs.len() == 0 {
        Seq::empty()
    } else {
        received(inputs[0]) + received_all(inputs.drop_first())
    }
}

/// One input loses and reorders nothing: what is written now, followed by
/// what remains pending, is what was pending followed by what arrived.
pub proof fn law_step_keeps_order(batch: Seq<Event>, batch_size: nat, input: WriterInput)
    ensures
        ({
            let (f, b, _) = writer_step(batch, batch_size, input);
            flushed(f) + b == batch + received(input)
        }),
{
    let (f, b, _) = writer_step(batch, batch_size, input);
    assert(flushed(f) + b =~= batch + received(input));
}

/// Over any sequence of inputs, the writer writes every event it receives
/// exactly once and in arrival order: the events written, followed by
/// those still pending, are those pending at the start followed by those
/// received.
pub proof fn law_run_keeps_order(batch: Seq<Event>, batch_size: nat, inputs: Seq<WriterInput>)
    ensures
        ({
            let (written, pending) = writer_run(batch, batch_size, inputs);
            written + pending == batch + received_all(inputs)
        }),
    decreases inputs.len(),
{
    if inputs.len() > 0 {
        let (f, b, _) = writer_step(batch, batch_size, inputs[0]);
        law_step_keeps_order(batch, batch_size, inputs[0]);
        law_run_keeps_order(b, batch_size, inputs.drop_first());
        let (rest, last) = writer_run(b, batch_size, inputs.drop_first());
        assert(flushed(f) + rest + last =~= flushed(f) + (rest + last));
        assert(batch + received(inputs[0]) + received_all(inputs.drop_first()) =~= batch + (received(
            inputs[0],
        ) + received_all(inputs.drop_first())));
    }
}

/// Closing the queue leaves nothing pending and ends the task.
pub proof fn law_close_flushes_everything(batch: Seq<Event>, batch_size: nat)
    ensures
        writer_step(batch, batch_size, WriterInput::Closed).1.len() == 0,
        writer_step(batch, batch_size, WriterInput::Closed).2,
        flushed(writer_step(batch, batch_size, WriterInput::Closed).0) == batch,
{
}

/// A tick writes everything pending, in arrival order, so an event waits
/// for at most one flush interval.
pub proof fn law_tick_flushes_pending(batch: Seq<Event>, batch_size: nat)
    ensures
        writer_step(batch, batch_size, WriterInput::Tick).1.len() == 0,
        flushed(writer_step(batch, batch_size, WriterInput::Tick).0) == batch,
        !writer_step(batch, batch_size, WriterInput::Tick).2,
{
}

/// A batch written because it filled up holds exactly `batch_size` events
/// (or one event where the batch size is zero).
pub proof fn law_full_batches(batch: Seq<Event>, batch_size: nat, e: Event)
    requires
        batch.len() == 0 || batch.len() < batch_size,
    ensures
        writer_step(batch, batch_size, WriterInput::Received(e)).0 matches Some(f) ==> f.len() == (
        if batch_size == 0 {
            1
        } else {
            batch_size
        }),
{
}

/// An edge between two recorded events.
#[derive(Debug)]
pub struct Edge {
    pub from_id: String,
    pub to_id: String,
    pub relation_type: String,
}

/// The `temporal_next` edges of a batch: each event to the one written
/// right after it.
pub fn temporal_edges(batch: &[Event]) -> (r: Vec<Edge>)
    ensures
        r@.len() == if batch@.len() == 0 {
            0
        } else {
            batch@.len() - 1
        },
        forall|i: int|
            0 <= i < r@.len() ==> {
                &&& (#[trigger] r@[i]).from_id@ == batch@[i].id@
                &&& r@[i].to_id@ == batch@[i + 1].id@
                &&& r@[i].relation_type@ == "temporal_next"@
            },
{
    let mut edges: Vec<Edge> = Vec::new();
    let mut i: usize = 1;
    while i < batch.len()
        invariant
            1 <= i,
            i <= batch@.len() || batch@.len() == 0,
            batch@.len() == 0 ==> i == 1,
            edges@.len() == i - 1,
            forall|k: int|
                0 <= k < edges@.len() ==> {
                    &&& (#[trigger] edges@[k]).from_id@ == batch@[k].id@
                    &&& edges@[k].to_id@ == batch@[k + 1].id@
                    &&& edges@[k].relation_type@ == "temporal_next"@
                },
        decreases batch@.len() - i,
    {
        let e = Edge {
            from_id: batch[i - 1].id.clone(),
            to_id: batch[i].id.clone(),
            relation_type: String::from_str("temporal_next"),
        };
        edges.push(e);
        i = i + 1;
    }
    edges
}


/// Why the queue refused an event.
#[derive(Debug, Clone, Copy, PartialEq, Eq, Structural)]
pub enum QueueRejection {
    /// The writer's channel was already closed.
    WriterClosed,
    /// The queue is full; the event is dropped.
    QueueFull,
    /// The channel closed while the event was being queued.
    ChannelClosed,
}

/// The text of the storage error that reports a refused event.
pub open spec fn rejection_text(reason: QueueRejection, event_id: Seq<char>) -> Seq<char> {
    match reason {
        QueueRejection::WriterClosed => "Event writer channel closed"@,
        QueueRejection::QueueFull => "Event queue full, dropped event "@ + event_id,
        QueueRejection::ChannelClosed => "Failed to queue event "@ + event_id + ": channel closed"@,
    }
}

/// The storage error that reports the event `event_id` refused for `reason`.
pub fn queue_rejection_error(reason: QueueRejection, event_id: &str) -> (r: StorageError)
    ensures
        r matches StorageError::EventInsertionError(m) && m@ == rejection_text(reason, event_id@),
{
    match reason {
        QueueRejection::WriterClosed => StorageError::EventInsertionError(
            String::from_str("Event writer channel closed"),
        ),
        QueueRejection::QueueFull => {
            let mut m = String::from_str("Event queue full, dropped event ");
            m.append(event_id);
            StorageError::EventInsertionError(m)
        },
        QueueRejection::ChannelClosed => {
            let mut m = String::from_str("Failed to queue event ");
            m.append(event_id);
            m.append(": channel closed");
            StorageError::EventInsertionError(m)
        },
    }
}

} // verus!
