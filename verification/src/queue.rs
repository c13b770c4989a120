//! The queue of chunks that wait to be embedded.

use std::collections::HashMap;
use std::sync::Mutex;
use vstd::prelude::*;

verus! {

/// `qdrant_client::qdrant::Value`, the type of a payload value. The values
/// are carried through untouched; nothing here reads them.
#[verifier::external_type_specification]
#[verifier::external_body]
pub struct ExPayloadValue(qdrant_client::qdrant::Value);

/// `scc::Queue`, the first-in-first-out container that holds the chunks.
#[verifier::external_type_specification]
#[verifier::external_body]
#[verifier::reject_recursive_types(T)]
pub struct ExQueue<T>(scc::Queue<T>);

/// `std::sync::Mutex`. Each entry of the queue is a chunk behind a lock, so
/// that the one who pops the entry can take the chunk out of it.
#[verifier::external_type_specification]
#[verifier::external_body]
#[verifier::reject_recursive_types(T)]
pub struct ExMutex<T: ?Sized>(Mutex<T>);

/// One unit of pending work: a piece of text with its identifier and the
/// payload that is stored beside its embedding.
pub struct EmbedChunk {
    pub id: String,
    pub data: String,
    pub payload: HashMap<String, qdrant_client::qdrant::Value>,
}

impl Default for EmbedChunk {
    /// A chunk with an empty identifier, no text and no payload.
    fn default() -> (chunk: Self)
        ensures
            chunk.id@ == Seq::<char>::empty(),
            chunk.data@ == Seq::<char>::empty(),
            chunk.payload@ == Map::<String, qdrant_client::qdrant::Value>::empty(),
    {
        EmbedChunk { id: String::new(), data: String::new(), payload: HashMap::new() }
    }
}

/// The chunks that a queue holds, oldest first.
pub uninterp spec fn queued_chunks(log: scc::Queue<Mutex<Option<EmbedChunk>>>) -> Seq<EmbedChunk>;

/// `scc::Queue::default`: the new queue holds nothing.
#[verifier::external_body]
fn queue_new() -> (log: scc::Queue<Mutex<Option<EmbedChunk>>>)
    ensures
        queued_chunks(log) == Seq::<EmbedChunk>::empty(),
{
    scc::Queue::default()
}

/// `scc::Queue::push`: the chunk becomes the newest entry, behind all that
/// were there.
#[verifier::external_body]
fn queue_push(log: &mut scc::Queue<Mutex<Option<EmbedChunk>>>, chunk: EmbedChunk)
    ensures
        queued_chunks(*final(log)) == queued_chunks(*old(log)).push(chunk),
{
    log.push(Mutex::new(Some(chunk)));
}

/// `scc::Queue::pop`: the oldest entry leaves the queue and its chunk is
/// handed out; an empty queue gives `None` and stays as it is. An entry is
/// popped once and its lock is taken nowhere else, so the chunk is there.
#[verifier::external_body]
fn queue_pop(log: &mut scc::Queue<Mutex<Option<EmbedChunk>>>) -> (popped: Option<EmbedChunk>)
    ensures
        queued_chunks(*old(log)).len() == 0 ==> popped is None && queued_chunks(*final(log))
            == queued_chunks(*old(log)),
        queued_chunks(*old(log)).len() > 0 ==> popped == Some(queued_chunks(*old(log))[0])
            && queued_chunks(*final(log)) == queued_chunks(*old(log)).drop_first(),
{
    log.pop().map(|entry| entry.lock().unwrap().take().unwrap())
}

/// A queue of pending chunks with a counter that mirrors its size.
///
/// Whoever pops a chunk owns it alone; a chunk leaves the queue once.
pub struct EmbedQueue {
    log: scc::Queue<Mutex<Option<EmbedChunk>>>,
    len: usize,
}

impl View for EmbedQueue {
    type V = Seq<EmbedChunk>;

    /// The pending chunks, oldest first.
    closed spec fn view(&self) -> Seq<EmbedChunk> {
        queued_chunks(self.log)
    }
}

impl EmbedQueue {
    /// The counter equals the number of chunks that are enqueued.
    pub closed spec fn wf(&self) -> bool {
        self.len == queued_chunks(self.log).len()
    }

    /// An empty queue.
    pub fn new() -> (queue: Self)
        ensures
            queue.wf(),
            queue@ == Seq::<EmbedChunk>::empty(),
    {
        EmbedQueue { log: queue_new(), len: 0 }
    }

    /// Removes the oldest chunk and hands it out; `None` on an empty queue,
    /// which stays as it is. The counter goes down only when a chunk left.
    pub fn pop(&mut self) -> (popped: Option<EmbedChunk>)
        requires
            old(self).wf(),
        ensures
            final(self).wf(),
            popped == pop_result(old(self)@),
            final(self)@ == after_pop(old(self)@),
    {
        match queue_pop(&mut self.log) {
            None => None,
            Some(chunk) => {
                self.len = self.len - 1;
                Some(chunk)
            },
        }
    }

    /// Adds a chunk behind all pending ones and counts it.
    pub fn push(&mut self, chunk: EmbedChunk)
        requires
            old(self).wf(),
            old(self)@.len() < usize::MAX,
        ensures
            final(self).wf(),
            final(self)@ == old(self)@.push(chunk),
    {
        queue_push(&mut self.log, chunk);
        self.len = self.len + 1;
    }

    /// The counter: the number of pending chunks.
    pub fn len(&self) -> (n: usize)
        requires
            self.wf(),
        ensures
            n == self@.len(),
    {
        self.len
    }

    /// Whether no chunk is pending.
    pub fn is_empty(&self) -> (empty: bool)
        requires
            self.wf(),
        ensures
            empty == (self@.len() == 0),
    {
        self.len() == 0
    }
}

impl Default for EmbedQueue {
    /// An empty queue.
    fn default() -> (queue: Self)
        ensures
            queue.wf(),
            queue@ == Seq::<EmbedChunk>::empty(),
    {
        EmbedQueue::new()
    }
}

/// What `pop` hands out of a queue with the given pending chunks.
pub open spec fn pop_result(pending: Seq<EmbedChunk>) -> Option<EmbedChunk> {
    if pending.len() == 0 {
        None
    } else {
        Some(pending[0])
    }
}

/// What stays pending after a `pop`.
pub open spec fn after_pop(pending: Seq<EmbedChunk>) -> Seq<EmbedChunk> {
    if pending.len() == 0 {
        pending
    } else {
        pending.drop_first()
    }
}

/// What is pending after `n` pops.
pub open spec fn after_pops(pending: Seq<EmbedChunk>, n: nat) -> Seq<EmbedChunk>
    decreases n,
{
    if n == 0 {
        pending
    } else {
        after_pop(after_pops(pending, (n - 1) as nat))
    }
}

/// One step on a queue: a chunk is pushed, or a pop is tried.
pub enum QueueOp {
    Push(EmbedChunk),
    Pop,
}

/// What is pending after the steps, taken in their order on an empty queue.
pub open spec fn pending_after(ops: Seq<QueueOp>) -> Seq<EmbedChunk>
    decreases ops.len(),
{
    if ops.len() == 0 {
        Seq::empty()
    } else {
        let before = pending_after(ops.drop_last());
        match ops.last() {
            QueueOp::Push(chunk) => before.push(chunk),
            QueueOp::Pop => after_pop(before),
        }
    }
}

/// Number of pushes among the steps.
pub open spec fn pushes(ops: Seq<QueueOp>) -> nat
    decreases ops.len(),
{
    if ops.len() == 0 {
        0
    } else {
        pushes(ops.drop_last()) + if ops.last() is Push {
            1nat
        } else {
            0nat
        }
    }
}

/// Number of pops among the steps that handed out a chunk.
pub open spec fn successful_pops(ops: Seq<QueueOp>) -> nat
    decreases ops.len(),
{
    if ops.len() == 0 {
        0
    } else {
        successful_pops(ops.drop_last()) + if ops.last() is Pop && pending_after(
            ops.drop_last(),
        ).len() > 0 {
            1nat
        } else {
            0nat
        }
    }
}

/// A pop right after the push of `chunk` on a queue that was empty yields
/// `chunk`, and the queue is empty again.
pub proof fn lemma_push_then_pop(pending: Seq<EmbedChunk>, chunk: EmbedChunk)
    requires
        pending.len() == 0,
    ensures
        pop_result(pending.push(chunk)) == Some(chunk),
        after_pop(pending.push(chunk)) == pending,
{
    assert(after_pop(pending.push(chunk)) =~= pending);
}

/// `n` pops take the `n` oldest chunks.
pub proof fn lemma_after_pops(pending: Seq<EmbedChunk>, n: nat)
    requires
        n <= pending.len(),
    ensures
        after_pops(pending, n) == pending.skip(n as int),
    decreases n,
{
    if n == 0 {
        assert(pending.skip(0) =~= pending);
    } else {
        lemma_after_pops(pending, (n - 1) as nat);
        assert(pending.skip(n as int - 1).drop_first() =~= pending.skip(n as int));
    }
}

/// A pushed chunk is handed out once, behind the chunks that were pending
/// before it: after as many pops as chunks were pending, the next pop yields
/// it, and with that pop it has left the queue.
pub proof fn lemma_pushed_chunk_is_delivered(pending: Seq<EmbedChunk>, chunk: EmbedChunk)
    ensures
        pop_result(after_pops(pending.push(chunk), pending.len())) == Some(chunk),
        after_pops(pending.push(chunk), pending.len() + 1) == Seq::<EmbedChunk>::empty(),
{
    let pushed = pending.push(chunk);
    lemma_after_pops(pushed, pending.len());
    lemma_after_pops(pushed, pending.len() + 1);
    assert(pushed.skip(pending.len() as int) =~= seq![chunk]);
    assert(pushed.skip(pending.len() as int + 1) =~= Seq::<EmbedChunk>::empty());
}

/// After any steps on an empty queue the number of pending chunks, which
/// `len` reports, is the number of pushes less the number of pops that
/// handed out a chunk. It is never negative.
pub proof fn lemma_len_counts_steps(ops: Seq<QueueOp>)
    ensures
        pending_after(ops).len() == pushes(ops) - successful_pops(ops),
        pushes(ops) >= successful_pops(ops),
    decreases ops.len(),
{
    if ops.len() > 0 {
        lemma_len_counts_steps(ops.drop_last());
    }
}

} // verus!
