//! The two halves of a queue that was split.

use std::ops::DerefMut;
use std::sync::Arc;
use std::sync::Mutex;
use vstd::prelude::*;
use crate::lock::take;
use crate::node::Node;
use crate::queue::Queue;

verus! {

/// The answer of a half that found the other half at work on the queue. The
/// queue is as it was; the same call can be made again.
#[derive(Debug, Clone, Copy, PartialEq, Eq)]
pub struct Busy;

/// The producer half of a queue.
///
/// It keeps the queue alive together with the [`Consumer`], whichever of the
/// two goes first, and can be sent to another thread if the payloads can.
#[verifier::reject_recursive_types(T)]
pub struct Producer<T> {
    queue: Arc<Mutex<Queue<T>>>,
}

/// The consumer half of a queue.
///
/// It keeps the queue alive together with the [`Producer`], whichever of the
/// two goes first, and can be sent to another thread if the payloads can.
#[verifier::reject_recursive_types(T)]
pub struct Consumer<T> {
    queue: Arc<Mutex<Queue<T>>>,
}

impl<T> Producer<T> {
    /// The lock, and behind it the queue, that this half works on.
    pub closed spec fn channel(self) -> Mutex<Queue<T>> {
        *self.queue
    }

    /// Makes the producer of the queue behind `queue`.
    pub(crate) fn attach(queue: Arc<Mutex<Queue<T>>>) -> (producer: Producer<T>)
        ensures
            producer.channel() == *queue,
    {
        Producer { queue }
    }

    /// Adds an element to the queue, unless the consumer is at work on it.
    ///
    /// The node is linked to the tail of the shared queue as [`Queue::link`]
    /// says. Where the consumer holds the queue at that moment the node
    /// comes back as it was, in `Err`, and nothing has happened: this half
    /// never waits. What the queue holds depends on what the consumer has
    /// done, so of the queue this contract says nothing, and of the half
    /// that it stays on its queue.
    pub fn push(&mut self, node: Node<T>) -> (back: Result<(), Node<T>>)
        ensures
            final(self).channel() == old(self).channel(),
            match back {
                Ok(_) => true,
                Err(same) => same == node,
            },
    {
        match take(&self.queue) {
            Some(mut guard) => {
                guard.deref_mut().link(node);
                Ok(())
            },
            None => Err(node),
        }
    }
}

impl<T> Consumer<T> {
    /// The lock, and behind it the queue, that this half works on.
    pub closed spec fn channel(self) -> Mutex<Queue<T>> {
        *self.queue
    }

    /// Makes the consumer of the queue behind `queue`.
    pub(crate) fn attach(queue: Arc<Mutex<Queue<T>>>) -> (consumer: Consumer<T>)
        ensures
            consumer.channel() == *queue,
    {
        Consumer { queue }
    }

    /// Attempts to remove and return an element from the queue. Returns
    /// `Ok(None)` if the queue is empty, and `Err(Busy)` if the producer is
    /// at work on it.
    ///
    /// The oldest payload is taken out of the shared queue as
    /// [`Queue::unlink`] says, in a node that is linked to nothing. This
    /// half never waits. What the queue holds depends on what the producer
    /// has done, so of the queue this contract says nothing, and of the half
    /// that it stays on its queue.
    pub fn pop(&mut self) -> (popped: Result<Option<Node<T>>, Busy>)
        ensures
            final(self).channel() == old(self).channel(),
            match popped {
                Ok(Some(node)) => !node.is_linked(),
                _ => true,
            },
    {
        match take(&self.queue) {
            Some(mut guard) => Ok(guard.deref_mut().unlink()),
            None => Err(Busy),
        }
    }
}

} // verus!
