//! The queue before it is split.

use std::sync::Arc;
use std::sync::Mutex;
use vstd::prelude::*;
use crate::endpoints::Consumer;
use crate::endpoints::Producer;
use crate::list::List;
use crate::model::behind_front;
use crate::model::front;
use crate::node::Node;

verus! {

/// A linked-list queue of reusable cells.
///
/// The list always has a cell at its head that carries no payload, the
/// sentinel. Each cell owns the one linked behind it. The payloads of the
/// queue are those of the cells behind the sentinel, oldest first, and the
/// last cell of the chain is the tail.
pub struct Queue<T> {
    list: List<T>,
}

impl<T> Queue<T> {
    #[verifier::type_invariant]
    spec fn chained(self) -> bool {
        self.list.wf()
    }

    /// The queue is well formed: the sentinel carries no payload, every cell
    /// behind it carries one, and what was ever linked is what was handed
    /// out followed by what the queue holds. Every queue is; see
    /// [`Queue::well_formed`].
    pub closed spec fn wf(self) -> bool {
        self.list.wf()
    }

    /// The payloads that the queue holds, oldest first.
    pub closed spec fn view(self) -> Seq<T> {
        self.list@
    }

    /// The labels of the cells that carry the payloads, in the same order.
    pub closed spec fn cells(self) -> Seq<int> {
        self.list.cells()
    }

    /// The label of the cell at the head of the list.
    pub closed spec fn sentinel(self) -> int {
        self.list.sentinel()
    }

    /// What the payload slot of the sentinel holds.
    pub closed spec fn sentinel_payload(self) -> Option<T> {
        self.list.sentinel_payload()
    }

    /// The label of the cell at the tail of the list.
    pub closed spec fn tail_cell(self) -> int {
        self.list.tail_cell()
    }

    /// Whether a link leaves the cell at the tail.
    pub closed spec fn tail_is_linked(self) -> bool {
        self.list.tail_is_linked()
    }

    /// Every payload that was ever linked to this queue, in the order of
    /// linking.
    pub closed spec fn linked(self) -> Seq<T> {
        self.list.linked()
    }

    /// Every payload that this queue ever handed out, in the order of
    /// handing out.
    pub closed spec fn unlinked(self) -> Seq<T> {
        self.list.unlinked()
    }

    /// Each payload of the queue has its cell.
    pub proof fn lemma_cells_match(self)
        ensures
            self.cells().len() == self@.len(),
    {
        self.list.lemma_cells();
    }

    /// Conservation of payloads. At any moment in the life of a queue, what
    /// was linked to it is what it has handed out followed by what it
    /// holds. So what it has handed out is a prefix of what was linked:
    /// nothing comes out twice, out of order, or is lost.
    pub proof fn lemma_conservation(self)
        requires
            self.wf(),
        ensures
            self.linked() == self.unlinked() + self@,
            self.unlinked().is_prefix_of(self.linked()),
    {
        self.list.lemma_history();
    }

    /// At rest the tail is the end of the chain: no link leaves it. It is
    /// the cell that carries the newest payload, or the sentinel where the
    /// queue is empty.
    pub proof fn lemma_tail_at_rest(self)
        ensures
            !self.tail_is_linked(),
            self.tail_cell() == (if self.cells().len() > 0 {
                self.cells().last()
            } else {
                self.sentinel()
            }),
    {
        self.list.lemma_tail();
    }

    /// The cell at the head of the list carries no payload.
    pub proof fn lemma_sentinel_empty(self)
        requires
            self.wf(),
        ensures
            self.sentinel_payload() is None,
    {
        self.list.lemma_sentinel();
    }

    /// Every queue is well formed. Nothing happens when this runs: a caller
    /// that was handed a queue learns [`Queue::wf`] of it from the call, and
    /// with it what [`Queue::lemma_conservation`] and
    /// [`Queue::lemma_sentinel_empty`] say.
    pub fn well_formed(&self)
        ensures
            self.wf(),
        no_unwind
    {
        proof {
            use_type_invariant(self);
        }
    }

    /// Creates a new queue.
    #[must_use]
    pub fn new() -> (queue: Queue<T>)
        ensures
            queue.wf(),
            queue@ == Seq::<T>::empty(),
            queue.cells() == Seq::<int>::empty(),
            queue.linked() == Seq::<T>::empty(),
            queue.unlinked() == Seq::<T>::empty(),
    {
        Queue { list: List::new() }
    }

    /// Links a node to the tail of the list.
    ///
    /// The node's cell becomes the new tail, payload and all: the cell that
    /// was the tail now owns it. The payloads that were in the queue stay
    /// where they were, and so does the sentinel. No cell is made or freed,
    /// and nothing here can unwind. The tail is found by following the links
    /// from the sentinel.
    pub fn link(&mut self, node: Node<T>)
        ensures
            final(self).wf(),
            final(self)@ == old(self)@.push(node@),
            final(self).cells() == old(self).cells().push(node.cell()),
            final(self).sentinel() == old(self).sentinel(),
            final(self).linked() == old(self).linked().push(node@),
            final(self).unlinked() == old(self).unlinked(),
        no_unwind
    {
        proof {
            use_type_invariant(&*self);
        }
        self.list.link(node);
    }

    /// Takes the oldest payload out of the queue, if there is one.
    ///
    /// The node that comes back owns the cell that was the sentinel, now
    /// carrying that payload and linked to nothing; the cell that carried
    /// the payload takes the sentinel's place. An empty queue is left as it
    /// was.
    pub fn unlink(&mut self) -> (popped: Option<Node<T>>)
        ensures
            final(self).wf(),
            final(self)@ == behind_front(old(self)@),
            match popped {
                Some(node) => {
                    &&& front(old(self)@) == Some(node@)
                    &&& !node.is_linked()
                    &&& node.cell() == old(self).sentinel()
                    &&& old(self).cells().len() > 0
                    &&& final(self).sentinel() == old(self).cells()[0]
                    &&& final(self).cells() == old(self).cells().skip(1)
                    &&& final(self).unlinked() == old(self).unlinked().push(node@)
                },
                None => {
                    &&& front(old(self)@) is None
                    &&& final(self).sentinel() == old(self).sentinel()
                    &&& final(self).cells() == old(self).cells()
                    &&& final(self).unlinked() == old(self).unlinked()
                },
            },
            final(self).linked() == old(self).linked(),
        no_unwind
    {
        proof {
            use_type_invariant(&*self);
        }
        self.list.unlink()
    }

    /// Splits a queue into its producer and consumer halves.
    ///
    /// The queue moves behind a lock that the two halves share, with what it
    /// holds.
    #[must_use]
    pub fn split(self) -> (halves: (Producer<T>, Consumer<T>))
        ensures
            halves.0.channel() == halves.1.channel(),
    {
        let queue = Arc::new(Mutex::new(self));
        let producer = Producer::attach(Arc::clone(&queue));
        let consumer = Consumer::attach(queue);
        (producer, consumer)
    }
}

impl<T> Drop for Queue<T> {
    /// Walks the chain from the cell behind the sentinel and frees each cell
    /// with its payload, oldest first: every payload that the queue held
    /// leaves it. The sentinel, which carries none, is freed last, with the
    /// queue.
    fn drop(&mut self)
        ensures
            final(self).wf(),
            final(self)@ == Seq::<T>::empty(),
            final(self).linked() == old(self).linked(),
            final(self).unlinked() == old(self).linked(),
        opens_invariants none
        no_unwind
    {
        proof {
            use_type_invariant(&*self);
        }
        let mut walking = true;
        while walking
            invariant
                self.list.wf(),
                self.list.linked() == old(self).list.linked(),
                !walking ==> self.list@.len() == 0,
            decreases self.list@.len() + (if walking { 1int } else { 0int }),
        {
            match self.list.unlink() {
                Some(node) => {},
                None => {
                    walking = false;
                },
            }
        }
        proof {
            self.list.lemma_history();
        }
    }
}

impl<T> Default for Queue<T> {
    /// An empty queue, as [`Queue::new`] makes it.
    fn default() -> (queue: Queue<T>)
        ensures
            queue.wf(),
            queue@ == Seq::<T>::empty(),
            queue.cells() == Seq::<int>::empty(),
            queue.linked() == Seq::<T>::empty(),
            queue.unlinked() == Seq::<T>::empty(),
    {
        Queue::new()
    }
}

} // verus!
