//! Heap cells and the handle that owns one.

use vstd::prelude::*;

verus! {

/// One heap cell: a link to the cell behind it, and a slot that may hold a
/// payload.
///
/// Whether the slot is filled follows from the role that the cell plays: a
/// cell behind a [`Node`] or linked behind the head of a list carries a
/// payload, the cell at the head of a list carries none.
pub(crate) struct NodeInner<T> {
    /// The next cell of the list, which this cell owns; `None` at the tail
    /// and in a cell that is in no list.
    pub(crate) next: Option<Box<NodeInner<T>>>,
    /// The payload.
    pub(crate) data: Option<T>,
    /// A label for the cell itself. It is chosen when the cell is allocated
    /// and stays with it, whatever payload the cell carries.
    pub(crate) id: Ghost<int>,
}

/// Exclusive access to the payload of a cell that carries one.
pub(crate) fn payload_mut<T>(cell: &mut NodeInner<T>) -> (payload: &mut T)
    requires
        old(cell).data is Some,
    ensures
        *payload == old(cell).data->0,
        final(cell).data == Some(*final(payload)),
        final(cell).next == old(cell).next,
        final(cell).id == old(cell).id,
    no_unwind
{
    match &mut cell.data {
        Some(payload) => payload,
        None => vstd::pervasive::unreached(),
    }
}

/// An individual node which may be pushed onto and popped from a queue.
///
/// A node owns exactly one cell, the cell carries a payload, and it is linked
/// to no other cell.
pub struct Node<T> {
    inner: Box<NodeInner<T>>,
}

impl<T> Node<T> {
    #[verifier::type_invariant]
    spec fn detached_and_filled(self) -> bool {
        self.inner.next is None && self.inner.data is Some
    }

    /// The payload that the node carries.
    pub closed spec fn view(self) -> T {
        self.inner.data->0
    }

    /// The label of the cell that the node owns.
    pub closed spec fn cell(self) -> int {
        self.inner.id@
    }

    /// Whether a link leaves the node's cell. None leaves the cell of a node
    /// that [`Node::new`] made or that a queue handed out.
    pub closed spec fn is_linked(self) -> bool {
        self.inner.next is Some
    }

    /// Allocates a new node containing the given value.
    #[must_use]
    pub fn new(data: T) -> (node: Node<T>)
        ensures
            node@ == data,
            !node.is_linked(),
    {
        Node { inner: Box::new(NodeInner { next: None, data: Some(data), id: Ghost(arbitrary()) }) }
    }

    /// Deallocates a `Node` and returns the inner value.
    #[must_use]
    pub fn into_inner(this: Node<T>) -> (data: T)
        ensures
            data == this@,
    {
        proof {
            use_type_invariant(&this);
        }
        let cell = *this.inner;
        cell.data.unwrap()
    }

    /// Wraps a cell that carries a payload and is linked to nothing.
    pub(crate) fn seal(cell: Box<NodeInner<T>>) -> (node: Node<T>)
        requires
            cell.next is None,
            cell.data is Some,
        ensures
            node@ == cell.data->0,
            node.cell() == cell.id@,
            !node.is_linked(),
        opens_invariants none
        no_unwind
    {
        Node { inner: cell }
    }

    /// Gives up the handle and hands out the cell.
    pub(crate) fn open(self) -> (cell: Box<NodeInner<T>>)
        ensures
            cell.next is None,
            cell.data == Some(self@),
            cell.id@ == self.cell(),
        no_unwind
    {
        proof {
            use_type_invariant(&self);
        }
        self.inner
    }
}

impl<T> std::ops::Deref for Node<T> {
    type Target = T;

    /// Shared access to the payload.
    fn deref(&self) -> (payload: &T)
        ensures
            *payload == self@,
    {
        proof {
            use_type_invariant(self);
        }
        match &self.inner.data {
            Some(payload) => payload,
            None => vstd::pervasive::unreached(),
        }
    }
}

impl<T> std::ops::DerefMut for Node<T> {
    /// Exclusive access to the payload. The node stays on its cell.
    fn deref_mut(&mut self) -> (payload: &mut T)
        ensures
            *payload == old(self)@,
            final(self)@ == *final(payload),
            final(self).cell() == old(self).cell(),
            !final(self).is_linked(),
    {
        proof {
            use_type_invariant(&*self);
        }
        payload_mut(&mut self.inner)
    }
}

} // verus!
