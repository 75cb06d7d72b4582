//! The chain of cells behind a queue.

use vstd::prelude::*;
use crate::model::behind_front;
use crate::model::front;
use crate::node::Node;
use crate::node::NodeInner;

verus! {

/// The payloads of the cells linked behind `cell`, the nearest first.
pub(crate) open spec fn payloads<T>(cell: NodeInner<T>) -> Seq<T>
    decreases cell,
{
    match cell.next {
        Some(next) => seq![next.data->0] + payloads(*next),
        None => Seq::empty(),
    }
}

/// The labels of the cells linked behind `cell`, the nearest first.
pub(crate) open spec fn labels<T>(cell: NodeInner<T>) -> Seq<int>
    decreases cell,
{
    match cell.next {
        Some(next) => seq![next.id@] + labels(*next),
        None => Seq::empty(),
    }
}

/// Every cell linked behind `cell` carries a payload.
pub(crate) open spec fn filled<T>(cell: NodeInner<T>) -> bool
    decreases cell,
{
    match cell.next {
        Some(next) => next.data is Some && filled(*next),
        None => true,
    }
}

/// The cell at the end of the chain that starts at `cell`.
pub(crate) open spec fn ending<T>(cell: NodeInner<T>) -> NodeInner<T>
    decreases cell,
{
    match cell.next {
        Some(next) => ending(*next),
        None => cell,
    }
}

/// The chain ends in a cell that no link leaves, and that cell is the one
/// with the last label, or `cell` itself where nothing is linked behind it.
pub(crate) proof fn lemma_ending<T>(cell: NodeInner<T>)
    ensures
        ending(cell).next is None,
        payloads(cell).len() == labels(cell).len(),
        ending(cell).id@ == (if labels(cell).len() > 0 {
            labels(cell).last()
        } else {
            cell.id@
        }),
    decreases cell,
{
    match cell.next {
        Some(next) => {
            lemma_ending(*next);
        },
        None => {},
    }
}

/// The link that leaves the cell `depth` links behind `cell`; `None` where the
/// chain ends before.
pub(crate) open spec fn link_at<T>(cell: NodeInner<T>, depth: nat) -> Option<Box<NodeInner<T>>>
    decreases depth,
{
    if depth == 0 {
        cell.next
    } else {
        match cell.next {
            Some(next) => link_at(*next, (depth - 1) as nat),
            None => None,
        }
    }
}

/// The chain that starts at `cell`, with the link that leaves the cell
/// `depth` links behind it replaced by `link`.
pub(crate) open spec fn relinked<T>(
    cell: NodeInner<T>,
    depth: nat,
    link: Option<Box<NodeInner<T>>>,
) -> NodeInner<T>
    decreases depth,
{
    if depth == 0 {
        NodeInner { next: link, data: cell.data, id: cell.id }
    } else {
        match cell.next {
            Some(next) => NodeInner {
                next: Some(Box::new(relinked(*next, (depth - 1) as nat, link))),
                data: cell.data,
                id: cell.id,
            },
            None => cell,
        }
    }
}

/// How many cells the link leads to.
pub(crate) open spec fn reach<T>(link: Option<Box<NodeInner<T>>>) -> nat
    decreases link,
{
    match link {
        Some(next) => 1 + reach(next.next),
        None => 0,
    }
}

/// The link that leaves a cell leads to as many cells as payloads lie behind
/// the cell.
pub(crate) proof fn lemma_reach<T>(cell: NodeInner<T>)
    ensures
        reach(cell.next) == payloads(cell).len(),
    decreases cell,
{
    match cell.next {
        Some(next) => {
            lemma_reach(*next);
        },
        None => {},
    }
}

/// One link further down the chain: the link there is the one that leaves
/// the cell that the link before leads to, and to replace it is to replace
/// the link before by one to that cell with the new link.
pub(crate) proof fn lemma_step<T>(
    cell: NodeInner<T>,
    depth: nat,
    link: Option<Box<NodeInner<T>>>,
)
    requires
        link_at(cell, depth) is Some,
    ensures
        link_at(cell, depth + 1) == link_at(cell, depth)->0.next,
        relinked(cell, depth + 1, link) == relinked(
            cell,
            depth,
            Some(
                Box::new(
                    NodeInner {
                        next: link,
                        data: link_at(cell, depth)->0.data,
                        id: link_at(cell, depth)->0.id,
                    },
                ),
            ),
        ),
    decreases depth,
{
    if depth == 0 {
        let next = *cell.next->0;
        assert(link_at(cell, 1) == link_at(next, 0));
        assert(relinked(cell, 1, link) == NodeInner {
            next: Some(Box::new(relinked(next, 0, link))),
            data: cell.data,
            id: cell.id,
        });
    } else {
        let next = *cell.next->0;
        let less = (depth - 1) as nat;
        lemma_step(next, less, link);
        assert(relinked(cell, depth + 1, link) == NodeInner {
            next: Some(Box::new(relinked(next, less + 1, link))),
            data: cell.data,
            id: cell.id,
        });
    }
}

/// A cell that is linked where the chain ended is the last of the chain.
pub(crate) proof fn lemma_relinked<T>(cell: NodeInner<T>, depth: nat, node: NodeInner<T>)
    requires
        link_at(cell, depth) is None,
        depth == payloads(cell).len(),
        node.next is None,
    ensures
        payloads(relinked(cell, depth, Some(Box::new(node)))) == payloads(cell).push(node.data->0),
        labels(relinked(cell, depth, Some(Box::new(node)))) == labels(cell).push(node.id@),
        filled(cell) && node.data is Some ==> filled(relinked(cell, depth, Some(Box::new(node)))),
    decreases depth,
{
    let after = relinked(cell, depth, Some(Box::new(node)));
    if depth == 0 {
        assert(filled(node));
        assert(payloads(after) == seq![node.data->0] + payloads(node));
        assert(labels(after) == seq![node.id@] + labels(node));
    } else {
        let next = *cell.next->0;
        lemma_relinked(next, (depth - 1) as nat, node);
    }
}

/// Links `node` behind the last cell of the chain that starts at `cell`.
pub(crate) fn append<T>(cell: &mut NodeInner<T>, node: Box<NodeInner<T>>)
    requires
        node.next is None,
    ensures
        final(cell).data == old(cell).data,
        final(cell).id == old(cell).id,
        payloads(*final(cell)) == payloads(*old(cell)).push(node.data->0),
        labels(*final(cell)) == labels(*old(cell)).push(node.id@),
        filled(*old(cell)) && node.data is Some ==> filled(*final(cell)),
    no_unwind
{
    let ghost start = *cell;
    let ghost mut depth: nat = 0;
    proof {
        lemma_reach(start);
    }
    let mut link: &mut Option<Box<NodeInner<T>>> = &mut cell.next;
    loop
        invariant
            *link == link_at(start, depth),
            depth + reach(*link) == payloads(start).len(),
            after_borrow(*cell) == relinked(start, depth, *final(link)),
        ensures
            *link is None,
        decreases reach(*link),
    {
        match link {
            Some(next) => {
                proof {
                    lemma_step(start, depth, final(next).next);
                }
                link = &mut next.next;
                proof {
                    depth = depth + 1;
                }
            },
            None => {
                break ;
            },
        }
    }
    *link = Some(node);
    proof {
        lemma_relinked(start, depth, *node);
    }
}

/// A chain of cells that starts at a sentinel, which carries no payload, and
/// ends at the tail. Each cell owns the one behind it. The payloads of the
/// list are those of the cells behind the sentinel, oldest first.
pub(crate) struct List<T> {
    /// The sentinel, and through it the chain.
    head: Box<NodeInner<T>>,
    /// Every payload that was ever linked, in the order of linking.
    linked: Ghost<Seq<T>>,
    /// Every payload that was ever handed out, in the order of handing out.
    unlinked: Ghost<Seq<T>>,
}

impl<T> List<T> {
    /// The sentinel carries no payload, every cell behind it carries one,
    /// and what was linked is what was handed out followed by what the list
    /// holds.
    pub(crate) closed spec fn wf(self) -> bool {
        &&& self.head.data is None
        &&& filled(*self.head)
        &&& self.linked@ == self.unlinked@ + self@
    }

    /// The payloads that the list holds, oldest first.
    pub(crate) closed spec fn view(self) -> Seq<T> {
        payloads(*self.head)
    }

    /// The labels of the cells that carry the payloads, in the same order.
    pub(crate) closed spec fn cells(self) -> Seq<int> {
        labels(*self.head)
    }

    /// The label of the sentinel.
    pub(crate) closed spec fn sentinel(self) -> int {
        self.head.id@
    }

    /// What the payload slot of the sentinel holds.
    pub(crate) closed spec fn sentinel_payload(self) -> Option<T> {
        self.head.data
    }

    /// The label of the cell at the tail.
    pub(crate) closed spec fn tail_cell(self) -> int {
        ending(*self.head).id@
    }

    /// Whether a link leaves the cell at the tail.
    pub(crate) closed spec fn tail_is_linked(self) -> bool {
        ending(*self.head).next is Some
    }

    /// Every payload that was ever linked, in the order of linking.
    pub(crate) closed spec fn linked(self) -> Seq<T> {
        self.linked@
    }

    /// Every payload that was ever handed out, in the order of handing out.
    pub(crate) closed spec fn unlinked(self) -> Seq<T> {
        self.unlinked@
    }

    /// No link leaves the tail, and the tail is the cell that carries the
    /// newest payload, or the sentinel where there is none.
    pub(crate) proof fn lemma_tail(self)
        ensures
            !self.tail_is_linked(),
            self.tail_cell() == (if self.cells().len() > 0 {
                self.cells().last()
            } else {
                self.sentinel()
            }),
    {
        lemma_ending(*self.head);
    }

    /// Each payload has its cell.
    pub(crate) proof fn lemma_cells(self)
        ensures
            self.cells().len() == self@.len(),
    {
        lemma_ending(*self.head);
    }

    /// What was linked is what was handed out followed by what is left.
    pub(crate) proof fn lemma_history(self)
        requires
            self.wf(),
        ensures
            self.linked() == self.unlinked() + self@,
    {
    }

    /// The sentinel carries no payload.
    pub(crate) proof fn lemma_sentinel(self)
        requires
            self.wf(),
        ensures
            self.sentinel_payload() is None,
    {
    }

    /// A list of one cell, the sentinel.
    pub(crate) fn new() -> (list: List<T>)
        ensures
            list.wf(),
            list@ == Seq::<T>::empty(),
            list.cells() == Seq::<int>::empty(),
            list.linked() == Seq::<T>::empty(),
            list.unlinked() == Seq::<T>::empty(),
    {
        let sentinel = Box::new(NodeInner { next: None, data: None, id: Ghost(arbitrary()) });
        List { head: sentinel, linked: Ghost(Seq::empty()), unlinked: Ghost(Seq::empty()) }
    }

    /// Links a node to the tail.
    pub(crate) fn link(&mut self, node: Node<T>)
        requires
            old(self).wf(),
        ensures
            final(self).wf(),
            final(self)@ == old(self)@.push(node@),
            final(self).cells() == old(self).cells().push(node.cell()),
            final(self).sentinel() == old(self).sentinel(),
            final(self).linked() == old(self).linked().push(node@),
            final(self).unlinked() == old(self).unlinked(),
        no_unwind
    {
        let cell = node.open();
        append(&mut self.head, cell);
        proof {
            self.linked = Ghost(self.linked@.push(node@));
        }
    }

    /// Takes the oldest payload out of the list, if there is one.
    ///
    /// The payload moves from the cell behind the sentinel into the
    /// sentinel. That cell is the sentinel from now on, and the old one
    /// leaves the list as a node, linked to nothing.
    pub(crate) fn unlink(&mut self) -> (popped: Option<Node<T>>)
        requires
            old(self).wf(),
        ensures
            final(self).wf(),
            final(self)@ == behind_front(old(self)@),
            match popped {
                Some(node) => {
                    &&& front(old(self)@) == Some(node@)
                    &&& !node.is_linked()
                    &&& node.cell() == old(self).sentinel()
                    &&& old(self).cells().len() > 0
                    &&& final(self).sentinel() == old(self).cells()[0]
                    &&& final(self).cells() == old(self).cells().skip(1)
                    &&& final(self).unlinked() == old(self).unlinked().push(node@)
                },
                None => {
                    &&& front(old(self)@) is None
                    &&& final(self).sentinel() == old(self).sentinel()
                    &&& final(self).cells() == old(self).cells()
                    &&& final(self).unlinked() == old(self).unlinked()
                },
            },
            final(self).linked() == old(self).linked(),
        opens_invariants none
        no_unwind
    {
        let ghost before = *self;
        let mut next: Option<Box<NodeInner<T>>> = None;
        std::mem::swap(&mut self.head.next, &mut next);
        match next {
            None => None,
            Some(mut cell) => {
                let mut data: Option<T> = None;
                std::mem::swap(&mut cell.data, &mut data);
                std::mem::swap(&mut self.head, &mut cell);
                cell.data = data;
                let node = Node::seal(cell);
                proof {
                    let first = *before.head.next->0;
                    self.unlinked = Ghost(self.unlinked@.push(before@[0]));
                    assert(self@ == payloads(first));
                    assert(self.cells() == labels(first));
                    assert(filled(*self.head) == filled(first));
                    assert(self.linked@ =~= self.unlinked@ + self@);
                }
                Some(node)
            },
        }
    }
}

} // verus!
