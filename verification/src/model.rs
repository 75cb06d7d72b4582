//! The list as a sequence of payloads, oldest first, and what follows from
//! linking and unlinking on it.
//!
//! [`Queue::link`](crate::Queue::link) appends to this sequence and
//! [`Queue::unlink`](crate::Queue::unlink) answers with [`front`] and leaves
//! [`behind_front`]. The laws below are stated over these.

use vstd::prelude::*;

verus! {

/// The payload that the next removal hands out, if there is one.
pub open spec fn front<T>(pending: Seq<T>) -> Option<T> {
    if pending.len() > 0 {
        Some(pending[0])
    } else {
        None
    }
}

/// What is left after a removal. An empty list stays empty.
pub open spec fn behind_front<T>(pending: Seq<T>) -> Seq<T> {
    if pending.len() > 0 {
        pending.skip(1)
    } else {
        pending
    }
}

/// The list after each of `payloads` was linked to it, in their order.
pub open spec fn link_each<T>(pending: Seq<T>, payloads: Seq<T>) -> Seq<T>
    decreases payloads.len(),
{
    if payloads.len() == 0 {
        pending
    } else {
        link_each(pending, payloads.drop_last()).push(payloads.last())
    }
}

/// The answers of `count` removals in a row.
pub open spec fn answers<T>(pending: Seq<T>, count: nat) -> Seq<Option<T>>
    decreases count,
{
    if count == 0 {
        Seq::empty()
    } else {
        seq![front(pending)] + answers(behind_front(pending), (count - 1) as nat)
    }
}

/// The list after `count` removals in a row.
pub open spec fn after_unlinks<T>(pending: Seq<T>, count: nat) -> Seq<T>
    decreases count,
{
    if count == 0 {
        pending
    } else {
        after_unlinks(behind_front(pending), (count - 1) as nat)
    }
}

/// Linking one payload after the other is the same as appending them all.
pub proof fn lemma_link_each<T>(pending: Seq<T>, payloads: Seq<T>)
    ensures
        link_each(pending, payloads) == pending + payloads,
    decreases payloads.len(),
{
    if payloads.len() > 0 {
        lemma_link_each(pending, payloads.drop_last());
    }
}

/// Removals hand out the payloads from the front on, one by one, and then
/// nothing: answer `i` is payload `i` while there is one, and `None` after.
pub proof fn lemma_answers<T>(pending: Seq<T>, count: nat)
    ensures
        answers(pending, count).len() == count,
        forall|i: int|
            0 <= i < count ==> #[trigger] answers(pending, count)[i] == (if i < pending.len() {
                Some(pending[i])
            } else {
                None
            }),
        after_unlinks(pending, count) == (if count <= pending.len() {
            pending.skip(count as int)
        } else {
            Seq::empty()
        }),
    decreases count,
{
    if count > 0 {
        lemma_answers(behind_front(pending), (count - 1) as nat);
    }
}

/// A payload linked to an empty list is the one that the next unlink hands
/// out, and the list is empty again after it.
pub proof fn lemma_link_then_unlink<T>(pending: Seq<T>, payload: T)
    requires
        pending.len() == 0,
    ensures
        front(pending.push(payload)) == Some(payload),
        behind_front(pending.push(payload)) == pending,
{
}

/// First in, first out. After `payloads` were linked to an empty list, as
/// many removals hand them out in the order of linking, and one removal
/// more hands out nothing and finds the list empty.
pub proof fn lemma_fifo<T>(payloads: Seq<T>)
    ensures
        ({
            let filled = link_each(Seq::<T>::empty(), payloads);
            let got = answers(filled, payloads.len() + 1);
            &&& got.len() == payloads.len() + 1
            &&& forall|i: int| 0 <= i < payloads.len() ==> #[trigger] got[i] == Some(payloads[i])
            &&& got[payloads.len() as int] is None
            &&& after_unlinks(filled, payloads.len()) == Seq::<T>::empty()
        }),
{
    let filled = link_each(Seq::<T>::empty(), payloads);
    lemma_link_each(Seq::<T>::empty(), payloads);
    lemma_answers(filled, payloads.len() + 1);
    lemma_answers(filled, payloads.len());
}

/// A payload that one list handed out can be linked again, to that list or
/// to another, and comes out of it once everything that was there before
/// has come out.
pub proof fn lemma_relink<T>(from: Seq<T>, onto: Seq<T>)
    requires
        from.len() > 0,
    ensures
        ({
            let payload = front(from)->0;
            let got = answers(onto.push(payload), onto.len() + 1);
            &&& got.len() == onto.len() + 1
            &&& forall|i: int| 0 <= i < onto.len() ==> #[trigger] got[i] == Some(onto[i])
            &&& got[onto.len() as int] == Some(payload)
            &&& after_unlinks(onto.push(payload), onto.len() + 1) == Seq::<T>::empty()
        }),
{
    let payload = front(from)->0;
    let after = onto.push(payload);
    lemma_answers(after, onto.len() + 1);
}

} // verus!
