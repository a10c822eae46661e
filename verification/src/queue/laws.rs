//! What follows from the contracts of the queue operations, stated over the
//! views and proved once for every queue.
use vstd::prelude::*;

use crate::queue::table::{lemma_lent_insert, lemma_lent_remove, Segment, TableView};
use crate::queue::{is_power_of_two, next_index, QueueView, UsedElem};

verus! {

/// Conservation on submission: a chain of `k` descriptors takes `k`
/// descriptors off the free list and adds `k` to what is lent, so free plus
/// lent stays the table size.
pub proof fn lemma_alloc_conserves(pre: TableView, post: TableView, segments: Seq<Segment>, head: u16)
    requires
        pre.inv(),
        pre.alloc_step(post, segments, head),
    ensures
        post.free.len() + segments.len() == pre.free.len(),
        post.lent() == pre.lent() + segments.len(),
        post.free.len() + post.lent() == post.size(),
{
    // The head is the first free descriptor, and no free descriptor is in a chain.
    assert(!pre.chains.dom().contains(head));
    lemma_lent_insert(pre, post, head, pre.free.subrange(0, segments.len() as int), pre.size());
}

/// Conservation on reclaim: reclaiming a chain puts each of its descriptors
/// back on the free list and takes them off what is lent, so free plus lent
/// stays the table size.
pub proof fn lemma_free_conserves(pre: TableView, post: TableView, head: u16)
    requires
        pre.inv(),
        pre.free_step(post, head),
    ensures
        post.free.len() == pre.free.len() + pre.chains[head].len(),
        post.lent() + pre.chains[head].len() == pre.lent(),
        post.free.len() + post.lent() == post.size(),
        post.free.len() >= 1,
{
    lemma_lent_remove(pre, post, head, pre.size());
}

/// After a reclaim the queue is not full: a request for one buffer finds a
/// free descriptor, however many chains were outstanding before.
pub proof fn lemma_reclaim_makes_room(pre: QueueView, post: QueueView, token: u16)
    requires
        pre.inv(),
        pre.pop_step(post, token),
    ensures
        post.table.free.len() >= 1,
        post.table.free.len() == pre.table.free.len() + pre.table.chains[token].len(),
{
    lemma_free_conserves(pre.table, post.table, token);
}

/// A completion is reported as the device recorded it: when nothing is
/// pending and the device completes the outstanding chain `head` with `len`
/// bytes written, the next poll reports `(head, len)` and a pop of `head` is
/// honoured with `len`.
pub proof fn lemma_completion_reported(pre: QueueView, post: QueueView, head: u16, len: u32)
    requires
        pre.inv(),
        !pre.pending(),
        pre.table.chains.dom().contains(head),
        pre.complete_step(post, head as u32, len),
    ensures
        post.next_completion() == Some((head, len)),
        post.deliverable(head),
        post.next_used().len == len,
{
}

/// From submission to completion: a chain that is submitted while nothing
/// is pending, and that the device then completes with `len` bytes written,
/// is the next to be reported, with `len`, and still holds the buffers it was
/// submitted with.
pub proof fn lemma_submitted_chain_completes(
    pre: QueueView,
    submitted: QueueView,
    completed: QueueView,
    segments: Seq<Segment>,
    head: u16,
    len: u32,
)
    requires
        pre.inv(),
        !pre.pending(),
        pre.add_step(submitted, segments, head),
        submitted.complete_step(completed, head as u32, len),
    ensures
        completed.next_completion() == Some((head, len)),
        completed.deliverable(head),
        completed.table.segments(head) == segments,
{
}

/// Where the ring size is a power of two, the slot of the next ring index is
/// the next slot, also where the index wraps.
pub proof fn lemma_next_slot(idx: u16, size: u16)
    requires
        is_power_of_two(size),
    ensures
        next_index(idx) % size == (idx % size + 1) % (size as int),
{
    let next = next_index(idx);
    assert(next % size == ((idx % size) + 1) % (size as int)) by (bit_vector)
        requires
            size != 0 && size & ((size - 1) as u16) == 0,
            next == (if idx == 0xffffu16 {
                0u16
            } else {
                (idx + 1) as u16
            }),
    ;
}

/// Completions are matched by chain id, not by the order of submission: when
/// the outstanding chains `a`, `b` and `c` are completed in the order `b`,
/// `a`, `c`, polls and pops report exactly that order, each chain with its
/// own byte count, and then nothing is pending.
pub proof fn lemma_out_of_order(
    v0: QueueView,
    v1: QueueView,
    v2: QueueView,
    v3: QueueView,
    w1: QueueView,
    w2: QueueView,
    w3: QueueView,
    a: u16,
    b: u16,
    c: u16,
    len_a: u32,
    len_b: u32,
    len_c: u32,
)
    requires
        v0.inv(),
        !v0.pending(),
        a != b && b != c && a != c,
        v0.table.chains.dom().contains(a),
        v0.table.chains.dom().contains(b),
        v0.table.chains.dom().contains(c),
        v0.complete_step(v1, b as u32, len_b),
        v1.complete_step(v2, a as u32, len_a),
        v2.complete_step(v3, c as u32, len_c),
        v3.pop_step(w1, b),
        w1.pop_step(w2, a),
        w2.pop_step(w3, c),
    ensures
        v3.next_completion() == Some((b, len_b)),
        !v3.deliverable(a) && !v3.deliverable(c),
        w1.next_completion() == Some((a, len_a)),
        !w1.deliverable(b) && !w1.deliverable(c),
        w2.next_completion() == Some((c, len_c)),
        !w2.deliverable(a) && !w2.deliverable(b),
        !w3.pending(),
{
    let size = v0.size() as u16;
    let i0 = v0.used_idx;
    let i1 = next_index(i0);
    let i2 = next_index(i1);
    // Three distinct heads lie below the table size.
    assert(v0.size() >= 3);
    // The three completions fall on three slots in a row.
    lemma_next_slot(i0, size);
    lemma_next_slot(i1, size);
    assert(size >= 4) by {
        assert(size != 0 && size & ((size - 1) as u16) == 0 && size >= 3 ==> size >= 4)
            by (bit_vector);
    }
}

} // verus!
