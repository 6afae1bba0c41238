//! Crate-wide laws, proved once over the spec-level models.
//!
//! The queue laws are stated over an operation-sequence model whose single
//! step is exactly the contract of `ByteQueue::push_back`/`pop_front` and
//! `RingBuffer::enqueue`/`dequeue`: an enqueue appends when length is below
//! capacity and is rejected otherwise; a dequeue removes the head. The read
//! laws are stated over rounds that pair one interrupt-handler delivery with
//! one `ReadOperation::poll`, each matching those functions' contracts.

use vstd::prelude::*;

use crate::asynchronous::{spec_rx_step, AsyncModel};
use crate::buffered::{spec_run, spec_step, BufferedModel};
use crate::events::UartEvent;
use crate::suspend::spec_transfer;
use crate::spec_sat_add;

verus! {

/// One operation on a bounded FIFO queue.
pub enum QueueOp {
    Enqueue(u8),
    Dequeue,
}

/// One queue step, as the queue types' contracts describe it: the new
/// contents, and the bytes this step handed out (one for a successful
/// dequeue, none otherwise).
pub open spec fn spec_queue_step(contents: Seq<u8>, cap: int, op: QueueOp) -> (Seq<u8>, Seq<u8>) {
    match op {
        QueueOp::Enqueue(b) => if contents.len() < cap {
            (contents.push(b), Seq::<u8>::empty())
        } else {
            (contents, Seq::<u8>::empty())
        },
        QueueOp::Dequeue => if contents.len() > 0 {
            (contents.skip(1), seq![contents[0]])
        } else {
            (contents, Seq::<u8>::empty())
        },
    }
}

/// A whole operation sequence: final contents and all dequeued bytes, in
/// order.
pub open spec fn spec_queue_run(contents: Seq<u8>, cap: int, ops: Seq<QueueOp>) -> (
    Seq<u8>,
    Seq<u8>,
)
    decreases ops.len(),
{
    if ops.len() == 0 {
        (contents, Seq::<u8>::empty())
    } else {
        let first = spec_queue_step(contents, cap, ops[0]);
        let rest = spec_queue_run(first.0, cap, ops.skip(1));
        (rest.0, first.1 + rest.1)
    }
}

/// The bytes a run actually admits into the queue, in order.
pub open spec fn spec_queue_accepted(contents: Seq<u8>, cap: int, ops: Seq<QueueOp>) -> Seq<u8>
    decreases ops.len(),
{
    if ops.len() == 0 {
        Seq::<u8>::empty()
    } else {
        let admitted = match ops[0] {
            QueueOp::Enqueue(b) => if contents.len() < cap {
                seq![b]
            } else {
                Seq::<u8>::empty()
            },
            QueueOp::Dequeue => Seq::<u8>::empty(),
        };
        admitted + spec_queue_accepted(
            spec_queue_step(contents, cap, ops[0]).0,
            cap,
            ops.skip(1),
        )
    }
}

/// For every sequence of enqueues and dequeues, the queue's length never
/// exceeds its capacity.
pub proof fn lemma_queue_len_bounded(contents: Seq<u8>, cap: int, ops: Seq<QueueOp>)
    requires
        contents.len() <= cap,
    ensures
        spec_queue_run(contents, cap, ops).0.len() <= cap,
    decreases ops.len(),
{
    if ops.len() > 0 {
        let first = spec_queue_step(contents, cap, ops[0]);
        assert(first.0.len() <= cap);
        lemma_queue_len_bounded(first.0, cap, ops.skip(1));
    }
}

/// For every sequence of enqueues and dequeues, dequeue order matches
/// enqueue order: the bytes handed out followed by the bytes still queued
/// are exactly the initial contents followed by the admitted bytes.
pub proof fn lemma_queue_fifo_order(contents: Seq<u8>, cap: int, ops: Seq<QueueOp>)
    ensures
        spec_queue_run(contents, cap, ops).1 + spec_queue_run(contents, cap, ops).0 == contents
            + spec_queue_accepted(contents, cap, ops),
    decreases ops.len(),
{
    if ops.len() == 0 {
        assert(spec_queue_run(contents, cap, ops).1 + contents =~= contents
            + Seq::<u8>::empty());
    } else {
        let first = spec_queue_step(contents, cap, ops[0]);
        let rest_ops = ops.skip(1);
        lemma_queue_fifo_order(first.0, cap, rest_ops);
        let out_rest = spec_queue_run(first.0, cap, rest_ops).1;
        let fin = spec_queue_run(first.0, cap, rest_ops).0;
        let acc_rest = spec_queue_accepted(first.0, cap, rest_ops);
        match ops[0] {
            QueueOp::Enqueue(b) => {
                if contents.len() < cap {
                    assert(contents.push(b) =~= contents + seq![b]);
                    assert((contents + seq![b]) + acc_rest =~= contents + (seq![b] + acc_rest));
                    assert(Seq::<u8>::empty() + out_rest =~= out_rest);
                } else {
                    assert(Seq::<u8>::empty() + out_rest =~= out_rest);
                    assert(Seq::<u8>::empty() + acc_rest =~= acc_rest);
                }
            },
            QueueOp::Dequeue => {
                if contents.len() > 0 {
                    assert(seq![contents[0]] + contents.skip(1) =~= contents);
                    assert((seq![contents[0]] + out_rest) + fin =~= seq![contents[0]] + (out_rest
                        + fin));
                    assert(seq![contents[0]] + (contents.skip(1) + acc_rest) =~= (seq![
                        contents[0],
                    ] + contents.skip(1)) + acc_rest);
                    assert(Seq::<u8>::empty() + acc_rest =~= acc_rest);
                } else {
                    assert(Seq::<u8>::empty() + out_rest =~= out_rest);
                    assert(Seq::<u8>::empty() + acc_rest =~= acc_rest);
                }
            },
        }
    }
}

/// Once a queue reaches capacity, production fails and changes nothing,
/// until a consumption occurs: after one dequeue there is room again and
/// the next enqueue is admitted.
pub proof fn lemma_full_queue_blocks_until_consumption(
    contents: Seq<u8>,
    cap: int,
    b1: u8,
    b2: u8,
)
    requires
        contents.len() == cap,
        cap > 0,
    ensures
        spec_queue_step(contents, cap, QueueOp::Enqueue(b1)).0 == contents,
        spec_queue_step(contents, cap, QueueOp::Dequeue).0.len() < cap,
        spec_queue_step(
            spec_queue_step(contents, cap, QueueOp::Dequeue).0,
            cap,
            QueueOp::Enqueue(b2),
        ).0 == contents.skip(1).push(b2),
{
}

/// While the receive interrupt is enabled, one receive cause leaves it
/// enabled exactly when everything fit: the flag drops precisely when the
/// incoming bytes exceeded the free room, and then the queue is left full —
/// the flag is false exactly while production into the queue is blocked.
/// (The same step function serves the buffered driver.)
pub proof fn lemma_rx_backpressure_flag(m: BufferedModel, bytes: Seq<u8>)
    requires
        m.rx.len() <= m.rx_cap,
        m.rx_intr_enabled,
    ensures
        crate::buffered::spec_rx_step(m, bytes).rx_intr_enabled <==> bytes.len() <= m.rx_cap
            - m.rx.len(),
        !crate::buffered::spec_rx_step(m, bytes).rx_intr_enabled ==> crate::buffered::spec_rx_step(
            m,
            bytes,
        ).rx.len() == m.rx_cap,
{
}

/// The transmit counterpart of backpressure: a transmit cause turns the
/// transmit interrupt off exactly when the queue held less than a hardware
/// FIFO's worth, and then the queue is left empty — no pending output
/// remains once the interrupt is off.
pub proof fn lemma_tx_drain_flag(m: BufferedModel)
    requires
        m.tx_intr_enabled,
    ensures
        crate::buffered::spec_tx_step(m).0.tx_intr_enabled <==> m.tx.len() >= crate::FIFO_DEPTH,
        !crate::buffered::spec_tx_step(m).0.tx_intr_enabled ==> crate::buffered::spec_tx_step(
            m,
        ).0.tx.len() == 0,
{
    if m.tx.len() < crate::FIFO_DEPTH {
        assert(m.tx.skip(m.tx.len() as int) =~= Seq::<u8>::empty());
    }
}

/// The diagnostic counters never decrease: every interrupt cause leaves
/// each tally at least where it was (they saturate instead of wrapping).
pub proof fn lemma_counters_monotone(m: BufferedModel, ev: UartEvent)
    requires
        m.rx.len() <= m.rx_cap,
        0 <= m.rx_count <= usize::MAX,
        0 <= m.tx_count <= usize::MAX,
        0 <= m.intr_count <= usize::MAX,
        0 <= m.rx_intr_count <= usize::MAX,
        0 <= m.tx_intr_count <= usize::MAX,
    ensures
        spec_step(m, ev).0.rx_count >= m.rx_count,
        spec_step(m, ev).0.tx_count >= m.tx_count,
        spec_step(m, ev).0.intr_count >= m.intr_count,
        spec_step(m, ev).0.rx_intr_count >= m.rx_intr_count,
        spec_step(m, ev).0.tx_intr_count >= m.tx_intr_count,
{
}

/// Every interrupt-handler invocation counts each pending cause exactly
/// once: the interrupt counter grows by exactly the number of causes
/// (saturating at the counter's maximum).
pub proof fn lemma_handler_counts_each_cause_once(m: BufferedModel, events: Seq<UartEvent>)
    requires
        0 <= m.intr_count <= usize::MAX,
    ensures
        spec_run(m, events).0.intr_count == spec_sat_add(m.intr_count, events.len() as int),
    decreases events.len(),
{
    if events.len() == 0 {
    } else {
        let m1 = spec_step(m, events[0]).0;
        lemma_handler_counts_each_cause_once(m1, events.skip(1));
        assert(m1.intr_count == spec_sat_add(m.intr_count, 1));
        assert(spec_run(m, events).0 == spec_run(m1, events.skip(1)).0);
        assert(events.skip(1).len() == events.len() - 1);
        assert(spec_sat_add(spec_sat_add(m.intr_count, 1), events.len() - 1) == spec_sat_add(
            m.intr_count,
            events.len() as int,
        ));
    }
}

/// Given an empty receive ring of capacity C and C + 1 bytes presented by
/// the hardware within one cause: exactly C are enqueued, in order; the
/// receive interrupt is disabled afterward; and the extra byte is dropped,
/// not corrupted — what was stored is exactly the first C bytes.
pub proof fn lemma_rx_overflow_boundary(m: AsyncModel, bytes: Seq<u8>, lock_free: bool)
    requires
        m.rx.len() == 0,
        m.rx_cap >= 0,
        bytes.len() == m.rx_cap + 1,
    ensures
        spec_rx_step(m, bytes, lock_free).0.rx.len() == m.rx_cap,
        spec_rx_step(m, bytes, lock_free).0.rx == bytes.take(m.rx_cap),
        !spec_rx_step(m, bytes, lock_free).0.rx_intr_enabled,
{
    assert(m.rx + bytes.take(m.rx_cap) =~= bytes.take(m.rx_cap));
}

/// Edge-triggered wake-up: when the interrupt path acquires the waker-slot
/// lock it takes and delivers the registered read continuation, clearing
/// the slot — at most one wake per registration. When the lock attempt
/// fails, nothing is woken and the registration is kept, so the operation
/// stays suspended until the next successful wake attempt.
pub proof fn lemma_wake_delivery(m: AsyncModel, bytes: Seq<u8>, lock_free: bool)
    ensures
        lock_free ==> spec_rx_step(m, bytes, true).1 == m.read_waker && spec_rx_step(
            m,
            bytes,
            true,
        ).0.read_waker is None,
        !lock_free ==> spec_rx_step(m, bytes, false).1 is None && spec_rx_step(
            m,
            bytes,
            false,
        ).0.read_waker == m.read_waker,
{
}

/// One round of a suspended read: the interrupt handler delivers some bytes
/// into the receive ring, then the resumed operation polls, transferring as
/// many bytes as it still needs and the ring now has — exactly the
/// contracts of `AsyncSerial::interrupt_handler` (receive step) and
/// `ReadOperation::poll`. Returns the buffer and the ring afterward.
pub open spec fn spec_read_round(buf: Seq<u8>, ring: Seq<u8>, target: int, delivery: Seq<u8>) -> (
    Seq<u8>,
    Seq<u8>,
) {
    let r1 = ring + delivery;
    let k = spec_transfer(target - buf.len(), r1.len() as int);
    (buf + r1.take(k), r1.skip(k))
}

/// Any number of rounds, in order.
pub open spec fn spec_read_rounds(
    buf: Seq<u8>,
    ring: Seq<u8>,
    target: int,
    deliveries: Seq<Seq<u8>>,
) -> (Seq<u8>, Seq<u8>)
    decreases deliveries.len(),
{
    if deliveries.len() == 0 {
        (buf, ring)
    } else {
        let r = spec_read_round(buf, ring, target, deliveries[0]);
        spec_read_rounds(r.0, r.1, target, deliveries.skip(1))
    }
}

/// All delivered bytes, in delivery order.
pub open spec fn spec_concat(deliveries: Seq<Seq<u8>>) -> Seq<u8>
    decreases deliveries.len(),
{
    if deliveries.len() == 0 {
        Seq::<u8>::empty()
    } else {
        deliveries[0] + spec_concat(deliveries.skip(1))
    }
}

/// Generalized read-progress invariant: a poll always drains the ring or
/// fills the buffer, so across any rounds the buffer ends up holding the
/// first `target` bytes of everything delivered (or everything, if fewer).
proof fn lemma_read_rounds_general(
    buf: Seq<u8>,
    ring: Seq<u8>,
    target: int,
    deliveries: Seq<Seq<u8>>,
)
    requires
        buf.len() <= target,
        buf.len() < target ==> ring.len() == 0,
    ensures
        ({
            let all = buf + ring + spec_concat(deliveries);
            let limit = if target <= all.len() {
                target
            } else {
                all.len() as int
            };
            spec_read_rounds(buf, ring, target, deliveries).0 == all.take(limit)
        }),
    decreases deliveries.len(),
{
    let all = buf + ring + spec_concat(deliveries);
    if deliveries.len() == 0 {
        if buf.len() == target {
            assert(all.take(target) =~= buf);
        } else {
            assert(all =~= buf);
            assert(all.take(all.len() as int) =~= buf);
        }
    } else {
        let d = deliveries[0];
        let r = spec_read_round(buf, ring, target, d);
        let r1 = ring + d;
        let k = spec_transfer(target - buf.len(), r1.len() as int);
        assert(r.0 =~= buf + r1.take(k));
        assert(r.1 =~= r1.skip(k));
        assert(r.0.len() <= target);
        if r.0.len() < target {
            assert(k == r1.len());
            assert(r.1.len() == 0);
        }
        lemma_read_rounds_general(r.0, r.1, target, deliveries.skip(1));
        assert(r.0 + r.1 + spec_concat(deliveries.skip(1)) =~= all) by {
            assert(r1.take(k) + r1.skip(k) =~= r1);
            assert(buf + r1.take(k) + r1.skip(k) =~= buf + r1);
            assert(buf + (ring + d) =~= (buf + ring) + d);
            assert((buf + ring) + d + spec_concat(deliveries.skip(1)) =~= (buf + ring) + (d
                + spec_concat(deliveries.skip(1))));
        }
    }
}

/// A read of length L completes, with buffer contents matching delivery
/// order, once the interrupt handler's deliveries total at least L bytes
/// across any number of invocations: the buffer then holds exactly the
/// first L delivered bytes.
pub proof fn lemma_read_completion(target: int, deliveries: Seq<Seq<u8>>)
    requires
        target >= 0,
        spec_concat(deliveries).len() >= target,
    ensures
        spec_read_rounds(Seq::<u8>::empty(), Seq::<u8>::empty(), target, deliveries).0
            == spec_concat(deliveries).take(target),
        spec_read_rounds(Seq::<u8>::empty(), Seq::<u8>::empty(), target, deliveries).0.len()
            == target,
{
    lemma_read_rounds_general(Seq::<u8>::empty(), Seq::<u8>::empty(), target, deliveries);
    assert(Seq::<u8>::empty() + Seq::<u8>::empty() + spec_concat(deliveries) =~= spec_concat(
        deliveries,
    ));
}

} // verus!
