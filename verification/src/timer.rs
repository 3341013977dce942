//! The two timers count down on events that arrive from outside, at a pace
//! of their own.
use vstd::prelude::*;
use std::sync::mpsc::{Receiver, TryRecvError};

verus! {

/// The receiving end of a channel of the standard library. Nothing is
/// known of what it holds.
#[verifier::external_type_specification]
#[verifier::external_body]
#[verifier::reject_recursive_types(T)]
pub struct ExReceiver<T>(Receiver<T>);

/// What a timer event asks of the delay and sound timers.
#[derive(Debug, Copy, Clone, PartialEq, Eq)]
pub enum TimerOperation {
    /// Count down by this much, stopping at zero.
    Decrement(u8),
}

/// The sum of all the decrements in `ops`.
pub open spec fn total(ops: Seq<TimerOperation>) -> nat
    decreases ops.len(),
{
    if ops.len() == 0 {
        0
    } else {
        let TimerOperation::Decrement(by) = ops.last();
        total(ops.drop_last()) + by as nat
    }
}

/// The value of a timer that stood at `timer` once all of `ops` have been
/// applied: what is left of it, and zero when nothing is.
pub open spec fn drained(timer: u8, ops: Seq<TimerOperation>) -> u8 {
    if total(ops) >= timer {
        0
    } else {
        (timer - total(ops)) as u8
    }
}

/// The reason for which `Receiver::try_recv` hands out no value: the
/// channel is empty, or its sender is gone. The machine does not tell the
/// two apart.
#[verifier::external_type_specification]
#[verifier::external_body]
pub struct ExTryRecvError(TryRecvError);

/// `Receiver::try_recv` takes the next value out of the channel if one
/// waits there, and does not wait for one. Whether one waits depends on
/// the sender alone, so nothing is claimed of the result.
pub assume_specification<T>[ Receiver::<T>::try_recv ](receiver: &Receiver<T>) -> (received: Result<
    T,
    TryRecvError,
>)
;

/// Takes the events that wait in the channel, in the order in which they
/// were sent, and does not wait for more.
pub(crate) fn pending(timer_rx: &Receiver<TimerOperation>) -> (ops: Vec<TimerOperation>) {
    let mut ops: Vec<TimerOperation> = Vec::new();
    // The count shows that the loop ends; a vector has no room for more
    // events than it allows.
    let mut room: usize = usize::MAX;
    while room > 0
        decreases room,
    {
        match timer_rx.try_recv() {
            Ok(timer_operation) => {
                ops.push(timer_operation);
            },
            Err(_) => {
                return ops;
            },
        }
        room -= 1;
    }
    ops
}

/// Applies a sequence of timer events to one timer.
pub fn drain(timer: u8, ops: &Vec<TimerOperation>) -> (left: u8)
    ensures
        left == drained(timer, ops@),
{
    let mut left = timer;
    let mut i: usize = 0;
    proof {
        assert(ops@.take(0) =~= Seq::empty());
    }
    while i < ops.len()
        invariant
            i <= ops.len(),
            left == drained(timer, ops@.take(i as int)),
        decreases ops.len() - i,
    {
        proof {
            assert(ops@.take(i + 1).drop_last() =~= ops@.take(i as int));
            assert(ops@.take(i + 1).last() == ops@[i as int]);
        }
        match ops[i] {
            TimerOperation::Decrement(by) => {
                left = left.saturating_sub(by);
            },
        }
        i += 1;
    }
    proof {
        assert(ops@.take(ops.len() as int) =~= ops@);
    }
    left
}

/// Events that each count down by one add up to their number.
pub proof fn lemma_total_of_unit_decrements(ops: Seq<TimerOperation>)
    requires
        forall|i: int| 0 <= i < ops.len() ==> ops[i] == TimerOperation::Decrement(1),
    ensures
        total(ops) == ops.len(),
    decreases ops.len(),
{
    if ops.len() > 0 {
        lemma_total_of_unit_decrements(ops.drop_last());
    }
}

/// A timer never counts up, and never goes below zero: however many events
/// arrive, what is left is at most what was there.
pub proof fn lemma_drained_never_grows(timer: u8, ops: Seq<TimerOperation>)
    ensures
        drained(timer, ops) <= timer,
{
}

/// More unit decrements than the timer holds leave it at zero; it does not
/// wrap around.
pub proof fn lemma_drained_saturates(timer: u8, ops: Seq<TimerOperation>)
    requires
        forall|i: int| 0 <= i < ops.len() ==> ops[i] == TimerOperation::Decrement(1),
        ops.len() > timer,
    ensures
        drained(timer, ops) == 0,
{
    lemma_total_of_unit_decrements(ops);
}

/// Events applied in two batches leave what they leave applied in one.
pub proof fn lemma_drained_in_batches(
    timer: u8,
    first: Seq<TimerOperation>,
    second: Seq<TimerOperation>,
)
    ensures
        total(first + second) == total(first) + total(second),
        drained(drained(timer, first), second) == drained(timer, first + second),
    decreases second.len(),
{
    if second.len() == 0 {
        assert(first + second =~= first);
    } else {
        lemma_drained_in_batches(timer, first, second.drop_last());
        assert((first + second).drop_last() =~= first + second.drop_last());
        assert((first + second).last() == second.last());
    }
}

} // verus!
