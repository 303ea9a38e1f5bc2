//! Sequential message dispatch: each message of a batch is handed to a
//! handler exactly once, in delivery order, and a failed message never stops
//! the loop.
use vstd::prelude::*;

verus! {

/// Processes one inbound message at a time, with whatever shared context the
/// implementor carries. `log()` is the ghost record of the messages handled
/// so far, in order of invocation; every call to `handle` must append its
/// message to that record, whether it succeeds or fails.
pub trait MessageHandler<M>: Sized {
    /// The messages handled so far, in order of invocation.
    spec fn log(&self) -> Seq<M>;

    /// Processes one message; a failure carries a descriptive message.
    fn handle(&mut self, message: M) -> (r: Result<(), String>)
        ensures
            final(self).log() == old(self).log().push(message),
    ;
}

/// Delivers every message of the batch to the handler, one at a time and in
/// order: the handler's log grows by exactly this batch. The returned list
/// records each message's outcome; a failure is recorded and the loop goes
/// on to the next message, so it never cuts the batch short.
pub fn handle_messages<M: Copy, H: MessageHandler<M>>(handler: &mut H, messages: &Vec<M>) -> (outcomes: Vec<bool>)
    ensures
        final(handler).log() == old(handler).log() + messages@,
        outcomes@.len() == messages@.len(),
{
    let mut outcomes: Vec<bool> = Vec::new();
    let mut k: usize = 0;
    proof {
        assert(handler.log() =~= old(handler).log() + messages@.take(0));
    }
    while k < messages.len()
        invariant
            k <= messages@.len(),
            outcomes@.len() == k,
            handler.log() == old(handler).log() + messages@.take(k as int),
        decreases messages@.len() - k,
    {
        let r = handler.handle(messages[k]);
        outcomes.push(r.is_ok());
        proof {
            assert(messages@.take(k as int).push(messages@[k as int]) =~= messages@.take(
                k as int + 1,
            ));
        }
        k = k + 1;
    }
    proof {
        assert(messages@.take(messages@.len() as int) =~= messages@);
    }
    outcomes
}

/// A handler for exercising the dispatch loop: it records every message it
/// is given and reports failure exactly on the messages listed in `fail_on`.
pub struct RecordingHandler {
    /// Every message handled so far, in order.
    pub seen: Vec<u64>,
    /// The messages on which handling is to fail.
    pub fail_on: Vec<u64>,
}

impl RecordingHandler {
    /// A fresh handler that will fail on the given messages.
    pub fn new(fail_on: Vec<u64>) -> (h: RecordingHandler)
        ensures
            h.seen@ == Seq::<u64>::empty(),
            h.fail_on@ == fail_on@,
    {
        RecordingHandler { seen: Vec::new(), fail_on }
    }
}

impl MessageHandler<u64> for RecordingHandler {
    open spec fn log(&self) -> Seq<u64> {
        self.seen@
    }

    fn handle(&mut self, message: u64) -> (r: Result<(), String>)
        ensures
            r is Err <==> old(self).fail_on@.contains(message),
    {
        self.seen.push(message);
        if contains_u64(&self.fail_on, message) {
            Err("message handling failed".to_string())
        } else {
            Ok(())
        }
    }
}

fn contains_u64(v: &Vec<u64>, x: u64) -> (r: bool)
    ensures
        r == v@.contains(x),
{
    let mut k: usize = 0;
    while k < v.len()
        invariant
            k <= v@.len(),
            forall|j: int| 0 <= j < k ==> v@[j] != x,
        decreases v@.len() - k,
    {
        if v[k] == x {
            proof {
                assert(0 <= k < v@.len() && v@[k as int] == x);
            }
            return true;
        }
        k = k + 1;
    }
    false
}

} // verus!
