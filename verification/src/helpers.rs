//! The on-screen debug log: the last lines printed, oldest first.

use ringbuffer::{ConstGenericRingBuffer, RingBuffer};
use vstd::prelude::*;

verus! {

/// Number of lines the debug log keeps.
pub const LOG_LINES: usize = 28;

#[verifier::external_type_specification]
#[verifier::external_body]
#[verifier::reject_recursive_types(T)]
pub struct ExConstGenericRingBuffer<T, const CAP: usize>(ConstGenericRingBuffer<T, CAP>);

/// The lines a ring buffer holds, from the one pushed longest ago to the
/// one pushed last.
pub uninterp spec fn held_lines(b: ConstGenericRingBuffer<String, 28>) -> Seq<Seq<char>>;

/// `ConstGenericRingBuffer::new`: an empty buffer.
#[verifier::external_body]
fn ring_new() -> (b: ConstGenericRingBuffer<String, 28>)
    ensures
        held_lines(b) == Seq::<Seq<char>>::empty(),
{
    ConstGenericRingBuffer::<String, 28>::new()
}

/// `RingBuffer::push` on a `ConstGenericRingBuffer`: the line goes at the
/// end; when the buffer is full (28 lines) the oldest line is dropped.
#[verifier::external_body]
fn ring_push(b: &mut ConstGenericRingBuffer<String, 28>, line: String)
    ensures
        held_lines(*final(b)) == if held_lines(*old(b)).len() < 28 {
            held_lines(*old(b)).push(line@)
        } else {
            held_lines(*old(b)).drop_first().push(line@)
        },
{
    #[allow(deprecated)]
    b.push(line);
}

/// `RingBuffer::iter` on a `ConstGenericRingBuffer`, each line cloned: the
/// lines from the oldest to the newest.
#[verifier::external_body]
fn ring_lines(b: &ConstGenericRingBuffer<String, 28>) -> (v: Vec<String>)
    ensures
        v@.map_values(|s: String| s@) == held_lines(*b),
{
    b.iter().cloned().collect()
}

/// The last [`LOG_LINES`] lines printed to the debug screen.
pub struct MessageLog {
    storage: ConstGenericRingBuffer<String, 28>,
}

impl MessageLog {
    /// The kept lines, oldest first.
    pub closed spec fn lines(&self) -> Seq<Seq<char>> {
        held_lines(self.storage)
    }

    pub open spec fn wf(&self) -> bool {
        self.lines().len() <= LOG_LINES
    }

    pub fn new() -> (m: MessageLog)
        ensures
            m.wf(),
            m.lines() == Seq::<Seq<char>>::empty(),
    {
        MessageLog { storage: ring_new() }
    }

    /// Keep `message` as the newest line, dropping the oldest once
    /// [`LOG_LINES`] are kept, and give back the lines to draw, oldest first.
    pub fn record(&mut self, message: String) -> (lines: Vec<String>)
        requires
            old(self).wf(),
        ensures
            final(self).wf(),
            final(self).lines() == if old(self).lines().len() < LOG_LINES {
                old(self).lines().push(message@)
            } else {
                old(self).lines().drop_first().push(message@)
            },
            lines@.map_values(|s: String| s@) == final(self).lines(),
    {
        ring_push(&mut self.storage, message);
        ring_lines(&self.storage)
    }
}

} // verus!
