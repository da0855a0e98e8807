//! Commands from game code to the audio engine, and the engine's status.

use crate::spu::music::Pitch;
use crate::spu::sample::SampleId;
use vstd::arithmetic::div_mod::{lemma_mod_self_0, lemma_small_mod};
use vstd::prelude::*;

verus! {

/// Command sent from game code to the audio engine.
#[derive(Clone, Copy, PartialEq, Eq, Structural, Debug)]
pub enum Command {
    /// Trigger a one-shot sound effect on the SFX voice pool.
    PlaySfx(SampleId, Pitch),
    /// Signal the engine to abort the current pattern playback.
    Interrupt,
    /// Change the sequencer BPM (1 beat = 4 rows).
    SetBpm(u16),
    /// Key-off all voices and halt playback.
    StopAll,
}

/// Fixed-capacity ring buffer for inter-coroutine commands.
///
/// One slot is always left unused, so the bus holds at most `CAP - 1`
/// commands.  Safe on single-core PS1 with cooperative scheduling: only
/// one coroutine accesses the bus at any given moment (between yields).
pub struct CommandBus<const CAP: usize> {
    buffer: Vec<Option<Command>>,
    head: usize,
    tail: usize,
}

/// The slot `i` places after `tail` in a ring of `cap` slots.
pub open spec fn ring_pos(tail: int, i: int, cap: int) -> int {
    if tail + i < cap {
        tail + i
    } else {
        tail + i - cap
    }
}

proof fn lemma_step(x: usize, cap: usize)
    requires
        x < cap,
    ensures
        (x + 1) % (cap as int) == if x + 1 < cap { x + 1 } else { 0 },
{
    if x + 1 < cap {
        lemma_small_mod((x + 1) as nat, cap as nat);
    } else {
        lemma_mod_self_0(cap as int);
    }
}

impl<const CAP: usize> CommandBus<CAP> {
    /// Number of queued commands.
    pub closed spec fn queued(&self) -> nat {
        if self.head >= self.tail {
            (self.head - self.tail) as nat
        } else {
            (self.head + CAP - self.tail) as nat
        }
    }

    /// The queued commands, oldest first.
    pub closed spec fn queue(&self) -> Seq<Command> {
        Seq::new(self.queued(), |i: int| self.buffer@[ring_pos(self.tail as int, i, CAP as int)]->0)
    }

    pub closed spec fn wf(&self) -> bool {
        &&& self.buffer@.len() == CAP
        &&& CAP == 0 ==> self.head == 0 && self.tail == 0
        &&& CAP > 0 ==> self.head < CAP && self.tail < CAP
        &&& forall|i: int| 0 <= i < self.queued() ==> (#[trigger] self.buffer@[ring_pos(self.tail as int, i, CAP as int)]) is Some
    }

    pub fn new() -> (b: CommandBus<CAP>)
        ensures
            b.wf(),
            b.queue() == Seq::<Command>::empty(),
    {
        let mut buffer: Vec<Option<Command>> = Vec::new();
        let mut i: usize = 0;
        while i < CAP
            invariant
                i <= CAP,
                buffer@.len() == i,
            decreases CAP - i,
        {
            buffer.push(None);
            i = i + 1;
        }
        let b = CommandBus { buffer, head: 0, tail: 0 };
        assert(b.queue() =~= Seq::<Command>::empty());
        b
    }

    /// Enqueue a command. Returns `false` if the buffer is full.
    pub fn send(&mut self, cmd: Command) -> (ok: bool)
        requires
            old(self).wf(),
            CAP > 0,
        ensures
            final(self).wf(),
            ok == (old(self).queue().len() + 1 < CAP),
            ok ==> final(self).queue() == old(self).queue().push(cmd),
            !ok ==> final(self).queue() == old(self).queue(),
    {
        proof {
            lemma_step(self.head, CAP);
        }
        let next = (self.head + 1) % CAP;
        if next == self.tail {
            return false;
        }
        let ghost q0 = self.queue();
        let ghost n0 = self.queued();
        assert(self.head as int == ring_pos(self.tail as int, n0 as int, CAP as int));
        self.buffer.set(self.head, Some(cmd));
        self.head = next;
        assert(self.queued() == n0 + 1);
        assert forall|i: int| 0 <= i < self.queued() implies (#[trigger] self.buffer@[ring_pos(self.tail as int, i, CAP as int)]) is Some by {
            if i < n0 {
                assert(ring_pos(self.tail as int, i, CAP as int) != ring_pos(self.tail as int, n0 as int, CAP as int));
            }
        }
        assert(self.queue() =~= q0.push(cmd)) by {
            assert forall|i: int| 0 <= i < n0 implies #[trigger] ring_pos(self.tail as int, i, CAP as int) != ring_pos(self.tail as int, n0 as int, CAP as int) by {}
        }
        true
    }

    /// Dequeue the oldest command, or `None` if the buffer is empty.
    pub fn poll(&mut self) -> (cmd: Option<Command>)
        requires
            old(self).wf(),
        ensures
            final(self).wf(),
            old(self).queue().len() == 0 ==> cmd is None && final(self).queue() == old(self).queue(),
            old(self).queue().len() > 0 ==> cmd == Some(old(self).queue()[0]) && final(self).queue()
                == old(self).queue().drop_first(),
    {
        if self.tail == self.head {
            return None;
        }
        let ghost q0 = self.queue();
        let ghost n0 = self.queued();
        assert(self.buffer@[ring_pos(self.tail as int, 0, CAP as int)] is Some);
        let cmd = self.buffer[self.tail];
        self.buffer.set(self.tail, None);
        proof {
            lemma_step(self.tail, CAP);
        }
        let ghost old_tail = self.tail;
        self.tail = (self.tail + 1) % CAP;
        assert(self.queued() == n0 - 1);
        assert forall|i: int| 0 <= i < self.queued() implies
            #[trigger] ring_pos(self.tail as int, i, CAP as int) == ring_pos(old_tail as int, i + 1, CAP as int)
            && ring_pos(old_tail as int, i + 1, CAP as int) != old_tail by {}
        assert forall|i: int| 0 <= i < self.queued() implies (#[trigger] self.buffer@[ring_pos(self.tail as int, i, CAP as int)]) is Some by {
            assert(ring_pos(self.tail as int, i, CAP as int) == ring_pos(old_tail as int, i + 1, CAP as int));
        }
        assert(self.queue() =~= q0.drop_first());
        cmd
    }
}

/// Read-only snapshot of the engine's playback state.
#[derive(Clone, Copy, PartialEq, Eq, Structural, Debug)]
pub struct AudioStatus {
    pub playing: bool,
    pub current_row: u16,
    pub current_pattern: u16,
}

impl AudioStatus {
    pub fn idle() -> (s: AudioStatus)
        ensures
            s == (AudioStatus { playing: false, current_row: 0, current_pattern: 0 }),
    {
        AudioStatus { playing: false, current_row: 0, current_pattern: 0 }
    }

    /// The status while row `row` of pattern (or song position) `pattern`
    /// plays; both numbers are kept in 16 bits.
    pub fn at_row(pattern: usize, row: usize) -> (s: AudioStatus)
        ensures
            s == (AudioStatus { playing: true, current_row: row as u16, current_pattern: pattern as u16 }),
    {
        AudioStatus { playing: true, current_row: row as u16, current_pattern: pattern as u16 }
    }
}

} // verus!
