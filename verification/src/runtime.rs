//! Cooperative multitasking runtime: task slots, the stack pool and the
//! round-robin scheduling decisions.
//!
//! Each task keeps its own stack and a small set of saved registers
//! (48 bytes).  Switching only happens when a task voluntarily yields.
//! This module holds the bookkeeping: which slots are free, which pool
//! stacks are in use, which task runs next, and when a task's resources
//! are reclaimed.  The register save/restore itself is done by the
//! platform layer with the contexts kept here.
//!
//! Task lifecycle:
//!
//! ```text
//!  Empty ──spawn──► Active ──entry returns──► Finished ──collect──► Empty
//! ```

use vstd::prelude::*;
use vstd::arithmetic::div_mod::{lemma_small_mod, lemma_mod_self_0};

verus! {

/// Max number of dynamic tasks alive at the same time.
pub const POOL_CAPACITY: usize = 8;

/// Per-task stack size in the pool, measured in `u32` words.
/// 256 words = 1 KiB.
pub const POOL_STACK_SIZE: usize = 256;

/// Slots reserved for tasks that manage their own stacks:
///   - slot 0 is always `main`
///   - remaining slots are for `spawn()` (e.g. a permanent audio loop)
pub const STATIC_SLOTS: usize = 4;

/// Total task-slot array size.
pub const MAX_TASKS: usize = STATIC_SLOTS + POOL_CAPACITY;

/// 48 bytes of saved register state — the only thing kept per task.
///
/// | field | register(s)     |
/// |-------|-----------------|
/// | s     | s0-s7 (r16-r23) |
/// | gp    | gp    (r28)     |
/// | sp    | sp    (r29)     |
/// | fp    | fp/s8 (r30)     |
/// | ra    | ra    (r31)     |
#[derive(Clone, Copy, Debug)]
pub struct TaskContext {
    pub s: [u32; 8],
    pub gp: u32,
    pub sp: u32,
    pub fp: u32,
    pub ra: u32,
}

impl TaskContext {
    pub open spec fn blank() -> TaskContext {
        TaskContext { s: [0u32, 0, 0, 0, 0, 0, 0, 0], gp: 0, sp: 0, fp: 0, ra: 0 }
    }

    pub fn zeroed() -> (c: TaskContext)
        ensures
            c == TaskContext::blank(),
    {
        TaskContext { s: [0u32, 0, 0, 0, 0, 0, 0, 0], gp: 0, sp: 0, fp: 0, ra: 0 }
    }
}

/// Lifecycle of a task slot.
#[derive(Clone, Copy, PartialEq, Eq, Structural, Debug)]
pub enum TaskState {
    /// Slot is free and can be claimed by `spawn*`.
    Empty,
    /// Task is running or suspended (waiting for its turn).
    Active,
    /// Entry function returned; slot awaits cleanup.
    Finished,
}

/// One task slot.  Combines saved registers, state, and bookkeeping.
#[derive(Clone, Copy, Debug)]
pub struct Task {
    pub context: TaskContext,
    pub state: TaskState,
    /// Wrapping tag, incremented every time the slot is reused.
    /// [`TaskHandle`] stores the generation it was born with; if they
    /// mismatch the handle knows "my task is gone".
    pub generation: u8,
    /// `Some(pool_index)` when the stack was allocated from the pool.
    /// On cleanup the pool slot is returned.  `None` for static tasks.
    pub pool_slot: Option<u8>,
}

impl Task {
    pub open spec fn blank() -> Task {
        Task { context: TaskContext::blank(), state: TaskState::Empty, generation: 0, pool_slot: None }
    }

    pub fn empty() -> (t: Task)
        ensures
            t == Task::blank(),
    {
        Task { context: TaskContext::zeroed(), state: TaskState::Empty, generation: 0, pool_slot: None }
    }
}

/// An empty slot that keeps the generation `gen`.
pub open spec fn cleared(gen: u8) -> Task {
    Task { generation: gen, ..Task::blank() }
}

/// Fixed-size stack allocator: tracks which pool stacks are free.
/// All blocks are the same size, so there is no fragmentation.
pub struct Pool {
    free: Vec<bool>,
}

impl Pool {
    /// Per-slot availability.  `true` = free, `false` = in use.
    pub closed spec fn free(&self) -> Seq<bool> {
        self.free@
    }

    pub open spec fn wf(&self) -> bool {
        self.free().len() == POOL_CAPACITY
    }

    pub fn new() -> (p: Pool)
        ensures
            p.free() == Seq::new(POOL_CAPACITY as nat, |i: int| true),
    {
        let mut free: Vec<bool> = Vec::new();
        let mut i: usize = 0;
        while i < POOL_CAPACITY
            invariant
                i <= POOL_CAPACITY,
                free@ == Seq::new(i as nat, |k: int| true),
            decreases POOL_CAPACITY - i,
        {
            free.push(true);
            proof {
                assert(free@ =~= Seq::new((i + 1) as nat, |k: int| true));
            }
            i = i + 1;
        }
        Pool { free }
    }

    /// Claim the first free slot.  Returns `None` when pool is exhausted.
    pub fn allocate(&mut self) -> (r: Option<u8>)
        requires
            old(self).wf(),
        ensures
            final(self).wf(),
            match r {
                Some(i) => {
                    &&& (i as int) < POOL_CAPACITY
                    &&& old(self).free()[i as int]
                    &&& forall|j: int| 0 <= j < i ==> !old(self).free()[j]
                    &&& final(self).free() == old(self).free().update(i as int, false)
                },
                None => {
                    &&& forall|j: int| 0 <= j < POOL_CAPACITY ==> !old(self).free()[j]
                    &&& final(self).free() == old(self).free()
                },
            },
    {
        let mut i: usize = 0;
        while i < POOL_CAPACITY
            invariant
                i <= POOL_CAPACITY,
                self.free@ == old(self).free@,
                self.free@.len() == POOL_CAPACITY,
                forall|j: int| 0 <= j < i ==> !old(self).free@[j],
            decreases POOL_CAPACITY - i,
        {
            if self.free[i] {
                self.free.set(i, false);
                return Some(i as u8);
            }
            i = i + 1;
        }
        None
    }

    /// Return a slot to the pool.  The stack memory is not zeroed — it will
    /// be overwritten by the next task that claims the slot.
    pub fn dealloc(&mut self, idx: u8)
        requires
            old(self).wf(),
            (idx as int) < POOL_CAPACITY,
        ensures
            final(self).wf(),
            final(self).free() == old(self).free().update(idx as int, true),
    {
        self.free.set(idx as usize, true);
    }
}

/// Top of a stack whose end is at `top`, rounded down to the 8-byte
/// alignment the MIPS ABI requires.  Stacks grow downward from here.
pub fn stack_top(top: u32) -> (sp: u32)
    ensures
        sp == top & !7u32,
        sp % 8 == 0,
        sp <= top,
        top - sp < 8,
{
    let sp = top & !7u32;
    assert(sp % 8 == 0 && sp <= top && top - sp < 8) by (bit_vector)
        requires sp == top & !7u32;
    sp
}

/// Opaque handle to a spawned task.
///
/// Carries a **generation counter** — if the underlying slot is
/// recycled for a different task, the stale handle reports
/// `is_finished() == true` (your task is long gone).
#[derive(Clone, Copy, PartialEq, Eq, Structural, Debug)]
pub struct TaskHandle {
    index: u8,
    generation: u8,
}

impl TaskHandle {
    #[verifier::type_invariant]
    closed spec fn index_ok(&self) -> bool {
        (self.index as int) < MAX_TASKS
    }

    /// The task slot this handle refers to.
    pub closed spec fn slot(&self) -> int {
        self.index as int
    }

    /// The generation the task was born with.
    pub closed spec fn born(&self) -> u8 {
        self.generation
    }

    /// Returns `true` when the entry function has returned
    /// (or the slot was already recycled for another task).
    pub fn is_finished(&self, exec: &Executor) -> (r: bool)
        requires
            exec.wf(),
        ensures
            r == exec.handle_finished(*self),
    {
        proof {
            use_type_invariant(self);
        }
        let task = exec.tasks[self.index as usize];
        task.generation != self.generation || task.state != TaskState::Active
    }
}

/// The outcome of spawning a finite task with `entry` and `arg` from `e`
/// and `p`, giving `e1`, `p1` and the handle `h`: the first free pool
/// stack and the first empty slot are taken; without a free stack nothing
/// changes; without an empty slot the stack stays claimed.
pub open spec fn dynamic_spawn(
    e: Executor,
    e1: Executor,
    p: Pool,
    p1: Pool,
    entry: u32,
    arg: u32,
    gp: u32,
    bootstrap: u32,
    ends: Seq<u32>,
    h: Option<TaskHandle>,
) -> bool {
    let s = choose|s: int| 0 <= s < POOL_CAPACITY && p.free()[s] && forall|j: int| 0 <= j < s ==> !p.free()[j];
    match h {
        Some(h) => {
            &&& 0 <= s < POOL_CAPACITY && p.free()[s]
            &&& forall|j: int| 0 <= j < s ==> !p.free()[j]
            &&& p1.free() == p.free().update(s, false)
            &&& 1 <= h.slot() < MAX_TASKS
            &&& e.tasks()[h.slot()].state == TaskState::Empty
            &&& forall|j: int| 1 <= j < h.slot() ==> e.tasks()[j].state != TaskState::Empty
            &&& h.born() == (e.tasks()[h.slot()].generation + 1) % 256
            &&& e1.tasks() == e.tasks().update(
                h.slot(),
                Task {
                    context: TaskContext {
                        s: [entry, arg, 0, 0, 0, 0, 0, 0],
                        gp,
                        sp: ends[s] & !7u32,
                        fp: ends[s] & !7u32,
                        ra: bootstrap,
                    },
                    state: TaskState::Active,
                    generation: h.born(),
                    pool_slot: Some(s as u8),
                },
            )
        },
        None => {
            &&& e1.tasks() == e.tasks()
            &&& (forall|j: int| 0 <= j < POOL_CAPACITY ==> !p.free()[j])
                ==> p1.free() == p.free()
            &&& (exists|j: int| 0 <= j < POOL_CAPACITY && p.free()[j]) ==> {
                &&& forall|j: int| 1 <= j < MAX_TASKS ==> e.tasks()[j].state != TaskState::Empty
                &&& p1.free() == p.free().update(s, false)
            }
        },
    }
}

/// Round-robin scheduler over the task slots.
pub struct Executor {
    /// Slot 0 = main.  Slots 1..STATIC_SLOTS for `spawn()` tasks.
    /// Slots STATIC_SLOTS.. for dynamic tasks.
    /// (In practice any empty slot can be used by any spawn variant.)
    tasks: Vec<Task>,
    /// Index of the task that is currently executing.
    current: usize,
}

/// The slot `k` places after `from` in the cyclic order of task slots.
pub open spec fn after(from: int, k: int) -> int {
    (from + k) % (MAX_TASKS as int)
}

impl Executor {
    pub closed spec fn tasks(&self) -> Seq<Task> {
        self.tasks@
    }

    /// Index of the task that is currently executing.
    pub closed spec fn current(&self) -> int {
        self.current as int
    }

    pub open spec fn wf(&self) -> bool {
        &&& self.tasks().len() == MAX_TASKS
        &&& 0 <= self.current() < MAX_TASKS
        &&& forall|i: int| 0 <= i < MAX_TASKS ==> ((#[trigger] self.tasks()[i]).pool_slot matches Some(s)
            ==> (s as int) < POOL_CAPACITY)
    }

    /// Whether a handle's task has ended (or its slot was reused).
    pub open spec fn handle_finished(&self, h: TaskHandle) -> bool {
        self.tasks()[h.slot()].generation != h.born() || self.tasks()[h.slot()].state != TaskState::Active
    }

    /// Every pool stack held by a live task is marked in use, and no two
    /// live tasks hold the same pool stack.
    pub open spec fn owns_stacks(&self, pool: &Pool) -> bool {
        &&& forall|i: int| 0 <= i < MAX_TASKS && (#[trigger] self.tasks()[i]).state != TaskState::Empty
            ==> (self.tasks()[i].pool_slot matches Some(s) ==> !pool.free()[s as int])
        &&& forall|i: int| 0 <= i < MAX_TASKS && (#[trigger] self.tasks()[i]).state == TaskState::Empty
            ==> self.tasks()[i].pool_slot is None
        &&& forall|i: int, j: int|
            0 <= i < MAX_TASKS && 0 <= j < MAX_TASKS && i != j
                && (#[trigger] self.tasks()[i]).pool_slot is Some && (#[trigger] self.tasks()[j]).pool_slot is Some
                ==> self.tasks()[i].pool_slot != self.tasks()[j].pool_slot
    }

    pub fn new() -> (e: Executor)
        ensures
            e.wf(),
            e.tasks() == Seq::new(MAX_TASKS as nat, |i: int| Task::blank()),
            e.current() == 0,
    {
        let mut tasks: Vec<Task> = Vec::new();
        let mut i: usize = 0;
        while i < MAX_TASKS
            invariant
                i <= MAX_TASKS,
                tasks@ == Seq::new(i as nat, |k: int| Task::blank()),
            decreases MAX_TASKS - i,
        {
            tasks.push(Task::empty());
            proof {
                assert(tasks@ =~= Seq::new((i + 1) as nat, |k: int| Task::blank()));
            }
            i = i + 1;
        }
        Executor { tasks, current: 0 }
    }

    /// Register the current execution context (`main`) as task 0.
    /// It keeps its existing stack — nothing is allocated.
    pub fn init(&mut self)
        requires
            old(self).wf(),
        ensures
            final(self).wf(),
            final(self).current() == 0,
            final(self).tasks() == old(self).tasks().update(
                0,
                Task { context: TaskContext::blank(), state: TaskState::Active, generation: 1, pool_slot: None },
            ),
    {
        self.tasks.set(
            0,
            Task { context: TaskContext::zeroed(), state: TaskState::Active, generation: 1, pool_slot: None },
        );
        self.current = 0;
    }

    /// Returns the index of the currently executing task.
    /// Main is always 0.
    pub fn current_task(&self) -> (r: usize)
        ensures
            r == self.current(),
    {
        self.current
    }

    /// The saved registers of slot `idx`.
    pub fn context(&self, idx: usize) -> (c: TaskContext)
        requires
            self.wf(),
            idx < MAX_TASKS,
        ensures
            c == self.tasks()[idx as int].context,
    {
        self.tasks[idx].context
    }

    /// Scan the task slots (skipping slot 0 = main) for the first empty one.
    pub fn find_free_slot(&self) -> (r: Option<usize>)
        requires
            self.wf(),
        ensures
            match r {
                Some(i) => {
                    &&& 1 <= i < MAX_TASKS
                    &&& self.tasks()[i as int].state == TaskState::Empty
                    &&& forall|j: int| 1 <= j < i ==> self.tasks()[j].state != TaskState::Empty
                },
                None => forall|j: int| 1 <= j < MAX_TASKS ==> self.tasks()[j].state != TaskState::Empty,
            },
    {
        let mut i: usize = 1;
        while i < MAX_TASKS
            invariant
                1 <= i <= MAX_TASKS,
                self.tasks().len() == MAX_TASKS,
                forall|j: int| 1 <= j < i ==> self.tasks()[j].state != TaskState::Empty,
            decreases MAX_TASKS - i,
        {
            if self.tasks[i].state == TaskState::Empty {
                return Some(i);
            }
            i = i + 1;
        }
        None
    }

    /// Populate a task slot and return a handle.
    ///
    /// Initial context setup:
    ///   - `s0` = entry function address (read by the bootstrap trampoline)
    ///   - `s1` = argument passed to entry via `$a0`
    ///   - `ra` = the bootstrap trampoline, which calls entry and
    ///     handles cleanup if entry returns
    ///   - `sp`, `fp` = top of the task's stack (grows downward)
    ///   - `gp` = copied from the spawning task
    pub fn setup_task(
        &mut self,
        idx: usize,
        entry: u32,
        arg: u32,
        sp: u32,
        gp: u32,
        bootstrap: u32,
        pool_slot: Option<u8>,
    ) -> (h: TaskHandle)
        requires
            old(self).wf(),
            idx < MAX_TASKS,
            pool_slot matches Some(s) ==> (s as int) < POOL_CAPACITY,
        ensures
            final(self).wf(),
            final(self).current() == old(self).current(),
            h.slot() == idx,
            h.born() == (old(self).tasks()[idx as int].generation + 1) % 256,
            final(self).tasks() == old(self).tasks().update(
                idx as int,
                Task {
                    context: TaskContext { s: [entry, arg, 0, 0, 0, 0, 0, 0], gp, sp, fp: sp, ra: bootstrap },
                    state: TaskState::Active,
                    generation: h.born(),
                    pool_slot,
                },
            ),
            // The new task is running, and every handle to the slot's
            // previous occupant now reports that its task has ended.
            !final(self).handle_finished(h),
            forall|old_h: TaskHandle|
                old_h.slot() == idx && old_h.born() == old(self).tasks()[idx as int].generation
                    ==> #[trigger] final(self).handle_finished(old_h),
            // Other handles that report their task ended keep reporting so;
            // only one equal to the new handle (the slot's generation counter
            // came round to it) runs again.
            forall|t: TaskHandle| 0 <= t.slot() < MAX_TASKS && old(self).handle_finished(t) && t != h
                ==> #[trigger] final(self).handle_finished(t),
    {
        let next_gen = self.tasks[idx].generation.wrapping_add(1);
        self.tasks.set(
            idx,
            Task {
                context: TaskContext { s: [entry, arg, 0, 0, 0, 0, 0, 0], gp, sp, fp: sp, ra: bootstrap },
                state: TaskState::Active,
                generation: next_gen,
                pool_slot,
            },
        );
        TaskHandle { index: idx as u8, generation: next_gen }
    }

    /// Spawn a **long-lived** task on a caller-provided stack ending at `stack_end`.
    ///
    /// Returns `None` if there is no free task slot.
    pub fn spawn(&mut self, entry: u32, stack_end: u32, gp: u32, bootstrap: u32) -> (h: Option<TaskHandle>)
        requires
            old(self).wf(),
        ensures
            final(self).wf(),
            final(self).current() == old(self).current(),
            match h {
                Some(h) => {
                    &&& 1 <= h.slot() < MAX_TASKS
                    &&& old(self).tasks()[h.slot()].state == TaskState::Empty
                    &&& forall|j: int| 1 <= j < h.slot() ==> old(self).tasks()[j].state != TaskState::Empty
                    &&& h.born() == (old(self).tasks()[h.slot()].generation + 1) % 256
                    &&& final(self).tasks() == old(self).tasks().update(
                        h.slot(),
                        Task {
                            context: TaskContext {
                                s: [entry, 0, 0, 0, 0, 0, 0, 0],
                                gp,
                                sp: stack_end & !7u32,
                                fp: stack_end & !7u32,
                                ra: bootstrap,
                            },
                            state: TaskState::Active,
                            generation: h.born(),
                            pool_slot: None,
                        },
                    )
                },
                None => {
                    &&& forall|j: int| 1 <= j < MAX_TASKS ==> old(self).tasks()[j].state != TaskState::Empty
                    &&& final(self).tasks() == old(self).tasks()
                },
            },
            // A handle that reports its task ended keeps reporting so, unless
            // the slot's generation counter came round to it again.
            forall|t: TaskHandle| 0 <= t.slot() < MAX_TASKS && old(self).handle_finished(t)
                && (h matches Some(n) ==> t != n) ==> #[trigger] final(self).handle_finished(t),
    {
        let sp = stack_top(stack_end);
        match self.find_free_slot() {
            Some(idx) => Some(self.setup_task(idx, entry, 0, sp, gp, bootstrap, None)),
            None => None,
        }
    }

    /// Spawn a **finite** task whose stack comes from the pool; the pool
    /// stack `i` ends at `pool_ends[i]`.  The argument arrives as the first
    /// parameter of the entry function.
    ///
    /// Returns `None` if the pool is exhausted (nothing changes) or there
    /// are no free task slots.  In the latter case the pool stack that was
    /// claimed stays claimed.
    pub fn spawn_dynamic_with_arg(
        &mut self,
        pool: &mut Pool,
        entry: u32,
        arg: u32,
        gp: u32,
        bootstrap: u32,
        pool_ends: &[u32],
    ) -> (h: Option<TaskHandle>)
        requires
            old(self).wf(),
            old(pool).wf(),
            old(self).owns_stacks(old(pool)),
            pool_ends@.len() == POOL_CAPACITY,
        ensures
            final(self).wf(),
            final(pool).wf(),
            final(self).owns_stacks(final(pool)),
            final(self).current() == old(self).current(),
            dynamic_spawn(*old(self), *final(self), *old(pool), *final(pool), entry, arg, gp, bootstrap, pool_ends@, h),
            // A handle that reports its task ended keeps reporting so, unless
            // the slot's generation counter came round to it again.
            forall|t: TaskHandle| 0 <= t.slot() < MAX_TASKS && old(self).handle_finished(t)
                && (h matches Some(n) ==> t != n) ==> #[trigger] final(self).handle_finished(t),
    {
        let slot = match pool.allocate() {
            Some(s) => s,
            None => return None,
        };
        let sp = stack_top(pool_ends[slot as usize]);
        let idx = match self.find_free_slot() {
            Some(i) => i,
            None => {
                proof {
                    let s = slot as int;
                    assert(old(pool).free()[s]);
                    let c = choose|c: int| 0 <= c < POOL_CAPACITY && old(pool).free()[c]
                        && forall|j: int| 0 <= j < c ==> !old(pool).free()[j];
                    if c < s {
                        assert(!old(pool).free()[c]);
                    }
                    if s < c {
                        assert(!old(pool).free()[s]);
                    }
                    assert(c == s);
                }
                return None;
            },
        };
        let h = self.setup_task(idx, entry, arg, sp, gp, bootstrap, Some(slot));
        proof {
            let s = slot as int;
            assert(old(pool).free()[s] && forall|j: int| 0 <= j < s ==> !old(pool).free()[j]);
            let c = choose|c: int| 0 <= c < POOL_CAPACITY && old(pool).free()[c]
                && forall|j: int| 0 <= j < c ==> !old(pool).free()[j];
            if c < s {
                assert(!old(pool).free()[c]);
            }
            if s < c {
                assert(!old(pool).free()[s]);
            }
            assert(c == s);
            assert forall|i: int| 0 <= i < MAX_TASKS && (#[trigger] self.tasks()[i]).state != TaskState::Empty
                implies (self.tasks()[i].pool_slot matches Some(t) ==> !pool.free()[t as int]) by {
                if i != idx as int {
                    assert(self.tasks()[i] == old(self).tasks()[i]);
                }
            }
            assert forall|i: int, j: int|
                0 <= i < MAX_TASKS && 0 <= j < MAX_TASKS && i != j
                    && (#[trigger] self.tasks()[i]).pool_slot is Some && (#[trigger] self.tasks()[j]).pool_slot is Some
                    implies self.tasks()[i].pool_slot != self.tasks()[j].pool_slot by {
                if i == idx as int {
                    assert(self.tasks()[j] == old(self).tasks()[j]);
                    if old(self).tasks()[j].state == TaskState::Empty {
                    } else {
                        assert(!old(pool).free()[old(self).tasks()[j].pool_slot->0 as int]);
                    }
                } else if j == idx as int {
                    assert(self.tasks()[i] == old(self).tasks()[i]);
                    if old(self).tasks()[i].state == TaskState::Empty {
                    } else {
                        assert(!old(pool).free()[old(self).tasks()[i].pool_slot->0 as int]);
                    }
                }
            }
        }
        Some(h)
    }

    /// Spawn a finite task on a pool stack, with argument 0.
    pub fn spawn_dynamic(
        &mut self,
        pool: &mut Pool,
        entry: u32,
        gp: u32,
        bootstrap: u32,
        pool_ends: &[u32],
    ) -> (h: Option<TaskHandle>)
        requires
            old(self).wf(),
            old(pool).wf(),
            old(self).owns_stacks(old(pool)),
            pool_ends@.len() == POOL_CAPACITY,
        ensures
            final(self).wf(),
            final(pool).wf(),
            final(self).owns_stacks(final(pool)),
            final(self).current() == old(self).current(),
            dynamic_spawn(*old(self), *final(self), *old(pool), *final(pool), entry, 0, gp, bootstrap, pool_ends@, h),
            h matches Some(h) ==> !final(self).handle_finished(h),
            // A handle that reports its task ended keeps reporting so, unless
            // the slot's generation counter came round to it again.
            forall|t: TaskHandle| 0 <= t.slot() < MAX_TASKS && old(self).handle_finished(t)
                && (h matches Some(n) ==> t != n) ==> #[trigger] final(self).handle_finished(t),
    {
        self.spawn_dynamic_with_arg(pool, entry, 0, gp, bootstrap, pool_ends)
    }

    /// The slots after lazy collection: every `Finished` slot other than
    /// the current one becomes empty, keeping its generation.
    pub open spec fn collected(&self) -> Seq<Task> {
        Seq::new(MAX_TASKS as nat, |i: int|
            if i != self.current() && self.tasks()[i].state == TaskState::Finished {
                cleared(self.tasks()[i].generation)
            } else {
                self.tasks()[i]
            })
    }

    /// Collection empties every finished slot but the current one, whatever
    /// stack the task ran on, and leaves every other slot as it was: after
    /// it no slot but the current one is finished.
    pub proof fn lemma_collection_empties_finished(&self)
        requires
            self.wf(),
        ensures
            forall|i: int| 0 <= i < MAX_TASKS && i != self.current()
                ==> (#[trigger] self.collected()[i]).state != TaskState::Finished,
            forall|i: int| 0 <= i < MAX_TASKS && i != self.current() && self.tasks()[i].state == TaskState::Finished
                ==> (#[trigger] self.collected()[i]).state == TaskState::Empty
                    && self.collected()[i].pool_slot is None
                    && self.collected()[i].generation == self.tasks()[i].generation,
            forall|i: int| 0 <= i < MAX_TASKS && (i == self.current() || self.tasks()[i].state != TaskState::Finished)
                ==> #[trigger] self.collected()[i] == self.tasks()[i],
    {
    }

    /// Lazy garbage collection: reclaim resources of finished tasks.
    ///
    /// For each `Finished` slot (except the *current* one — we might still
    /// be standing on its stack!) returns the pool stack and resets the slot.
    pub fn collect_finished(&mut self, pool: &mut Pool)
        requires
            old(self).wf(),
            old(pool).wf(),
        ensures
            final(self).wf(),
            final(pool).wf(),
            final(self).current() == old(self).current(),
            final(self).tasks() == old(self).collected(),
            // No slot but the current one is left finished.
            forall|i: int| 0 <= i < MAX_TASKS && i != final(self).current()
                ==> (#[trigger] final(self).tasks()[i]).state != TaskState::Finished,
            forall|s: int| 0 <= s < POOL_CAPACITY ==> #[trigger] final(pool).free()[s] == (old(pool).free()[s]
                || exists|i: int| 0 <= i < MAX_TASKS && i != old(self).current()
                    && old(self).tasks()[i].state == TaskState::Finished
                    && old(self).tasks()[i].pool_slot == Some(s as u8)),
            old(self).owns_stacks(old(pool)) ==> final(self).owns_stacks(final(pool)),
            // A handle that reports its task ended keeps reporting so.
            forall|t: TaskHandle| 0 <= t.slot() < MAX_TASKS && old(self).handle_finished(t)
                ==> #[trigger] final(self).handle_finished(t),
    {
        let current = self.current;
        let mut i: usize = 0;
        while i < MAX_TASKS
            invariant
                i <= MAX_TASKS,
                self.current == current,
                self.wf(),
                pool.wf(),
                self.tasks().len() == MAX_TASKS,
                forall|k: int| 0 <= k < MAX_TASKS ==> #[trigger] self.tasks()[k] == if k < i {
                    old(self).collected()[k]
                } else {
                    old(self).tasks()[k]
                },
                old(self).wf(),
                old(self).current() == current,
                forall|s: int| 0 <= s < POOL_CAPACITY ==> #[trigger] pool.free()[s] == (old(pool).free()[s]
                    || exists|k: int| 0 <= k < i && k != current
                        && old(self).tasks()[k].state == TaskState::Finished
                        && old(self).tasks()[k].pool_slot == Some(s as u8)),
            decreases MAX_TASKS - i,
        {
            let t = self.tasks[i];
            if i != current && t.state == TaskState::Finished {
                let ghost pool_before = pool.free();
                if let Some(slot) = t.pool_slot {
                    pool.dealloc(slot);
                }
                let prev_gen = t.generation;
                let mut e = Task::empty();
                // Preserve generation so that stale TaskHandles that reference
                // this slot can still detect that their task has ended.
                e.generation = prev_gen;
                self.tasks.set(i, e);
                proof {
                    assert forall|s: int| 0 <= s < POOL_CAPACITY implies #[trigger] pool.free()[s] == (old(pool).free()[s]
                        || exists|k: int| 0 <= k < i + 1 && k != current
                            && old(self).tasks()[k].state == TaskState::Finished
                            && old(self).tasks()[k].pool_slot == Some(s as u8)) by {
                        if t.pool_slot == Some(s as u8) {
                            assert(old(self).tasks()[i as int].pool_slot == Some(s as u8));
                        }
                        if exists|k: int| 0 <= k < i + 1 && k != current
                            && old(self).tasks()[k].state == TaskState::Finished
                            && old(self).tasks()[k].pool_slot == Some(s as u8) {
                            let k = choose|k: int| 0 <= k < i + 1 && k != current
                                && old(self).tasks()[k].state == TaskState::Finished
                                && old(self).tasks()[k].pool_slot == Some(s as u8);
                            if k < i {
                            } else {
                                assert(t.pool_slot == Some(s as u8));
                            }
                        }
                    }
                }
            } else {
                proof {
                    assert forall|s: int| 0 <= s < POOL_CAPACITY implies #[trigger] pool.free()[s] == (old(pool).free()[s]
                        || exists|k: int| 0 <= k < i + 1 && k != current
                            && old(self).tasks()[k].state == TaskState::Finished
                            && old(self).tasks()[k].pool_slot == Some(s as u8)) by {
                        if exists|k: int| 0 <= k < i + 1 && k != current
                            && old(self).tasks()[k].state == TaskState::Finished
                            && old(self).tasks()[k].pool_slot == Some(s as u8) {
                            let k = choose|k: int| 0 <= k < i + 1 && k != current
                                && old(self).tasks()[k].state == TaskState::Finished
                                && old(self).tasks()[k].pool_slot == Some(s as u8);
                            if k == i {
                                assert(old(self).tasks()[i as int] == t);
                            }
                        }
                    }
                }
            }
            i = i + 1;
        }
        proof {
            assert(self.tasks() =~= old(self).collected());
            if old(self).owns_stacks(old(pool)) {
                assert forall|k: int| 0 <= k < MAX_TASKS && (#[trigger] self.tasks()[k]).state != TaskState::Empty
                    implies (self.tasks()[k].pool_slot matches Some(t) ==> !pool.free()[t as int]) by {
                    if let Some(t) = self.tasks()[k].pool_slot {
                        assert(self.tasks()[k] == old(self).tasks()[k]);
                        if exists|m: int| 0 <= m < MAX_TASKS && m != current
                            && old(self).tasks()[m].state == TaskState::Finished
                            && old(self).tasks()[m].pool_slot == Some(t) {
                            let m = choose|m: int| 0 <= m < MAX_TASKS && m != current
                                && old(self).tasks()[m].state == TaskState::Finished
                                && old(self).tasks()[m].pool_slot == Some(t);
                            assert(m != k);
                        }
                    }
                }
            }
        }
    }

    /// Mark the current task as finished: its entry function returned.
    /// The scheduler never resumes it, and a later collection from another
    /// task reclaims the slot.
    pub fn complete_current(&mut self)
        requires
            old(self).wf(),
        ensures
            final(self).wf(),
            final(self).current() == old(self).current(),
            final(self).tasks() == old(self).tasks().update(
                old(self).current(),
                Task { state: TaskState::Finished, ..old(self).tasks()[old(self).current()] },
            ),
            forall|p: &Pool| old(self).owns_stacks(p) && old(self).tasks()[old(self).current()].state != TaskState::Empty
                ==> #[trigger] final(self).owns_stacks(p),
            // A handle that reports its task ended keeps reporting so.
            forall|t: TaskHandle| 0 <= t.slot() < MAX_TASKS && old(self).handle_finished(t)
                ==> #[trigger] final(self).handle_finished(t),
    {
        let idx = self.current;
        let mut t = self.tasks[idx];
        t.state = TaskState::Finished;
        self.tasks.set(idx, t);
    }

    /// The yield decision: collect finished tasks, then pick the next
    /// `Active` task after the current one in cyclic order.
    ///
    /// Returns `Some((old, new))` when control passes from slot `old` to
    /// slot `new` (and `new` becomes current), or `None` when no other task
    /// is active (no switch; yielding is a no-op).
    pub fn prepare_switch(&mut self, pool: &mut Pool) -> (r: Option<(usize, usize)>)
        requires
            old(self).wf(),
            old(pool).wf(),
        ensures
            final(self).wf(),
            final(pool).wf(),
            old(self).owns_stacks(old(pool)) ==> final(self).owns_stacks(final(pool)),
            final(self).tasks() == old(self).collected(),
            // No slot but the one that yields is left finished.
            forall|i: int| 0 <= i < MAX_TASKS && i != old(self).current()
                ==> (#[trigger] final(self).tasks()[i]).state != TaskState::Finished,
            // A handle that reports its task ended keeps reporting so.
            forall|t: TaskHandle| 0 <= t.slot() < MAX_TASKS && old(self).handle_finished(t)
                ==> #[trigger] final(self).handle_finished(t),
            match r {
                Some((from, to)) => {
                    &&& from == old(self).current()
                    &&& to == final(self).current()
                    &&& from != to
                    &&& exists|k: int| 1 <= k < MAX_TASKS && to == after(from as int, k)
                        && final(self).tasks()[to as int].state == TaskState::Active
                        && forall|j: int| 1 <= j < k ==> final(self).tasks()[after(from as int, j)].state != TaskState::Active
                },
                None => {
                    &&& final(self).current() == old(self).current()
                    &&& forall|j: int| 1 <= j < MAX_TASKS ==> final(self).tasks()[after(old(self).current(), j)].state
                        != TaskState::Active
                },
            },
    {
        self.collect_finished(pool);

        let from = self.current;
        let mut i: usize = 1;
        while i < MAX_TASKS
            invariant
                1 <= i <= MAX_TASKS,
                from == self.current,
                self.wf(),
                pool.wf(),
                self.tasks() == old(self).collected(),
                from == old(self).current(),
                old(self).owns_stacks(old(pool)) ==> self.owns_stacks(pool),
                forall|j: int| 1 <= j < i ==> self.tasks()[after(from as int, j)].state != TaskState::Active,
            decreases MAX_TASKS - i,
        {
            let idx = (from + i) % MAX_TASKS;
            if self.tasks[idx].state == TaskState::Active {
                proof {
                    if from + i < MAX_TASKS {
                        lemma_small_mod((from + i) as nat, MAX_TASKS as nat);
                    }
                    assert(idx as int == after(from as int, i as int));
                }
                if idx == from {
                    // unreachable: `i` ranges over 1..MAX_TASKS
                    return None;
                }
                self.current = idx;
                return Some((from, idx));
            }
            i = i + 1;
        }
        None
    }
}

} // verus!
