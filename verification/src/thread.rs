use vstd::prelude::*;

verus! {

/// Lifecycle state of one fiber slot in the pool.
///
/// `Available`: unassigned, may receive a new task. `Ready`: has a task and a
/// resumable context, waiting for the scheduler. `Running`: currently on the
/// CPU; at most one fiber is ever in this state.
#[derive(Clone, Copy, PartialEq, Eq, Structural, Debug)]
pub enum State {
    Available,
    Running,
    Ready,
}

/// Failure reported by a pool operation that could not be carried out.
#[derive(Clone, Copy, PartialEq, Eq, Structural, Debug)]
pub enum RuntimeError {
    /// No fiber slot is `Available` for a new task.
    CapacityExhausted,
}

/// The minimal saved CPU state needed to resume a suspended fiber: the stack
/// pointer and the callee-saved registers of the 64-bit calling convention,
/// plus the index of the fiber that most recently entered this one via `call`.
///
/// These values are meaningful only while the owning fiber is not `Running`;
/// while it runs, the live values are in the CPU, not here.
#[derive(Clone, Copy, Debug)]
pub struct ThreadContext {
    pub rsp: u64,
    pub r15: u64,
    pub r14: u64,
    pub r13: u64,
    pub r12: u64,
    pub rbx: u64,
    pub rbp: u64,
    /// Index of the fiber that most recently transferred control here via `call`.
    pub caller: usize,
}

impl ThreadContext {
    /// All six callee-saved register slots are zero, as a virgin context's
    /// slots must be: none is read before a prior switch-out writes it.
    pub open spec fn callee_saved_zero(&self) -> bool {
        &&& self.r15 == 0
        &&& self.r14 == 0
        &&& self.r13 == 0
        &&& self.r12 == 0
        &&& self.rbx == 0
        &&& self.rbp == 0
    }

    /// A fresh, zeroed context. The register slots are never read before a
    /// switch-out writes them, so zero is a safe initial value.
    pub fn new() -> (c: ThreadContext)
        ensures
            c.callee_saved_zero(),
            c.rsp == 0,
            c.r15 == 0,
            c.r14 == 0,
            c.r13 == 0,
            c.r12 == 0,
            c.rbx == 0,
            c.rbp == 0,
            c.caller == 0,
    {
        ThreadContext { rsp: 0, r15: 0, r14: 0, r13: 0, r12: 0, rbx: 0, rbp: 0, caller: 0 }
    }
}

/// One fiber of the pool: its identity (position in the pool, stable for its
/// lifetime), its saved register context, its lifecycle state, and the handle
/// of its queued task, if any.
///
/// The fiber's stack buffer is not held here: stack storage is the collaborator
/// of the runtime's shell, which keeps one fixed, exclusively owned byte buffer
/// per fiber and hands its base address to the bootstrap routine.
#[derive(Clone, Copy, Debug)]
pub struct Thread {
    pub id: usize,
    pub ctx: ThreadContext,
    pub state: State,
    pub task: Option<usize>,
}

impl Thread {
    /// A fresh fiber slot: `Available`, no task, zeroed context.
    pub fn new(id: usize) -> (t: Thread)
        ensures
            t.id == id,
            t.state == State::Available,
            t.task is None,
            t.ctx.rsp == 0,
            t.ctx.callee_saved_zero(),
            t.ctx.caller == 0,
    {
        Thread { id, ctx: ThreadContext::new(), state: State::Available, task: None }
    }

    /// A fresh fiber slot whose context already records `caller` as its
    /// most recent invoker.
    pub fn new_with_caller(id: usize, caller: usize) -> (t: Thread)
        ensures
            t.id == id,
            t.state == State::Available,
            t.task is None,
            t.ctx.rsp == 0,
            t.ctx.callee_saved_zero(),
            t.ctx.caller == caller,
    {
        let mut ctx = ThreadContext::new();
        ctx.caller = caller;
        Thread { id, ctx, state: State::Available, task: None }
    }
}

} // verus!
