use vstd::prelude::*;
use crate::scan::{
    find_avail_from, first_available, has_ready, lemma_find_avail_skip, lemma_find_dist_none,
    lemma_find_dist_skip, ready_dist, slot,
};
use crate::thread::{RuntimeError, State, Thread};

verus! {

/// Pool size of the demonstration driver: the driver's own fiber plus three
/// task fibers.
pub const MAX_THREADS: usize = 4;

/// The scheduler: the fixed pool of fibers and the index of the one that is
/// currently on the CPU. All transfer-of-control decisions are made here; the
/// machine-level switch that carries them out is the caller's affair.
pub struct Runtime {
    threads: Vec<Thread>,
    current: usize,
}

impl Runtime {
    /// The lifecycle state of each fiber, by pool index.
    pub closed spec fn states(&self) -> Seq<State> {
        self.threads@.map(|i: int, t: Thread| t.state)
    }

    /// The caller recorded in each fiber's context, by pool index.
    pub closed spec fn callers(&self) -> Seq<int> {
        self.threads@.map(|i: int, t: Thread| t.ctx.caller as int)
    }

    /// The queued task handle of each fiber, by pool index.
    pub closed spec fn tasks(&self) -> Seq<Option<usize>> {
        self.threads@.map(|i: int, t: Thread| t.task)
    }

    /// The saved stack pointer of each fiber, by pool index.
    pub closed spec fn rsps(&self) -> Seq<u64> {
        self.threads@.map(|i: int, t: Thread| t.ctx.rsp)
    }

    /// The identity of each fiber, by pool index.
    pub closed spec fn ids(&self) -> Seq<int> {
        self.threads@.map(|i: int, t: Thread| t.id as int)
    }

    /// The index of the fiber currently on the CPU.
    pub closed spec fn cur(&self) -> int {
        self.current as int
    }

    /// The pool size.
    pub open spec fn n(&self) -> int {
        self.states().len() as int
    }

    /// Observable equality: same states, callers, task slots, stack pointers,
    /// and current index.
    pub open spec fn same_sched(self, other: Runtime) -> bool {
        &&& self.states() == other.states()
        &&& self.callers() == other.callers()
        &&& self.tasks() == other.tasks()
        &&& self.rsps() == other.rsps()
        &&& self.cur() == other.cur()
    }

    /// The scheduler's core invariant, kept across every operation, including
    /// the completion path on which the finishing fiber is already `Available`:
    /// every per-fiber view has the pool's length;
    /// `current` is in range and no fiber but the current one runs; fiber 0,
    /// the driver, is never recycled; recorded callers stay in range; and each
    /// fiber's identity is its pool index.
    pub open spec fn inv(&self) -> bool {
        &&& 1 <= self.n()
        &&& self.callers().len() == self.n()
        &&& self.tasks().len() == self.n()
        &&& self.rsps().len() == self.n()
        &&& self.ids().len() == self.n()
        &&& 0 <= self.cur() < self.n()
        &&& forall|i: int|
            0 <= i < self.n() && i != self.cur() ==> #[trigger] self.states()[i]
                != State::Running
        &&& self.states()[self.cur()] != State::Ready
        &&& self.states()[0] != State::Available
        &&& forall|i: int| 0 <= i < self.n() ==> 0 <= #[trigger] self.callers()[i] < self.n()
        &&& forall|i: int| 0 <= i < self.n() ==> #[trigger] self.ids()[i] == i
    }

    /// Well-formed between transfers: the invariant, and the fiber at `current`
    /// actually `Running`.
    pub open spec fn wf(&self) -> bool {
        &&& self.inv()
        &&& self.states()[self.cur()] == State::Running
    }

    /// Construct the fixed pool. Fiber 0 stands for the driver's own stack and
    /// is born `Running`; every other fiber is `Available` with a zeroed
    /// context, waiting for a task.
    pub fn new(pool_size: usize) -> (rt: Runtime)
        requires
            1 <= pool_size,
        ensures
            rt.wf(),
            rt.n() == pool_size,
            rt.cur() == 0,
            rt.states()[0] == State::Running,
            forall|i: int| 1 <= i < pool_size ==> rt.states()[i] == State::Available,
            forall|i: int| 0 <= i < pool_size ==> rt.tasks()[i] is None,
            forall|i: int| 0 <= i < pool_size ==> rt.callers()[i] == 0,
            forall|i: int| 0 <= i < pool_size ==> rt.rsps()[i] == 0,
    {
        let mut base = Thread::new(0);
        base.state = State::Running;
        let mut threads: Vec<Thread> = Vec::new();
        threads.push(base);
        let mut i: usize = 1;
        while i < pool_size
            invariant
                1 <= i <= pool_size,
                threads@.len() == i,
                threads@[0].state == State::Running,
                forall|j: int| 1 <= j < i ==> #[trigger] threads@[j].state == State::Available,
                forall|j: int|
                    0 <= j < i ==> (#[trigger] threads@[j]).task is None && threads@[j].ctx.caller
                        == 0 && threads@[j].ctx.rsp == 0 && threads@[j].id == j,
            decreases pool_size - i,
        {
            threads.push(Thread::new_with_caller(i, 0));
            i += 1;
        }
        let rt = Runtime { threads, current: 0 };
        rt
    }

    /// The pool size.
    pub fn pool_size(&self) -> (r: usize)
        ensures
            r == self.n(),
    {
        self.threads.len()
    }

    /// The index of the fiber currently on the CPU.
    pub fn current_fiber(&self) -> (r: usize)
        ensures
            r == self.cur(),
    {
        self.current
    }

    /// The lifecycle state of fiber `i`.
    pub fn fiber_state(&self, i: usize) -> (r: State)
        requires
            i < self.n(),
        ensures
            r == self.states()[i as int],
    {
        self.threads[i].state
    }

    /// The caller recorded in fiber `i`'s context.
    pub fn fiber_caller(&self, i: usize) -> (r: usize)
        requires
            i < self.n(),
        ensures
            r == self.callers()[i as int],
    {
        self.threads[i].ctx.caller
    }

    /// The queued task handle of fiber `i`.
    pub fn fiber_task(&self, i: usize) -> (r: Option<usize>)
        requires
            i < self.n(),
        ensures
            r == self.tasks()[i as int],
    {
        self.threads[i].task
    }

    /// The saved stack pointer of fiber `i`.
    pub fn fiber_rsp(&self, i: usize) -> (r: u64)
        requires
            i < self.n(),
        ensures
            r == self.rsps()[i as int],
    {
        self.threads[i].ctx.rsp
    }

    /// The slot `spawn` would use: the first `Available` fiber, if any.
    pub fn find_available(&self) -> (r: Option<usize>)
        ensures
            match r {
                Some(i) => first_available(self.states()) == Some(i as int),
                None => first_available(self.states()) is None,
            },
    {
        let n = self.threads.len();
        let mut i: usize = 0;
        while i < n
            invariant
                i <= n,
                n == self.n(),
                forall|j: int| 0 <= j < i ==> #[trigger] self.states()[j] != State::Available,
            decreases n - i,
        {
            if self.threads[i].state == State::Available {
                proof {
                    lemma_find_avail_skip(self.states(), 0, i as int);
                }
                return Some(i);
            }
            i += 1;
        }
        proof {
            lemma_find_avail_skip(self.states(), 0, n as int);
        }
        None
    }

    /// Install a task into the first `Available` fiber: record the task handle
    /// and the bootstrapped stack pointer for the first switch into the fiber,
    /// and mark it `Ready`. Fails with `CapacityExhausted`, changing nothing,
    /// when no fiber is `Available`.
    pub fn spawn(&mut self, task: usize, rsp: u64) -> (r: Result<usize, RuntimeError>)
        requires
            old(self).wf(),
        ensures
            final(self).wf(),
            final(self).cur() == old(self).cur(),
            match r {
                Ok(i) => {
                    &&& first_available(old(self).states()) == Some(i as int)
                    &&& 0 <= i < old(self).n()
                    &&& old(self).states()[i as int] == State::Available
                    &&& final(self).states() == old(self).states().update(i as int, State::Ready)
                    &&& final(self).tasks() == old(self).tasks().update(i as int, Some(task))
                    &&& final(self).rsps() == old(self).rsps().update(i as int, rsp)
                    &&& final(self).callers() == old(self).callers()
                },
                Err(e) => {
                    &&& e == RuntimeError::CapacityExhausted
                    &&& first_available(old(self).states()) is None
                    &&& final(self).same_sched(*old(self))
                },
            },
    {
        match self.find_available() {
            Some(i) => {
                proof {
                    crate::scan::lemma_find_avail_some(self.states(), 0, i as int);
                }
                let mut t = self.threads[i];
                t.task = Some(task);
                t.ctx.rsp = rsp;
                t.state = State::Ready;
                self.threads[i] = t;
                proof {
                    assert(self.states() =~= old(self).states().update(i as int, State::Ready));
                    assert(self.tasks() =~= old(self).tasks().update(i as int, Some(task)));
                    assert(self.rsps() =~= old(self).rsps().update(i as int, rsp));
                    assert(self.callers() =~= old(self).callers());
                    assert(self.ids() =~= old(self).ids());
                }
                Ok(i)
            },
            None => Err(RuntimeError::CapacityExhausted),
        }
    }

    /// Symmetric transfer: scan for the next `Ready` fiber after `current`,
    /// wrapping around the pool. If none exists, report `false` and change
    /// nothing: the pool is idle. Otherwise mark the yielding fiber `Ready`
    /// (unless it has completed and is already `Available`), mark the selected
    /// fiber `Running`, and move `current` to it; the caller then performs the
    /// machine context switch between the two fibers.
    pub fn t_yield(&mut self) -> (r: bool)
        requires
            old(self).inv(),
        ensures
            final(self).inv(),
            r == has_ready(old(self).states(), old(self).cur()),
            !r ==> final(self).same_sched(*old(self)),
            r ==> ({
                let d = ready_dist(old(self).states(), old(self).cur())->Some_0;
                let p = slot(old(self).n(), old(self).cur(), d);
                &&& final(self).cur() == p
                &&& final(self).states() == (if old(self).states()[old(self).cur()]
                    == State::Available {
                    old(self).states().update(p, State::Running)
                } else {
                    old(self).states().update(old(self).cur(), State::Ready).update(
                        p,
                        State::Running,
                    )
                })
                &&& final(self).callers() == old(self).callers()
                &&& final(self).tasks() == old(self).tasks()
                &&& final(self).rsps() == old(self).rsps()
                &&& final(self).wf()
            }),
    {
        let n = self.threads.len();
        let mut pos = self.current;
        let ghost s = self.states();
        let ghost c = self.cur();
        let ghost mut d: int = 0;
        while self.threads[pos].state != State::Ready
            invariant
                self == old(self),
                self.inv(),
                n == s.len(),
                s == self.states(),
                c == self.cur(),
                0 <= c < n,
                s[c] != State::Ready,
                0 <= d < n,
                pos == slot(n as int, c, d),
                0 <= pos < n,
                forall|e: int| 1 <= e < d ==> s[slot(n as int, c, e)] != State::Ready,
            decreases n - d,
        {
            pos += 1;
            if pos == n {
                pos = 0;
            }
            if pos == self.current {
                proof {
                    lemma_find_dist_skip(s, c, 1, n as int);
                }
                return false;
            }
            proof {
                d = d + 1;
            }
        }
        proof {
            assert(d >= 1);
            lemma_find_dist_skip(s, c, 1, d);
            assert(ready_dist(s, c) == Some(d));
        }
        if self.threads[self.current].state != State::Available {
            let mut t = self.threads[self.current];
            t.state = State::Ready;
            self.threads[self.current] = t;
        }
        let mut t2 = self.threads[pos];
        t2.state = State::Running;
        self.threads[pos] = t2;
        self.current = pos;
        proof {
            if s[c] == State::Available {
                assert(self.states() =~= s.update(pos as int, State::Running));
            } else {
                assert(self.states() =~= s.update(c, State::Ready).update(
                    pos as int,
                    State::Running,
                ));
            }
            assert(self.callers() =~= old(self).callers());
            assert(self.tasks() =~= old(self).tasks());
            assert(self.rsps() =~= old(self).rsps());
            assert(self.ids() =~= old(self).ids());
        }
        true
    }

    /// Completion path, taken when the current fiber's task has returned:
    /// recycle the fiber as `Available`, clear its task slot, and hand control
    /// to the next `Ready` fiber — the driver, fiber 0, is never `Available`,
    /// so a `Ready` fiber always exists and the hand-off always happens. The
    /// driver itself never completes this way; for it the call changes nothing.
    pub fn t_return(&mut self)
        requires
            old(self).wf(),
        ensures
            final(self).inv(),
            old(self).cur() == 0 ==> final(self).same_sched(*old(self)),
            old(self).cur() != 0 ==> ({
                let s1 = old(self).states().update(old(self).cur(), State::Available);
                let d = ready_dist(s1, old(self).cur())->Some_0;
                let p = slot(old(self).n(), old(self).cur(), d);
                &&& has_ready(s1, old(self).cur())
                &&& final(self).cur() == p
                &&& final(self).states() == s1.update(p, State::Running)
                &&& final(self).states()[old(self).cur()] == State::Available
                &&& final(self).tasks() == old(self).tasks().update(old(self).cur(), None::<usize>)
                &&& final(self).callers() == old(self).callers()
                &&& final(self).rsps() == old(self).rsps()
                &&& final(self).wf()
            }),
    {
        if self.current != 0 {
            let c = self.current;
            let mut t = self.threads[c];
            t.state = State::Available;
            t.task = None;
            self.threads[c] = t;
            proof {
                assert(self.states() =~= old(self).states().update(c as int, State::Available));
                assert(self.tasks() =~= old(self).tasks().update(c as int, None::<usize>));
                assert(self.callers() =~= old(self).callers());
                assert(self.rsps() =~= old(self).rsps());
                assert(self.ids() =~= old(self).ids());
                // Fiber 0 is Ready here, so the scan cannot fail.
                assert(self.states()[0] == State::Ready);
                if ready_dist(self.states(), self.cur()) is None {
                    lemma_find_dist_none(self.states(), self.cur(), 1);
                    assert(self.states()[slot(self.n(), self.cur(), self.n() - self.cur())]
                        == State::Ready);
                    assert(false);
                }
            }
            let ghost s1 = self.states();
            let r = self.t_yield();
            proof {
                assert(r);
                let d = ready_dist(s1, c as int)->Some_0;
                crate::scan::lemma_find_dist_some(s1, c as int, 1, d);
                assert(slot(s1.len() as int, c as int, d) != c as int);
            }
        }
    }

    /// Asymmetric transfer into a specific fiber: `callee` must denote a
    /// `Ready` fiber. Records the invoking fiber in the callee's context, marks
    /// the invoker `Ready` and the callee `Running`, and moves `current` to the
    /// callee; the caller then performs the machine switch. Reports `false`
    /// and changes nothing when `callee` is out of range or not `Ready`: no
    /// partial transfer is possible.
    pub fn t_call(&mut self, callee: usize) -> (r: bool)
        requires
            old(self).wf(),
        ensures
            final(self).inv(),
            r == (callee < old(self).n() && old(self).states()[callee as int] == State::Ready),
            !r ==> final(self).same_sched(*old(self)),
            r ==> ({
                &&& final(self).cur() == callee
                &&& final(self).states() == old(self).states().update(
                    old(self).cur(),
                    State::Ready,
                ).update(callee as int, State::Running)
                &&& final(self).callers() == old(self).callers().update(
                    callee as int,
                    old(self).cur(),
                )
                &&& final(self).tasks() == old(self).tasks()
                &&& final(self).rsps() == old(self).rsps()
                &&& final(self).wf()
            }),
    {
        if callee >= self.threads.len() || self.threads[callee].state != State::Ready {
            return false;
        }
        let mut tc = self.threads[callee];
        tc.ctx.caller = self.current;
        tc.state = State::Running;
        self.threads[callee] = tc;
        if self.threads[self.current].state != State::Available {
            let mut t = self.threads[self.current];
            t.state = State::Ready;
            self.threads[self.current] = t;
        }
        self.current = callee;
        proof {
            assert(self.states() =~= old(self).states().update(
                old(self).cur(),
                State::Ready,
            ).update(callee as int, State::Running));
            assert(self.callers() =~= old(self).callers().update(callee as int, old(self).cur()));
            assert(self.tasks() =~= old(self).tasks());
            assert(self.rsps() =~= old(self).rsps());
            assert(self.ids() =~= old(self).ids());
        }
        true
    }

    /// Asymmetric return: transfer only to the fiber recorded as this one's
    /// caller, enforcing the nested call/return discipline. Reports `false`
    /// and changes nothing when that fiber is not `Ready`, or when the recorded
    /// caller is the current fiber itself (the self-call guard).
    pub fn t_yield_to_caller(&mut self) -> (r: bool)
        requires
            old(self).wf(),
        ensures
            final(self).inv(),
            ({
                let cl = old(self).callers()[old(self).cur()];
                &&& r == (cl != old(self).cur() && old(self).states()[cl] == State::Ready)
                &&& !r ==> final(self).same_sched(*old(self))
                &&& r ==> {
                    &&& final(self).cur() == cl
                    &&& final(self).states() == old(self).states().update(
                        old(self).cur(),
                        State::Ready,
                    ).update(cl, State::Running)
                    &&& final(self).callers() == old(self).callers()
                    &&& final(self).tasks() == old(self).tasks()
                    &&& final(self).rsps() == old(self).rsps()
                    &&& final(self).wf()
                }
            }),
    {
        let caller = self.threads[self.current].ctx.caller;
        if caller == self.current {
            return false;
        }
        if self.threads[caller].state != State::Ready {
            return false;
        }
        if self.threads[self.current].state != State::Available {
            let mut t = self.threads[self.current];
            t.state = State::Ready;
            self.threads[self.current] = t;
        }
        let mut t2 = self.threads[caller];
        t2.state = State::Running;
        self.threads[caller] = t2;
        self.current = caller;
        proof {
            assert(self.states() =~= old(self).states().update(
                old(self).cur(),
                State::Ready,
            ).update(old(self).callers()[old(self).cur()], State::Running));
            assert(self.callers() =~= old(self).callers());
            assert(self.tasks() =~= old(self).tasks());
            assert(self.rsps() =~= old(self).rsps());
            assert(self.ids() =~= old(self).ids());
        }
        true
    }

    /// Consume the current fiber's queued task: hand the handle out and clear
    /// the slot, so that one `spawn` leads to at most one invocation and a
    /// later completion of the same physical fiber cannot find the old task.
    pub fn take_task(&mut self) -> (t: Option<usize>)
        requires
            old(self).inv(),
        ensures
            final(self).inv(),
            t == old(self).tasks()[old(self).cur()],
            final(self).tasks() == old(self).tasks().update(old(self).cur(), None::<usize>),
            final(self).states() == old(self).states(),
            final(self).callers() == old(self).callers(),
            final(self).rsps() == old(self).rsps(),
            final(self).cur() == old(self).cur(),
    {
        let c = self.current;
        let mut t = self.threads[c];
        let task = t.task;
        t.task = None;
        self.threads[c] = t;
        proof {
            assert(self.tasks() =~= old(self).tasks().update(c as int, None::<usize>));
            assert(self.states() =~= old(self).states());
            assert(self.callers() =~= old(self).callers());
            assert(self.rsps() =~= old(self).rsps());
            assert(self.ids() =~= old(self).ids());
        }
        task
    }
}

/// The demonstration session of the symmetric scheduler, played out on the
/// decision core: build the default pool, spawn two tasks that each yield once
/// and return, and drive the resulting transfers to exhaustion. The returned
/// state shows the whole lifecycle: both fibers ran, completed, and were
/// recycled, so only the driver remains and the pool reports idle.
pub fn run() -> (rt: Runtime)
    ensures
        rt.wf(),
        rt.n() == MAX_THREADS,
        rt.cur() == 0,
        rt.states()[0] == State::Running,
        forall|i: int| 1 <= i < rt.n() ==> rt.states()[i] == State::Available,
        forall|i: int| 0 <= i < rt.n() ==> rt.tasks()[i] is None,
        !has_ready(rt.states(), rt.cur()),
{
    let mut rt = Runtime::new(MAX_THREADS);
    proof {
        reveal_with_fuel(find_avail_from, 5);
        reveal_with_fuel(crate::scan::find_dist, 5);
        assert(rt.states() =~= seq![
            State::Running,
            State::Available,
            State::Available,
            State::Available,
        ]);
        assert(rt.tasks() =~= seq![None::<usize>, None, None, None]);
    }
    // The two tasks go to the first two free fibers.
    let r1 = rt.spawn(1, 0);
    proof {
        reveal_with_fuel(find_avail_from, 5);
        reveal_with_fuel(crate::scan::find_dist, 5);
        assert(r1 == Ok::<usize, RuntimeError>(1));
        assert(rt.states() =~= seq![
            State::Running,
            State::Ready,
            State::Available,
            State::Available,
        ]);
    }
    let r2 = rt.spawn(2, 0);
    proof {
        reveal_with_fuel(find_avail_from, 5);
        reveal_with_fuel(crate::scan::find_dist, 5);
        assert(r2 == Ok::<usize, RuntimeError>(2));
        assert(rt.states() =~= seq![State::Running, State::Ready, State::Ready, State::Available]);
    }
    // The driver yields into fiber 1.
    let y1 = rt.t_yield();
    proof {
        reveal_with_fuel(crate::scan::find_dist, 5);
        assert(y1);
        assert(rt.states() =~= seq![State::Ready, State::Running, State::Ready, State::Available]);
        assert(rt.cur() == 1);
    }
    // Fiber 1's task yields, into fiber 2.
    let y2 = rt.t_yield();
    proof {
        reveal_with_fuel(crate::scan::find_dist, 5);
        assert(y2);
        assert(rt.states() =~= seq![State::Ready, State::Ready, State::Running, State::Available]);
        assert(rt.cur() == 2);
    }
    // Fiber 2's task yields; the scan wraps past the free slot to the driver.
    let y3 = rt.t_yield();
    proof {
        reveal_with_fuel(crate::scan::find_dist, 5);
        assert(y3);
        assert(rt.states() =~= seq![State::Running, State::Ready, State::Ready, State::Available]);
        assert(rt.cur() == 0);
    }
    // The driver yields again, resuming fiber 1.
    let y4 = rt.t_yield();
    proof {
        reveal_with_fuel(crate::scan::find_dist, 5);
        assert(y4);
        assert(rt.states() =~= seq![State::Ready, State::Running, State::Ready, State::Available]);
        assert(rt.cur() == 1);
    }
    // Fiber 1's task returns: the fiber is recycled and control passes on.
    rt.t_return();
    proof {
        reveal_with_fuel(crate::scan::find_dist, 5);
        assert(rt.states() =~= seq![
            State::Ready,
            State::Available,
            State::Running,
            State::Available,
        ]);
        assert(rt.cur() == 2);
    }
    // Fiber 2's task returns: only the driver is Ready, and it resumes.
    rt.t_return();
    proof {
        reveal_with_fuel(crate::scan::find_dist, 5);
        assert(rt.states() =~= seq![
            State::Running,
            State::Available,
            State::Available,
            State::Available,
        ]);
        assert(rt.cur() == 0);
        assert(rt.tasks() =~= seq![None::<usize>, None, None, None]);
    }
    // The pool is idle: the driver's loop would now terminate.
    let y5 = rt.t_yield();
    proof {
        reveal_with_fuel(crate::scan::find_dist, 5);
        assert(!y5);
    }
    rt
}

/// How many fibers of the pool are `Running`.
pub open spec fn running_count(s: Seq<State>) -> int
    decreases s.len(),
{
    if s.len() == 0 {
        0
    } else {
        running_count(s.drop_last()) + if s.last() == State::Running {
            1int
        } else {
            0int
        }
    }
}

proof fn lemma_running_count_none(s: Seq<State>)
    requires
        forall|i: int| 0 <= i < s.len() ==> s[i] != State::Running,
    ensures
        running_count(s) == 0,
    decreases s.len(),
{
    if s.len() > 0 {
        lemma_running_count_none(s.drop_last());
    }
}

proof fn lemma_running_count_single(s: Seq<State>, c: int)
    requires
        0 <= c < s.len(),
        s[c] == State::Running,
        forall|i: int| 0 <= i < s.len() && i != c ==> s[i] != State::Running,
    ensures
        running_count(s) == 1,
    decreases s.len(),
{
    if c == s.len() - 1 {
        lemma_running_count_none(s.drop_last());
    } else {
        lemma_running_count_single(s.drop_last(), c);
    }
}

/// Exactly one fiber runs: in every well-formed scheduler state, the number of
/// fibers in state `Running` is exactly one — the fiber at `current`.
pub proof fn lemma_exactly_one_running(rt: Runtime)
    requires
        rt.wf(),
    ensures
        running_count(rt.states()) == 1,
{
    lemma_running_count_single(rt.states(), rt.cur());
}

/// Idle is idempotent: a yield that finds nothing runnable leaves the pool
/// unchanged (by `t_yield`'s contract), and on the unchanged pool the scan
/// again finds nothing runnable — so once `t_yield` reports idle, every later
/// call reports idle too and the pool stays fixed.
pub proof fn lemma_idle_idempotent(before: Runtime, after: Runtime)
    requires
        !has_ready(before.states(), before.cur()),
        after.same_sched(before),
    ensures
        !has_ready(after.states(), after.cur()),
{
}

} // verus!
