use fibers::runtime::{run, Runtime, MAX_THREADS};
use fibers::thread::{RuntimeError, State};

#[test]
fn new_pool_initial_state() {
    let rt = Runtime::new(4);
    assert_eq!(rt.pool_size(), 4);
    assert_eq!(rt.current_fiber(), 0);
    assert_eq!(rt.fiber_state(0), State::Running);
    for i in 1..4 {
        assert_eq!(rt.fiber_state(i), State::Available);
    }
    for i in 0..4 {
        assert_eq!(rt.fiber_task(i), None);
        assert_eq!(rt.fiber_caller(i), 0);
        assert_eq!(rt.fiber_rsp(i), 0);
    }
}

#[test]
fn spawn_marks_first_available_ready() {
    let mut rt = Runtime::new(4);
    let r = rt.spawn(7, 4096);
    assert_eq!(r, Ok(1));
    assert_eq!(rt.fiber_state(1), State::Ready);
    assert_eq!(rt.fiber_task(1), Some(7));
    assert_eq!(rt.fiber_rsp(1), 4096);
    assert_eq!(rt.current_fiber(), 0);
    let r2 = rt.spawn(8, 8192);
    assert_eq!(r2, Ok(2));
}

#[test]
fn spawn_capacity_exhausted() {
    // Pool of two: the driver plus one task fiber. The second spawn must fail
    // with a capacity error and must not overwrite the first task.
    let mut rt = Runtime::new(2);
    let first = rt.spawn(41, 100);
    assert_eq!(first, Ok(1));
    let second = rt.spawn(42, 200);
    assert_eq!(second, Err(RuntimeError::CapacityExhausted));
    assert_eq!(rt.fiber_task(1), Some(41));
    assert_eq!(rt.fiber_rsp(1), 100);
    assert_eq!(rt.fiber_state(1), State::Ready);
    assert_eq!(rt.current_fiber(), 0);
}

#[test]
fn yield_interleaves_two_counters() {
    // Pool of four; task A counts to 10, task B to 15, each yielding every
    // iteration. The transfers must interleave the counters 1:1 until A
    // exhausts, then run B's remaining 5 iterations alone, then go idle.
    let mut rt = Runtime::new(4);
    assert_eq!(rt.spawn(101, 0), Ok(1));
    assert_eq!(rt.spawn(102, 0), Ok(2));

    let mut a = 0u32;
    let mut b = 0u32;
    let mut started = [false; 4];
    let mut order: Vec<usize> = Vec::new();
    loop {
        // The driver yields into the pool; when nothing is runnable its loop ends.
        if !rt.t_yield() {
            break;
        }
        // Play the fibers' own turns until control is back at the driver.
        while rt.current_fiber() != 0 {
            let c = rt.current_fiber();
            if !started[c] {
                started[c] = true;
                let t = rt.take_task();
                assert_eq!(t, Some(100 + c));
            }
            if c == 1 {
                a += 1;
                order.push(1);
                if a == 10 {
                    rt.t_return();
                } else {
                    assert!(rt.t_yield());
                }
            } else if c == 2 {
                b += 1;
                order.push(2);
                if b == 15 {
                    rt.t_return();
                } else {
                    assert!(rt.t_yield());
                }
            } else {
                panic!("fiber {} should never run", c);
            }
        }
    }
    assert_eq!(a, 10);
    assert_eq!(b, 15);
    let mut expected: Vec<usize> = Vec::new();
    for _ in 0..10 {
        expected.push(1);
        expected.push(2);
    }
    for _ in 0..5 {
        expected.push(2);
    }
    assert_eq!(order, expected);
    // Both fibers completed and were recycled; their task slots are cleared.
    assert_eq!(rt.current_fiber(), 0);
    assert_eq!(rt.fiber_state(0), State::Running);
    for i in 1..4 {
        assert_eq!(rt.fiber_state(i), State::Available);
        assert_eq!(rt.fiber_task(i), None);
    }
}

#[test]
fn idle_yield_is_idempotent() {
    // Once yield reports nothing runnable, further yields keep reporting it
    // and the pool does not change.
    let mut rt = Runtime::new(3);
    assert!(!rt.t_yield());
    for _ in 0..3 {
        assert!(!rt.t_yield());
        assert_eq!(rt.current_fiber(), 0);
        assert_eq!(rt.fiber_state(0), State::Running);
        assert_eq!(rt.fiber_state(1), State::Available);
        assert_eq!(rt.fiber_state(2), State::Available);
    }
}

#[test]
fn completion_recycles_fiber_for_reuse() {
    // A completed fiber reaches Available with its task slot cleared, and only
    // then may a later spawn reuse it; the old task cannot be found again.
    let mut rt = Runtime::new(2);
    assert_eq!(rt.spawn(5, 0), Ok(1));
    assert!(rt.t_yield());
    assert_eq!(rt.current_fiber(), 1);
    assert_eq!(rt.take_task(), Some(5));
    rt.t_return();
    assert_eq!(rt.current_fiber(), 0);
    assert_eq!(rt.fiber_state(1), State::Available);
    assert_eq!(rt.fiber_task(1), None);
    // Reuse: the recycled slot takes the new task, and taking it yields the
    // new handle, never the old one.
    assert_eq!(rt.spawn(6, 0), Ok(1));
    assert!(rt.t_yield());
    assert_eq!(rt.current_fiber(), 1);
    assert_eq!(rt.take_task(), Some(6));
    assert_eq!(rt.take_task(), None);
    rt.t_return();
}

#[test]
fn round_robin_visits_all_before_repeat() {
    // Three Ready fibers: one round of yields selects each exactly once, in
    // cyclic order, before any fiber comes up again.
    let mut rt = Runtime::new(5);
    assert_eq!(rt.spawn(11, 0), Ok(1));
    assert_eq!(rt.spawn(12, 0), Ok(2));
    assert_eq!(rt.spawn(13, 0), Ok(3));
    let mut visits: Vec<usize> = Vec::new();
    for _ in 0..8 {
        assert!(rt.t_yield());
        visits.push(rt.current_fiber());
    }
    assert_eq!(visits, vec![1, 2, 3, 0, 1, 2, 3, 0]);
}

#[test]
fn run_demo_drives_pool_to_exhaustion() {
    let mut rt = run();
    assert_eq!(rt.pool_size(), MAX_THREADS);
    assert_eq!(rt.current_fiber(), 0);
    assert_eq!(rt.fiber_state(0), State::Running);
    for i in 1..MAX_THREADS {
        assert_eq!(rt.fiber_state(i), State::Available);
        assert_eq!(rt.fiber_task(i), None);
    }
    assert!(!rt.t_yield());
}
