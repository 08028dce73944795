use fibers::stack::{bootstrap_stack, write_u64_le, DEFAULT_STACK_SIZE, MIN_STACK_SIZE};
use fibers::thread::{State, Thread, ThreadContext};

#[test]
fn write_u64_le_writes_exact_bytes() {
    let mut buf = vec![0xEEu8; 16];
    write_u64_le(&mut buf, 4, 0x1122_3344_5566_7788);
    assert_eq!(buf.len(), 16);
    assert_eq!(&buf[0..4], &[0xEE, 0xEE, 0xEE, 0xEE]);
    assert_eq!(&buf[4..12], &[0x88, 0x77, 0x66, 0x55, 0x44, 0x33, 0x22, 0x11]);
    assert_eq!(&buf[12..16], &[0xEE, 0xEE, 0xEE, 0xEE]);
}

#[test]
fn bootstrap_plants_entry_and_trampoline() {
    // Base 1000, length 64: the top is 1064, the aligned top 1056, and the
    // returned stack pointer 1040 — the entry word, with the trampoline just
    // above it, so the first pop starts the entry and its return falls into
    // the trampoline.
    let mut stack = vec![0u8; 64];
    let entry: u64 = 0x1122_3344_5566_7788;
    let tramp: u64 = 0xAABB_CCDD_EEFF_0011;
    let rsp = bootstrap_stack(&mut stack, 1000, tramp, entry);
    assert_eq!(rsp, 1040);
    assert_eq!(rsp % 16, 0);
    assert_eq!(stack.len(), 64);
    let off = (rsp - 1000) as usize;
    assert_eq!(off, 40);
    assert_eq!(
        &stack[off..off + 8],
        &[0x88, 0x77, 0x66, 0x55, 0x44, 0x33, 0x22, 0x11]
    );
    assert_eq!(
        &stack[off + 8..off + 16],
        &[0x11, 0x00, 0xFF, 0xEE, 0xDD, 0xCC, 0xBB, 0xAA]
    );
    // Everything below the planted words is untouched.
    for j in 0..off {
        assert_eq!(stack[j], 0);
    }
}

#[test]
fn bootstrap_aligns_any_base() {
    // Whatever the buffer's address, the stack pointer lands 16-byte aligned
    // and the planted words stay inside the buffer.
    for base in 990..=1010u64 {
        let mut stack = vec![0u8; MIN_STACK_SIZE];
        let rsp = bootstrap_stack(&mut stack, base, 2, 1);
        assert_eq!(rsp % 16, 0);
        assert!(rsp >= base);
        assert!(rsp + 16 <= base + stack.len() as u64);
    }
}

#[test]
fn default_stack_size_is_megabyte_class() {
    assert_eq!(DEFAULT_STACK_SIZE, 2 * 1024 * 1024);
    assert!(DEFAULT_STACK_SIZE >= MIN_STACK_SIZE);
}

#[test]
fn thread_constructors_initialize_fields() {
    let t = Thread::new(3);
    assert_eq!(t.id, 3);
    assert_eq!(t.state, State::Available);
    assert_eq!(t.task, None);
    assert_eq!(t.ctx.rsp, 0);
    assert_eq!(t.ctx.caller, 0);
    let regs = [t.ctx.r15, t.ctx.r14, t.ctx.r13, t.ctx.r12, t.ctx.rbx, t.ctx.rbp];
    assert_eq!(regs, [0; 6]);
    let u = Thread::new_with_caller(2, 1);
    assert_eq!(u.id, 2);
    assert_eq!(u.ctx.caller, 1);
    assert_eq!(u.state, State::Available);
    let uregs = [u.ctx.r15, u.ctx.r14, u.ctx.r13, u.ctx.r12, u.ctx.rbx, u.ctx.rbp];
    assert_eq!(uregs, [0; 6]);
    let c = ThreadContext::new();
    assert_eq!(c.rsp, 0);
    assert_eq!(c.r15, 0);
    assert_eq!(c.r14, 0);
    assert_eq!(c.r13, 0);
    assert_eq!(c.r12, 0);
    assert_eq!(c.rbx, 0);
    assert_eq!(c.rbp, 0);
}
