use vstd::prelude::*;

verus! {

/// Default byte size of one fiber stack: megabyte-class, so that the planted
/// bootstrap words and the frames of any task entry sit far from the buffer's
/// low end and an overrun is practically unreachable.
pub const DEFAULT_STACK_SIZE: usize = 1024 * 1024 * 2;

/// The least room the bootstrapper itself needs: the alignment gap below the
/// buffer's top (at most 15 bytes) plus the two planted 8-byte words.
pub const MIN_STACK_SIZE: usize = 32;

/// `x` rounded down to a multiple of 16, the stack alignment the 64-bit
/// calling convention demands.
pub open spec fn align16(x: int) -> int {
    x - x % 16
}

/// Byte `k` of the little-endian encoding of `v`.
pub open spec fn le_byte(v: u64, k: u64) -> u8 {
    (v >> (8 * k)) as u8
}

/// Store `v` little-endian into `stack` at `pos..pos + 8`, leaving every other
/// byte as it was.
pub fn write_u64_le(stack: &mut Vec<u8>, pos: usize, v: u64)
    requires
        pos + 8 <= old(stack).len(),
    ensures
        final(stack).len() == old(stack).len(),
        forall|k: int| 0 <= k < 8 ==> #[trigger] final(stack)@[pos + k] == le_byte(v, k as u64),
        forall|j: int|
            0 <= j < old(stack).len() && !(pos <= j < pos + 8) ==> final(stack)@[j] == old(
                stack,
            )@[j],
{
    let mut k: usize = 0;
    while k < 8
        invariant
            pos + 8 <= stack.len(),
            stack.len() == old(stack).len(),
            k <= 8,
            forall|t: int| 0 <= t < k ==> #[trigger] stack@[pos + t] == le_byte(v, t as u64),
            forall|j: int|
                0 <= j < old(stack).len() && !(pos <= j < pos + 8) ==> stack@[j] == old(
                    stack,
                )@[j],
        decreases 8 - k,
    {
        let sh: u64 = 8 * (k as u64);
        let b: u8 = #[verifier::truncate] ((v >> sh) as u8);
        stack[pos + k] = b;
        k += 1;
    }
}

/// The stack-bootstrap protocol: prepare a fiber's virgin stack so that the
/// first switch into it begins executing the task entry, and the entry's own
/// return falls through into the completion trampoline rather than undefined
/// memory.
///
/// `base` is the address of the buffer's first byte. At the high end of the
/// buffer (stacks grow downward), rounded down to the 16-byte alignment the
/// calling convention demands, the routine plants two words: the task `entry`
/// at the returned stack-pointer value and the `trampoline` address just
/// above it, in exactly the order a `ret`-style transfer expects — the first
/// pop starts the entry, the next one catches its return. Every register slot
/// of the context other than the stack pointer stays zero; none is read before
/// a switch-out writes it.
pub fn bootstrap_stack(stack: &mut Vec<u8>, base: u64, trampoline: u64, entry: u64) -> (rsp: u64)
    requires
        old(stack).len() >= MIN_STACK_SIZE,
        base + old(stack).len() <= u64::MAX,
    ensures
        final(stack).len() == old(stack).len(),
        rsp as int == align16(base + old(stack).len()) - 16,
        rsp % 16 == 0,
        base <= rsp,
        rsp + 16 <= base + old(stack).len(),
        forall|k: int| 0 <= k < 8 ==> #[trigger] final(stack)@[rsp - base + k] == le_byte(entry, k as u64),
        forall|k: int|
            0 <= k < 8 ==> #[trigger] final(stack)@[rsp - base + 8 + k] == le_byte(trampoline, k as u64),
        forall|j: int| 0 <= j < rsp - base ==> final(stack)@[j] == old(stack)@[j],
{
    let len = stack.len();
    let top: u64 = base + len as u64;
    let aligned: u64 = top & !15;
    proof {
        assert(aligned == top - top % 16 && aligned % 16 == 0 && top - 15 <= aligned <= top) by (bit_vector)
            requires
                aligned == top & !15,
        ;
    }
    let rsp = aligned - 16;
    let off = (rsp - base) as usize;
    write_u64_le(stack, off, entry);
    write_u64_le(stack, off + 8, trampoline);
    rsp
}

} // verus!
