//! Memory layout of a task allocation.
//!
//! A task is one heap block holding, in order, its header, its future, the
//! future's output and its scheduler. This module computes where each part
//! starts, with the rules of a C-like record: each field at the first offset
//! past the previous one that is a multiple of the field's alignment, the
//! record aligned to the largest alignment, no trailing padding.
use vstd::prelude::*;
use vstd::arithmetic::power2::{pow2, lemma_pow2_adds, lemma_pow2_strictly_increases, lemma_pow2_pos};
use vstd::arithmetic::div_mod::{lemma_fundamental_div_mod, lemma_mod_multiples_basic};
use vstd::arithmetic::mul::lemma_mul_is_commutative;

verus! {

/// Whether `n` is a power of two.
pub open spec fn is_power_of_two(n: nat) -> bool {
    exists|k: nat| pow2(k) == n
}

/// The smallest multiple of `align` that is at least `size`.
pub open spec fn padded(size: int, align: int) -> int {
    if size % align == 0 {
        size
    } else {
        size + (align - size % align)
    }
}

/// Whether a block of `size` bytes can be rounded up to `align` without
/// passing `isize::MAX`.
pub open spec fn fits(size: int, align: int) -> bool {
    size + align - 1 <= isize::MAX
}

/// The larger of two alignments.
pub open spec fn max_align(a: usize, b: usize) -> usize {
    if a >= b {
        a
    } else {
        b
    }
}

/// `a` followed by `b`: the record's layout and the offset of `b`, or `None`
/// when the record would not fit.
pub open spec fn extended(a: MemLayout, b: MemLayout) -> Option<(MemLayout, usize)> {
    let off: int = padded(a.size as int, b.align as int);
    let size: int = off + b.size;
    let align: usize = max_align(a.align, b.align);
    if fits(size, align as int) {
        Some((MemLayout { size: size as usize, align }, off as usize))
    } else {
        None
    }
}

/// The layout of a task holding a header, a future, an output and a
/// scheduler with the given layouts, and where each part past the header
/// starts.
pub open spec fn task_layout_of(
    header: MemLayout,
    future: MemLayout,
    output: MemLayout,
    scheduler: MemLayout,
) -> Option<(MemLayout, RawTaskOffsets)> {
    match extended(header, future) {
        None => None,
        Some((l1, f)) => match extended(l1, output) {
            None => None,
            Some((l2, o)) => match extended(l2, scheduler) {
                None => None,
                Some((l3, s)) => Some((l3, RawTaskOffsets { future: f, output: o, scheduler: s })),
            },
        },
    }
}

/// The size and alignment of a block of memory.
#[derive(Clone, Copy, Debug, PartialEq, Eq, Structural)]
pub struct MemLayout {
    pub size: usize,
    pub align: usize,
}

impl MemLayout {
    /// A layout as the standard allocator accepts it: a power-of-two
    /// alignment, and a size that rounded up to it stays within `isize::MAX`.
    pub open spec fn valid(self) -> bool {
        &&& is_power_of_two(self.align as nat)
        &&& fits(self.size as int, self.align as int)
    }

    /// The layout of `self` followed by `next`, with the padding that aligns
    /// `next` and no trailing padding, and the offset at which `next` starts.
    /// `None` when the record would not be a valid layout.
    pub fn extend(self, next: MemLayout) -> (r: Option<(MemLayout, usize)>)
        requires
            self.valid(),
            next.valid(),
        ensures
            r == extended(self, next),
            r is Some <==> fits(
                padded(self.size as int, next.align as int) + next.size,
                max_align(self.align, next.align) as int,
            ),
            r matches Some((l, off)) ==> {
                &&& off == padded(self.size as int, next.align as int)
                &&& l.size == off + next.size
                &&& l.align == max_align(self.align, next.align)
                &&& l.valid()
            },
    {
        proof {
            lemma_power_of_two_positive(next.align as nat);
            lemma_padded(self.size as int, next.align as int);
        }
        let rem: usize = self.size % next.align;
        let offset: usize = if rem == 0 {
            self.size
        } else {
            self.size + (next.align - rem)
        };
        let new_align: usize = if self.align >= next.align {
            self.align
        } else {
            next.align
        };
        if offset > isize::MAX as usize {
            return None;
        }
        let limit: usize = isize::MAX as usize - offset;
        if next.size > limit {
            return None;
        }
        let new_size: usize = offset + next.size;
        if new_size > isize::MAX as usize - (new_align - 1) {
            return None;
        }
        Some((MemLayout { size: new_size, align: new_align }, offset))
    }
}

/// The layout of a task allocation: its header at offset 0, then its
/// future, its output and its scheduler, each at the first offset past the
/// previous part that is a multiple of its alignment; `None` when the block
/// would not be a valid layout.
pub fn raw_task_layout(
    header: MemLayout,
    future: MemLayout,
    output: MemLayout,
    scheduler: MemLayout,
) -> (r: Option<(MemLayout, RawTaskOffsets)>)
    requires
        header.valid(),
        future.valid(),
        output.valid(),
        scheduler.valid(),
    ensures
        r == task_layout_of(header, future, output, scheduler),
        r matches Some((l, offs)) ==> {
            &&& l.valid()
            &&& header.size <= offs.future
            &&& offs.future + future.size <= offs.output
            &&& offs.output + output.size <= offs.scheduler
            &&& offs.scheduler + scheduler.size == l.size
            &&& offs.future % future.align == 0
            &&& offs.output % output.align == 0
            &&& offs.scheduler % scheduler.align == 0
            &&& l.align % header.align == 0
            &&& l.align % future.align == 0
            &&& l.align % output.align == 0
            &&& l.align % scheduler.align == 0
        },
        ({
            let fo = padded(header.size as int, future.align as int);
            let oo = padded(fo + future.size, output.align as int);
            let so = padded(oo + output.size, scheduler.align as int);
            let al = max_align(
                max_align(max_align(header.align, future.align), output.align),
                scheduler.align,
            );
            &&& r is Some <==> fits(so + scheduler.size, al as int)
            &&& r matches Some((l, offs)) ==> {
                &&& offs.future == fo
                &&& offs.output == oo
                &&& offs.scheduler == so
                &&& l.size == so + scheduler.size
                &&& l.align == al
            }
        }),
{
    proof {
        law_task_layout_fits(header, future, output, scheduler);
        lemma_power_of_two_positive(header.align as nat);
        lemma_power_of_two_positive(future.align as nat);
        lemma_power_of_two_positive(output.align as nat);
        lemma_power_of_two_positive(scheduler.align as nat);
        lemma_padded(header.size as int, future.align as int);
    }
    let (l1, f) = match header.extend(future) {
        None => return None,
        Some(p) => p,
    };
    proof {
        lemma_padded(l1.size as int, output.align as int);
    }
    let (l2, o) = match l1.extend(output) {
        None => return None,
        Some(p) => p,
    };
    proof {
        lemma_padded(l2.size as int, scheduler.align as int);
    }
    let (l3, s) = match l2.extend(scheduler) {
        None => return None,
        Some(p) => p,
    };
    proof {
        lemma_max_align_multiple(header, future);
        lemma_max_align_multiple(l1, output);
        lemma_max_align_multiple(l2, scheduler);
        lemma_multiple_transitive(l3.align as int, l2.align as int, l1.align as int);
        lemma_multiple_transitive(l3.align as int, l1.align as int, header.align as int);
        lemma_multiple_transitive(l3.align as int, l1.align as int, future.align as int);
        lemma_multiple_transitive(l3.align as int, l2.align as int, output.align as int);
    }
    Some((l3, RawTaskOffsets { future: f, output: o, scheduler: s }))
}

/// A task's layout exists exactly when the whole block, each part placed at
/// the first multiple of its alignment past the previous one, rounds up to
/// the largest alignment within `isize::MAX`; then the parts start at those
/// offsets and the block ends right after the scheduler. No part is refused
/// for its own sake: an empty output or scheduler is placed like any other.
pub proof fn law_task_layout_fits(
    header: MemLayout,
    future: MemLayout,
    output: MemLayout,
    scheduler: MemLayout,
)
    requires
        header.valid(),
        future.valid(),
        output.valid(),
        scheduler.valid(),
    ensures
        ({
            let fo = padded(header.size as int, future.align as int);
            let oo = padded(fo + future.size, output.align as int);
            let so = padded(oo + output.size, scheduler.align as int);
            let al = max_align(
                max_align(max_align(header.align, future.align), output.align),
                scheduler.align,
            );
            let r = task_layout_of(header, future, output, scheduler);
            &&& r is Some <==> fits(so + scheduler.size, al as int)
            &&& r matches Some((l, offs)) ==> {
                &&& offs.future == fo
                &&& offs.output == oo
                &&& offs.scheduler == so
                &&& l.size == so + scheduler.size
                &&& l.align == al
            }
        }),
{
    lemma_power_of_two_positive(header.align as nat);
    lemma_power_of_two_positive(future.align as nat);
    lemma_power_of_two_positive(output.align as nat);
    lemma_power_of_two_positive(scheduler.align as nat);
    let fo = padded(header.size as int, future.align as int);
    lemma_padded(header.size as int, future.align as int);
    let e1 = fo + future.size;
    let oo = padded(e1, output.align as int);
    lemma_padded(e1, output.align as int);
    let e2 = oo + output.size;
    let so = padded(e2, scheduler.align as int);
    lemma_padded(e2, scheduler.align as int);
    let a1 = max_align(header.align, future.align);
    let a2 = max_align(a1, output.align);
    let al = max_align(a2, scheduler.align);
    if fits(so + scheduler.size, al as int) {
        assert(fits(e1, a1 as int));
        assert(fits(e2, a2 as int));
    }
}

/// The larger of two valid alignments is a multiple of both.
proof fn lemma_max_align_multiple(a: MemLayout, b: MemLayout)
    requires
        a.valid(),
        b.valid(),
    ensures
        max_align(a.align, b.align) % a.align == 0,
        max_align(a.align, b.align) % b.align == 0,
{
    lemma_power_of_two_positive(a.align as nat);
    lemma_power_of_two_positive(b.align as nat);
    if a.align >= b.align {
        lemma_larger_power_of_two_multiple(a.align as nat, b.align as nat);
        lemma_mod_multiples_basic(1, a.align as int);
    } else {
        lemma_larger_power_of_two_multiple(b.align as nat, a.align as nat);
        lemma_mod_multiples_basic(1, b.align as int);
    }
}

/// Being a multiple is transitive.
proof fn lemma_multiple_transitive(a: int, b: int, c: int)
    requires
        b > 0,
        c > 0,
        a % b == 0,
        b % c == 0,
    ensures
        a % c == 0,
{
    lemma_fundamental_div_mod(a, b);
    lemma_fundamental_div_mod(b, c);
    let x: int = a / b;
    let y: int = b / c;
    assert(a == (x * y) * c) by (nonlinear_arith)
        requires
            a == b * x + 0,
            b == c * y + 0,
    ;
    lemma_mod_multiples_basic(x * y, c);
}

/// Where the parts of a task start, past the header at offset 0.
#[derive(Clone, Copy, Debug, PartialEq, Eq, Structural)]
pub struct RawTaskOffsets {
    pub future: usize,
    pub output: usize,
    pub scheduler: usize,
}

proof fn lemma_power_of_two_positive(n: nat)
    requires
        is_power_of_two(n),
    ensures
        n > 0,
{
    let k: nat = choose|k: nat| pow2(k) == n;
    lemma_pow2_pos(k);
}

/// Padding rounds up to the next multiple, by less than one alignment.
proof fn lemma_padded(size: int, align: int)
    requires
        size >= 0,
        align > 0,
    ensures
        padded(size, align) % align == 0,
        size <= padded(size, align) < size + align,
        padded(size, align) <= size + align - 1,
{
    lemma_fundamental_div_mod(size, align);
    let q: int = size / align;
    if size % align != 0 {
        assert(padded(size, align) == (q + 1) * align) by (nonlinear_arith)
            requires
                size == align * q + size % align,
                padded(size, align) == size + (align - size % align),
        ;
        lemma_mod_multiples_basic(q + 1, align);
    }
}

/// Of two powers of two, the larger is a multiple of the smaller.
pub proof fn lemma_larger_power_of_two_multiple(a: nat, b: nat)
    requires
        is_power_of_two(a),
        is_power_of_two(b),
        a >= b,
    ensures
        a % b == 0,
{
    let i: nat = choose|k: nat| pow2(k) == a;
    let j: nat = choose|k: nat| pow2(k) == b;
    if i < j {
        lemma_pow2_strictly_increases(i, j);
    }
    let d: nat = (i - j) as nat;
    lemma_pow2_adds(j, d);
    assert(j + d == i);
    lemma_pow2_pos(j);
    lemma_mul_is_commutative(pow2(j) as int, pow2(d) as int);
    lemma_mod_multiples_basic(pow2(d) as int, pow2(j) as int);
}

} // verus!
