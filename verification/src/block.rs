use vstd::prelude::*;

use crate::sys::enomem;

verus! {

/// The value an argument takes where a pointer argument is absent.
pub const NULL: usize = 0;

/// The number of bytes at the start of the block that no region may take.
pub const RESERVED: usize = 1;

/// The least multiple of `align` that is not below `x`.
pub open spec fn align_up(x: nat, align: nat) -> nat
    recommends
        align > 0,
{
    if x % align == 0 {
        x
    } else {
        x + (align - x % align) as nat
    }
}

/// Whether a region of `size` bytes aligned to `align` still fits into a block
/// of `cap` bytes of which the first `pos` are taken.
pub open spec fn fits(pos: nat, cap: nat, size: nat, align: nat) -> bool {
    align_up(pos, align) + size <= cap
}

/// `align_up(x, align)` is a multiple of `align`, at least `x`, and less than
/// `x + align`.
pub proof fn lemma_align_up(x: nat, align: nat)
    requires
        align > 0,
    ensures
        align_up(x, align) % align == 0,
        x <= align_up(x, align) < x + align,
{
    let xi = x as int;
    let a = align as int;
    vstd::arithmetic::div_mod::lemma_fundamental_div_mod(xi, a);
    let q = xi / a;
    let r = xi % a;
    assert(0 <= r < a);
    if r != 0 {
        assert(xi + (a - r) == (q + 1) * a) by (nonlinear_arith)
            requires
                xi == a * q + r,
        ;
        vstd::arithmetic::div_mod::lemma_mod_multiples_basic(q + 1, a);
    }
}

/// A region fits exactly when, placed at the first multiple of its alignment
/// at or after the taken bytes, it ends within the block.
pub proof fn lemma_fits(pos: nat, cap: nat, size: nat, align: nat)
    requires
        align > 0,
    ensures
        fits(pos, cap, size, align) <==> (exists|off: nat|
            #![trigger off % align]
            off % align == 0 && pos <= off < pos + align && off + size <= cap),
{
    lemma_align_up(pos, align);
    let a = align_up(pos, align);
    if fits(pos, cap, size, align) {
        assert(a % align == 0 && pos <= a < pos + align && a + size <= cap);
    }
    assert forall|off: nat|
        #[trigger] (off % align) == 0 && pos <= off < pos + align && off + size <= cap implies fits(
        pos,
        cap,
        size,
        align,
    ) by {
        lemma_multiple_in_window(pos, align, off, a);
    }
}

/// Between `x` and `x + align` there is one multiple of `align` only.
proof fn lemma_multiple_in_window(x: nat, align: nat, m1: nat, m2: nat)
    requires
        align > 0,
        m1 % align == 0,
        m2 % align == 0,
        x <= m1 < x + align,
        x <= m2 < x + align,
    ensures
        m1 == m2,
{
    let a = align as int;
    vstd::arithmetic::div_mod::lemma_fundamental_div_mod(m1 as int, a);
    vstd::arithmetic::div_mod::lemma_fundamental_div_mod(m2 as int, a);
    let q1 = m1 as int / a;
    let q2 = m2 as int / a;
    assert(m1 == a * q1);
    assert(m2 == a * q2);
    if q1 < q2 {
        assert(a * q1 + a <= a * q2) by (nonlinear_arith)
            requires
                q1 < q2,
                a > 0,
        ;
    } else if q2 < q1 {
        assert(a * q2 + a <= a * q1) by (nonlinear_arith)
            requires
                q2 < q1,
                a > 0,
        ;
    }
}

/// Two regions reserved one after the other never overlap: the second begins
/// where the first ends or later, both are aligned as asked, and both lie
/// inside the block.
pub proof fn lemma_consecutive_allocations_disjoint(
    pos: nat,
    cap: nat,
    size1: nat,
    align1: nat,
    size2: nat,
    align2: nat,
)
    requires
        align1 > 0,
        align2 > 0,
        fits(pos, cap, size1, align1),
        fits(align_up(pos, align1) + size1, cap, size2, align2),
    ensures
        ({
            let off1 = align_up(pos, align1);
            let off2 = align_up(off1 + size1, align2);
            &&& pos <= off1
            &&& off1 + size1 <= off2
            &&& off2 + size2 <= cap
            &&& off1 % align1 == 0
            &&& off2 % align2 == 0
        }),
{
    lemma_align_up(pos, align1);
    lemma_align_up(align_up(pos, align1) + size1, align2);
}

/// A bump allocator that lays out the arguments of a call, one region after
/// another, in a block of a fixed number of bytes.
///
/// The first byte of the block is never handed out, so that no region starts
/// at offset 0, which is [`NULL`], the value that stands for an absent pointer
/// argument.
pub struct Allocator {
    capacity: usize,
    used: usize,
}

impl Allocator {
    #[verifier::type_invariant]
    spec fn inv(self) -> bool {
        &&& RESERVED <= self.used
        &&& (self.used <= self.capacity || self.used == RESERVED)
    }

    /// The size of the block in bytes.
    pub closed spec fn cap(&self) -> nat {
        self.capacity as nat
    }

    /// The number of bytes at the start of the block that are taken, the
    /// reserved first byte included.
    pub closed spec fn pos(&self) -> nat {
        self.used as nat
    }

    /// An allocator for an empty block of `capacity` bytes, of which only the
    /// reserved first byte is taken.
    pub fn new(capacity: usize) -> (a: Self)
        ensures
            a.cap() == capacity,
            a.pos() == RESERVED,
    {
        Allocator { capacity, used: RESERVED }
    }

    /// The size of the block in bytes.
    pub fn capacity(&self) -> (c: usize)
        ensures
            c == self.cap(),
    {
        self.capacity
    }

    /// The number of bytes taken so far, the reserved first byte included;
    /// more than the capacity only where the block is too small to hold even
    /// that byte.
    pub fn used(&self) -> (u: usize)
        ensures
            u == self.pos(),
            RESERVED <= u,
            u <= self.cap() || u == RESERVED,
    {
        proof {
            use_type_invariant(self);
        }
        self.used
    }

    /// Reserves `size` bytes aligned to `align` after everything reserved
    /// before, and returns their offset in the block; fails with `ENOMEM`, and
    /// reserves nothing, where they do not fit.
    pub fn allocate(&mut self, size: usize, align: usize) -> (res: Result<usize, i32>)
        requires
            align > 0,
        ensures
            final(self).cap() == old(self).cap(),
            RESERVED <= final(self).pos(),
            (res is Ok) <==> align_up(old(self).pos(), align as nat) + size <= old(self).cap(),
            res matches Ok(off) ==> {
                &&& off % align == 0
                &&& old(self).pos() <= off < old(self).pos() + align
                &&& off + size <= old(self).cap()
                &&& off != NULL
                &&& final(self).pos() == off + size
            },
            res matches Err(e) ==> e == 12 && final(self).pos() == old(self).pos(),
            match res {
                Ok(off) => {
                    &&& fits(old(self).pos(), old(self).cap(), size as nat, align as nat)
                    &&& off == align_up(old(self).pos(), align as nat)
                    &&& off != NULL
                    &&& final(self).pos() == off + size
                },
                Err(e) => {
                    &&& !fits(old(self).pos(), old(self).cap(), size as nat, align as nat)
                    &&& e == 12
                    &&& final(self).pos() == old(self).pos()
                },
            },
    {
        proof {
            use_type_invariant(&*self);
            lemma_align_up(self.used as nat, align as nat);
        }
        if self.used > self.capacity {
            return Err(enomem());
        }
        let rem = self.used % align;
        let pad = if rem == 0 {
            0
        } else {
            align - rem
        };
        let room = self.capacity - self.used;
        if pad > room || size > room - pad {
            return Err(enomem());
        }
        let off = self.used + pad;
        self.used = off + size;
        Ok(off)
    }
}

} // verus!
