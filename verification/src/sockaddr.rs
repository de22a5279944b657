use vstd::prelude::*;

use vstd::bytes::{spec_u32_from_le_bytes, spec_u32_to_le_bytes};

use crate::block::{align_up, lemma_align_up, Allocator, NULL};

verus! {

/// The size, and the alignment, of a `socklen_t` in the block.
pub const SOCKLEN_SIZE: usize = 4;

/// A region of the block: its offset from the block's start and its length.
#[derive(Clone, Copy, PartialEq, Eq, Structural, Debug)]
pub struct Slot {
    pub offset: usize,
    pub len: usize,
}

impl Slot {
    /// The offset of the region from the block's start.
    pub fn offset(&self) -> (o: usize)
        ensures
            o == self.offset,
    {
        self.offset
    }

    /// Whether the region lies inside a block of `block_len` bytes.
    pub open spec fn within(self, block_len: nat) -> bool {
        self.offset + self.len <= block_len
    }
}

/// The caller's buffers for a socket address that a call returns: the bytes
/// of the address and the address length.
///
/// On the way in, `addrlen` says how many bytes of `addr` the call may fill;
/// on the way out it holds the length of the address that the call found,
/// which may exceed the buffer, in which case the address was truncated.
#[derive(Debug)]
pub struct SockaddrOutput {
    pub addr: Vec<u8>,
    pub addrlen: u32,
}

/// A socket-address output laid out in the block, with the caller's buffers
/// that it is collected into.
#[derive(Debug)]
pub struct StagedSockaddrOutput {
    pub addr: Slot,
    pub addrlen: Slot,
    pub dest: SockaddrOutput,
}

/// A socket-address output whose inputs have been written into the block.
#[derive(Debug)]
pub struct CommittedSockaddrOutput {
    pub addr: Slot,
    pub addrlen: Slot,
    pub dest: SockaddrOutput,
}

/// Where the length slot of an output whose buffer holds `len` bytes goes
/// when staged by an allocator that has `pos` bytes taken: the address buffer
/// is laid out first, from `pos` on, then the length, aligned to its size.
pub open spec fn addrlen_offset(pos: nat, len: nat) -> nat {
    align_up(pos + len, SOCKLEN_SIZE as nat)
}

/// Whether both slots fit into a block of `cap` bytes of which `pos` are taken.
pub open spec fn stage_fits(pos: nat, cap: nat, len: nat) -> bool {
    &&& pos + len <= cap
    &&& addrlen_offset(pos, len) + SOCKLEN_SIZE <= cap
}

/// The slots of a socket-address output are well laid out for a block of
/// `block_len` bytes, and the address slot is as long as the caller's buffer.
pub open spec fn slots_wf(addr: Slot, addrlen: Slot, dest: SockaddrOutput, block_len: nat) -> bool {
    &&& addr.len == dest.addr@.len()
    &&& addrlen.len == SOCKLEN_SIZE
    &&& addr.within(block_len)
    &&& addrlen.within(block_len)
}

/// The length that is written into the block for the call to read: the
/// caller's length, but never more than the buffer holds.
pub open spec fn input_addrlen(dest: SockaddrOutput) -> u32 {
    if dest.addrlen as nat <= dest.addr@.len() {
        dest.addrlen
    } else {
        dest.addr@.len() as u32
    }
}

/// `block` with `bytes` written from `offset` on.
pub open spec fn write_bytes(block: Seq<u8>, offset: nat, bytes: Seq<u8>) -> Seq<u8> {
    block.subrange(0, offset as int) + bytes + block.subrange(
        (offset + bytes.len()) as int,
        block.len() as int,
    )
}

/// The block after the inputs of a staged output are written into it.
pub open spec fn committed_block(
    addrlen: Slot,
    dest: SockaddrOutput,
    block: Seq<u8>,
) -> Seq<u8> {
    write_bytes(block, addrlen.offset as nat, spec_u32_to_le_bytes(input_addrlen(dest)))
}

/// The address length that the block holds in the length slot.
pub open spec fn block_addrlen(addrlen: Slot, block: Seq<u8>) -> u32 {
    spec_u32_from_le_bytes(block.subrange(addrlen.offset as int, addrlen.offset + SOCKLEN_SIZE))
}

/// The number of address bytes copied back: the length the block reports,
/// but never more than the call was allowed to fill, which is what commit
/// wrote into the block.
pub open spec fn copied_len(addrlen: Slot, dest: SockaddrOutput, block: Seq<u8>) -> nat {
    let k = block_addrlen(addrlen, block) as nat;
    let limit = input_addrlen(dest) as nat;
    if k <= limit {
        k
    } else {
        limit
    }
}

/// The caller's address buffer after collection: the first `copied_len`
/// bytes come from the address slot, the rest is left as it was.
pub open spec fn collected_addr(addr: Slot, addrlen: Slot, dest: SockaddrOutput, block: Seq<u8>) -> Seq<
    u8,
> {
    let n = copied_len(addrlen, dest, block);
    block.subrange(addr.offset as int, addr.offset + n) + dest.addr@.subrange(
        n as int,
        dest.addr@.len() as int,
    )
}

/// The number of bytes taken after staging an output whose buffer holds
/// `len` bytes with an allocator that has `pos` of `cap` bytes taken: both
/// slots where they fit; the address slot alone where only it fits; nothing
/// otherwise.
pub open spec fn pos_after_stage(pos: nat, cap: nat, len: nat) -> nat {
    if stage_fits(pos, cap, len) {
        addrlen_offset(pos, len) + SOCKLEN_SIZE as nat
    } else if pos + len <= cap {
        pos + len
    } else {
        pos
    }
}

/// `st` is `dest` staged by an allocator that had `pos` of `cap` bytes taken.
/// Neither slot starts at `NULL`.
pub open spec fn staged_from(st: StagedSockaddrOutput, dest: SockaddrOutput, pos: nat, cap: nat) -> bool {
    &&& stage_fits(pos, cap, dest.addr@.len())
    &&& st.addr.offset != NULL
    &&& st.addrlen.offset != NULL
    &&& st.addr.offset == pos
    &&& st.addr.len == dest.addr@.len()
    &&& st.addrlen.offset == addrlen_offset(pos, dest.addr@.len())
    &&& st.addrlen.len == SOCKLEN_SIZE
    &&& st.dest == dest
}

/// The length slot goes to the first multiple of its size at or after the
/// end of the address slot.
pub proof fn lemma_addrlen_offset(pos: nat, len: nat)
    ensures
        addrlen_offset(pos, len) % 4 == 0,
        pos + len <= addrlen_offset(pos, len) < pos + len + 4,
{
    lemma_align_up(pos + len, 4);
}

/// Staging fits exactly when the address buffer fits from `pos` on and a
/// 4-aligned 4-byte slot fits after it, whatever the buffer's length.
pub proof fn lemma_stage_fits(pos: nat, cap: nat, len: nat)
    ensures
        stage_fits(pos, cap, len) <==> (pos + len <= cap && exists|off: nat|
            #![trigger off % 4]
            off % 4 == 0 && pos + len <= off < pos + len + 4 && off + 4 <= cap),
{
    lemma_addrlen_offset(pos, len);
    crate::block::lemma_fits(pos + len, cap, 4, 4);
}

/// The length handed to the call is the smaller of the caller's length and
/// its buffer's size.
pub proof fn lemma_input_addrlen(dest: SockaddrOutput)
    ensures
        input_addrlen(dest) <= dest.addrlen,
        input_addrlen(dest) <= dest.addr@.len(),
        input_addrlen(dest) == dest.addrlen || input_addrlen(dest) == dest.addr@.len(),
{
}

/// The number of bytes collected is the smaller of the length the block
/// reports and the length handed to the call.
pub proof fn lemma_copied_len(addrlen: Slot, dest: SockaddrOutput, block: Seq<u8>)
    ensures
        copied_len(addrlen, dest, block) <= block_addrlen(addrlen, block),
        copied_len(addrlen, dest, block) <= input_addrlen(dest),
        copied_len(addrlen, dest, block) == block_addrlen(addrlen, block)
            || copied_len(addrlen, dest, block) == input_addrlen(dest),
{
}

/// A staged output's slots lie inside the block, one after the other: the
/// address slot starts where the allocator stood, never at `NULL`, and ends
/// before the length slot, which is aligned to its size.
pub proof fn lemma_staged_layout(st: StagedSockaddrOutput, dest: SockaddrOutput, pos: nat, cap: nat)
    requires
        staged_from(st, dest, pos, cap),
    ensures
        slots_wf(st.addr, st.addrlen, st.dest, cap),
        st.addr.offset == pos,
        st.addr.offset != NULL,
        st.addrlen.offset != NULL,
        st.addr.offset + st.addr.len <= st.addrlen.offset,
        st.addrlen.offset % SOCKLEN_SIZE == 0,
{
    lemma_align_up(pos + dest.addr@.len(), SOCKLEN_SIZE as nat);
}

/// What collection reads back of what commit wrote: where the host leaves the
/// block as commit left it, the caller gets back the length it passed in,
/// clamped to its buffer, and the first that many bytes of the address slot,
/// which commit did not touch.
pub proof fn lemma_commit_then_collect(addr: Slot, addrlen: Slot, dest: SockaddrOutput, block: Seq<u8>)
    requires
        slots_wf(addr, addrlen, dest, block.len()),
        addr.offset + addr.len <= addrlen.offset,
    ensures
        ({
            let after = committed_block(addrlen, dest, block);
            let n = input_addrlen(dest) as nat;
            &&& after.len() == block.len()
            &&& block_addrlen(addrlen, after) == input_addrlen(dest)
            &&& copied_len(addrlen, dest, after) == n
            &&& collected_addr(addr, addrlen, dest, after) == block.subrange(
                addr.offset as int,
                addr.offset + n,
            ) + dest.addr@.subrange(n as int, dest.addr@.len() as int)
        }),
{
    vstd::bytes::lemma_auto_spec_u32_to_from_le_bytes();
    let v = input_addrlen(dest);
    let bytes = spec_u32_to_le_bytes(v);
    let after = committed_block(addrlen, dest, block);
    let o = addrlen.offset as int;
    assert(after.subrange(o, o + SOCKLEN_SIZE) =~= bytes);
    let n = v as nat;
    assert(after.subrange(addr.offset as int, addr.offset + n) =~= block.subrange(
        addr.offset as int,
        addr.offset + n,
    ));
}

impl SockaddrOutput {
    /// Buffers for an address of at most `addr.len()` bytes, of which the
    /// call may fill the first `addrlen`.
    pub fn new(addr: Vec<u8>, addrlen: u32) -> (s: Self)
        ensures
            s.addr@ == addr@,
            s.addrlen == addrlen,
    {
        SockaddrOutput { addr, addrlen }
    }

    /// Lays out the address buffer and then the length in the block; fails
    /// with `ENOMEM` where they do not fit.
    pub fn stage(self, alloc: &mut Allocator) -> (res: Result<StagedSockaddrOutput, i32>)
        ensures
            final(alloc).cap() == old(alloc).cap(),
            final(alloc).pos() == pos_after_stage(
                old(alloc).pos(),
                old(alloc).cap(),
                self.addr@.len(),
            ),
            (res is Ok) <==> {
                &&& old(alloc).pos() + self.addr@.len() <= old(alloc).cap()
                &&& align_up(old(alloc).pos() + self.addr@.len(), 4) + 4 <= old(alloc).cap()
            },
            res matches Ok(st) ==> {
                &&& st.addr.offset == old(alloc).pos()
                &&& st.addr.len == self.addr@.len()
                &&& st.addrlen.offset == align_up(old(alloc).pos() + self.addr@.len(), 4)
                &&& st.addrlen.len == 4
                &&& st.dest == self
                &&& st.addr.offset != NULL
                &&& st.addrlen.offset != NULL
                &&& final(alloc).pos() == st.addrlen.offset + 4
            },
            res matches Err(e) ==> {
                &&& e == 12
                &&& final(alloc).pos() == if old(alloc).pos() + self.addr@.len() <= old(
                    alloc,
                ).cap() {
                    old(alloc).pos() + self.addr@.len()
                } else {
                    old(alloc).pos()
                }
            },
            match res {
                Ok(st) => staged_from(st, self, old(alloc).pos(), old(alloc).cap()),
                Err(e) => {
                    &&& !stage_fits(old(alloc).pos(), old(alloc).cap(), self.addr@.len())
                    &&& e == 12
                },
            },
    {
        let len = self.addr.len();
        let addr_offset = match alloc.allocate(len, 1) {
            Ok(off) => off,
            Err(e) => {
                return Err(e);
            },
        };
        let len_offset = match alloc.allocate(SOCKLEN_SIZE, SOCKLEN_SIZE) {
            Ok(off) => off,
            Err(e) => {
                return Err(e);
            },
        };
        Ok(
            StagedSockaddrOutput {
                addr: Slot { offset: addr_offset, len },
                addrlen: Slot { offset: len_offset, len: SOCKLEN_SIZE },
                dest: self,
            },
        )
    }
}

impl StagedSockaddrOutput {
    /// Writes the inputs into the block: the address length that the call may
    /// fill, clamped to the buffer, in little-endian order into the length
    /// slot. Nothing else in the block changes.
    pub fn commit(self, block: &mut Vec<u8>) -> (c: CommittedSockaddrOutput)
        requires
            slots_wf(self.addr, self.addrlen, self.dest, old(block)@.len()),
        ensures
            final(block)@.len() == old(block)@.len(),
            final(block)@.subrange(self.addrlen.offset as int, self.addrlen.offset + 4)
                == spec_u32_to_le_bytes(
                if self.dest.addrlen as nat <= self.dest.addr@.len() {
                    self.dest.addrlen
                } else {
                    self.dest.addr@.len() as u32
                },
            ),
            self.dest.addrlen as nat <= self.dest.addr@.len() ==> spec_u32_from_le_bytes(
                final(block)@.subrange(self.addrlen.offset as int, self.addrlen.offset + 4),
            ) == self.dest.addrlen,
            self.dest.addrlen as nat > self.dest.addr@.len() ==> spec_u32_from_le_bytes(
                final(block)@.subrange(self.addrlen.offset as int, self.addrlen.offset + 4),
            ) == self.dest.addr@.len(),
            forall|i: int|
                0 <= i < old(block)@.len() && !(self.addrlen.offset <= i < self.addrlen.offset + 4)
                    ==> final(block)@[i] == old(block)@[i],
            final(block)@ == committed_block(self.addrlen, self.dest, old(block)@),
            c.addr == self.addr,
            c.addrlen == self.addrlen,
            c.dest == self.dest,
    {
        let len = self.dest.addr.len();
        let value: u32 = if (self.dest.addrlen as usize) <= len {
            self.dest.addrlen
        } else {
            len as u32
        };
        let bytes = vstd::bytes::u32_to_le_bytes(value);
        let o = self.addrlen.offset;
        let block_len = block.len();
        assert(o + SOCKLEN_SIZE <= block_len);
        block[o] = bytes[0];
        block[o + 1] = bytes[1];
        block[o + 2] = bytes[2];
        block[o + 3] = bytes[3];
        proof {
            assert(block@ =~= committed_block(self.addrlen, self.dest, old(block)@));
            vstd::bytes::lemma_auto_spec_u32_to_from_le_bytes();
            assert(block@.subrange(o as int, o + 4) =~= spec_u32_to_le_bytes(value));
        }
        CommittedSockaddrOutput { addr: self.addr, addrlen: self.addrlen, dest: self.dest }
    }
}

impl CommittedSockaddrOutput {
    /// Reads the results out of the block once the call has run: the caller's
    /// length becomes the length that the block reports, and as many bytes of
    /// the address slot as that length says, but no more than the call was
    /// allowed to fill (the caller's length, clamped to its buffer), are
    /// copied to the front of the caller's buffer; the rest of it is left as
    /// it was.
    pub fn collect(self, col: &Vec<u8>) -> (out: SockaddrOutput)
        requires
            slots_wf(self.addr, self.addrlen, self.dest, col@.len()),
        ensures
            out.addrlen == spec_u32_from_le_bytes(
                col@.subrange(self.addrlen.offset as int, self.addrlen.offset + 4),
            ),
            out.addr@.len() == self.dest.addr@.len(),
            forall|j: int|
                0 <= j < out.addrlen && j < self.dest.addrlen && j < self.dest.addr@.len()
                    ==> out.addr@[j] == col@[self.addr.offset + j],
            forall|j: int|
                0 <= j < self.dest.addr@.len() && (out.addrlen <= j || self.dest.addrlen <= j)
                    ==> out.addr@[j] == self.dest.addr@[j],
            out.addrlen == block_addrlen(self.addrlen, col@),
            out.addr@ == collected_addr(self.addr, self.addrlen, self.dest, col@),
    {
        let o = self.addrlen.offset;
        let col_len = col.len();
        assert(o + SOCKLEN_SIZE <= col_len);
        let raw = vec![col[o], col[o + 1], col[o + 2], col[o + 3]];
        proof {
            assert(raw@ =~= col@.subrange(o as int, o + SOCKLEN_SIZE));
        }
        let k = vstd::bytes::u32_from_le_bytes(raw.as_slice());
        let buf_len = self.dest.addr.len();
        let limit: usize = if (self.dest.addrlen as usize) <= buf_len {
            self.dest.addrlen as usize
        } else {
            buf_len
        };
        let n: usize = if (k as usize) <= limit {
            k as usize
        } else {
            limit
        };
        let start = self.addr.offset;
        let mut addr = self.dest.addr;
        let mut i: usize = 0;
        while i < n
            invariant
                n == copied_len(self.addrlen, self.dest, col@),
                n <= self.addr.len,
                self.addr.len == self.dest.addr@.len(),
                start == self.addr.offset,
                start + self.addr.len <= col_len,
                col_len == col@.len(),
                i <= n,
                addr@.len() == self.dest.addr@.len(),
                forall|j: int| 0 <= j < i ==> addr@[j] == col@[start + j],
                forall|j: int| i <= j < addr@.len() ==> addr@[j] == self.dest.addr@[j],
            decreases n - i,
        {
            addr[i] = col[start + i];
            i = i + 1;
        }
        proof {
            assert(addr@ =~= collected_addr(self.addr, self.addrlen, self.dest, col@));
        }
        SockaddrOutput { addr, addrlen: k }
    }
}

} // verus!
