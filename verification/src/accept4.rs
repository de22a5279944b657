use vstd::prelude::*;

use crate::block::{align_up, Allocator, NULL};
use crate::sockaddr::{
    block_addrlen, collected_addr, committed_block, input_addrlen, lemma_commit_then_collect,
    lemma_staged_layout, pos_after_stage, slots_wf, stage_fits, staged_from,
    CommittedSockaddrOutput, SockaddrOutput, StagedSockaddrOutput,
};
use crate::sys::{is_accept4_number, sys_accept4};
use vstd::bytes::spec_u32_from_le_bytes;

verus! {

/// The argument vector of a system call with `N` arguments.
#[derive(Debug)]
pub struct Argv<const N: usize>(pub [usize; N]);

/// The arguments of `accept4(sockfd, addr, addrlen, flags)`: the listening
/// socket, where to put the peer's address, if anywhere, and the flags.
#[derive(Debug)]
pub struct Accept4 {
    pub sockfd: libc::c_int,
    pub addr: Option<SockaddrOutput>,
    pub flags: libc::c_int,
}

/// The argument vector of `accept4`: the socket, the offsets of the address
/// and of its length in the block, or `NULL` for both where no address is
/// asked for, and the flags. The two integers are converted as `as` converts
/// them, so a negative one is sign-extended.
pub open spec fn accept4_argv(sockfd: i32, offsets: Option<(usize, usize)>, flags: i32) -> Seq<
    usize,
> {
    let (addr, addrlen) = match offsets {
        Some(o) => o,
        None => (NULL, NULL),
    };
    seq![sockfd as usize, addr, addrlen, flags as usize]
}

/// The argument vector has four entries: the socket and the flags as `as`
/// converts them, and between them the two offsets where an address is asked
/// for, `NULL` twice where not.
pub proof fn lemma_accept4_argv(sockfd: i32, offsets: Option<(usize, usize)>, flags: i32)
    ensures
        accept4_argv(sockfd, offsets, flags).len() == 4,
        accept4_argv(sockfd, offsets, flags)[0] == sockfd as usize,
        accept4_argv(sockfd, offsets, flags)[3] == flags as usize,
        offsets is None ==> accept4_argv(sockfd, offsets, flags)[1] == NULL
            && accept4_argv(sockfd, offsets, flags)[2] == NULL,
        offsets matches Some((a, l)) ==> accept4_argv(sockfd, offsets, flags)[1] == a
            && accept4_argv(sockfd, offsets, flags)[2] == l,
{
}

/// A round trip through the block: an address output staged by an allocator
/// over a block of at least its capacity, then committed, then collected with
/// the block left as commit left it, hands the caller back the length it
/// passed in, clamped to its buffer.
pub proof fn lemma_stage_commit_collect(
    st: StagedSockaddrOutput,
    dest: SockaddrOutput,
    pos: nat,
    cap: nat,
    block: Seq<u8>,
)
    requires
        staged_from(st, dest, pos, cap),
        cap <= block.len(),
    ensures
        slots_wf(st.addr, st.addrlen, st.dest, block.len()),
        block_addrlen(st.addrlen, committed_block(st.addrlen, st.dest, block)) == input_addrlen(
            dest,
        ),
{
    lemma_staged_layout(st, dest, pos, cap);
    lemma_commit_then_collect(st.addr, st.addrlen, st.dest, block);
}

impl Accept4 {
    /// The number of the system call.
    pub fn num() -> (n: libc::c_long)
        ensures
            is_accept4_number(n as int),
    {
        sys_accept4()
    }

    /// Lays out the call in the block and returns its argument vector, with
    /// the staged address output where an address is asked for. The address
    /// and length arguments are `NULL` exactly where no address is asked for:
    /// a staged slot never starts at offset 0. Staging fails
    /// with `ENOMEM` exactly where the address and its length do not fit into
    /// what is left of the block; without an address nothing is laid out and
    /// staging cannot fail.
    pub fn stage(self, alloc: &mut Allocator) -> (res: Result<
        (Argv<4>, Option<StagedSockaddrOutput>),
        libc::c_int,
    >)
        ensures
            final(alloc).cap() == old(alloc).cap(),
            res matches Ok((argv, _)) ==> {
                &&& argv.0@.len() == 4
                &&& argv.0@[0] == self.sockfd as usize
                &&& argv.0@[3] == self.flags as usize
                &&& (argv.0@[1] == NULL <==> self.addr is None)
                &&& (argv.0@[2] == NULL <==> self.addr is None)
            },
            res matches Ok((argv, staged)) ==> {
                &&& (staged is Some <==> self.addr is Some)
                &&& (staged matches Some(st) ==> argv.0@[1] == st.addr.offset && argv.0@[2]
                    == st.addrlen.offset)
            },
            self.addr is None ==> res is Ok,
            self.addr matches Some(dest) ==> ((res is Ok) <==> {
                &&& old(alloc).pos() + dest.addr@.len() <= old(alloc).cap()
                &&& align_up(old(alloc).pos() + dest.addr@.len(), 4) + 4 <= old(alloc).cap()
            }),
            res matches Err(e) ==> e == 12,
            match self.addr {
                None => {
                    &&& final(alloc).pos() == old(alloc).pos()
                    &&& res matches Ok((argv, None)) && argv.0@ == accept4_argv(
                        self.sockfd,
                        None,
                        self.flags,
                    )
                },
                Some(dest) => {
                    &&& final(alloc).pos() == pos_after_stage(
                        old(alloc).pos(),
                        old(alloc).cap(),
                        dest.addr@.len(),
                    )
                    &&& match res {
                        Ok((argv, staged)) => {
                            &&& staged matches Some(st) && staged_from(
                                st,
                                dest,
                                old(alloc).pos(),
                                old(alloc).cap(),
                            ) && st.addr.offset != NULL && st.addrlen.offset != NULL
                                && argv.0@ == accept4_argv(
                                self.sockfd,
                                Some((st.addr.offset, st.addrlen.offset)),
                                self.flags,
                            )
                        },
                        Err(e) => {
                            &&& !stage_fits(old(alloc).pos(), old(alloc).cap(), dest.addr@.len())
                            &&& e == 12
                        },
                    }
                },
            },
    {
        let addr = match self.addr {
            Some(dest) => match dest.stage(alloc) {
                Ok(st) => Some(st),
                Err(e) => {
                    return Err(e);
                },
            },
            None => None,
        };
        let (addr_offset, addrlen_offset) = match &addr {
            Some(st) => (st.addr.offset(), st.addrlen.offset()),
            None => (NULL, NULL),
        };
        let argv = Argv([self.sockfd as usize, addr_offset, addrlen_offset, self.flags as usize]);
        proof {
            assert(argv.0@ =~= accept4_argv(
                self.sockfd,
                match addr {
                    Some(st) => Some((st.addr.offset, st.addrlen.offset)),
                    None => None,
                },
                self.flags,
            ));
        }
        Ok((argv, addr))
    }

    /// Once the host has run the call, collects the peer's address, where one
    /// was asked for, out of the block into the caller's buffers, and hands
    /// back the call's result unchanged.
    pub fn collect(
        addr: Option<CommittedSockaddrOutput>,
        ret: Result<libc::c_int, libc::c_int>,
        col: &Vec<u8>,
    ) -> (res: (Result<libc::c_int, libc::c_int>, Option<SockaddrOutput>))
        requires
            addr matches Some(c) ==> slots_wf(c.addr, c.addrlen, c.dest, col@.len()),
        ensures
            res.0 == ret,
            match addr {
                None => res.1 is None,
                Some(c) => res.1 matches Some(out) && out.addrlen == block_addrlen(
                    c.addrlen,
                    col@,
                ) && out.addr@ == collected_addr(c.addr, c.addrlen, c.dest, col@),
            },
            addr matches Some(c) ==> res.1 matches Some(out) && {
                &&& out.addrlen == spec_u32_from_le_bytes(
                    col@.subrange(c.addrlen.offset as int, c.addrlen.offset + 4),
                )
                &&& out.addr@.len() == c.dest.addr@.len()
                &&& forall|j: int|
                    0 <= j < out.addrlen && j < c.dest.addrlen && j < c.dest.addr@.len()
                        ==> out.addr@[j] == col@[c.addr.offset + j]
                &&& forall|j: int|
                    0 <= j < c.dest.addr@.len() && (out.addrlen <= j || c.dest.addrlen <= j)
                        ==> out.addr@[j] == c.dest.addr@[j]
            },
    {
        let out = match addr {
            Some(c) => Some(c.collect(col)),
            None => None,
        };
        (ret, out)
    }
}

} // verus!
