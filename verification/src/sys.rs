use vstd::prelude::*;

verus! {

/// The `ENOMEM` error number, as `libc::ENOMEM` defines it.
///
/// Trusted: the body reads `libc::ENOMEM`. The contract claims that it is 12,
/// which is its value in the libc crate on every target where that crate also
/// defines `SYS_accept4` (Linux and Android), the only targets this library
/// builds for.
#[verifier::external_body]
pub(crate) fn enomem() -> (e: i32)
    ensures
        e == 12,
{
    libc::ENOMEM
}

/// Whether `n` is a value that `libc::SYS_accept4` takes on some target of
/// the libc crate where it is a `c_long`.
pub open spec fn is_accept4_number(n: int) -> bool {
    ||| n == 242
    ||| n == 288
    ||| n == 323
    ||| n == 344
    ||| n == 361
    ||| n == 364
    ||| n == 366
    ||| n == 4000 + 334
    ||| n == 5000 + 293
    ||| n == 0x4000_0000 + 288
}

/// The number of the `accept4` system call, as `libc::SYS_accept4` defines it.
///
/// Trusted: the body reads `libc::SYS_accept4`. Its value depends on the
/// target; the contract claims only that it is one of the values that the
/// libc crate gives it across the targets where it is a `c_long` (x86_64,
/// x32, i686, the ARM, RISC-V, LoongArch, C-SKY, MIPS, PowerPC, SPARC, m68k
/// and s390x ports), not which one.
#[verifier::external_body]
pub(crate) fn sys_accept4() -> (n: libc::c_long)
    ensures
        is_accept4_number(n as int),
{
    libc::SYS_accept4
}

} // verus!
