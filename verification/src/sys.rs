//! The constants of the C library that the file system's logic reads.
//!
//! Each is read through a function of its own, whose contract states the value
//! that `libc` gives the constant on Linux for x86_64 (and most other Linux
//! targets): the target this library is built for.

use vstd::prelude::*;

verus! {

/// `O_RDONLY`: the access mode "read only".
pub const O_RDONLY_VALUE: i32 = 0;
/// `O_WRONLY`: the access mode "write only".
pub const O_WRONLY_VALUE: i32 = 1;
/// `O_RDWR`: the access mode "read and write".
pub const O_RDWR_VALUE: i32 = 2;
/// `O_CREAT`: create the file if it does not exist.
pub const O_CREAT_VALUE: i32 = 64;
/// `O_TRUNC`: truncate the file on open.
pub const O_TRUNC_VALUE: i32 = 512;
/// `O_APPEND`: every write goes to the end of the file.
pub const O_APPEND_VALUE: i32 = 1024;
/// `R_OK`: the access check "may read".
pub const R_OK_VALUE: i32 = 4;
/// `W_OK`: the access check "may write".
pub const W_OK_VALUE: i32 = 2;
/// `X_OK`: the access check "may execute".
pub const X_OK_VALUE: i32 = 1;

/// `ENOENT`: no such file.
pub const ENOENT_VALUE: i32 = 2;
/// `EBADF`: bad file descriptor.
pub const EBADF_VALUE: i32 = 9;
/// `EACCES`: permission denied.
pub const EACCES_VALUE: i32 = 13;
/// `EINVAL`: invalid argument.
pub const EINVAL_VALUE: i32 = 22;
/// `ENODATA`: no data available.
pub const ENODATA_VALUE: i32 = 61;

/// Reads `libc::ENOENT`; libc defines it as 2 on Linux.
#[verifier::external_body]
pub(crate) fn enoent() -> (r: i32)
    ensures
        r == ENOENT_VALUE,
{
    libc::ENOENT
}

/// Reads `libc::EBADF`; libc defines it as 9 on Linux.
#[verifier::external_body]
pub(crate) fn ebadf() -> (r: i32)
    ensures
        r == EBADF_VALUE,
{
    libc::EBADF
}

/// Reads `libc::EACCES`; libc defines it as 13 on Linux.
#[verifier::external_body]
pub(crate) fn eacces() -> (r: i32)
    ensures
        r == EACCES_VALUE,
{
    libc::EACCES
}

/// Reads `libc::EINVAL`; libc defines it as 22 on Linux.
#[verifier::external_body]
pub(crate) fn einval() -> (r: i32)
    ensures
        r == EINVAL_VALUE,
{
    libc::EINVAL
}

/// Reads `libc::ENODATA`; libc defines it as 61 for Linux on x86_64
/// (MIPS and SPARC targets differ).
#[verifier::external_body]
pub(crate) fn enodata() -> (r: i32)
    ensures
        r == ENODATA_VALUE,
{
    libc::ENODATA
}

/// Reads `libc::O_RDONLY`; libc defines it as 0 on Linux.
#[verifier::external_body]
pub(crate) fn o_rdonly() -> (r: i32)
    ensures
        r == O_RDONLY_VALUE,
{
    libc::O_RDONLY
}

/// Reads `libc::O_WRONLY`; libc defines it as 1 on Linux.
#[verifier::external_body]
pub(crate) fn o_wronly() -> (r: i32)
    ensures
        r == O_WRONLY_VALUE,
{
    libc::O_WRONLY
}

/// Reads `libc::O_RDWR`; libc defines it as 2 on Linux.
#[verifier::external_body]
pub(crate) fn o_rdwr() -> (r: i32)
    ensures
        r == O_RDWR_VALUE,
{
    libc::O_RDWR
}

/// Reads `libc::O_CREAT`; libc defines it as 64 for Linux on x86_64
/// (gnu and musl; MIPS and SPARC targets differ).
#[verifier::external_body]
pub(crate) fn o_creat() -> (r: i32)
    ensures
        r == O_CREAT_VALUE,
{
    libc::O_CREAT
}

/// Reads `libc::O_TRUNC`; libc defines it as 512 for Linux on x86_64
/// (MIPS and SPARC targets differ).
#[verifier::external_body]
pub(crate) fn o_trunc() -> (r: i32)
    ensures
        r == O_TRUNC_VALUE,
{
    libc::O_TRUNC
}

/// Reads `libc::O_APPEND`; libc defines it as 1024 for Linux on x86_64
/// (MIPS and SPARC targets differ).
#[verifier::external_body]
pub(crate) fn o_append() -> (r: i32)
    ensures
        r == O_APPEND_VALUE,
{
    libc::O_APPEND
}

/// Reads `libc::R_OK`; libc defines it as 4 on every Unix target.
#[verifier::external_body]
pub(crate) fn r_ok() -> (r: i32)
    ensures
        r == R_OK_VALUE,
{
    libc::R_OK
}

/// Reads `libc::W_OK`; libc defines it as 2 on every Unix target.
#[verifier::external_body]
pub(crate) fn w_ok() -> (r: i32)
    ensures
        r == W_OK_VALUE,
{
    libc::W_OK
}

/// Reads `libc::X_OK`; libc defines it as 1 on every Unix target.
#[verifier::external_body]
pub(crate) fn x_ok() -> (r: i32)
    ensures
        r == X_OK_VALUE,
{
    libc::X_OK
}

} // verus!
