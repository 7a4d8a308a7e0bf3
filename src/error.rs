use vstd::prelude::*;

verus! {

/// An operating-system error number, as a failing call reported it or as
/// this crate produced it for input that cannot reach the kernel.
#[derive(Clone, Copy, Debug, PartialEq, Eq, Structural)]
pub struct Errno(pub i32);

/// "Invalid argument" (the same number on Linux, Android, FreeBSD, NetBSD
/// and Darwin).
pub const EINVAL: i32 = 22;

/// Reads the result of a call that returns a byte count, or -1 with the
/// error number set.
pub fn size_result(ret: isize, errno: i32) -> (r: Result<usize, Errno>)
    requires
        ret >= -1,
    ensures
        ret == -1 ==> r == Err::<usize, Errno>(Errno(errno)),
        ret >= 0 ==> r == Ok::<usize, Errno>(ret as usize),
{
    if ret == -1 {
        Err(Errno(errno))
    } else {
        Ok(ret as usize)
    }
}

/// Reads the result of a call that returns -1 with the error number set on
/// failure, and anything else on success.
pub fn status_result(ret: i32, errno: i32) -> (r: Result<(), Errno>)
    ensures
        ret == -1 ==> r == Err::<(), Errno>(Errno(errno)),
        ret != -1 ==> r == Ok::<(), Errno>(()),
{
    if ret == -1 {
        Err(Errno(errno))
    } else {
        Ok(())
    }
}

} // verus!
