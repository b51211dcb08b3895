//! Error numbers that system calls hand to applications.

use vstd::prelude::*;

verus! {

/// Why a system call failed.
#[derive(Clone, Copy, PartialEq, Eq, Structural, Debug)]
pub enum ErrNo {
    /// Operation not permitted.
    EPERM,
    /// No such file or directory.
    ENOENT,
    /// Bad file descriptor.
    EBADF,
    /// Out of memory.
    ENOMEM,
    /// Bad address.
    EFAULT,
    /// Is a directory.
    EISDIR,
    /// Invalid argument.
    EINVAL,
    /// No space left on device.
    ENOSPC,
}

impl ErrNo {
    /// The number of the error.
    pub open spec fn spec_code(self) -> i32 {
        match self {
            ErrNo::EPERM => 1,
            ErrNo::ENOENT => 2,
            ErrNo::EBADF => 9,
            ErrNo::ENOMEM => 12,
            ErrNo::EFAULT => 14,
            ErrNo::EISDIR => 21,
            ErrNo::EINVAL => 22,
            ErrNo::ENOSPC => 28,
        }
    }

    /// The number of the error; never zero.
    pub fn code(self) -> (code: i32)
        ensures
            code == self.spec_code(),
            code > 0,
    {
        match self {
            ErrNo::EPERM => 1,
            ErrNo::ENOENT => 2,
            ErrNo::EBADF => 9,
            ErrNo::ENOMEM => 12,
            ErrNo::EFAULT => 14,
            ErrNo::EISDIR => 21,
            ErrNo::EINVAL => 22,
            ErrNo::ENOSPC => 28,
        }
    }
}

} // verus!
