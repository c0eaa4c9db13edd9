//! Return codes of a robust mutex and of a futex notifier.
//!
//! The primitives themselves are foreign; what the library holds is the
//! reading of the codes that they return.

use vstd::prelude::*;

verus! {

/// Why a lock was granted.
#[derive(Debug, Copy, Clone, PartialEq, Eq, Hash, Structural)]
#[must_use]
pub enum LockSuccessReason {
    /// The mutex was free.
    Unlocked,
    /// The previous owner died while it held the mutex.
    OwnerDied,
}

/// The code with which a held mutex refuses a try-lock.
pub const LOCK_BUSY: i32 = 4;

impl LockSuccessReason {
    /// Takes the lock whatever the reason.
    pub fn ok(self) {
    }

    /// Reads the code of a blocking grab: `None` for a code that a grab
    /// never returns.
    pub fn of_grab(ret: i32) -> (r: Option<LockSuccessReason>)
        ensures
            ret == 0 ==> r == Some(LockSuccessReason::Unlocked),
            ret == 1 ==> r == Some(LockSuccessReason::OwnerDied),
            ret != 0 && ret != 1 ==> r is None,
    {
        if ret == 0 {
            Some(LockSuccessReason::Unlocked)
        } else if ret == 1 {
            Some(LockSuccessReason::OwnerDied)
        } else {
            None
        }
    }

    /// Reads the code of a try-lock: `Some(Err(()))` where the mutex is
    /// held, `None` for a code that a try-lock never returns.
    pub fn of_try(ret: i32) -> (r: Option<Result<LockSuccessReason, ()>>)
        ensures
            ret == 0 ==> r == Some(Ok::<LockSuccessReason, ()>(LockSuccessReason::Unlocked)),
            ret == 1 ==> r == Some(Ok::<LockSuccessReason, ()>(LockSuccessReason::OwnerDied)),
            ret == LOCK_BUSY ==> r == Some(Err::<LockSuccessReason, ()>(())),
            ret != 0 && ret != 1 && ret != LOCK_BUSY ==> r is None,
    {
        if ret == LOCK_BUSY {
            Some(Err(()))
        } else {
            match Self::of_grab(ret) {
                Some(reason) => Some(Ok(reason)),
                None => None,
            }
        }
    }
}

/// Why a wait on a notifier ended without a notification.
#[derive(Debug, Copy, Clone, PartialEq, Eq, Structural)]
pub enum FutexWakeReason {
    /// A signal interrupted the wait.
    SignalInterrupt,
    /// The time ran out.
    Timeout,
    /// The wait failed with this error number.
    Errno(i32),
}

impl FutexWakeReason {
    /// Reads the code of a wait without a time limit, and the error number
    /// that stood when it returned: code 0 is a notification, code 1 a
    /// signal, and any other code a failure with that error number.
    pub fn of_wait(ret: i32, errno: i32) -> (r: Result<(), FutexWakeReason>)
        ensures
            ret == 0 ==> r == Ok::<(), FutexWakeReason>(()),
            ret == 1 ==> r == Err::<(), FutexWakeReason>(FutexWakeReason::SignalInterrupt),
            ret != 0 && ret != 1 ==> r == Err::<(), FutexWakeReason>(FutexWakeReason::Errno(errno)),
    {
        if ret == 0 {
            Ok(())
        } else if ret == 1 {
            Err(FutexWakeReason::SignalInterrupt)
        } else {
            Err(FutexWakeReason::Errno(errno))
        }
    }

    /// Reads the code of a wait with a time limit: as `of_wait`, and code 2
    /// says that the time ran out.
    pub fn of_wait_timeout(ret: i32, errno: i32) -> (r: Result<(), FutexWakeReason>)
        ensures
            ret == 2 ==> r == Err::<(), FutexWakeReason>(FutexWakeReason::Timeout),
            ret != 2 ==> r == (if ret == 0 {
                Ok::<(), FutexWakeReason>(())
            } else if ret == 1 {
                Err::<(), FutexWakeReason>(FutexWakeReason::SignalInterrupt)
            } else {
                Err::<(), FutexWakeReason>(FutexWakeReason::Errno(errno))
            }),
    {
        if ret == 2 {
            Err(FutexWakeReason::Timeout)
        } else {
            Self::of_wait(ret, errno)
        }
    }
}

/// What a notifier does after it has set its futex.
#[derive(Debug, Copy, Clone, PartialEq, Eq, Structural)]
pub struct Notified {
    /// Nobody was woken, so the notifier unsets the futex itself.
    pub unset: bool,
    /// The call failed, and `notify` returns the error number.
    pub failed: bool,
}

/// Reads the code of setting a futex: the number of waiters that it woke,
/// or a negative code where it failed.
pub fn notified(ret: i32) -> (n: Notified)
    ensures
        n.unset == (ret <= 0),
        n.failed == (ret < 0),
{
    Notified { unset: ret <= 0, failed: ret < 0 }
}

} // verus!
