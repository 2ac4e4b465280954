//! Process-local shared state behind one lock, used by the in-memory
//! reference stores. Each update takes the lock without ever waiting on it
//! (a bounded number of tries), runs a verified state transition on the state
//! the lock holds and releases the lock when the guard goes out of scope.
//!
//! A held lock is a `LockedState`: the guard together with a ghost `held()`,
//! the state the lock protects while it is held. Reading through the guard
//! gives `held()`, and writing through it changes `held()`, so what a verified
//! transition leaves behind is what the lock holds when the guard is dropped.
use std::sync::Arc;
use std::sync::Mutex;
use std::sync::MutexGuard;
use std::sync::TryLockError;

use vstd::prelude::*;
use vstd::pervasive::arbitrary;

verus! {

#[verifier::external_type_specification]
#[verifier::external_body]
#[verifier::reject_recursive_types(T)]
pub struct ExMutex<T: ?Sized>(Mutex<T>);

#[verifier::external_type_specification]
#[verifier::external_body]
#[verifier::reject_recursive_types(T)]
pub struct ExMutexGuard<'a, T: ?Sized + 'a>(MutexGuard<'a, T>);

/// Creates a lock holding `state`.
///
/// Calls `Mutex::new`; nothing is stated about the contents, which only the
/// guard of a later `lock_state` reads.
#[verifier::external_body]
pub fn new_mutex<S>(state: S) -> Mutex<S> {
    Mutex::new(state)
}

/// Shares a new lock holding `state`.
pub fn new_shared<S>(state: S) -> Arc<Mutex<S>> {
    Arc::new(new_mutex(state))
}

/// A lock held by the current thread, with the state it protects.
#[verifier::reject_recursive_types(S)]
pub struct LockedState<'a, S> {
    guard: MutexGuard<'a, S>,
    held: Ghost<S>,
}

impl<'a, S> LockedState<'a, S> {
    /// The state the lock protects while it is held.
    pub closed spec fn held(&self) -> S {
        self.held@
    }
}

/// What one attempt to take a lock without waiting gives.
#[verifier::reject_recursive_types(S)]
pub enum LockAttempt<'a, S> {
    /// The lock was free; it stays held until the state is dropped.
    Acquired(LockedState<'a, S>),
    /// Another holder has the lock now (or this thread holds it already).
    Busy,
    /// A thread panicked while holding the lock.
    Poisoned,
}

/// Tries once to take the lock, without waiting.
///
/// Calls `Mutex::try_lock`, which never blocks: a lock that is held (by any
/// thread, the calling one included) gives `Busy`, a poisoned one `Poisoned`.
/// Which of the three comes back, and which state an acquired lock holds,
/// depend on the other holders of the lock, so nothing is promised of either;
/// the ghost `held()` of an acquired lock names that state.
#[verifier::external_body]
pub fn try_lock_state<'a, S>(shared: &'a Arc<Mutex<S>>) -> LockAttempt<'a, S> {
    match shared.try_lock() {
        Ok(guard) => LockAttempt::Acquired(LockedState { guard, held: Ghost(arbitrary()) }),
        Err(TryLockError::WouldBlock) => LockAttempt::Busy,
        Err(TryLockError::Poisoned(_)) => LockAttempt::Poisoned,
    }
}

/// Why the shared state could not be locked.
#[derive(Debug, Clone, Copy, PartialEq, Eq, Structural)]
pub enum LockFailure {
    /// The lock stayed held through every attempt.
    Busy,
    /// A thread panicked while holding the lock.
    Poisoned,
}

/// How many times `lock_state` tries a held lock before giving up.
pub const LOCK_ATTEMPTS: u32 = 1_000_000;

/// Takes the lock, trying again while another holder has it, at most
/// `LOCK_ATTEMPTS` times. It never blocks and never panics: a lock that stays
/// held (also one the calling thread holds already) gives `Busy`.
pub fn lock_state<'a, S>(shared: &'a Arc<Mutex<S>>) -> Result<LockedState<'a, S>, LockFailure> {
    let mut attempts: u32 = 0;
    loop
        invariant
            attempts < LOCK_ATTEMPTS,
        decreases LOCK_ATTEMPTS - attempts,
    {
        match try_lock_state(shared) {
            LockAttempt::Acquired(guard) => {
                return Ok(guard);
            },
            LockAttempt::Poisoned => {
                return Err(LockFailure::Poisoned);
            },
            LockAttempt::Busy => {
                attempts = attempts + 1;
                if attempts == LOCK_ATTEMPTS {
                    return Err(LockFailure::Busy);
                }
            },
        }
    }
}

/// The state a held lock protects.
///
/// Dereferences the guard (`Deref::deref` of `MutexGuard`), which gives the
/// state the lock holds: `held()`.
#[verifier::external_body]
pub fn held_state<'b, 'a, S>(locked: &'b LockedState<'a, S>) -> (r: &'b S)
    ensures
        *r == locked.held(),
{
    &*locked.guard
}

/// The state a held lock protects, to change in place.
///
/// Dereferences the guard mutably (`DerefMut::deref_mut` of `MutexGuard`): it
/// gives the state the lock holds, and what is left behind the reference is
/// what the lock then holds.
#[verifier::external_body]
pub fn held_state_mut<'b, 'a, S>(locked: &'b mut LockedState<'a, S>) -> (r: &'b mut S)
    ensures
        *r == old(locked).held(),
        final(locked).held() == *final(r),
{
    &mut *locked.guard
}

/// Takes the state out of a held lock, leaving `placeholder` in its place.
pub fn take_held<'a, S>(locked: &mut LockedState<'a, S>, placeholder: S) -> (s: S)
    ensures
        s == old(locked).held(),
        final(locked).held() == placeholder,
{
    let mut s = placeholder;
    std::mem::swap(held_state_mut(locked), &mut s);
    s
}

/// Puts `value` into a held lock, in place of what it held.
pub fn put_held<'a, S>(locked: &mut LockedState<'a, S>, value: S)
    ensures
        final(locked).held() == value,
{
    let mut value = value;
    std::mem::swap(held_state_mut(locked), &mut value);
}

} // verus!
