//! A flag that threads can wait for, and locking that survives a
//! poisoned mutex.
use vstd::prelude::*;
use std::sync::{Arc, Condvar, LockResult, Mutex, MutexGuard, PoisonError};

verus! {

/// `std::sync::Mutex`, carried through without a look inside.
#[verifier::external_type_specification]
#[verifier::external_body]
#[verifier::reject_recursive_types(T)]
pub struct ExMutex<T: ?Sized>(Mutex<T>);

/// `std::sync::MutexGuard`, carried through without a look inside.
#[verifier::external_type_specification]
#[verifier::external_body]
#[verifier::reject_recursive_types(T)]
pub struct ExMutexGuard<'a, T: ?Sized + 'a>(MutexGuard<'a, T>);

/// `std::sync::PoisonError`, carried through without a look inside.
#[verifier::external_type_specification]
#[verifier::external_body]
#[verifier::reject_recursive_types(T)]
pub struct ExPoisonError<T>(PoisonError<T>);

/// `std::sync::Condvar`, carried through without a look inside.
#[verifier::external_type_specification]
#[verifier::external_body]
pub struct ExCondvar(Condvar);

/// `PoisonError::into_inner` hands out what the error carries.
pub assume_specification<T>[ PoisonError::<T>::into_inner ](e: PoisonError<T>) -> (r: T);

/// `Mutex::new` makes a mutex around a value.
pub assume_specification<T>[ Mutex::<T>::new ](t: T) -> (r: Mutex<T>);

/// `Mutex::lock` blocks until the lock is held. What the guard then
/// protects is whatever another thread left there.
pub assume_specification<T: ?Sized>[ Mutex::<T>::lock ](m: &Mutex<T>) -> (r: LockResult<
    MutexGuard<'_, T>,
>);

/// `Condvar::new` makes a condition variable.
pub assume_specification[ Condvar::new ]() -> (r: Condvar);

/// `Condvar::notify_one` wakes one waiting thread.
pub assume_specification[ Condvar::notify_one ](c: &Condvar);

/// `Condvar::notify_all` wakes every waiting thread.
pub assume_specification[ Condvar::notify_all ](c: &Condvar);

/// Assignment through a guard to the flag that it protects.
#[verifier::external_body]
fn store_flag(guard: &mut MutexGuard<bool>, v: bool) {
    **guard = v;
}

/// The flag is not set.
fn is_clear(flag: bool) -> (r: bool)
    ensures
        r == !flag,
{
    !flag
}

/// `Condvar::wait_while` gives the lock up and sleeps while the flag is
/// clear. Nothing is claimed of what it returns: it comes back with the
/// flag set, or as soon as it finds the mutex poisoned.
#[verifier::external_body]
fn wait_while_clear<'a>(c: &Condvar, guard: MutexGuard<'a, bool>) -> (r: LockResult<
    MutexGuard<'a, bool>,
>) {
    c.wait_while(guard, |flag| is_clear(*flag))
}

/// The guard of a lock result, also where the mutex is poisoned.
pub fn always_lock<G>(res: LockResult<G>) -> (g: G)
    ensures
        res matches Ok(x) ==> g == x,
{
    match res {
        Ok(g) => g,
        Err(e) => e.into_inner(),
    }
}

/// A flag shared between threads: set by the notifying side, awaited by
/// the others.
#[derive(Clone)]
pub struct CVar(Arc<(Mutex<bool>, Condvar)>);

impl CVar {
    /// A flag that is not set.
    pub fn new() -> (r: Self) {
        CVar(Arc::new((Mutex::new(false), Condvar::new())))
    }

    /// Blocks until the flag is set, and returns the guard of the flag.
    /// It also returns when it finds the mutex poisoned.
    pub fn wait(&self) -> (r: MutexGuard<bool>) {
        let guard = always_lock(self.0.0.lock());
        always_lock(wait_while_clear(&self.0.1, guard))
    }

    /// Sets the flag and wakes one waiting thread.
    pub fn notify_one(&self) {
        let mut guard = always_lock(self.0.0.lock());
        store_flag(&mut guard, true);
        self.0.1.notify_one();
    }

    /// Sets the flag and wakes every waiting thread.
    pub fn notify_all(&self) {
        let mut guard = always_lock(self.0.0.lock());
        store_flag(&mut guard, true);
        self.0.1.notify_all();
    }

    /// Clears the flag.
    pub fn reset(&self) {
        let mut guard = always_lock(self.0.0.lock());
        store_flag(&mut guard, false);
    }
}

} // verus!
