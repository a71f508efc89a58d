//! A cooperative mutual exclusion cell on top of the scheduler.
//!
//! A thread that finds the mutex taken puts itself on the mutex's list of
//! sleepers and yields. Releasing the mutex moves every sleeper to the
//! kernel's wakeup set; each of them then tries again. A wake-up that comes
//! for another reason is harmless for the same reason: the thread tries
//! again.

use vstd::prelude::*;
use crate::kernel::{Kernel, KernelView, MAX_THREADS};
use crate::thread_list::ThreadList;

verus! {

/// What a `Mutex` holds, as plain values.
pub struct MutexView<T> {
    /// Whether a thread holds the mutex.
    pub locked: bool,
    /// The threads that found the mutex taken and wait for its release.
    pub sleepers: Set<int>,
    /// The protected value.
    pub data: T,
}

/// A value that one thread at a time may use.
pub struct Mutex<T> {
    locked: bool,
    waiting_threads: ThreadList,
    data: T,
}

/// The proof of having taken a mutex. It gives access to the protected value
/// and is handed back to release the mutex.
pub struct MutexGuard {
    held: (),
}

impl<T> View for Mutex<T> {
    type V = MutexView<T>;

    closed spec fn view(&self) -> MutexView<T> {
        MutexView { locked: self.locked, sleepers: self.waiting_threads@, data: self.data }
    }
}

impl<T> Mutex<T> {
    /// A free mutex around `t`.
    pub fn new(t: T) -> (mutex: Self)
        ensures
            mutex@ == (MutexView { locked: false, sleepers: Set::<int>::empty(), data: t }),
    {
        Self { locked: false, waiting_threads: ThreadList::new(), data: t }
    }

    /// One round of taking the mutex, for the current thread.
    ///
    /// A free mutex is taken and the guard returned. With the mutex taken,
    /// the current thread joins the sleepers and gets `None`: it is to yield
    /// and, once resumed, to call again. Only a thread can wait for a mutex.
    pub fn lock(&mut self, kernel: &Kernel) -> (guard: Option<MutexGuard>)
        requires
            old(self)@.locked ==> kernel@.current_thread < MAX_THREADS,
        ensures
            guard is Some <==> !old(self)@.locked,
            !old(self)@.locked ==> final(self)@ == (MutexView { locked: true, ..old(self)@ }),
            old(self)@.locked ==> final(self)@ == (MutexView {
                sleepers: old(self)@.sleepers.insert(kernel@.current_thread as int),
                ..old(self)@
            }),
    {
        match self.try_lock() {
            Some(guard) => Some(guard),
            None => {
                self.waiting_threads.add(kernel.current());
                None
            },
        }
    }

    /// Takes the mutex if it is free, and says `None` if it is not.
    pub fn try_lock(&mut self) -> (guard: Option<MutexGuard>)
        ensures
            guard is Some <==> !old(self)@.locked,
            final(self)@ == (MutexView { locked: true, ..old(self)@ }),
    {
        if self.locked {
            None
        } else {
            self.locked = true;
            Some(MutexGuard { held: () })
        }
    }

    /// Releases the mutex: it is free again, and every sleeper gets a wake-up
    /// and leaves the list.
    pub fn unlock(&mut self, guard: MutexGuard, kernel: &mut Kernel)
        ensures
            final(self)@ == (MutexView {
                locked: false,
                sleepers: Set::<int>::empty(),
                ..old(self)@
            }),
            final(kernel)@ == (KernelView {
                wakeups: old(kernel)@.wakeups.union(old(self)@.sleepers),
                ..old(kernel)@
            }),
    {
        self.locked = false;
        let sleepers = self.waiting_threads.get_all();
        kernel.post_all(sleepers);
    }

    /// The protected value, for the holder of the guard.
    pub fn get(&self, guard: &MutexGuard) -> (data: &T)
        ensures
            *data == self@.data,
    {
        &self.data
    }

    /// The protected value, to change it, for the holder of the guard.
    pub fn get_mut(&mut self, guard: &MutexGuard) -> (data: &mut T)
        ensures
            *data == old(self)@.data,
            final(self)@ == (MutexView { data: *final(data), ..old(self)@ }),
    {
        &mut self.data
    }
}

} // verus!
