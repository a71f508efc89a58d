//! A cooperative multithreading kernel for a single-core Cortex-M
//! microcontroller, as a verified model of its scheduling layer.
//!
//! The crate holds the decisions of the kernel: the wakeup bitset, the layout
//! of a fresh thread stack, the classification of a context switch, the
//! round-robin pass and the cooperative mutex. The process-wide state that a
//! firmware image keeps in statics is passed explicitly as a [`Kernel`].
//! The instructions that only the processor can run (the supervisor call, the
//! register bank load and store, the wait for interrupt) stay with the
//! firmware, which hands their results to the functions of this crate.

pub mod fairness;
pub mod kernel;
pub mod mutex;
pub mod scheduler;
pub mod thread;
pub mod thread_list;

pub use kernel::{svc_instruction, HardFault, Kernel, SVCall};
pub use mutex::{Mutex, MutexGuard};
pub use scheduler::{
    get_current_thread, run_threads, wakeup_thread, wakeup_threads, Action, Scheduler,
};
pub use thread::{
    schedule_all, threads_waiting, ClosureImage, Context, SwitchReason, Thread, ThreadCreateError,
    ThreadID,
};
pub use thread_list::{ThreadList, ThreadListIter};
