//! The process-wide state of the kernel, and the exception shims that write
//! it.
//!
//! A firmware image keeps this state in statics, because an exception
//! handler has no object to hang it on. Here it is one value, handed to every
//! function that reads or changes it.

use vstd::prelude::*;
use crate::thread_list::{mask_ids, ThreadList};

verus! {

/// The thread id that stands for "no thread": the scheduler itself is running.
pub const INVALID_THREAD_ID: u8 = 0xff;

/// The number of threads that the wakeup set has room for.
pub const MAX_THREADS: u8 = 32;

/// The supervisor call by which a thread yields.
pub const SVC_YIELD: u8 = 0;

/// The supervisor call by which a thread reports that its closure returned.
pub const SVC_FINISHED: u8 = 1;

/// The supervisor call that the switch routine issues to enter a thread.
pub const SVC_SWITCH: u8 = 0xff;

/// The exception return value for thread mode on the main stack.
pub const EXC_RETURN_MAIN: u32 = 0xFFFF_FFF9;

/// The exception return value for thread mode on the process stack.
pub const EXC_RETURN_PROCESS: u32 = 0xFFFF_FFFD;

/// The number that a supervisor call instruction carries: its low byte.
pub open spec fn svc_number(svc_instruction: u16) -> u8 {
    (svc_instruction & 0xff) as u8
}

/// The supervisor call instruction that carries `number`.
pub fn svc_instruction(number: u8) -> (instruction: u16)
    ensures
        svc_number(instruction) == number,
        instruction == 0xDF00 + number,
{
    assert((0xDF00u16 | (number as u16)) & 0xff == number as u16 && (0xDF00u16 | (number as u16))
        == 0xDF00u16 + (number as u16)) by (bit_vector);
    0xDF00 | (number as u16)
}

/// What a `Kernel` holds, as plain values.
pub struct KernelView {
    /// The thread whose registers are live, or `INVALID_THREAD_ID`.
    pub current_thread: u8,
    /// The threads with a wake-up pending.
    pub wakeups: Set<int>,
    /// The number of threads created so far.
    pub total_threads: u8,
    /// The process stack pointer as the switch routine last wrote or read it,
    /// in cells from the start of the thread's stack.
    pub psp: usize,
    /// Set to 1 by the supervisor call handler when a thread trapped.
    pub syscall_fired: usize,
    /// Set to 1 by the hard fault handler.
    pub thread_hard_fault: usize,
    /// The number of the supervisor call that a thread last issued.
    pub syscall_nr: u8,
    /// The exception return value that an exception handler last answered:
    /// the stack on which the processor went on.
    pub exc_return: u32,
}

impl KernelView {
    /// Whether an exception handler has raised a flag that the scheduler has
    /// not read yet: a thread trapped and the scheduler is to take over.
    pub open spec fn trapped(self) -> bool {
        self.syscall_fired == 1 || self.thread_hard_fault == 1
    }
}

/// The state that the scheduler, the threads and the exception handlers
/// share.
///
/// It is a plain value: each function has it to itself for its duration. A
/// firmware whose interrupt handlers post wake-ups masks interrupts around
/// each call.
pub struct Kernel {
    current_thread: u8,
    wakeups: ThreadList,
    total_threads: u8,
    psp: usize,
    syscall_fired: usize,
    thread_hard_fault: usize,
    syscall_nr: u8,
    exc_return: u32,
}

impl View for Kernel {
    type V = KernelView;

    closed spec fn view(&self) -> KernelView {
        KernelView {
            current_thread: self.current_thread,
            wakeups: self.wakeups@,
            total_threads: self.total_threads,
            psp: self.psp,
            syscall_fired: self.syscall_fired,
            thread_hard_fault: self.thread_hard_fault,
            syscall_nr: self.syscall_nr,
            exc_return: self.exc_return,
        }
    }
}

impl Kernel {
    /// The state at reset: the scheduler is running on the main stack, no
    /// thread exists, no wake-up is pending and no flag is raised.
    pub fn new() -> (kernel: Self)
        ensures
            kernel@ == (KernelView {
                current_thread: INVALID_THREAD_ID,
                wakeups: Set::<int>::empty(),
                total_threads: 0,
                psp: 0,
                syscall_fired: 0,
                thread_hard_fault: 0,
                syscall_nr: 0,
                exc_return: EXC_RETURN_MAIN,
            }),
    {
        Kernel {
            current_thread: INVALID_THREAD_ID,
            wakeups: ThreadList::new(),
            total_threads: 0,
            psp: 0,
            syscall_fired: 0,
            thread_hard_fault: 0,
            syscall_nr: 0,
            exc_return: EXC_RETURN_MAIN,
        }
    }

    /// The number of threads created so far.
    pub fn total_threads(&self) -> (total: u8)
        ensures
            total == self@.total_threads,
    {
        self.total_threads
    }

    /// The process stack pointer as the switch routine last wrote or read it.
    pub fn psp(&self) -> (psp: usize)
        ensures
            psp == self@.psp,
    {
        self.psp
    }

    /// The exception return value that an exception handler last answered.
    pub fn exc_return(&self) -> (exc_return: u32)
        ensures
            exc_return == self@.exc_return,
    {
        self.exc_return
    }

    /// Whether a wake-up is pending for the thread `id`.
    pub fn is_pending(&self, id: u8) -> (pending: bool)
        requires
            id < MAX_THREADS,
        ensures
            pending == self@.wakeups.contains(id as int),
    {
        self.wakeups.contains(id)
    }

    /// Takes over what exception handlers outside this crate left behind when
    /// a thread trapped: the two flag words as they stood, and the halfword
    /// before the thread's stacked program counter. A handler that raised its
    /// flag has returned to the main stack.
    pub fn record_trap(
        &mut self,
        thread_hard_fault: usize,
        syscall_fired: usize,
        svc_instruction: u16,
    )
        ensures
            final(self)@ == (KernelView {
                thread_hard_fault,
                syscall_fired,
                syscall_nr: svc_number(svc_instruction),
                exc_return: if thread_hard_fault == 1 || syscall_fired == 1 {
                    EXC_RETURN_MAIN
                } else {
                    old(self)@.exc_return
                },
                ..old(self)@
            }),
    {
        assert(svc_instruction & 0xff < 256) by (bit_vector);
        self.thread_hard_fault = thread_hard_fault;
        self.syscall_fired = syscall_fired;
        self.syscall_nr = (svc_instruction & 0xff) as u8;
        if thread_hard_fault == 1 || syscall_fired == 1 {
            self.exc_return = EXC_RETURN_MAIN;
        }
    }

    /// The thread whose registers are live, or `INVALID_THREAD_ID`.
    pub(crate) fn current(&self) -> (id: u8)
        ensures
            id == self@.current_thread,
    {
        self.current_thread
    }

    /// Whether no wake-up is pending.
    pub(crate) fn idle(&self) -> (idle: bool)
        ensures
            idle <==> self@.wakeups == Set::<int>::empty(),
    {
        self.wakeups.is_empty()
    }

    /// Posts a wake-up for every thread of the mask `ids`.
    pub(crate) fn post_all(&mut self, ids: u32)
        ensures
            final(self)@ == (KernelView {
                wakeups: old(self)@.wakeups.union(mask_ids(ids)),
                ..old(self)@
            }),
    {
        self.wakeups.add_all(ids);
    }

    /// Posts a wake-up for the thread `id`.
    pub(crate) fn post(&mut self, id: u8)
        requires
            id < MAX_THREADS,
        ensures
            final(self)@ == (KernelView {
                wakeups: old(self)@.wakeups.insert(id as int),
                ..old(self)@
            }),
    {
        self.wakeups.add(id);
    }

    /// Takes the wake-up of the thread `id`, if one is pending.
    pub(crate) fn claim(&mut self, id: u8) -> (pending: bool)
        requires
            id < MAX_THREADS,
        ensures
            pending == old(self)@.wakeups.contains(id as int),
            final(self)@ == (KernelView {
                wakeups: old(self)@.wakeups.remove(id as int),
                ..old(self)@
            }),
    {
        self.wakeups.remove(id)
    }

    /// Counts one more thread, gives it the next id and posts its first
    /// wake-up.
    pub(crate) fn register(&mut self) -> (id: u8)
        requires
            old(self)@.total_threads < MAX_THREADS,
        ensures
            id == old(self)@.total_threads,
            final(self)@ == (KernelView {
                total_threads: (id + 1) as u8,
                wakeups: old(self)@.wakeups.insert(id as int),
                ..old(self)@
            }),
    {
        let id = self.total_threads;
        self.total_threads = id + 1;
        self.wakeups.add(id);
        id
    }

    /// Makes `id` the current thread and switches to it: its stack pointer
    /// goes to the process stack pointer, and the supervisor call of the switch
    /// routine has the handler return to the process stack.
    pub(crate) fn enter(&mut self, id: u8, sp: usize)
        ensures
            final(self)@ == (KernelView {
                current_thread: id,
                psp: sp,
                exc_return: EXC_RETURN_PROCESS,
                ..old(self)@
            }),
    {
        self.current_thread = id;
        self.psp = sp;
        SVCall(self, EXC_RETURN_MAIN, svc_instruction(SVC_SWITCH));
    }

    /// Ends a pass: no thread is current.
    pub(crate) fn park(&mut self)
        ensures
            final(self)@ == (KernelView { current_thread: INVALID_THREAD_ID, ..old(self)@ }),
    {
        self.current_thread = INVALID_THREAD_ID;
    }

    /// Hands control back to the scheduler: no thread is current, the process
    /// stack pointer is read back, and the flags are read and cleared. Returns
    /// the hard fault flag, the supervisor call flag and the call's number as
    /// they stood.
    pub(crate) fn leave(&mut self, sp: usize) -> (flags: (usize, usize, u8))
        ensures
            flags == (
                old(self)@.thread_hard_fault,
                old(self)@.syscall_fired,
                old(self)@.syscall_nr,
            ),
            final(self)@ == (KernelView {
                current_thread: INVALID_THREAD_ID,
                psp: sp,
                syscall_fired: 0,
                thread_hard_fault: 0,
                ..old(self)@
            }),
        no_unwind
    {
        let flags = (self.thread_hard_fault, self.syscall_fired, self.syscall_nr);
        self.current_thread = INVALID_THREAD_ID;
        self.psp = sp;
        self.syscall_fired = 0;
        self.thread_hard_fault = 0;
        flags
    }
}

/// The supervisor call handler: the one gate between the scheduler on the
/// main stack and a thread on the process stack.
///
/// `exc_return` is the link register on entry. Coming from the scheduler it
/// is `EXC_RETURN_MAIN`, and the handler answers `EXC_RETURN_PROCESS`, so
/// that the exception returns into the thread. Coming from a thread, the
/// handler raises the supervisor call flag, records the number carried by
/// `svc_instruction` (the halfword before the stacked program counter), and
/// answers `EXC_RETURN_MAIN`, so that the exception returns into the
/// scheduler.
#[allow(non_snake_case)]
pub fn SVCall(kernel: &mut Kernel, exc_return: u32, svc_instruction: u16) -> (lr: u32)
    ensures
        exc_return == EXC_RETURN_MAIN ==> lr == EXC_RETURN_PROCESS && final(kernel)@ == (
        KernelView { exc_return: EXC_RETURN_PROCESS, ..old(kernel)@ }),
        exc_return != EXC_RETURN_MAIN ==> lr == EXC_RETURN_MAIN && final(kernel)@ == (KernelView {
            syscall_fired: 1,
            syscall_nr: svc_number(svc_instruction),
            exc_return: EXC_RETURN_MAIN,
            ..old(kernel)@
        }),
{
    if exc_return == EXC_RETURN_MAIN {
        kernel.exc_return = EXC_RETURN_PROCESS;
        EXC_RETURN_PROCESS
    } else {
        assert(svc_instruction & 0xff < 256) by (bit_vector);
        kernel.syscall_fired = 1;
        kernel.syscall_nr = (svc_instruction & 0xff) as u8;
        kernel.exc_return = EXC_RETURN_MAIN;
        EXC_RETURN_MAIN
    }
}

/// The hard fault hook for a fault in a thread: raises the hard fault flag
/// for the scheduler to find when the switch returns, and returns to the main
/// stack.
#[allow(non_snake_case)]
pub fn HardFault(kernel: &mut Kernel)
    ensures
        final(kernel)@ == (KernelView {
            thread_hard_fault: 1,
            exc_return: EXC_RETURN_MAIN,
            ..old(kernel)@
        }),
{
    kernel.thread_hard_fault = 1;
    kernel.exc_return = EXC_RETURN_MAIN;
}

} // verus!
