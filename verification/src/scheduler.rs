//! The round-robin scheduler: which thread to enter next, and when to wait.
//!
//! The scheduler goes through the threads in ascending order, pass after
//! pass. The thread at position `i` answers to wake-up `i`. The loop itself
//! belongs to the firmware: it asks `Scheduler::next` what to do, switches
//! into the thread or waits for an interrupt, and reports back with
//! `Scheduler::thread_returned`.

use vstd::prelude::*;
use crate::kernel::{
    Kernel, KernelView, EXC_RETURN_MAIN, EXC_RETURN_PROCESS, INVALID_THREAD_ID, MAX_THREADS,
};
use crate::thread::{
    switch_reason, Context, SwitchReason, Thread, ThreadView, HARDWARE_FRAME_WORDS,
};
use crate::thread_list::{bit_is_set, mask_ids};

verus! {

/// The thread whose registers are live, or `INVALID_THREAD_ID` while the
/// scheduler runs.
pub fn get_current_thread(kernel: &Kernel) -> (id: u8)
    ensures
        id == kernel@.current_thread,
{
    kernel.current()
}

/// Posts a wake-up for every thread of the mask `ids`.
pub fn wakeup_threads(kernel: &mut Kernel, ids: u32)
    ensures
        final(kernel)@ == (KernelView {
            wakeups: old(kernel)@.wakeups.union(mask_ids(ids)),
            ..old(kernel)@
        }),
{
    kernel.post_all(ids);
}

/// Posts a wake-up for the thread `id`. Interrupt handlers call this to
/// resume work.
pub fn wakeup_thread(kernel: &mut Kernel, id: u8)
    requires
        id < MAX_THREADS,
    ensures
        final(kernel)@ == (KernelView {
            wakeups: old(kernel)@.wakeups.insert(id as int),
            ..old(kernel)@
        }),
{
    kernel.post(id);
}

/// The first position from `from` up to, but not including, `threads` that
/// has a wake-up pending.
pub open spec fn next_ready(wakeups: Set<int>, from: int, threads: int) -> Option<int>
    decreases threads - from,
{
    if from >= threads {
        None
    } else if wakeups.contains(from) {
        Some(from)
    } else {
        next_ready(wakeups, from + 1, threads)
    }
}

/// Where a pass stands: the wake-ups that are pending, and the position at
/// which the pass goes on.
pub struct PassState {
    /// The threads with a wake-up pending.
    pub wakeups: Set<int>,
    /// The position at which the pass goes on.
    pub cursor: int,
}

/// One decision of the scheduler over `threads` threads: the first thread
/// from the cursor on that has a wake-up pending loses the wake-up and is
/// resumed, and the pass goes on behind it; with no such thread nobody is
/// resumed and the next pass starts at the first thread.
pub open spec fn step(state: PassState, threads: int) -> (PassState, Option<int>) {
    match next_ready(state.wakeups, state.cursor, threads) {
        Some(ready) => (
            PassState { wakeups: state.wakeups.remove(ready), cursor: ready + 1 },
            Some(ready),
        ),
        None => (PassState { wakeups: state.wakeups, cursor: 0 }, None),
    }
}

/// What `next_ready` finds lies from `from` on, has a wake-up pending and is
/// the first such position.
pub proof fn lemma_next_ready(wakeups: Set<int>, from: int, threads: int)
    ensures
        match next_ready(wakeups, from, threads) {
            Some(ready) => {
                &&& from <= ready < threads
                &&& wakeups.contains(ready)
                &&& forall|earlier: int| from <= earlier < ready ==> !wakeups.contains(earlier)
            },
            None => forall|position: int| from <= position < threads ==> !wakeups.contains(position),
        },
    decreases threads - from,
{
    if from < threads && !wakeups.contains(from) {
        lemma_next_ready(wakeups, from + 1, threads);
    }
}

/// The ids of the first `threads` threads.
pub open spec fn all_threads(threads: int) -> Set<int> {
    Set::new(|id: int| 0 <= id < threads)
}

/// What the scheduler asks the firmware to do next.
#[derive(Debug, Clone, Copy, PartialEq, Eq)]
pub enum Action {
    /// Load `context` into the processor and run the thread at `index`; then
    /// report with `Scheduler::thread_returned`.
    Switch { index: usize, context: Context },
    /// The pass is over and no wake-up is pending: wait for an interrupt.
    Wait,
    /// The pass is over and wake-ups are pending: go on with the next pass.
    Continue,
}

impl Action {
    /// The position of the thread that the action resumes, if it resumes one.
    pub open spec fn resumed(self) -> Option<int> {
        match self {
            Action::Switch { index, context } => Some(index as int),
            _ => None,
        }
    }
}

/// What a `Scheduler` holds, as plain values.
pub struct SchedulerView {
    /// The threads, in the order in which the scheduler visits them.
    pub threads: Seq<ThreadView>,
    /// The position at which the current pass goes on.
    pub cursor: int,
}

/// Whether every thread's saved stack pointer lies within its stack, with
/// one whole hardware frame above it.
pub open spec fn contexts_in_stack(threads: Seq<ThreadView>) -> bool {
    forall|index: int| 0 <= index < threads.len() ==> (#[trigger] threads[index]).frame_in_stack()
}

/// Whether, while a thread is current, the process stack pointer is that
/// thread's stack pointer and lies within that thread's stack, and the
/// processor is on the process stack until the thread traps.
pub open spec fn psp_in_current_stack(kernel: KernelView, threads: Seq<ThreadView>) -> bool {
    kernel.current_thread != INVALID_THREAD_ID ==> {
        &&& kernel.current_thread < threads.len()
        &&& kernel.psp == threads[kernel.current_thread as int].sp
        &&& threads[kernel.current_thread as int].frame_in_stack()
        &&& !kernel.trapped() ==> kernel.exc_return == EXC_RETURN_PROCESS
    }
}

/// The exception handlers and the posting of wake-ups keep the process stack
/// pointer within the current thread's stack.
///
/// If the process stack pointer lies within the current thread's stack, it
/// still does after a supervisor call from either side, after a hard fault,
/// after the flags of other handlers were taken over while none was raised,
/// and after any change to the pending wake-ups.
pub proof fn lemma_handlers_keep_psp_in_current_stack(
    kernel: KernelView,
    threads: Seq<ThreadView>,
    thread_hard_fault: usize,
    syscall_fired: usize,
    syscall_nr: u8,
    wakeups: Set<int>,
)
    requires
        psp_in_current_stack(kernel, threads),
    ensures
        psp_in_current_stack(KernelView { exc_return: EXC_RETURN_PROCESS, ..kernel }, threads),
        psp_in_current_stack(
            KernelView { syscall_fired: 1, syscall_nr, exc_return: EXC_RETURN_MAIN, ..kernel },
            threads,
        ),
        psp_in_current_stack(
            KernelView { thread_hard_fault: 1, exc_return: EXC_RETURN_MAIN, ..kernel },
            threads,
        ),
        !kernel.trapped() ==> psp_in_current_stack(
            KernelView {
                thread_hard_fault,
                syscall_fired,
                syscall_nr,
                exc_return: if thread_hard_fault == 1 || syscall_fired == 1 {
                    EXC_RETURN_MAIN
                } else {
                    kernel.exc_return
                },
                ..kernel
            },
            threads,
        ),
        psp_in_current_stack(KernelView { wakeups, ..kernel }, threads),
{
}

/// The round-robin scheduler over a fixed array of threads.
pub struct Scheduler<'s, 'a> {
    threads: &'s mut [Thread<'a>],
    cursor: usize,
}

impl<'s, 'a> View for Scheduler<'s, 'a> {
    type V = SchedulerView;

    closed spec fn view(&self) -> SchedulerView {
        SchedulerView {
            threads: self.threads@.map_values(|thread: Thread<'a>| thread@),
            cursor: self.cursor as int,
        }
    }
}

proof fn lemma_bit_below(threads: u32, id: u32)
    requires
        threads < 32,
        id < 32,
    ensures
        bit_is_set(((1u32 << threads) - 1) as u32, id) == (id < threads),
        bit_is_set(0xFFFF_FFFF, id),
        (1u32 << threads) >= 1,
{
    assert(bit_is_set(((1u32 << threads) - 1) as u32, id) == (id < threads)) by (bit_vector)
        requires
            threads < 32,
            id < 32,
    ;
    assert(bit_is_set(0xFFFF_FFFF, id)) by (bit_vector)
        requires
            id < 32,
    ;
    assert((1u32 << threads) >= 1) by (bit_vector)
        requires
            threads < 32,
    ;
}

/// The mask of the first `threads` thread ids.
fn all_threads_mask(threads: usize) -> (mask: u32)
    requires
        threads <= MAX_THREADS,
    ensures
        mask_ids(mask) == all_threads(threads as int),
{
    let mask: u32 = if threads >= 32 {
        0xFFFF_FFFF
    } else {
        proof {
            lemma_bit_below(threads as u32, 0);
        }
        (1u32 << threads) - 1
    };
    proof {
        assert forall|id: int| mask_ids(mask).contains(id) == all_threads(threads as int).contains(
            id,
        ) by {
            if 0 <= id < 32 {
                lemma_bit_below(if threads >= 32 { 0 } else { threads as u32 }, id as u32);
            }
        }
        assert(mask_ids(mask) =~= all_threads(threads as int));
    }
    mask
}

/// Enters the scheduler: posts a wake-up for each of the `threads`, so that
/// each runs once and reaches its trampoline, and starts the first pass.
///
/// The scheduler cannot be entered from a thread.
pub fn run_threads<'s, 'a>(kernel: &mut Kernel, threads: &'s mut [Thread<'a>]) -> (scheduler:
    Scheduler<'s, 'a>)
    requires
        old(kernel)@.current_thread == INVALID_THREAD_ID,
        old(threads)@.len() <= MAX_THREADS,
    ensures
        scheduler@.threads == old(threads)@.map_values(|thread: Thread<'a>| thread@),
        scheduler@.cursor == 0,
        final(kernel)@ == (KernelView {
            wakeups: old(kernel)@.wakeups.union(all_threads(old(threads)@.len() as int)),
            ..old(kernel)@
        }),
        psp_in_current_stack(final(kernel)@, scheduler@.threads),
{
    let mask = all_threads_mask(threads.len());
    kernel.post_all(mask);
    Scheduler { threads, cursor: 0 }
}

impl<'s, 'a> Scheduler<'s, 'a> {
    #[verifier::type_invariant]
    spec fn in_range(self) -> bool {
        self.cursor <= self.threads@.len() <= MAX_THREADS
    }

    /// Decides what to do next.
    ///
    /// The pass goes on at the cursor. The first thread from there that has a
    /// wake-up pending loses the wake-up, becomes the current thread, and is
    /// to be switched to. With no such thread the pass is over: the next one
    /// starts at the first thread, after a wait if no wake-up is pending at
    /// all. A thread without a pending wake-up is never switched to.
    pub fn next(&mut self, kernel: &mut Kernel) -> (action: Action)
        ensures
            final(self)@.threads == old(self)@.threads,
            0 <= final(self)@.cursor <= final(self)@.threads.len() <= MAX_THREADS,
            (
                PassState { wakeups: final(kernel)@.wakeups, cursor: final(self)@.cursor },
                action.resumed(),
            ) == step(
                PassState { wakeups: old(kernel)@.wakeups, cursor: old(self)@.cursor },
                old(self)@.threads.len() as int,
            ),
            match action {
                Action::Switch { index, context } => {
                    &&& index < old(self)@.threads.len()
                    &&& old(kernel)@.wakeups.contains(index as int)
                    &&& context.sp == old(self)@.threads[index as int].sp
                    &&& context.regs@ == old(self)@.threads[index as int].regs
                    &&& final(kernel)@ == (KernelView {
                        wakeups: old(kernel)@.wakeups.remove(index as int),
                        current_thread: index as u8,
                        psp: context.sp,
                        exc_return: EXC_RETURN_PROCESS,
                        ..old(kernel)@
                    })
                },
                _ => {
                    &&& action is Wait <==> old(kernel)@.wakeups == Set::<int>::empty()
                    &&& final(kernel)@ == (KernelView {
                        current_thread: INVALID_THREAD_ID,
                        ..old(kernel)@
                    })
                },
            },
            contexts_in_stack(old(self)@.threads) ==> psp_in_current_stack(
                final(kernel)@,
                final(self)@.threads,
            ),
    {
        proof {
            use_type_invariant(&*self);
        }
        let threads = self.threads.len();
        let mut index = self.cursor;
        proof {
            lemma_next_ready(kernel@.wakeups, index as int, threads as int);
        }
        while index < threads
            invariant
                self.cursor <= index <= threads <= MAX_THREADS,
                threads == self.threads@.len(),
                *self == *old(self),
                kernel@ == old(kernel)@,
                next_ready(kernel@.wakeups, self.cursor as int, threads as int) == next_ready(
                    kernel@.wakeups,
                    index as int,
                    threads as int,
                ),
            decreases threads - index,
        {
            if kernel.claim(index as u8) {
                let context = self.threads[index].context();
                kernel.enter(index as u8, context.sp);
                self.cursor = index + 1;
                return Action::Switch { index, context };
            }
            assert(kernel@.wakeups =~= old(kernel)@.wakeups);
            index += 1;
        }
        self.cursor = 0;
        kernel.park();
        if kernel.idle() {
            Action::Wait
        } else {
            Action::Continue
        }
    }

    /// Takes back the thread that was running.
    ///
    /// `context` is what the switch routine read from the processor when the
    /// current thread trapped. The thread keeps it for its next turn, no
    /// thread is current any more, and the answer says how the thread came
    /// back. With no thread of this scheduler current, the answer is `None`
    /// and nothing has changed.
    pub fn thread_returned(&mut self, kernel: &mut Kernel, context: Context) -> (reason: Option<
        SwitchReason,
    >)
        ensures
            final(self)@.cursor == old(self)@.cursor,
            old(kernel)@.current_thread < old(self)@.threads.len() ==> {
                let current = old(kernel)@.current_thread as int;
                &&& reason == Some(
                    switch_reason(
                        old(kernel)@.thread_hard_fault,
                        old(kernel)@.syscall_fired,
                        old(kernel)@.syscall_nr,
                    ),
                )
                &&& final(self)@.threads == old(self)@.threads.update(
                    current,
                    ThreadView {
                        sp: context.sp,
                        regs: context.regs@,
                        ..old(self)@.threads[current]
                    },
                )
                &&& final(kernel)@ == (KernelView {
                    current_thread: INVALID_THREAD_ID,
                    psp: context.sp,
                    syscall_fired: 0,
                    thread_hard_fault: 0,
                    ..old(kernel)@
                })
                &&& contexts_in_stack(old(self)@.threads) && context.sp + HARDWARE_FRAME_WORDS
                    <= old(self)@.threads[current].stack.len() ==> contexts_in_stack(
                    final(self)@.threads,
                )
            },
            old(kernel)@.current_thread >= old(self)@.threads.len() ==> {
                &&& reason is None
                &&& final(self)@ == old(self)@
                &&& final(kernel)@ == old(kernel)@
            },
            psp_in_current_stack(old(kernel)@, old(self)@.threads) ==> psp_in_current_stack(
                final(kernel)@,
                final(self)@.threads,
            ),
    {
        proof {
            use_type_invariant(&*self);
        }
        let current = kernel.current();
        if (current as usize) < self.threads.len() {
            let reason = self.threads[current as usize].switch_return(kernel, context);
            proof {
                assert(self@.threads =~= old(self)@.threads.update(
                    current as int,
                    ThreadView {
                        sp: context.sp,
                        regs: context.regs@,
                        ..old(self)@.threads[current as int]
                    },
                ));
            }
            Some(reason)
        } else {
            None
        }
    }

    /// The thread at position `index`, or `None` beyond the last thread.
    pub fn thread(&self, index: usize) -> (thread: Option<&Thread<'a>>)
        ensures
            match thread {
                Some(thread) => index < self@.threads.len() && thread@ == self@.threads[index as int],
                None => index >= self@.threads.len(),
            },
    {
        if index < self.threads.len() {
            Some(&self.threads[index])
        } else {
            None
        }
    }

    /// The number of threads.
    pub fn len(&self) -> (threads: usize)
        ensures
            threads == self@.threads.len(),
            threads <= MAX_THREADS,
    {
        proof {
            use_type_invariant(self);
        }
        self.threads.len()
    }
}

} // verus!
