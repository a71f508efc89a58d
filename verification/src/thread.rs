//! The execution context of a thread: its stack, its saved registers, and
//! the two halves of a context switch.
//!
//! A stack is a buffer of machine words. Positions in it are counted in cells
//! from its start; the stack grows towards cell 0.

use vstd::prelude::*;
use vstd::arithmetic::div_mod::{lemma_add_mod_noop, lemma_fundamental_div_mod_converse};
use crate::kernel::{
    Kernel, KernelView, EXC_RETURN_PROCESS, INVALID_THREAD_ID, MAX_THREADS, SVC_FINISHED, SVC_YIELD,
};
use crate::thread_list::mask_ids;

verus! {

/// The number of words that the processor stacks on exception entry.
pub const HARDWARE_FRAME_WORDS: usize = 8;

/// The number of words of a closure that travel in argument registers.
pub const REGISTER_ARGUMENT_WORDS: usize = 4;

/// The slot of the hardware frame, counted from the stack pointer, that holds
/// the link register.
pub const FRAME_LR: usize = 5;

/// The slot of the hardware frame, counted from the stack pointer, that holds
/// the program counter: the address at which the thread goes on. The
/// supervisor call that brought a thread back is the halfword before it.
pub const FRAME_PC: usize = 6;

/// The initial program status word: only the Thumb bit is set.
pub const INITIAL_XPSR: usize = 0x0100_0000;

/// The value that R12 holds when a thread is first entered.
pub const INITIAL_R12: usize = 0xCCCC_CCCC;

/// Why a thread could not be created.
#[derive(Debug, Clone, Copy, PartialEq, Eq)]
pub enum ThreadCreateError {
    /// All 32 thread ids are taken.
    TooManyThreads,
    /// The stack cannot hold the hardware frame and the closure's words.
    StackTooSmall,
    /// A thread, not the scheduler, asked for the new thread.
    NotOnMainThread,
}

/// How a switch into a thread ended.
#[derive(Debug, Clone, Copy, PartialEq, Eq)]
pub enum SwitchReason {
    /// The thread yielded.
    Yield,
    /// The thread took a hard fault.
    Fault,
    /// The thread's closure returned.
    Finished,
    /// The thread had no wake-up pending and was not entered.
    NotReady,
    /// The thread came back in a way that the kernel does not know.
    Unknown,
}

/// The outcome of a switch, from the flags that the exception handlers left:
/// a hard fault wins over a supervisor call, and of the supervisor calls only
/// yield and finished are known.
pub open spec fn switch_reason(thread_hard_fault: usize, syscall_fired: usize, syscall_nr: u8)
    -> SwitchReason {
    if thread_hard_fault == 1 {
        SwitchReason::Fault
    } else if syscall_fired == 1 {
        if syscall_nr == SVC_YIELD {
            SwitchReason::Yield
        } else if syscall_nr == SVC_FINISHED {
            SwitchReason::Finished
        } else {
            SwitchReason::Unknown
        }
    } else {
        SwitchReason::Unknown
    }
}

impl SwitchReason {
    /// Classifies the return from a thread by the flags that the exception
    /// handlers left.
    pub fn classify(thread_hard_fault: usize, syscall_fired: usize, syscall_nr: u8) -> (reason:
        SwitchReason)
        ensures
            reason == switch_reason(thread_hard_fault, syscall_fired, syscall_nr),
        no_unwind
    {
        if thread_hard_fault == 1 {
            SwitchReason::Fault
        } else if syscall_fired == 1 {
            if syscall_nr == SVC_YIELD {
                SwitchReason::Yield
            } else if syscall_nr == SVC_FINISHED {
                SwitchReason::Finished
            } else {
                SwitchReason::Unknown
            }
        } else {
            SwitchReason::Unknown
        }
    }
}

/// The identity of a thread: a number below 32 given out in creation order,
/// or `INVALID_THREAD_ID` for the scheduler.
#[derive(Copy, Clone)]
pub struct ThreadID {
    index: u8,
}

impl ThreadID {
    /// The number behind the id.
    pub closed spec fn spec_raw(&self) -> u8 {
        self.index
    }

    /// The id with the number `index`.
    pub fn new(index: u8) -> (id: Self)
        ensures
            id.raw() == index,
    {
        Self { index }
    }

    /// The number behind the id.
    #[verifier::when_used_as_spec(spec_raw)]
    pub fn raw(&self) -> (index: u8)
        ensures
            index == self.raw(),
    {
        self.index
    }

    /// Posts a wake-up for this thread.
    pub fn schedule(&self, kernel: &mut Kernel)
        requires
            self.raw() < MAX_THREADS,
        ensures
            final(kernel)@ == (KernelView {
                wakeups: old(kernel)@.wakeups.insert(self.raw() as int),
                ..old(kernel)@
            }),
    {
        kernel.post(self.index);
    }
}

/// A closure as the kernel sees it when it builds a thread's first frame.
#[derive(Debug, Clone, Copy)]
pub struct ClosureImage<'w> {
    /// The address of the trampoline that calls the closure.
    pub trampoline: usize,
    /// The address of the routine that a returning closure falls into.
    pub thread_end: usize,
    /// The closure's captured value, word by word.
    pub words: &'w [usize],
    /// The closure's natural alignment in words; 0 and 1 ask for none.
    pub align: usize,
}

/// The part of a thread that a context switch moves between the thread and
/// the processor.
#[derive(Debug, Clone, Copy, PartialEq, Eq)]
pub struct Context {
    /// The stack pointer, in cells from the start of the thread's stack.
    pub sp: usize,
    /// The callee-saved registers, in the order of the save area.
    pub regs: [usize; 8],
}

/// By how many cells the address of cell `top` lies above a multiple of
/// `align`, for a stack whose cell 0 has the word address `stack_base`.
pub open spec fn misalignment(stack_base: int, top: int, align: int) -> int {
    if align <= 1 {
        0
    } else {
        (stack_base + top) % align
    }
}

/// The cell just above the hardware frame of a fresh thread. A closure of up
/// to four words leaves the frame at the end of the stack. Longer ones keep
/// their words from the fifth on at the end of the stack, moved down to the
/// closure's alignment, and the frame ends where those words begin.
pub open spec fn frame_top(stack_len: int, stack_base: int, words: int, align: int) -> int {
    if words <= REGISTER_ARGUMENT_WORDS {
        stack_len
    } else {
        let unaligned = stack_len - (words - REGISTER_ARGUMENT_WORDS);
        unaligned - misalignment(stack_base, unaligned, align)
    }
}

/// What the hardware frame of a fresh thread holds in its slot `slot`,
/// counted from the stack pointer, before the closure's words are loaded:
/// recognisable values in R0 to R3 and R12, then LR, PC and xPSR.
pub open spec fn frame_default(closure: ClosureImage<'_>, slot: int) -> usize {
    if slot == 0 {
        0x0000_0000
    } else if slot == 1 {
        0x1111_1111
    } else if slot == 2 {
        0x2222_2222
    } else if slot == 3 {
        0x3333_3333
    } else if slot == 4 {
        INITIAL_R12
    } else if slot == FRAME_LR {
        closure.thread_end
    } else if slot == FRAME_PC {
        closure.trampoline
    } else {
        INITIAL_XPSR
    }
}

/// What the hardware frame of a fresh thread holds in its slot `slot`: the
/// argument registers R0 to R3 carry the closure's first words, as far as it
/// has any.
pub open spec fn frame_cell(closure: ClosureImage<'_>, slot: int) -> usize {
    if 0 <= slot < REGISTER_ARGUMENT_WORDS && slot < closure.words@.len() {
        closure.words@[slot]
    } else {
        frame_default(closure, slot)
    }
}

/// What a cell of a fresh thread's stack holds, given the stack before and
/// the cell `top` just above the frame: the frame below `top`, the closure's
/// words from the fifth on from `top` upwards, and elsewhere what was there.
pub open spec fn initial_cell(before: Seq<usize>, top: int, closure: ClosureImage<'_>, cell: int)
    -> usize {
    if top - HARDWARE_FRAME_WORDS <= cell < top {
        frame_cell(closure, cell - (top - HARDWARE_FRAME_WORDS))
    } else if top <= cell < top + closure.words@.len() - REGISTER_ARGUMENT_WORDS {
        closure.words@[cell - top + REGISTER_ARGUMENT_WORDS]
    } else {
        before[cell]
    }
}

/// The stack of a fresh thread.
pub open spec fn initial_stack(before: Seq<usize>, top: int, closure: ClosureImage<'_>) -> Seq<
    usize,
> {
    Seq::new(before.len(), |cell: int| initial_cell(before, top, closure, cell))
}

/// The save area of a fresh thread: recognisable values, which the first
/// switch out of the thread overwrites.
pub open spec fn initial_registers() -> Seq<usize> {
    seq![
        0x7777_7777usize,
        0x6666_6666usize,
        0x5555_5555usize,
        0x4444_4444usize,
        0xBBBB_BBBBusize,
        0xAAAA_AAAAusize,
        0x9999_9999usize,
        0x8888_8888usize,
    ]
}

/// The error, if any, with which the creation of a thread ends: a thread may
/// not create threads, there are 32 ids, and the stack must hold the hardware
/// frame below the closure's stacked words.
pub open spec fn creation_error(
    kernel: KernelView,
    stack_len: int,
    stack_base: int,
    closure: ClosureImage<'_>,
) -> Option<ThreadCreateError> {
    if kernel.current_thread != INVALID_THREAD_ID {
        Some(ThreadCreateError::NotOnMainThread)
    } else if kernel.total_threads >= MAX_THREADS {
        Some(ThreadCreateError::TooManyThreads)
    } else if frame_top(stack_len, stack_base, closure.words@.len() as int, closure.align as int)
        < HARDWARE_FRAME_WORDS {
        Some(ThreadCreateError::StackTooSmall)
    } else {
        None
    }
}

/// By how many cells the address of cell `top` lies above a multiple of
/// `align`.
fn misaligned_by(stack_base: usize, top: usize, align: usize) -> (pad: usize)
    ensures
        pad == misalignment(stack_base as int, top as int, align as int),
{
    if align <= 1 {
        0
    } else {
        let base_part = stack_base % align;
        let top_part = top % align;
        proof {
            lemma_add_mod_noop(stack_base as int, top as int, align as int);
            let sum = base_part + top_part;
            if sum >= align {
                lemma_fundamental_div_mod_converse(sum, align as int, 1, sum - align);
            } else {
                lemma_fundamental_div_mod_converse(sum, align as int, 0, sum);
            }
        }
        if base_part >= align - top_part {
            base_part - (align - top_part)
        } else {
            base_part + top_part
        }
    }
}

/// What a `Thread` holds, as plain values.
pub struct ThreadView {
    /// The cells of the stack.
    pub stack: Seq<usize>,
    /// The save area for the callee-saved registers.
    pub regs: Seq<usize>,
    /// The stack pointer, in cells from the start of the stack.
    pub sp: usize,
    /// The number of the thread's id.
    pub id: u8,
}

impl ThreadView {
    /// Whether the stack pointer lies within the stack, with one whole
    /// hardware frame above it.
    pub open spec fn frame_in_stack(self) -> bool {
        self.sp + HARDWARE_FRAME_WORDS <= self.stack.len()
    }
}

/// A thread: a borrowed stack, a save area for the registers that the
/// processor does not stack, a stack pointer and an id.
pub struct Thread<'a> {
    _stack: &'a mut [usize],
    thread_regs: [usize; 8],
    sp: usize,
    id: ThreadID,
}

impl<'a> View for Thread<'a> {
    type V = ThreadView;

    closed spec fn view(&self) -> ThreadView {
        ThreadView {
            stack: self._stack@,
            regs: self.thread_regs@,
            sp: self.sp,
            id: self.id.raw(),
        }
    }
}

impl<'a> Thread<'a> {
    #[verifier::type_invariant]
    spec fn has_thread_id(self) -> bool {
        self.id.raw() < MAX_THREADS
    }

    /// Creates a thread on `stack` that will run `closure` when it is first
    /// entered, and posts its first wake-up.
    ///
    /// `stack_base` is the word address of the stack's first cell; it decides
    /// where an aligned closure comes to lie. On success the thread has the
    /// next free id, its stack holds the hardware frame and the closure's
    /// words, and its stack pointer is at the frame's lowest cell. On failure
    /// neither the kernel nor the stack has changed.
    pub fn new(
        kernel: &mut Kernel,
        stack: &'a mut [usize],
        stack_base: usize,
        closure: &ClosureImage<'_>,
    ) -> (created: Result<Self, ThreadCreateError>)
        ensures
            created is Err <==> creation_error(
                old(kernel)@,
                old(stack)@.len() as int,
                stack_base as int,
                *closure,
            ) is Some,
            match created {
                Ok(thread) => {
                    let top = frame_top(
                        old(stack)@.len() as int,
                        stack_base as int,
                        closure.words@.len() as int,
                        closure.align as int,
                    );
                    &&& thread@.id == old(kernel)@.total_threads
                    &&& thread@.sp == top - HARDWARE_FRAME_WORDS
                    &&& thread@.stack == initial_stack(old(stack)@, top, *closure)
                    &&& thread@.regs == initial_registers()
                    &&& thread@.frame_in_stack()
                    &&& final(kernel)@ == (KernelView {
                        total_threads: (old(kernel)@.total_threads + 1) as u8,
                        wakeups: old(kernel)@.wakeups.insert(old(kernel)@.total_threads as int),
                        ..old(kernel)@
                    })
                },
                Err(error) => {
                    &&& Some(error) == creation_error(
                        old(kernel)@,
                        old(stack)@.len() as int,
                        stack_base as int,
                        *closure,
                    )
                    &&& final(kernel)@ == old(kernel)@
                    &&& final(stack)@ == old(stack)@
                },
            },
    {
        if kernel.current() != INVALID_THREAD_ID {
            return Err(ThreadCreateError::NotOnMainThread);
        }
        if kernel.total_threads() >= MAX_THREADS {
            return Err(ThreadCreateError::TooManyThreads);
        }
        let len = stack.len();
        let words = closure.words.len();
        let mut top = len;
        let mut spill: usize = 0;
        if words > REGISTER_ARGUMENT_WORDS {
            spill = words - REGISTER_ARGUMENT_WORDS;
            if spill > len {
                return Err(ThreadCreateError::StackTooSmall);
            }
            let unaligned = len - spill;
            let pad = misaligned_by(stack_base, unaligned, closure.align);
            if pad > unaligned {
                return Err(ThreadCreateError::StackTooSmall);
            }
            top = unaligned - pad;
        }
        if top < HARDWARE_FRAME_WORDS {
            return Err(ThreadCreateError::StackTooSmall);
        }
        let sp = top - HARDWARE_FRAME_WORDS;

        let mut stacked: usize = 0;
        while stacked < spill
            invariant
                stacked <= spill,
                words == closure.words@.len(),
                spill > 0 ==> spill + REGISTER_ARGUMENT_WORDS == words,
                top + spill <= len,
                stack@.len() == len,
                old(stack)@.len() == len,
                forall|cell: int|
                    0 <= cell < len ==> stack@[cell] == (if top <= cell < top + stacked {
                        closure.words@[cell - top + REGISTER_ARGUMENT_WORDS]
                    } else {
                        old(stack)@[cell]
                    }),
            decreases spill - stacked,
        {
            stack[top + stacked] = closure.words[REGISTER_ARGUMENT_WORDS + stacked];
            stacked += 1;
        }

        stack[top - 1] = INITIAL_XPSR;
        stack[top - 2] = closure.trampoline;
        stack[top - 3] = closure.thread_end;
        stack[top - 4] = INITIAL_R12;
        stack[top - 5] = 0x3333_3333;
        stack[top - 6] = 0x2222_2222;
        stack[top - 7] = 0x1111_1111;
        stack[top - 8] = 0x0000_0000;

        let in_registers = if words < REGISTER_ARGUMENT_WORDS {
            words
        } else {
            REGISTER_ARGUMENT_WORDS
        };
        let mut loaded: usize = 0;
        while loaded < in_registers
            invariant
                loaded <= in_registers <= REGISTER_ARGUMENT_WORDS,
                in_registers <= closure.words@.len(),
                sp + HARDWARE_FRAME_WORDS == top,
                top <= len,
                stack@.len() == len,
                old(stack)@.len() == len,
                forall|cell: int|
                    0 <= cell < len ==> stack@[cell] == (if sp <= cell < sp + loaded {
                        closure.words@[cell - sp]
                    } else if sp <= cell < top {
                        frame_default(*closure, cell - sp)
                    } else {
                        initial_cell(old(stack)@, top as int, *closure, cell)
                    }),
            decreases in_registers - loaded,
        {
            stack[sp + loaded] = closure.words[loaded];
            loaded += 1;
        }

        let thread_regs: [usize; 8] = [
            0x7777_7777,
            0x6666_6666,
            0x5555_5555,
            0x4444_4444,
            0xBBBB_BBBB,
            0xAAAA_AAAA,
            0x9999_9999,
            0x8888_8888,
        ];
        assert(thread_regs@ =~= initial_registers());
        assert(stack@ =~= initial_stack(old(stack)@, top as int, *closure));

        let index = kernel.register();
        let id = ThreadID::new(index);
        Ok(Self { _stack: stack, thread_regs, sp, id })
    }

    /// Enters the thread if it has a wake-up pending.
    ///
    /// With a wake-up pending, the wake-up is taken, the thread becomes the
    /// current thread, its stack pointer goes to the process stack pointer,
    /// the processor is to go on on the process stack, and the answer is the
    /// context to load into the processor. Without one,
    /// the answer is `NotReady` and nothing has changed. The switch routine
    /// runs the thread and hands what it read back to `switch_return`.
    pub fn switch_to(&mut self, kernel: &mut Kernel) -> (entered: Result<Context, SwitchReason>)
        ensures
            final(self)@ == old(self)@,
            old(self)@.id < MAX_THREADS,
            old(kernel)@.wakeups.contains(old(self)@.id as int) ==> {
                &&& entered matches Ok(context)
                &&& context.sp == old(self)@.sp
                &&& context.regs@ == old(self)@.regs
                &&& final(kernel)@ == (KernelView {
                    wakeups: old(kernel)@.wakeups.remove(old(self)@.id as int),
                    current_thread: old(self)@.id,
                    psp: old(self)@.sp,
                    exc_return: EXC_RETURN_PROCESS,
                    ..old(kernel)@
                })
            },
            !old(kernel)@.wakeups.contains(old(self)@.id as int) ==> {
                &&& entered == Err::<Context, SwitchReason>(SwitchReason::NotReady)
                &&& final(kernel)@ == old(kernel)@
            },
    {
        proof {
            use_type_invariant(&*self);
        }
        if kernel.claim(self.id.raw()) {
            Ok(self.switch_internal(kernel))
        } else {
            assert(kernel@.wakeups =~= old(kernel)@.wakeups);
            Err(SwitchReason::NotReady)
        }
    }

    /// Enters the thread whether or not it has a wake-up pending, as at
    /// start-up, when every thread must run once to reach its trampoline. A
    /// pending wake-up is taken.
    pub fn force_switch_to(&mut self, kernel: &mut Kernel) -> (context: Context)
        ensures
            final(self)@ == old(self)@,
            old(self)@.id < MAX_THREADS,
            context.sp == old(self)@.sp,
            context.regs@ == old(self)@.regs,
            final(kernel)@ == (KernelView {
                wakeups: old(kernel)@.wakeups.remove(old(self)@.id as int),
                current_thread: old(self)@.id,
                psp: old(self)@.sp,
                exc_return: EXC_RETURN_PROCESS,
                ..old(kernel)@
            }),
    {
        proof {
            use_type_invariant(&*self);
        }
        kernel.claim(self.id.raw());
        self.switch_internal(kernel)
    }

    /// The first half of a switch: the thread becomes the current thread and
    /// its saved context is handed out.
    fn switch_internal(&self, kernel: &mut Kernel) -> (context: Context)
        ensures
            context.sp == self@.sp,
            context.regs@ == self@.regs,
            final(kernel)@ == (KernelView {
                current_thread: self@.id,
                psp: self@.sp,
                exc_return: EXC_RETURN_PROCESS,
                ..old(kernel)@
            }),
    {
        kernel.enter(self.id.raw(), self.sp);
        self.context()
    }

    /// The saved context: what the next switch into the thread loads.
    pub fn context(&self) -> (context: Context)
        ensures
            context.sp == self@.sp,
            context.regs@ == self@.regs,
    {
        Context { sp: self.sp, regs: self.thread_regs }
    }

    /// The second half of a switch: the thread is back in the scheduler.
    ///
    /// `context` is what the switch routine read from the processor: the
    /// process stack pointer and the callee-saved registers. They are kept
    /// for the next switch, no thread is current any more, and the flags of
    /// the exception handlers are read, cleared and classified.
    pub fn switch_return(&mut self, kernel: &mut Kernel, context: Context) -> (reason: SwitchReason)
        ensures
            final(self)@ == (ThreadView { sp: context.sp, regs: context.regs@, ..old(self)@ }),
            final(kernel)@ == (KernelView {
                current_thread: INVALID_THREAD_ID,
                psp: context.sp,
                syscall_fired: 0,
                thread_hard_fault: 0,
                ..old(kernel)@
            }),
            reason == switch_reason(
                old(kernel)@.thread_hard_fault,
                old(kernel)@.syscall_fired,
                old(kernel)@.syscall_nr,
            ),
        no_unwind
    {
        proof {
            use_type_invariant(&*self);
        }
        self.sp = context.sp;
        self.thread_regs = context.regs;
        let (thread_hard_fault, syscall_fired, syscall_nr) = kernel.leave(context.sp);
        SwitchReason::classify(thread_hard_fault, syscall_fired, syscall_nr)
    }

    /// The thread's id.
    pub fn get_id(&self) -> (id: ThreadID)
        ensures
            id.raw() == self@.id,
            id.raw() < MAX_THREADS,
    {
        proof {
            use_type_invariant(self);
        }
        self.id
    }

    /// The id of the thread whose registers are live; its number is
    /// `INVALID_THREAD_ID` while the scheduler runs.
    pub fn get_current(kernel: &Kernel) -> (id: ThreadID)
        ensures
            id.raw() == kernel@.current_thread,
    {
        ThreadID::new(kernel.current())
    }

    /// The stack pointer, in cells from the start of the stack.
    pub fn stack_pointer(&self) -> (sp: usize)
        ensures
            sp == self@.sp,
    {
        self.sp
    }

    /// The save area for the callee-saved registers.
    pub fn saved_registers(&self) -> (regs: [usize; 8])
        ensures
            regs@ == self@.regs,
    {
        self.thread_regs
    }

    /// The number of cells of the stack.
    pub fn stack_len(&self) -> (len: usize)
        ensures
            len == self@.stack.len(),
    {
        self._stack.len()
    }

    /// The cell `cell` of the stack, or `None` beyond its end.
    pub fn stack_cell(&self, cell: usize) -> (word: Option<usize>)
        ensures
            word == (if cell < self@.stack.len() {
                Some(self@.stack[cell as int])
            } else {
                None
            }),
    {
        if cell < self._stack.len() {
            Some(self._stack[cell])
        } else {
            None
        }
    }
}

/// Whether a wake-up is pending for some thread.
pub fn threads_waiting(kernel: &Kernel) -> (waiting: bool)
    ensures
        waiting <==> kernel@.wakeups != Set::<int>::empty(),
{
    !kernel.idle()
}

/// Posts a wake-up for every thread of the mask `ids`.
pub fn schedule_all(kernel: &mut Kernel, ids: u32)
    ensures
        final(kernel)@ == (KernelView {
            wakeups: old(kernel)@.wakeups.union(mask_ids(ids)),
            ..old(kernel)@
        }),
{
    kernel.post_all(ids);
}

} // verus!
