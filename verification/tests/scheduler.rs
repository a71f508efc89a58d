use cortexm_scheduling::kernel::{
    EXC_RETURN_MAIN, EXC_RETURN_PROCESS, INVALID_THREAD_ID, SVC_FINISHED, SVC_YIELD,
};
use cortexm_scheduling::{
    get_current_thread, run_threads, threads_waiting, wakeup_thread, wakeup_threads, Action,
    ClosureImage, Context, HardFault, Kernel, SVCall, Scheduler, SwitchReason, Thread,
};

const FILL: usize = 0xDEAD_BEEF;

fn image() -> ClosureImage<'static> {
    ClosureImage { trampoline: 0x1001, thread_end: 0x2001, words: &[], align: 1 }
}

fn spawn<'a>(kernel: &mut Kernel, stacks: &'a mut [[usize; 16]]) -> Vec<Thread<'a>> {
    stacks
        .iter_mut()
        .map(|stack| Thread::new(kernel, stack, 0, &image()).unwrap())
        .collect()
}

/// Runs the scheduler until it asks to wait or `limit` threads were resumed.
/// `body` plays the thread at the given position and says with which
/// supervisor call it comes back. Returns the positions in the order in which
/// they were resumed.
fn run_until_wait(
    kernel: &mut Kernel,
    scheduler: &mut Scheduler,
    limit: usize,
    mut body: impl FnMut(&mut Kernel, usize) -> u8,
) -> Vec<usize> {
    let mut resumed = Vec::new();
    while resumed.len() < limit {
        match scheduler.next(kernel) {
            Action::Switch { index, context } => {
                resumed.push(index);
                let number = body(kernel, index);
                SVCall(kernel, EXC_RETURN_PROCESS, 0xDF00 | u16::from(number));
                scheduler.thread_returned(kernel, context);
            }
            Action::Wait => break,
            Action::Continue => {}
        }
    }
    resumed
}

fn yielding(_: &mut Kernel, _: usize) -> u8 {
    SVC_YIELD
}

#[test]
fn the_first_pass_enters_every_thread_in_ascending_order() {
    let mut kernel = Kernel::new();
    let mut stacks = [[FILL; 16]; 3];
    let mut threads = spawn(&mut kernel, &mut stacks);
    let mut scheduler = run_threads(&mut kernel, &mut threads);
    assert_eq!(scheduler.len(), 3);
    assert_eq!(run_until_wait(&mut kernel, &mut scheduler, 100, yielding), vec![0, 1, 2]);
    assert!(!threads_waiting(&kernel));
    assert_eq!(scheduler.next(&mut kernel), Action::Wait);
}

#[test]
fn run_threads_wakes_threads_that_lost_their_first_wakeup() {
    let mut kernel = Kernel::new();
    let mut stacks = [[FILL; 16]; 2];
    let mut threads = spawn(&mut kernel, &mut stacks);
    for thread in threads.iter_mut() {
        let context = thread.switch_to(&mut kernel).unwrap();
        thread.switch_return(&mut kernel, context);
    }
    assert!(!threads_waiting(&kernel));
    let mut scheduler = run_threads(&mut kernel, &mut threads);
    assert!(kernel.is_pending(0));
    assert!(kernel.is_pending(1));
    assert!(!kernel.is_pending(2));
    assert_eq!(run_until_wait(&mut kernel, &mut scheduler, 100, yielding), vec![0, 1]);
}

#[test]
fn run_threads_with_32_threads_wakes_all_of_them() {
    let mut kernel = Kernel::new();
    let mut stacks = vec![[FILL; 16]; 32];
    let mut threads = spawn(&mut kernel, &mut stacks);
    for thread in threads.iter_mut() {
        let context = thread.switch_to(&mut kernel).unwrap();
        thread.switch_return(&mut kernel, context);
    }
    let mut scheduler = run_threads(&mut kernel, &mut threads);
    let resumed = run_until_wait(&mut kernel, &mut scheduler, 100, yielding);
    assert_eq!(resumed, (0..32).collect::<Vec<usize>>());
}

#[test]
fn run_threads_without_threads_waits() {
    let mut kernel = Kernel::new();
    let mut threads: Vec<Thread> = Vec::new();
    let mut scheduler = run_threads(&mut kernel, &mut threads);
    assert_eq!(scheduler.len(), 0);
    assert!(!threads_waiting(&kernel));
    assert_eq!(scheduler.next(&mut kernel), Action::Wait);
}

#[test]
fn a_thread_without_a_wakeup_is_not_resumed() {
    let mut kernel = Kernel::new();
    let mut stacks = [[FILL; 16]; 3];
    let mut threads = spawn(&mut kernel, &mut stacks);
    let mut scheduler = run_threads(&mut kernel, &mut threads);
    run_until_wait(&mut kernel, &mut scheduler, 100, yielding);

    wakeup_thread(&mut kernel, 1);
    assert_eq!(run_until_wait(&mut kernel, &mut scheduler, 100, yielding), vec![1]);
    assert_eq!(run_until_wait(&mut kernel, &mut scheduler, 100, yielding), Vec::<usize>::new());
}

#[test]
fn the_switch_hands_out_the_context_of_the_resumed_thread() {
    let mut kernel = Kernel::new();
    let mut stacks = [[FILL; 16]; 2];
    let mut threads = spawn(&mut kernel, &mut stacks);
    let mut scheduler = run_threads(&mut kernel, &mut threads);
    let expected = scheduler.thread(0).unwrap().context();
    assert_eq!(scheduler.next(&mut kernel), Action::Switch { index: 0, context: expected });
    assert_eq!(get_current_thread(&kernel), 0);
    assert!(!kernel.is_pending(0));
    assert!(kernel.is_pending(1));
}

#[test]
fn while_a_thread_is_current_the_stack_pointer_lies_in_its_stack() {
    let mut kernel = Kernel::new();
    let mut stacks = [[FILL; 16]; 3];
    let mut threads = spawn(&mut kernel, &mut stacks);
    let mut scheduler = run_threads(&mut kernel, &mut threads);
    let mut seen = 0;
    for round in 0..4 {
        wakeup_threads(&mut kernel, 0b111);
        loop {
            match scheduler.next(&mut kernel) {
                Action::Switch { index, context } => {
                    let current = get_current_thread(&kernel);
                    assert_eq!(usize::from(current), index);
                    let thread = scheduler.thread(index).unwrap();
                    assert_eq!(kernel.psp(), thread.stack_pointer());
                    assert!(kernel.psp() + 8 <= thread.stack_len());
                    assert_eq!(kernel.exc_return(), EXC_RETURN_PROCESS);
                    seen += 1;
                    SVCall(&mut kernel, EXC_RETURN_PROCESS, 0xDF00);
                    assert_eq!(kernel.exc_return(), EXC_RETURN_MAIN);
                    let came_back = Context { sp: (index + round) % 9, regs: context.regs };
                    scheduler.thread_returned(&mut kernel, came_back);
                    assert_eq!(get_current_thread(&kernel), INVALID_THREAD_ID);
                }
                Action::Wait => break,
                Action::Continue => {}
            }
        }
    }
    assert_eq!(seen, 12);
}

#[test]
fn thread_returned_keeps_the_context_and_classifies_the_return() {
    let mut kernel = Kernel::new();
    let mut stacks = [[FILL; 16]; 2];
    let mut threads = spawn(&mut kernel, &mut stacks);
    let mut scheduler = run_threads(&mut kernel, &mut threads);

    assert!(matches!(scheduler.next(&mut kernel), Action::Switch { index: 0, .. }));
    SVCall(&mut kernel, EXC_RETURN_PROCESS, 0xDF00 | u16::from(SVC_FINISHED));
    let read_back = Context { sp: 2, regs: [1, 2, 3, 4, 5, 6, 7, 8] };
    assert_eq!(
        scheduler.thread_returned(&mut kernel, read_back),
        Some(SwitchReason::Finished)
    );
    assert_eq!(scheduler.thread(0).unwrap().context(), read_back);
    assert_eq!(get_current_thread(&kernel), INVALID_THREAD_ID);

    assert!(matches!(scheduler.next(&mut kernel), Action::Switch { index: 1, .. }));
    HardFault(&mut kernel);
    assert_eq!(scheduler.thread_returned(&mut kernel, read_back), Some(SwitchReason::Fault));
}

#[test]
fn thread_returned_without_a_current_thread_changes_nothing() {
    let mut kernel = Kernel::new();
    let mut stacks = [[FILL; 16]; 2];
    let mut threads = spawn(&mut kernel, &mut stacks);
    let mut scheduler = run_threads(&mut kernel, &mut threads);
    let before = scheduler.thread(0).unwrap().context();
    let stray = Context { sp: 1, regs: [9; 8] };
    assert_eq!(scheduler.thread_returned(&mut kernel, stray), None);
    assert_eq!(scheduler.thread(0).unwrap().context(), before);
    assert_eq!(kernel.psp(), 0);
    assert!(kernel.is_pending(0));
}

#[test]
fn a_single_thread_is_resumed_once_for_each_tick() {
    let mut kernel = Kernel::new();
    let mut stacks = [[FILL; 16]; 1];
    let mut threads = spawn(&mut kernel, &mut stacks);
    let mut scheduler = run_threads(&mut kernel, &mut threads);
    let mut pin = false;
    let mut toggle = |_: &mut Kernel, _: usize| {
        pin = !pin;
        SVC_YIELD
    };
    assert_eq!(run_until_wait(&mut kernel, &mut scheduler, 100, &mut toggle), vec![0]);
    for tick in 0..10 {
        wakeup_thread(&mut kernel, 0);
        assert_eq!(run_until_wait(&mut kernel, &mut scheduler, 100, &mut toggle), vec![0]);
        assert_eq!(scheduler.next(&mut kernel), Action::Wait, "tick {}", tick);
    }
    assert!(pin);
}

#[test]
fn two_threads_woken_equally_often_run_equally_often() {
    let mut kernel = Kernel::new();
    let mut stacks = [[FILL; 16]; 2];
    let mut threads = spawn(&mut kernel, &mut stacks);
    let mut scheduler = run_threads(&mut kernel, &mut threads);
    run_until_wait(&mut kernel, &mut scheduler, 100, yielding);

    let mut counters = [0u32; 2];
    let rounds = 25;
    for round in 0..rounds {
        // The ticks for the two threads come in changing order.
        if round % 2 == 0 {
            wakeup_thread(&mut kernel, 0);
            wakeup_thread(&mut kernel, 1);
        } else {
            wakeup_thread(&mut kernel, 1);
            wakeup_thread(&mut kernel, 0);
        }
        run_until_wait(&mut kernel, &mut scheduler, 100, |_, index| {
            counters[index] += 1;
            SVC_YIELD
        });
    }
    assert_eq!(counters, [rounds, rounds]);
}

#[test]
fn a_thread_that_rearms_and_yields_is_resumed_once_for_each_yield() {
    let mut kernel = Kernel::new();
    let mut stacks = [[FILL; 16]; 3];
    let mut threads = spawn(&mut kernel, &mut stacks);
    let mut scheduler = run_threads(&mut kernel, &mut threads);

    // Threads 0 and 2 post their own wake-up and yield five times each; thread 1
    // yields without one.
    let mut yields_left = [5u32, 0, 5];
    let resumed = run_until_wait(&mut kernel, &mut scheduler, 1000, |kernel, index| {
        if yields_left[index] > 0 {
            yields_left[index] -= 1;
            wakeup_thread(kernel, get_current_thread(kernel));
        }
        SVC_YIELD
    });
    assert_eq!(resumed, vec![0, 1, 2, 0, 2, 0, 2, 0, 2, 0, 2, 0, 2]);
    assert_eq!(resumed.iter().filter(|&&index| index == 0).count(), 6);
    assert_eq!(resumed.iter().filter(|&&index| index == 2).count(), 6);
    assert_eq!(resumed.iter().filter(|&&index| index == 1).count(), 1);
}

#[test]
fn posting_a_wakeup_many_times_results_in_one_resume() {
    let mut kernel = Kernel::new();
    let mut stacks = [[FILL; 16]; 2];
    let mut threads = spawn(&mut kernel, &mut stacks);
    let mut scheduler = run_threads(&mut kernel, &mut threads);
    run_until_wait(&mut kernel, &mut scheduler, 100, yielding);

    for _ in 0..7 {
        wakeup_thread(&mut kernel, 1);
    }
    wakeup_threads(&mut kernel, 0b10);
    assert_eq!(run_until_wait(&mut kernel, &mut scheduler, 100, yielding), vec![1]);
    assert_eq!(scheduler.next(&mut kernel), Action::Wait);
    assert_eq!(scheduler.next(&mut kernel), Action::Wait);
}

#[test]
fn a_wakeup_for_a_later_thread_is_served_in_the_same_pass() {
    let mut kernel = Kernel::new();
    let mut stacks = [[FILL; 16]; 3];
    let mut threads = spawn(&mut kernel, &mut stacks);
    let mut scheduler = run_threads(&mut kernel, &mut threads);
    run_until_wait(&mut kernel, &mut scheduler, 100, yielding);

    wakeup_thread(&mut kernel, 0);
    assert!(matches!(scheduler.next(&mut kernel), Action::Switch { index: 0, .. }));
    wakeup_thread(&mut kernel, 2);
    scheduler.thread_returned(&mut kernel, Context { sp: 8, regs: [0; 8] });
    assert!(matches!(scheduler.next(&mut kernel), Action::Switch { index: 2, .. }));
    scheduler.thread_returned(&mut kernel, Context { sp: 8, regs: [0; 8] });
    assert_eq!(scheduler.next(&mut kernel), Action::Wait);
}

#[test]
fn a_wakeup_for_an_earlier_thread_is_served_in_the_next_pass() {
    let mut kernel = Kernel::new();
    let mut stacks = [[FILL; 16]; 3];
    let mut threads = spawn(&mut kernel, &mut stacks);
    let mut scheduler = run_threads(&mut kernel, &mut threads);
    run_until_wait(&mut kernel, &mut scheduler, 100, yielding);

    wakeup_thread(&mut kernel, 1);
    assert!(matches!(scheduler.next(&mut kernel), Action::Switch { index: 1, .. }));
    // Thread 1 wakes itself and thread 0, which the pass has left behind.
    wakeup_threads(&mut kernel, 0b011);
    scheduler.thread_returned(&mut kernel, Context { sp: 8, regs: [0; 8] });
    assert_eq!(scheduler.next(&mut kernel), Action::Continue);
    assert!(matches!(scheduler.next(&mut kernel), Action::Switch { index: 0, .. }));
    scheduler.thread_returned(&mut kernel, Context { sp: 8, regs: [0; 8] });
    assert!(matches!(scheduler.next(&mut kernel), Action::Switch { index: 1, .. }));
    scheduler.thread_returned(&mut kernel, Context { sp: 8, regs: [0; 8] });
    assert_eq!(scheduler.next(&mut kernel), Action::Wait);
}

#[test]
fn a_wakeup_beyond_the_threads_keeps_the_scheduler_from_waiting() {
    let mut kernel = Kernel::new();
    let mut stacks = [[FILL; 16]; 2];
    let mut threads = spawn(&mut kernel, &mut stacks);
    let mut scheduler = run_threads(&mut kernel, &mut threads);
    run_until_wait(&mut kernel, &mut scheduler, 100, yielding);

    wakeup_thread(&mut kernel, 5);
    assert_eq!(scheduler.next(&mut kernel), Action::Continue);
    assert_eq!(scheduler.next(&mut kernel), Action::Continue);
    assert!(kernel.is_pending(5));
}

#[test]
fn a_finished_thread_stays_dormant() {
    let mut kernel = Kernel::new();
    let mut stacks = [[FILL; 16]; 2];
    let mut threads = spawn(&mut kernel, &mut stacks);
    let mut scheduler = run_threads(&mut kernel, &mut threads);
    let resumed = run_until_wait(&mut kernel, &mut scheduler, 100, |kernel, index| {
        if index == 0 {
            SVC_FINISHED
        } else {
            wakeup_thread(kernel, 1);
            SVC_YIELD
        }
    });
    assert_eq!(resumed.len(), 100);
    assert_eq!(resumed.iter().filter(|&&index| index == 0).count(), 1);
}

#[test]
fn the_scheduler_cannot_be_entered_from_a_thread() {
    let mut kernel = Kernel::new();
    let mut stacks = [[FILL; 16]; 1];
    let mut threads = spawn(&mut kernel, &mut stacks);
    let mut scheduler = run_threads(&mut kernel, &mut threads);
    assert!(matches!(scheduler.next(&mut kernel), Action::Switch { index: 0, .. }));
    // What the firmware tests before it enters the scheduler.
    assert_ne!(get_current_thread(&kernel), INVALID_THREAD_ID);
}
