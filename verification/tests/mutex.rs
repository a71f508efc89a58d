use cortexm_scheduling::kernel::{EXC_RETURN_PROCESS, SVC_YIELD};
use cortexm_scheduling::{
    run_threads, wakeup_thread, Action, ClosureImage, Kernel, Mutex, MutexGuard, SVCall, Thread,
};

const FILL: usize = 0xDEAD_BEEF;

fn image() -> ClosureImage<'static> {
    ClosureImage { trampoline: 0x1001, thread_end: 0x2001, words: &[], align: 1 }
}

fn spawn<'a>(kernel: &mut Kernel, stacks: &'a mut [[usize; 16]]) -> Vec<Thread<'a>> {
    stacks
        .iter_mut()
        .map(|stack| Thread::new(kernel, stack, 0, &image()).unwrap())
        .collect()
}

/// A kernel in which thread `id` is current.
fn kernel_running(id: u8) -> Kernel {
    let mut kernel = Kernel::new();
    SVCall(&mut kernel, EXC_RETURN_PROCESS, 0xDF00);
    let mut stacks = vec![[FILL; 16]; usize::from(id) + 1];
    let mut threads = spawn(&mut kernel, &mut stacks);
    let _ = threads[usize::from(id)].force_switch_to(&mut kernel);
    kernel
}

#[test]
fn a_new_mutex_is_free_and_holds_its_value() {
    let mut mutex = Mutex::new(41u32);
    let guard = mutex.try_lock().expect("a new mutex is free");
    assert_eq!(*mutex.get(&guard), 41);
}

#[test]
fn try_lock_fails_while_the_mutex_is_taken() {
    let mut kernel = Kernel::new();
    let mut mutex = Mutex::new(0u32);
    let guard = mutex.try_lock().unwrap();
    assert!(mutex.try_lock().is_none());
    assert!(mutex.try_lock().is_none());
    mutex.unlock(guard, &mut kernel);
    assert!(mutex.try_lock().is_some());
}

#[test]
fn try_lock_does_not_register_a_sleeper() {
    let mut kernel = Kernel::new();
    let mut mutex = Mutex::new(0u32);
    let guard = mutex.try_lock().unwrap();
    assert!(mutex.try_lock().is_none());
    mutex.unlock(guard, &mut kernel);
    for id in 0..32 {
        assert!(!kernel.is_pending(id));
    }
}

#[test]
fn lock_takes_a_free_mutex() {
    let kernel = kernel_running(0);
    let mut mutex = Mutex::new(7u32);
    let guard: Option<MutexGuard> = mutex.lock(&kernel);
    assert!(guard.is_some());
    assert!(mutex.try_lock().is_none());
}

#[test]
fn lock_on_a_taken_mutex_registers_the_current_thread() {
    let mut holder = kernel_running(0);
    let mut mutex = Mutex::new(7u32);
    let guard = mutex.lock(&holder).unwrap();

    let waiter = kernel_running(3);
    assert!(mutex.lock(&waiter).is_none());
    assert!(mutex.lock(&waiter).is_none());

    assert!(!holder.is_pending(3));
    mutex.unlock(guard, &mut holder);
    assert!(holder.is_pending(3));
    for id in (0..32).filter(|&id| id != 3) {
        assert!(!holder.is_pending(id));
    }
}

#[test]
fn unlock_wakes_every_sleeper_and_empties_the_list() {
    let mut kernel = kernel_running(0);
    let mut mutex = Mutex::new(0u32);
    let guard = mutex.lock(&kernel).unwrap();
    for id in [1u8, 4, 31] {
        assert!(mutex.lock(&kernel_running(id)).is_none());
    }
    wakeup_thread(&mut kernel, 2);
    mutex.unlock(guard, &mut kernel);
    for id in 0..32u8 {
        assert_eq!(kernel.is_pending(id), [1, 2, 4, 31].contains(&id), "thread {}", id);
    }

    // The sleepers were taken off the list: the next release wakes nobody.
    let mut fresh = Kernel::new();
    let guard = mutex.try_lock().unwrap();
    mutex.unlock(guard, &mut fresh);
    for id in 0..32 {
        assert!(!fresh.is_pending(id));
    }
}

#[test]
fn the_guard_gives_access_to_the_value() {
    let mut kernel = Kernel::new();
    let mut mutex = Mutex::new(vec![1u8, 2]);
    let guard = mutex.try_lock().unwrap();
    mutex.get_mut(&guard).push(3);
    assert_eq!(mutex.get(&guard), &vec![1, 2, 3]);
    *mutex.get_mut(&guard) = vec![9];
    mutex.unlock(guard, &mut kernel);
    let guard = mutex.try_lock().unwrap();
    assert_eq!(mutex.get(&guard), &vec![9]);
}

#[test]
fn two_threads_count_to_2000_under_the_mutex() {
    let mut kernel = Kernel::new();
    let mut stacks = [[FILL; 16]; 2];
    let mut threads = spawn(&mut kernel, &mut stacks);
    let mut scheduler = run_threads(&mut kernel, &mut threads);
    let mut mutex = Mutex::new(0u32);

    // Each thread holds the mutex across a yield, so that the other one finds it
    // taken, and releases it when it is resumed.
    let mut guards: [Option<MutexGuard>; 2] = [None, None];
    let mut cycles_left = [1000u32; 2];
    let mut inside = 0;
    let mut resumes = 0;
    loop {
        match scheduler.next(&mut kernel) {
            Action::Switch { index, context } => {
                resumes += 1;
                if let Some(guard) = guards[index].take() {
                    let value = *mutex.get(&guard);
                    *mutex.get_mut(&guard) = value + 1;
                    inside -= 1;
                    mutex.unlock(guard, &mut kernel);
                    cycles_left[index] -= 1;
                }
                if cycles_left[index] > 0 {
                    match mutex.lock(&kernel) {
                        Some(guard) => {
                            inside += 1;
                            assert_eq!(inside, 1);
                            guards[index] = Some(guard);
                            wakeup_thread(&mut kernel, index as u8);
                        }
                        None => {}
                    }
                }
                SVCall(&mut kernel, EXC_RETURN_PROCESS, 0xDF00 | u16::from(SVC_YIELD));
                scheduler.thread_returned(&mut kernel, context);
            }
            Action::Wait => break,
            Action::Continue => {}
        }
        assert!(resumes < 100_000);
    }
    assert_eq!(cycles_left, [0, 0]);
    let guard = mutex.try_lock().unwrap();
    assert_eq!(*mutex.get(&guard), 2000);
}

#[test]
fn a_sleeper_goes_on_within_two_passes_of_the_release() {
    let mut kernel = Kernel::new();
    let mut stacks = [[FILL; 16]; 3];
    let mut threads = spawn(&mut kernel, &mut stacks);
    let mut scheduler = run_threads(&mut kernel, &mut threads);
    let mut mutex = Mutex::new(0u32);

    let run = |kernel: &mut Kernel, scheduler: &mut cortexm_scheduling::Scheduler| -> Action {
        scheduler.next(kernel)
    };
    let back = |kernel: &mut Kernel,
                scheduler: &mut cortexm_scheduling::Scheduler,
                action: Action| {
        if let Action::Switch { context, .. } = action {
            SVCall(kernel, EXC_RETURN_PROCESS, 0xDF00);
            scheduler.thread_returned(kernel, context);
        }
    };

    // First pass: thread 0 idles, thread 1 (A) takes the mutex, thread 2 (B)
    // finds it taken and sleeps.
    let action = run(&mut kernel, &mut scheduler);
    assert!(matches!(action, Action::Switch { index: 0, .. }));
    back(&mut kernel, &mut scheduler, action);
    let action = run(&mut kernel, &mut scheduler);
    assert!(matches!(action, Action::Switch { index: 1, .. }));
    let guard = mutex.lock(&kernel).unwrap();
    back(&mut kernel, &mut scheduler, action);
    let action = run(&mut kernel, &mut scheduler);
    assert!(matches!(action, Action::Switch { index: 2, .. }));
    assert!(mutex.lock(&kernel).is_none());
    back(&mut kernel, &mut scheduler, action);
    assert_eq!(run(&mut kernel, &mut scheduler), Action::Wait);
    assert_eq!(run(&mut kernel, &mut scheduler), Action::Wait);

    // A timer marks A runnable; A releases the mutex.
    wakeup_thread(&mut kernel, 1);
    let action = run(&mut kernel, &mut scheduler);
    assert!(matches!(action, Action::Switch { index: 1, .. }));
    mutex.unlock(guard, &mut kernel);
    back(&mut kernel, &mut scheduler, action);

    // B is resumed before a second pass has ended, and gets the mutex.
    let mut passes_ended = 0;
    loop {
        let action = run(&mut kernel, &mut scheduler);
        match action {
            Action::Switch { index, .. } => {
                assert_eq!(index, 2);
                assert!(mutex.lock(&kernel).is_some());
                back(&mut kernel, &mut scheduler, action);
                break;
            }
            Action::Wait | Action::Continue => passes_ended += 1,
        }
        assert!(passes_ended < 2);
    }
}
