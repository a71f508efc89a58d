//! What the round-robin pass owes to a wake-up: a thread is resumed only for
//! a wake-up, once for each, in ascending order, and no later than the pass
//! after the one in which the wake-up came.
//!
//! The statements are about `step`, the decision that `Scheduler::next`
//! takes, and about runs of such decisions between which wake-ups are posted.

use vstd::prelude::*;
use crate::scheduler::{all_threads, lemma_next_ready, step, PassState};

verus! {

/// The state after a wake-up is posted for each thread of `posted`.
pub open spec fn post(state: PassState, posted: Set<int>) -> PassState {
    PassState { wakeups: state.wakeups.union(posted), cursor: state.cursor }
}

/// How often `thread` is resumed in a run of decisions, one for each entry
/// of `posts`; the wake-ups of an entry are posted before its decision.
pub open spec fn resumes(state: PassState, threads: int, thread: int, posts: Seq<Set<int>>) -> nat
    decreases posts.len(),
{
    if posts.len() == 0 {
        0
    } else {
        let (after, resumed) = step(post(state, posts[0]), threads);
        let now: nat = if resumed == Some(thread) {
            1
        } else {
            0
        };
        now + resumes(after, threads, thread, posts.drop_first())
    }
}

/// Whether `thread` is resumed in a run of decisions, one for each entry of
/// `posts`, before more than `passes` passes have come to their end.
pub open spec fn served_within(
    state: PassState,
    threads: int,
    thread: int,
    posts: Seq<Set<int>>,
    passes: nat,
) -> bool
    decreases posts.len(),
{
    posts.len() > 0 && {
        let (after, resumed) = step(post(state, posts[0]), threads);
        match resumed {
            Some(ready) => ready == thread || served_within(
                after,
                threads,
                thread,
                posts.drop_first(),
                passes,
            ),
            None => passes > 0 && served_within(
                after,
                threads,
                thread,
                posts.drop_first(),
                (passes - 1) as nat,
            ),
        }
    }
}

/// Whether none of the entries of `posts` holds a wake-up for `thread`.
pub open spec fn never_posted(thread: int, posts: Seq<Set<int>>) -> bool {
    forall|k: int| 0 <= k < posts.len() ==> !(#[trigger] posts[k]).contains(thread)
}

/// The wake-ups that are pending after `times` wake-ups for `thread` came in
/// a row.
pub open spec fn post_repeatedly(wakeups: Set<int>, thread: int, times: nat) -> Set<int>
    decreases times,
{
    if times == 0 {
        wakeups
    } else {
        post_repeatedly(wakeups.insert(thread), thread, (times - 1) as nat)
    }
}

/// The threads that the rest of a pass resumes, in the order in which it
/// resumes them, when no wake-up comes in meanwhile: those from `from` on
/// that have a wake-up pending.
pub open spec fn pass_order(wakeups: Set<int>, from: int, threads: int) -> Seq<int>
    decreases threads - from,
{
    if from >= threads {
        Seq::empty()
    } else if wakeups.contains(from) {
        seq![from] + pass_order(wakeups, from + 1, threads)
    } else {
        pass_order(wakeups, from + 1, threads)
    }
}

/// How often `thread` occurs in `order`.
pub open spec fn occurrences(order: Seq<int>, thread: int) -> nat
    decreases order.len(),
{
    if order.len() == 0 {
        0
    } else {
        let first: nat = if order[0] == thread {
            1
        } else {
            0
        };
        first + occurrences(order.drop_first(), thread)
    }
}

/// How often `thread` is resumed in a run of whole passes, one for each entry
/// of `rounds`; the wake-ups of an entry are posted before its pass starts,
/// and none comes in during a pass.
pub open spec fn round_resumes(wakeups: Set<int>, threads: int, thread: int, rounds: Seq<Set<int>>)
    -> nat
    decreases rounds.len(),
{
    if rounds.len() == 0 {
        0
    } else {
        let pending = wakeups.union(rounds[0]);
        occurrences(pass_order(pending, 0, threads), thread) + round_resumes(
            pending.difference(all_threads(threads)),
            threads,
            thread,
            rounds.drop_first(),
        )
    }
}

/// A thread is resumed only if it has a wake-up pending, and the decision
/// takes that one wake-up and no other.
pub proof fn lemma_resumed_only_if_pending(state: PassState, threads: int)
    ensures
        match step(state, threads).1 {
            Some(thread) => {
                &&& state.wakeups.contains(thread)
                &&& state.cursor <= thread < threads
                &&& step(state, threads).0.wakeups == state.wakeups.remove(thread)
            },
            None => step(state, threads).0.wakeups == state.wakeups,
        },
{
    lemma_next_ready(state.wakeups, state.cursor, threads);
}

/// A thread that has no wake-up pending, and gets none, is not resumed.
pub proof fn lemma_not_pending_not_resumed(
    state: PassState,
    threads: int,
    thread: int,
    posts: Seq<Set<int>>,
)
    requires
        !state.wakeups.contains(thread),
        never_posted(thread, posts),
    ensures
        resumes(state, threads, thread, posts) == 0,
    decreases posts.len(),
{
    if posts.len() > 0 {
        let woken = post(state, posts[0]);
        assert(!posts[0].contains(thread));
        lemma_next_ready(woken.wakeups, woken.cursor, threads);
        let after = step(woken, threads).0;
        assert forall|k: int| 0 <= k < posts.drop_first().len() implies !(
        #[trigger] posts.drop_first()[k]).contains(thread) by {
            assert(posts.drop_first()[k] == posts[k + 1]);
        }
        lemma_not_pending_not_resumed(after, threads, thread, posts.drop_first());
    }
}

/// The number of decisions after which a pending wake-up of `thread` has
/// been served at the latest.
spec fn decisions_until(cursor: int, threads: int, thread: int) -> int {
    if cursor <= thread {
        thread - cursor + 1
    } else {
        (threads - cursor) + 1 + (thread + 1)
    }
}

proof fn lemma_served(
    state: PassState,
    threads: int,
    thread: int,
    posts: Seq<Set<int>>,
    passes: nat,
)
    requires
        0 <= state.cursor <= threads,
        0 <= thread < threads,
        state.wakeups.contains(thread),
        posts.len() >= decisions_until(state.cursor, threads, thread),
        state.cursor > thread ==> passes >= 1,
    ensures
        served_within(state, threads, thread, posts, passes),
    decreases posts.len(),
{
    let woken = post(state, posts[0]);
    assert(woken.wakeups.contains(thread));
    lemma_next_ready(woken.wakeups, woken.cursor, threads);
    let (after, resumed) = step(woken, threads);
    match resumed {
        Some(ready) => {
            if ready != thread {
                lemma_served(after, threads, thread, posts.drop_first(), passes);
            }
        },
        None => {
            lemma_served(after, threads, thread, posts.drop_first(), (passes - 1) as nat);
        },
    }
}

/// A wake-up is served in the pass in which it came or in the next one.
///
/// If a wake-up is pending for one of the threads, then that thread is
/// resumed within as many decisions as there are threads, and one more,
/// before a second pass has come to its end, whatever wake-ups come in
/// meanwhile.
pub proof fn lemma_wakeup_served_within_two_passes(
    state: PassState,
    threads: int,
    thread: int,
    posts: Seq<Set<int>>,
)
    requires
        0 <= state.cursor <= threads,
        0 <= thread < threads,
        state.wakeups.contains(thread),
        posts.len() > threads,
    ensures
        served_within(state, threads, thread, posts, 1),
{
    lemma_served(state, threads, thread, posts, 1);
}

/// Releasing a mutex wakes its sleepers within two passes.
///
/// When the sleepers of a mutex have joined the pending wake-ups, as they do
/// when the mutex is released, each sleeper among the threads is resumed in
/// the current pass or in the next one.
pub proof fn lemma_sleeper_served_within_two_passes(
    state: PassState,
    sleepers: Set<int>,
    threads: int,
    sleeper: int,
    posts: Seq<Set<int>>,
)
    requires
        0 <= state.cursor <= threads,
        0 <= sleeper < threads,
        sleepers.contains(sleeper),
        posts.len() > threads,
    ensures
        served_within(post(state, sleepers), threads, sleeper, posts, 1),
{
    lemma_wakeup_served_within_two_passes(post(state, sleepers), threads, sleeper, posts);
}

proof fn lemma_resumed_once(state: PassState, threads: int, thread: int, posts: Seq<Set<int>>)
    requires
        0 <= state.cursor <= threads,
        0 <= thread < threads,
        state.wakeups.contains(thread),
        never_posted(thread, posts),
    ensures
        resumes(state, threads, thread, posts) <= 1,
        posts.len() >= decisions_until(state.cursor, threads, thread) ==> resumes(
            state,
            threads,
            thread,
            posts,
        ) == 1,
    decreases posts.len(),
{
    if posts.len() > 0 {
        let woken = post(state, posts[0]);
        lemma_next_ready(woken.wakeups, woken.cursor, threads);
        let (after, resumed) = step(woken, threads);
        assert forall|k: int| 0 <= k < posts.drop_first().len() implies !(
        #[trigger] posts.drop_first()[k]).contains(thread) by {
            assert(posts.drop_first()[k] == posts[k + 1]);
        }
        if resumed == Some(thread) {
            lemma_not_pending_not_resumed(after, threads, thread, posts.drop_first());
        } else {
            lemma_resumed_once(after, threads, thread, posts.drop_first());
        }
    }
}

/// Wake-ups for one thread that come in a row count as one.
pub proof fn lemma_post_repeatedly(wakeups: Set<int>, thread: int, times: nat)
    requires
        times >= 1,
    ensures
        post_repeatedly(wakeups, thread, times) == wakeups.insert(thread),
    decreases times,
{
    if times > 1 {
        lemma_post_repeatedly(wakeups.insert(thread), thread, (times - 1) as nat);
        assert(wakeups.insert(thread).insert(thread) =~= wakeups.insert(thread));
    } else {
        assert(post_repeatedly(wakeups.insert(thread), thread, 0) == wakeups.insert(thread));
    }
}

/// Posting the same wake-up several times before the thread is resumed
/// results in one resume.
///
/// After any number of wake-ups for a thread, and with no further wake-up
/// for it, the thread is resumed at most once, and exactly once in a run of
/// more decisions than there are threads.
pub proof fn lemma_repeated_wakeup_resumes_once(
    state: PassState,
    threads: int,
    thread: int,
    times: nat,
    posts: Seq<Set<int>>,
)
    requires
        0 <= state.cursor <= threads,
        0 <= thread < threads,
        times >= 1,
        never_posted(thread, posts),
    ensures
        resumes(
            PassState {
                wakeups: post_repeatedly(state.wakeups, thread, times),
                cursor: state.cursor,
            },
            threads,
            thread,
            posts,
        ) <= 1,
        posts.len() > threads ==> resumes(
            PassState {
                wakeups: post_repeatedly(state.wakeups, thread, times),
                cursor: state.cursor,
            },
            threads,
            thread,
            posts,
        ) == 1,
{
    lemma_post_repeatedly(state.wakeups, thread, times);
    lemma_resumed_once(
        PassState { wakeups: state.wakeups.insert(thread), cursor: state.cursor },
        threads,
        thread,
        posts,
    );
}

proof fn lemma_pass_order_agrees(first: Set<int>, second: Set<int>, from: int, threads: int)
    requires
        forall|position: int|
            from <= position < threads ==> first.contains(position) == second.contains(position),
    ensures
        pass_order(first, from, threads) == pass_order(second, from, threads),
    decreases threads - from,
{
    if from < threads {
        lemma_pass_order_agrees(first, second, from + 1, threads);
    }
}

/// The order of a pass is the order in which the scheduler's decisions
/// resume the threads: the first decision resumes the first thread of the
/// order, and the rest of the order is the order of what is left of the pass.
pub proof fn lemma_pass_order_follows_step(state: PassState, threads: int)
    ensures
        match step(state, threads) {
            (after, Some(thread)) => pass_order(state.wakeups, state.cursor, threads) == seq![
                thread,
            ] + pass_order(after.wakeups, after.cursor, threads),
            (after, None) => pass_order(state.wakeups, state.cursor, threads) == Seq::<
                int,
            >::empty(),
        },
    decreases threads - state.cursor,
{
    let from = state.cursor;
    if from < threads {
        if state.wakeups.contains(from) {
            lemma_pass_order_agrees(state.wakeups.remove(from), state.wakeups, from + 1, threads);
        } else {
            lemma_pass_order_follows_step(
                PassState { wakeups: state.wakeups, cursor: from + 1 },
                threads,
            );
        }
    }
}

/// A pass resumes threads in ascending order, each from the cursor on and
/// with a wake-up pending.
pub proof fn lemma_pass_order_ascending(wakeups: Set<int>, from: int, threads: int)
    ensures
        forall|k: int|
            0 <= k < pass_order(wakeups, from, threads).len() ==> {
                &&& from <= (#[trigger] pass_order(wakeups, from, threads)[k]) < threads
                &&& wakeups.contains(pass_order(wakeups, from, threads)[k])
            },
        forall|earlier: int, later: int|
            0 <= earlier < later < pass_order(wakeups, from, threads).len() ==> pass_order(
                wakeups,
                from,
                threads,
            )[earlier] < pass_order(wakeups, from, threads)[later],
    decreases threads - from,
{
    if from < threads {
        lemma_pass_order_ascending(wakeups, from + 1, threads);
        let rest = pass_order(wakeups, from + 1, threads);
        let order = pass_order(wakeups, from, threads);
        if wakeups.contains(from) {
            assert(order == seq![from] + rest);
            assert forall|k: int| 0 <= k < order.len() implies from <= (#[trigger] order[k])
                < threads && wakeups.contains(order[k]) by {
                if k > 0 {
                    assert(order[k] == rest[k - 1]);
                }
            }
            assert forall|earlier: int, later: int|
                0 <= earlier < later < order.len() implies order[earlier] < order[later] by {
                assert(order[later] == rest[later - 1]);
                if earlier > 0 {
                    assert(order[earlier] == rest[earlier - 1]);
                }
            }
        }
    }
}

/// A pass resumes a thread once if it lies from the cursor on and has a
/// wake-up pending, and not at all otherwise.
pub proof fn lemma_pass_order_occurrences(wakeups: Set<int>, from: int, threads: int, thread: int)
    ensures
        occurrences(pass_order(wakeups, from, threads), thread) == (if from <= thread < threads
            && wakeups.contains(thread) {
            1nat
        } else {
            0nat
        }),
    decreases threads - from,
{
    if from < threads {
        lemma_pass_order_occurrences(wakeups, from + 1, threads, thread);
        let rest = pass_order(wakeups, from + 1, threads);
        if wakeups.contains(from) {
            assert((seq![from] + rest).drop_first() =~= rest);
        }
    }
}

/// A thread that yields with a wake-up of its own pending is resumed once in
/// each pass, in its place in the ascending order.
///
/// If before each of a run of passes a wake-up is posted for the thread,
/// and none comes in during a pass, then the thread is resumed as many times
/// as there are passes.
pub proof fn lemma_yield_rounds(
    wakeups: Set<int>,
    threads: int,
    thread: int,
    rounds: Seq<Set<int>>,
)
    requires
        0 <= thread < threads,
        forall|k: int| 0 <= k < rounds.len() ==> (#[trigger] rounds[k]).contains(thread),
    ensures
        round_resumes(wakeups, threads, thread, rounds) == rounds.len(),
    decreases rounds.len(),
{
    if rounds.len() > 0 {
        let pending = wakeups.union(rounds[0]);
        lemma_pass_order_occurrences(pending, 0, threads, thread);
        assert forall|k: int| 0 <= k < rounds.drop_first().len() implies (
        #[trigger] rounds.drop_first()[k]).contains(thread) by {
            assert(rounds.drop_first()[k] == rounds[k + 1]);
        }
        lemma_yield_rounds(
            pending.difference(all_threads(threads)),
            threads,
            thread,
            rounds.drop_first(),
        );
    }
}

} // verus!
