//! What holds of every cycle, whatever the programs it runs answer.

use super::cycle::advanced;
use super::cycle::Event;
use super::cycle::Progress;
use super::cycle::advanced_is_valid;
use super::cycle::requested;
use super::cycle::valid;
use super::cycle::Demand;
use crate::batch::ascending_of;
use crate::batch::resume_after;
use crate::mercurial::client as repository;
use crate::mercurial::MercurialFailure;
use crate::perforce::client as depot;
use vstd::prelude::*;

verus! {

/// The state after `events`, taken one after the other.
pub open spec fn run(progress: Progress, events: Seq<Event>) -> Progress
    decreases events.len(),
{
    if events.len() == 0 {
        progress
    } else {
        run(advanced(progress, events[0]), events.drop_first())
    }
}

/// Whether `event` tells the cycle that the commit it asked for was made.
pub open spec fn is_commit(progress: Progress, event: Event) -> bool {
    progress.phase is Commit && (event matches Event::Executed(execution) && repository::ending(
        execution,
    ) is Ok)
}

/// Whether the cycle asks for the commits to be published when it hears of `event`.
pub open spec fn is_publish(progress: Progress, event: Event) -> bool {
    !(progress.phase is Push) && advanced(progress, event).phase is Push
}

/// How many commits are made while the cycle takes `events`.
pub open spec fn commits(progress: Progress, events: Seq<Event>) -> nat
    decreases events.len(),
{
    if events.len() == 0 {
        0
    } else {
        (if is_commit(progress, events[0]) {
            1nat
        } else {
            0nat
        }) + commits(advanced(progress, events[0]), events.drop_first())
    }
}

/// How often the cycle asks for the commits to be published while it takes `events`.
pub open spec fn publishes(progress: Progress, events: Seq<Event>) -> nat
    decreases events.len(),
{
    if events.len() == 0 {
        0
    } else {
        (if is_publish(progress, events[0]) {
            1nat
        } else {
            0nat
        }) + publishes(advanced(progress, events[0]), events.drop_first())
    }
}

/// Whether the cycle has nothing more to do to the working copy or to the repository: it
/// made no commit and ends its session, or it is over.
pub open spec fn quiet(progress: Progress) -> bool {
    (progress.phase is Logout && !progress.committed) || progress.phase is Finished
}

/// A cycle knows of a commit when it knew of one before or hears of one now.
pub proof fn lemma_committed_step(progress: Progress, event: Event)
    requires
        valid(progress),
    ensures
        advanced(progress, event).committed == (progress.committed || is_commit(progress, event)),
{
}

/// A cycle that asked for the publishing, or that is over, asks for no publishing and makes
/// no commit.
pub proof fn lemma_after_publish(progress: Progress, events: Seq<Event>)
    requires
        valid(progress),
        progress.phase is Push || progress.phase is Finished,
    ensures
        publishes(progress, events) == 0,
        commits(progress, events) == 0,
        run(progress, events).phase is Push || run(progress, events).phase is Finished,
        progress.phase is Finished ==> run(progress, events) == progress,
    decreases events.len(),
{
    if events.len() > 0 {
        advanced_is_valid(progress, events[0]);
        lemma_after_publish(advanced(progress, events[0]), events.drop_first());
    }
}

/// A quiet cycle stays quiet: it asks for no publishing and makes no commit.
pub proof fn lemma_quiet(progress: Progress, events: Seq<Event>)
    requires
        valid(progress),
        quiet(progress),
    ensures
        quiet(run(progress, events)),
        publishes(progress, events) == 0,
        commits(progress, events) == 0,
    decreases events.len(),
{
    if events.len() > 0 {
        advanced_is_valid(progress, events[0]);
        lemma_quiet(advanced(progress, events[0]), events.drop_first());
    }
}

/// What holds of the publishing from any state that a cycle can be in.
pub proof fn lemma_publish_gate(progress: Progress, events: Seq<Event>)
    requires
        valid(progress),
        !(progress.phase is Push || progress.phase is Finished),
    ensures
        publishes(progress, events) <= 1,
        publishes(progress, events) == 1 ==> progress.committed || commits(progress, events) >= 1,
        run(progress, events).phase is Finished && run(progress, events).outcome == Some(
            Ok::<(), super::WorkerFailure>(()),
        ) ==> (publishes(progress, events) == 1 <==> progress.committed || commits(
            progress,
            events,
        ) >= 1),
    decreases events.len(),
{
    if events.len() > 0 {
        let event = events[0];
        let next = advanced(progress, event);
        let rest = events.drop_first();
        advanced_is_valid(progress, event);
        lemma_committed_step(progress, event);
        if next.phase is Push || next.phase is Finished {
            lemma_after_publish(next, rest);
        } else {
            lemma_publish_gate(next, rest);
        }
    }
}

/// Publish gating. Whatever the programs answer to a cycle from its beginning, the cycle
/// asks at most once for the commits to be published, and only after a commit was made in
/// it; and a cycle that ended well asked for it exactly if a commit was made.
pub proof fn publish_gating(progress: Progress, events: Seq<Event>)
    requires
        valid(progress),
        progress.phase is Login,
    ensures
        publishes(progress, events) <= 1,
        publishes(progress, events) == 1 ==> commits(progress, events) >= 1,
        run(progress, events).phase is Finished && run(progress, events).outcome == Some(
            Ok::<(), super::WorkerFailure>(()),
        ) ==> (publishes(progress, events) == 1 <==> commits(progress, events) >= 1),
{
    lemma_publish_gate(progress, events);
}

/// A failed login ends the cycle at once: the cycle is over with the error of the login, it
/// has no session, and whatever follows changes nothing.
pub proof fn failed_login_ends_cycle(progress: Progress, event: Event, events: Seq<Event>)
    requires
        valid(progress),
        progress.phase is Login,
        event matches Event::Executed(execution) && depot::login_result(execution) is Err,
    ensures
        advanced(progress, event).phase is Finished,
        advanced(progress, event).depot.token is None,
        event matches Event::Executed(execution) && advanced(progress, event).outcome == Some(
            Err::<(), super::WorkerFailure>(
                super::cycle::perforce_failure(depot::login_result(execution)->Err_0),
            ),
        ),
        run(advanced(progress, event), events) == advanced(progress, event),
{
    advanced_is_valid(progress, event);
    lemma_after_publish(advanced(progress, event), events);
}

/// A session that began is ended before the cycle is over: a cycle that is over has no
/// session, whether it ended well or not.
pub proof fn finished_cycle_has_no_session(progress: Progress, events: Seq<Event>)
    requires
        valid(progress),
    ensures
        valid(run(progress, events)),
        run(progress, events).phase is Finished ==> run(progress, events).depot.token is None,
    decreases events.len(),
{
    if events.len() > 0 {
        advanced_is_valid(progress, events[0]);
        finished_cycle_has_no_session(advanced(progress, events[0]), events.drop_first());
    }
}

/// The batch of a cycle holds its changes in ascending order, none of them twice, and no
/// more of them than the batch size, whatever the depot listed and in whatever order.
pub proof fn batch_is_ordered_and_bounded(progress: Progress, events: Seq<Event>)
    requires
        valid(progress),
    ensures
        crate::batch::is_ascending(run(progress, events).batch),
        run(progress, events).batch.len() <= progress.batch_size,
        run(progress, events).batch_size == progress.batch_size,
    decreases events.len(),
{
    if events.len() > 0 {
        advanced_is_valid(progress, events[0]);
        batch_is_ordered_and_bounded(advanced(progress, events[0]), events.drop_first());
    }
}

/// The changes of a batch are taken in their order: while the cycle is at work on the batch,
/// a step keeps the batch, and either stays with the change at hand or goes on to the next
/// one, whose number is larger.
pub proof fn changes_are_taken_in_order(progress: Progress, event: Event)
    requires
        valid(progress),
        super::cycle::in_batch(progress.phase),
        super::cycle::in_batch(advanced(progress, event).phase),
    ensures
        advanced(progress, event).batch == progress.batch,
        advanced(progress, event).position == progress.position || (advanced(
            progress,
            event,
        ).position == progress.position + 1 && advanced(progress, event).phase is Describe
            && progress.batch[progress.position as int] < progress.batch[progress.position as int + 1]),
{
}

/// Resume correctness. When the last commit holds change `k`, the cycle asks next for the
/// changes from `k + 1` on, and from change 1 on when no commit holds a change.
pub proof fn resume_correct(progress: Progress, event: Event, last: Option<u32>)
    requires
        valid(progress),
        progress.phase is LastCommit,
        event matches Event::Executed(execution) && repository::last_commit_result(execution)
            == Ok::<Option<u32>, MercurialFailure>(last),
    ensures
        advanced(progress, event).phase is Changes,
        advanced(progress, event).since == match last {
            Some(k) => k + 1,
            None => 1,
        },
        requested(advanced(progress, event)) == Demand::Run(
            depot::changes_request(
                progress.depot,
                progress.depot.token->0,
                progress.depot_directory,
                advanced(progress, event).since,
            ),
        ),
{
    assert(resume_after(last) <= u32::MAX + 1);
}

/// An empty batch changes nothing. When the depot lists no change that is due, the cycle ends
/// its session and is over: whatever follows, it makes no commit, asks for no publishing,
/// and asks for nothing else that touches the working copy.
pub proof fn empty_batch_is_idle(progress: Progress, event: Event, events: Seq<Event>)
    requires
        valid(progress),
        progress.phase is Changes,
        event matches Event::Executed(execution) && depot::guarded(
            progress.depot,
            depot::changes_result(execution),
        ) matches Ok(numbers) && ascending_of(numbers).len() == 0,
    ensures
        advanced(progress, event).phase is Logout,
        advanced(progress, event).failure is None,
        quiet(run(advanced(progress, event), events)),
        commits(advanced(progress, event), events) == 0,
        publishes(advanced(progress, event), events) == 0,
{
    advanced_is_valid(progress, event);
    lemma_quiet(advanced(progress, event), events);
}

/// No-op detection. When no large file is found for a change and the plain listing names no
/// file either, nothing is staged and nothing is committed for it: the cycle goes on to the
/// next change of the batch, or ends its session behind the last, and knows of no commit it
/// did not know of before.
pub proof fn unchanged_change_is_skipped(progress: Progress, sizes: Event, listing: Event)
    requires
        valid(progress),
        progress.phase is Measure,
        sizes matches Event::Measured(candidates) && repository::large_files(
            candidates@,
            repository::LARGE_FILE_SIZE,
        ) matches Ok(large) && large.len() == 0,
        listing matches Event::Executed(execution) && repository::status_result(execution)
            matches Ok(paths) && paths.len() == 0,
    ensures
        advanced(progress, sizes).phase is Status,
        advanced(advanced(progress, sizes), listing).committed == progress.committed,
        !is_commit(progress, sizes) && !is_commit(advanced(progress, sizes), listing),
        if progress.position + 1 < progress.batch.len() {
            advanced(advanced(progress, sizes), listing).phase is Describe && advanced(
                advanced(progress, sizes),
                listing,
            ).position == progress.position + 1
        } else {
            advanced(advanced(progress, sizes), listing).phase is Logout && advanced(
                advanced(progress, sizes),
                listing,
            ).failure is None
        },
{
}

/// What the cycle asks for behind each of `events`, one after the other.
pub open spec fn asked(progress: Progress, events: Seq<Event>) -> Seq<Demand>
    decreases events.len(),
{
    if events.len() == 0 {
        Seq::empty()
    } else {
        seq![requested(advanced(progress, events[0]))] + asked(
            advanced(progress, events[0]),
            events.drop_first(),
        )
    }
}

/// Whether `round` is what the programs answer for a change `id` that changes nothing, when
/// no call fails: the description of the change, the update and the cleaning of the
/// workspace, a listing of the files that are not tracked, sizes among which none is large,
/// and a plain listing that names no file.
pub open spec fn is_idle_round(depot: depot::Depot, id: u32, round: Seq<Event>) -> bool {
    &&& round.len() == 6
    &&& (round[0] matches Event::Executed(execution) && depot::guarded(
        depot,
        depot::change_result(execution, id),
    ) is Ok)
    &&& (round[1] matches Event::Executed(execution) && depot::ending(execution) is Ok)
    &&& (round[2] matches Event::Executed(execution) && depot::ending(execution) is Ok)
    &&& (round[3] matches Event::Executed(execution) && repository::status_result(execution) is Ok)
    &&& (round[4] matches Event::Measured(candidates) && (repository::large_files(
        candidates@,
        repository::LARGE_FILE_SIZE,
    ) matches Ok(large) && large.len() == 0))
    &&& (round[5] matches Event::Executed(execution) && (repository::status_result(execution)
        matches Ok(paths) && paths.len() == 0))
}

/// Whether `events` are such rounds for the changes `ids`, one round for each, in their
/// order.
pub open spec fn is_idle_batch(depot: depot::Depot, ids: Seq<u32>, events: Seq<Event>) -> bool
    decreases ids.len(),
{
    if ids.len() == 0 {
        events.len() == 0
    } else {
        events.len() >= 6 && is_idle_round(depot, ids[0], events.take(6)) && is_idle_batch(
            depot,
            ids.drop_first(),
            events.skip(6),
        )
    }
}

/// What the cycle asks for while it takes the round of the change at place `k` of its batch
/// that changes nothing: the workspace at the change, the workspace cleaned, the files that
/// are not tracked, their sizes, the files that differ, and then the description of the next
/// change, or the end of the session behind the last.
pub open spec fn idle_round_demands(progress: Progress, k: int, round: Seq<Event>) -> Seq<Demand> {
    let token = progress.depot.token->0;
    seq![
        Demand::Run(
            depot::sync_request(
                progress.depot,
                token,
                progress.depot_directory,
                progress.batch[k],
            ),
        ),
        Demand::Run(depot::clean_request(progress.depot, token, progress.depot_directory)),
        Demand::Run(repository::get_large_files_request(progress.repository)),
        Demand::Measure(repository::status_result(round[3]->Executed_0)->Ok_0),
        Demand::Run(repository::status_request(progress.repository)),
        if k + 1 < progress.batch.len() {
            Demand::Run(depot::change_request(progress.depot, token, progress.batch[k + 1]))
        } else {
            Demand::Run(depot::logout_request(progress.depot, token))
        },
    ]
}

/// What the cycle asks for while it takes such rounds from the change at place `k` of its
/// batch on: nothing is staged, committed or published.
pub open spec fn idle_demands(progress: Progress, k: int, events: Seq<Event>) -> Seq<Demand>
    decreases progress.batch.len() - k,
{
    if k < 0 || k >= progress.batch.len() {
        Seq::empty()
    } else {
        idle_round_demands(progress, k, events.take(6)) + idle_demands(
            progress,
            k + 1,
            events.skip(6),
        )
    }
}

/// Events taken one after the other are taken as one sequence.
pub proof fn lemma_run_append(progress: Progress, first: Seq<Event>, second: Seq<Event>)
    ensures
        run(progress, first + second) == run(run(progress, first), second),
        commits(progress, first + second) == commits(progress, first) + commits(
            run(progress, first),
            second,
        ),
        publishes(progress, first + second) == publishes(progress, first) + publishes(
            run(progress, first),
            second,
        ),
        asked(progress, first + second) == asked(progress, first) + asked(
            run(progress, first),
            second,
        ),
    decreases first.len(),
{
    if first.len() == 0 {
        assert(first + second == second);
        assert(asked(progress, first) + asked(progress, second) == asked(progress, second));
    } else {
        let all = first + second;
        let next = advanced(progress, first[0]);
        assert(all[0] == first[0]);
        assert(all.drop_first() == first.drop_first() + second);
        lemma_run_append(next, first.drop_first(), second);
        assert(seq![requested(next)] + (asked(next, first.drop_first()) + asked(
            run(next, first.drop_first()),
            second,
        )) == seq![requested(next)] + asked(next, first.drop_first()) + asked(
            run(next, first.drop_first()),
            second,
        ));
    }
}

/// What is asked for in such rounds depends on the depot, the repository and the batch alone.
pub proof fn lemma_idle_demands_same(
    progress: Progress,
    other: Progress,
    k: int,
    events: Seq<Event>,
)
    requires
        other.depot == progress.depot,
        other.repository == progress.repository,
        other.depot_directory == progress.depot_directory,
        other.batch == progress.batch,
    ensures
        idle_demands(other, k, events) == idle_demands(progress, k, events),
    decreases progress.batch.len() - k,
{
    if 0 <= k < progress.batch.len() {
        lemma_idle_demands_same(progress, other, k + 1, events.skip(6));
    }
}

/// One change that changes nothing: the cycle asks for the workspace at the change, cleans
/// it, looks for large files and for files that differ, stages and commits nothing, and goes
/// on behind the change.
pub proof fn lemma_idle_round(progress: Progress, round: Seq<Event>)
    requires
        valid(progress),
        progress.phase is Describe,
        is_idle_round(progress.depot, progress.batch[progress.position as int], round),
    ensures
        valid(run(progress, round)),
        run(progress, round).depot == progress.depot,
        run(progress, round).repository == progress.repository,
        run(progress, round).depot_directory == progress.depot_directory,
        run(progress, round).batch == progress.batch,
        run(progress, round).batch_size == progress.batch_size,
        run(progress, round).committed == progress.committed,
        run(progress, round).failure is None,
        if progress.position + 1 < progress.batch.len() {
            run(progress, round).phase is Describe && run(progress, round).position
                == progress.position + 1
        } else {
            run(progress, round).phase is Logout
        },
        commits(progress, round) == 0,
        publishes(progress, round) == 0,
        asked(progress, round) == idle_round_demands(progress, progress.position as int, round),
{
    let t1 = round.drop_first();
    let t2 = t1.drop_first();
    let t3 = t2.drop_first();
    let t4 = t3.drop_first();
    let t5 = t4.drop_first();
    let t6 = t5.drop_first();
    assert(t1[0] == round[1] && t2[0] == round[2] && t3[0] == round[3] && t4[0] == round[4]
        && t5[0] == round[5]);
    let s1 = advanced(progress, round[0]);
    advanced_is_valid(progress, round[0]);
    assert(s1.phase is Sync);
    let s2 = advanced(s1, round[1]);
    advanced_is_valid(s1, round[1]);
    assert(s2.phase is Clean);
    let s3 = advanced(s2, round[2]);
    advanced_is_valid(s2, round[2]);
    assert(s3.phase is Unknown);
    let s4 = advanced(s3, round[3]);
    advanced_is_valid(s3, round[3]);
    assert(s4.phase is Measure);
    let s5 = advanced(s4, round[4]);
    advanced_is_valid(s4, round[4]);
    assert(s5.phase is Status);
    let s6 = advanced(s5, round[5]);
    advanced_is_valid(s5, round[5]);
    assert(s6 == super::cycle::next_change(s5));
    assert(run(s6, t6) == s6);
    assert(run(s5, t5) == s6);
    assert(run(s4, t4) == s6);
    assert(run(s3, t3) == s6);
    assert(run(s2, t2) == s6);
    assert(run(s1, t1) == s6);
    assert(run(progress, round) == s6);
    assert(commits(s6, t6) == 0 && publishes(s6, t6) == 0);
    assert(commits(s5, t5) == 0 && publishes(s5, t5) == 0);
    assert(commits(s4, t4) == 0 && publishes(s4, t4) == 0);
    assert(commits(s3, t3) == 0 && publishes(s3, t3) == 0);
    assert(commits(s2, t2) == 0 && publishes(s2, t2) == 0);
    assert(commits(s1, t1) == 0 && publishes(s1, t1) == 0);
    assert(asked(s6, t6) =~= Seq::<Demand>::empty());
    assert(asked(s5, t5) =~= seq![requested(s6)]);
    assert(asked(s4, t4) =~= seq![requested(s5), requested(s6)]);
    assert(asked(s3, t3) =~= seq![requested(s4), requested(s5), requested(s6)]);
    assert(asked(s2, t2) =~= seq![requested(s3), requested(s4), requested(s5), requested(s6)]);
    assert(asked(s1, t1) =~= seq![
        requested(s2),
        requested(s3),
        requested(s4),
        requested(s5),
        requested(s6),
    ]);
    assert(asked(progress, round) =~= seq![
        requested(s1),
        requested(s2),
        requested(s3),
        requested(s4),
        requested(s5),
        requested(s6),
    ]);
    assert(asked(progress, round) =~= idle_round_demands(
        progress,
        progress.position as int,
        round,
    ));
}

/// No-op detection over a whole batch. When every change of the batch from the one at hand
/// on changes nothing, and no call fails, a change that changes nothing does not stop the
/// batch: for each of these changes, in ascending order and once, the cycle asks for its
/// description, for the workspace at the change and for the cleaning of the workspace, and
/// looks for large files and for files that differ. It stages nothing, commits nothing and
/// publishes nothing, knows of no commit it did not know of before, and ends its session
/// behind the last change.
pub proof fn idle_batch_is_skipped(progress: Progress, events: Seq<Event>)
    requires
        valid(progress),
        progress.phase is Describe,
        is_idle_batch(progress.depot, progress.batch.skip(progress.position as int), events),
    ensures
        events.len() == 6 * (progress.batch.len() - progress.position),
        requested(progress) == Demand::Run(
            depot::change_request(
                progress.depot,
                progress.depot.token->0,
                progress.batch[progress.position as int],
            ),
        ),
        asked(progress, events) == idle_demands(progress, progress.position as int, events),
        commits(progress, events) == 0,
        publishes(progress, events) == 0,
        valid(run(progress, events)),
        run(progress, events).phase is Logout,
        run(progress, events).failure is None,
        run(progress, events).committed == progress.committed,
        run(progress, events).depot == progress.depot,
    decreases progress.batch.len() - progress.position,
{
    reveal_with_fuel(is_idle_batch, 2);
    let k = progress.position as int;
    let ids = progress.batch.skip(k);
    assert(ids[0] == progress.batch[k]);
    let round = events.take(6);
    let rest = events.skip(6);
    assert(events == round + rest);
    lemma_idle_round(progress, round);
    lemma_run_append(progress, round, rest);
    let next = run(progress, round);
    assert(ids.drop_first() == progress.batch.skip(k + 1));
    if k + 1 < progress.batch.len() {
        idle_batch_is_skipped(next, rest);
        lemma_idle_demands_same(progress, next, k + 1, rest);
    } else {
        assert(rest.len() == 0);
        assert(idle_demands(progress, k + 1, rest) =~= Seq::<Demand>::empty());
    }
}

/// A batch of changes that change nothing, from the listing to the end of the cycle. When
/// the depot lists changes that are due, every change of the batch changes nothing, and no
/// call fails, the cycle takes every change of the batch, commits and publishes nothing,
/// and ends well.
pub proof fn idle_cycle_ends_well(
    progress: Progress,
    listing: Event,
    rounds: Seq<Event>,
    logout: Event,
)
    requires
        valid(progress),
        progress.phase is Changes,
        listing matches Event::Executed(execution) && (depot::guarded(
            progress.depot,
            depot::changes_result(execution),
        ) matches Ok(numbers) && crate::batch::first_of(
            ascending_of(numbers),
            progress.batch_size as nat,
        ).len() >= 1),
        is_idle_batch(progress.depot, advanced(progress, listing).batch, rounds),
        logout matches Event::Executed(execution) && depot::ending(execution) is Ok,
    ensures
        advanced(progress, listing).batch == crate::batch::first_of(
            ascending_of(
                depot::guarded(
                    progress.depot,
                    depot::changes_result(listing->Executed_0),
                )->Ok_0,
            ),
            progress.batch_size as nat,
        ),
        rounds.len() == 6 * advanced(progress, listing).batch.len(),
        asked(advanced(progress, listing), rounds) == idle_demands(
            advanced(progress, listing),
            0,
            rounds,
        ),
        run(progress, seq![listing] + rounds + seq![logout]).phase is Finished,
        run(progress, seq![listing] + rounds + seq![logout]).outcome == Some(
            Ok::<(), super::WorkerFailure>(()),
        ),
        commits(progress, seq![listing] + rounds + seq![logout]) == 0,
        publishes(progress, seq![listing] + rounds + seq![logout]) == 0,
{
    let begun = advanced(progress, listing);
    advanced_is_valid(progress, listing);
    assert(begun.phase is Describe);
    assert(begun.batch.skip(0) == begun.batch);
    idle_batch_is_skipped(begun, rounds);
    let ended = run(begun, rounds);
    let first = seq![listing];
    let last = seq![logout];
    assert(first.drop_first().len() == 0);
    assert(first[0] == listing);
    assert(run(begun, first.drop_first()) == begun);
    assert(commits(begun, first.drop_first()) == 0);
    assert(publishes(begun, first.drop_first()) == 0);
    assert(run(progress, first) == begun);
    assert(commits(progress, first) == 0);
    assert(publishes(progress, first) == 0);
    lemma_run_append(progress, first, rounds);
    lemma_run_append(progress, first + rounds, last);
    let over = advanced(ended, logout);
    assert(last.drop_first().len() == 0);
    assert(last[0] == logout);
    assert(run(over, last.drop_first()) == over);
    assert(commits(over, last.drop_first()) == 0);
    assert(publishes(over, last.drop_first()) == 0);
    assert(run(ended, last) == over);
    assert(commits(ended, last) == 0);
    assert(publishes(ended, last) == 0);
}

} // verus!
