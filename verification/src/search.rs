//! The search as a whole: what the partitioner and the workers together
//! guarantee about the match that is reported and about the processed
//! counter.

use vstd::prelude::*;
use crate::candidate::{dotted_quad, lemma_dotted_quad_injective, KEYSPACE_MAX};
use crate::digest::sha256;
use crate::partition::{
    lemma_partition_bounds,
    lemma_partition_inside_range,
    lemma_partitions_cover_exactly_once,
    nth_partition,
    owner,
    splittable,
    step_size,
    Partition,
};
use crate::worker::{
    batches_reported,
    initial_state,
    is_preimage,
    next_state,
    none_match,
    remaining_steps,
    report_allowed,
    WorkerReport,
    WorkerState,
    REPORT_BATCH,
};

verus! {

/// The state in which a worker ends if it never reads a raised flag: the
/// transition rule applied, from `state` on, until a final state is reached.
pub open spec fn quiet_run(part: Partition, target: Seq<u8>, state: WorkerState) -> WorkerState
    decreases remaining_steps(part, state),
{
    if state.is_terminal() || !part.wf() || !state.wf(part) {
        state
    } else {
        quiet_run(part, target, next_state(part, target, state, false))
    }
}

/// At most one candidate from `min_ip` to `max_ip` hashes to `target`.
pub open spec fn at_most_one_preimage(min_ip: nat, max_ip: nat, target: Seq<u8>) -> bool {
    forall|a: nat, b: nat|
        min_ip <= a <= max_ip && min_ip <= b <= max_ip && #[trigger] is_preimage(a, target)
            && #[trigger] is_preimage(b, target) ==> a == b
}

/// SHA-256 gives different digests to the texts of different candidates from
/// `min_ip` to `max_ip`: the sense in which digests are taken to be free of
/// collisions.
pub open spec fn collision_free(min_ip: nat, max_ip: nat) -> bool {
    forall|a: nat, b: nat|
        min_ip <= a <= max_ip && min_ip <= b <= max_ip && #[trigger] sha256(dotted_quad(a))
            == #[trigger] sha256(dotted_quad(b)) ==> dotted_quad(a) == dotted_quad(b)
}

/// Where digests are free of collisions, a target has at most one preimage
/// in the keyspace, since different candidates have different texts.
pub proof fn lemma_collision_free_gives_one_preimage(min_ip: nat, max_ip: nat, target: Seq<u8>)
    requires
        max_ip <= KEYSPACE_MAX,
        collision_free(min_ip, max_ip),
    ensures
        at_most_one_preimage(min_ip, max_ip, target),
{
    assert forall|a: nat, b: nat|
        min_ip <= a <= max_ip && min_ip <= b <= max_ip && #[trigger] is_preimage(a, target)
            && #[trigger] is_preimage(b, target) implies a == b by {
        assert(sha256(dotted_quad(a)) == sha256(dotted_quad(b)));
        lemma_dotted_quad_injective(a, b);
    }
}

/// A final state that says the truth about a partition: `Completed` where no
/// candidate matches, else `Matched` with the first candidate that does.
pub open spec fn truthful_end(part: Partition, target: Seq<u8>, state: WorkerState) -> bool {
    match state {
        WorkerState::Completed => none_match(
            part.start as nat,
            part.start as nat + part.size(),
            target,
        ),
        WorkerState::Matched { candidate } => {
            &&& part.contains(candidate as nat)
            &&& is_preimage(candidate as nat, target)
            &&& none_match(part.start as nat, candidate as nat, target)
        },
        _ => false,
    }
}

/// Two truthful ends of one partition are the same state.
proof fn lemma_truthful_end_unique(
    part: Partition,
    target: Seq<u8>,
    first: WorkerState,
    second: WorkerState,
)
    requires
        part.wf(),
        truthful_end(part, target, first),
        truthful_end(part, target, second),
    ensures
        first == second,
{
}

/// From any index before which nothing matched, a worker left alone ends
/// truthfully.
proof fn lemma_quiet_run_from(part: Partition, target: Seq<u8>, index: nat)
    requires
        part.wf(),
        index <= part.size(),
        none_match(part.start as nat, part.start as nat + index, target),
    ensures
        truthful_end(
            part,
            target,
            quiet_run(part, target, WorkerState::Scanning { index: index as u64 }),
        ),
    decreases part.size() - index,
{
    let state = WorkerState::Scanning { index: index as u64 };
    let next = next_state(part, target, state, false);
    assert(quiet_run(part, target, state) == quiet_run(part, target, next));
    match next {
        WorkerState::Scanning { .. } => {
            lemma_quiet_run_from(part, target, index + 1);
        },
        WorkerState::ReportingBatch { .. } => {
            let resumed = next_state(part, target, next, false);
            assert(quiet_run(part, target, next) == quiet_run(part, target, resumed));
            lemma_quiet_run_from(part, target, index + 1);
        },
        _ => {},
    }
}

/// Left alone, a worker ends truthfully: it completes exactly where its
/// partition holds no match, and else it reports the first match of the
/// partition.
pub proof fn lemma_quiet_run_is_truthful(part: Partition, target: Seq<u8>)
    requires
        part.wf(),
    ensures
        truthful_end(part, target, quiet_run(part, target, initial_state())),
{
    lemma_quiet_run_from(part, target, 0);
}

/// A worker that was not cancelled ends as it would have ended left alone:
/// its state, the count of candidates it hashed and what it added to the
/// counter are fixed by the partition and the target. Running the same worker
/// again changes nothing.
pub proof fn lemma_uncancelled_report_is_determined(
    part: Partition,
    target: Seq<u8>,
    first: WorkerReport,
    second: WorkerReport,
)
    requires
        part.wf(),
        report_allowed(part, target, first),
        report_allowed(part, target, second),
        !(first.state is Cancelled),
        !(second.state is Cancelled),
    ensures
        first.state == quiet_run(part, target, initial_state()),
        first == second,
{
    lemma_quiet_run_is_truthful(part, target);
    lemma_truthful_end_unique(part, target, first.state, quiet_run(part, target, initial_state()));
    lemma_truthful_end_unique(part, target, first.state, second.state);
}

/// A worker is cancelled only where a poll is due, so a partition of at most
/// one cancellation interval is always scanned to its truthful end.
pub proof fn lemma_short_partition_is_never_cancelled(
    part: Partition,
    target: Seq<u8>,
    report: WorkerReport,
)
    requires
        part.wf(),
        part.size() <= crate::worker::CANCEL_CADENCE,
        report_allowed(part, target, report),
    ensures
        report.state == quiet_run(part, target, initial_state()),
{
    lemma_uncancelled_report_is_determined(part, target, report, report);
}

/// A known preimage is found. If `candidate` lies in the range that was split
/// and hashes to the target, then the worker that owns it, left alone, ends
/// with a match that is no later than `candidate`; and whatever the flag
/// reads, that worker never completes without a match.
pub proof fn lemma_preimage_is_found(
    min_ip: nat,
    max_ip: nat,
    workers: nat,
    target: Seq<u8>,
    candidate: nat,
    report: WorkerReport,
)
    requires
        splittable(min_ip, max_ip, workers),
        min_ip <= candidate <= max_ip,
        is_preimage(candidate, target),
        report_allowed(
            nth_partition(min_ip, max_ip, workers, owner(min_ip, max_ip, workers, candidate)),
            target,
            report,
        ),
    ensures
        quiet_run(
            nth_partition(min_ip, max_ip, workers, owner(min_ip, max_ip, workers, candidate)),
            target,
            initial_state(),
        ) matches WorkerState::Matched { candidate: first } && first <= candidate && is_preimage(
            first as nat,
            target,
        ),
        !(report.state is Completed),
        report.state matches WorkerState::Matched { candidate: first } ==> first <= candidate,
{
    let index = owner(min_ip, max_ip, workers, candidate);
    let part = nth_partition(min_ip, max_ip, workers, index);
    lemma_partitions_cover_exactly_once(min_ip, max_ip, workers, candidate);
    lemma_partition_bounds(min_ip, max_ip, workers, index);
    lemma_quiet_run_is_truthful(part, target);
}

/// With a single preimage in the range, the search reports that candidate and
/// no other, however many workers there are and whichever partition holds it:
/// left alone, its owner ends with it and every other worker completes; and
/// whatever the flag reads, no worker reports another candidate.
pub proof fn lemma_single_preimage_is_reported(
    min_ip: nat,
    max_ip: nat,
    workers: nat,
    target: Seq<u8>,
    candidate: nat,
    index: nat,
    report: WorkerReport,
)
    requires
        splittable(min_ip, max_ip, workers),
        min_ip <= candidate <= max_ip,
        is_preimage(candidate, target),
        at_most_one_preimage(min_ip, max_ip, target),
        index < workers,
        report_allowed(nth_partition(min_ip, max_ip, workers, index), target, report),
    ensures
        quiet_run(nth_partition(min_ip, max_ip, workers, index), target, initial_state()) == (if index
            == owner(min_ip, max_ip, workers, candidate) {
            WorkerState::Matched { candidate: candidate as u64 }
        } else {
            WorkerState::Completed
        }),
        report.state is Matched ==> index == owner(min_ip, max_ip, workers, candidate)
            && report.state == (WorkerState::Matched { candidate: candidate as u64 }),
        report.state is Completed ==> index != owner(min_ip, max_ip, workers, candidate),
{
    let part = nth_partition(min_ip, max_ip, workers, index);
    lemma_partitions_cover_exactly_once(min_ip, max_ip, workers, candidate);
    lemma_partition_bounds(min_ip, max_ip, workers, index);
    lemma_quiet_run_is_truthful(part, target);
    assert forall|other: nat| part.contains(other) && is_preimage(other, target) implies other
        == candidate by {
        lemma_partition_inside_range(min_ip, max_ip, workers, index, other);
    }
}

/// Without a preimage in the range no worker reports a match: left alone,
/// every worker completes, and whatever the flag reads, a worker ends
/// completed or cancelled.
pub proof fn lemma_no_preimage_no_match(
    min_ip: nat,
    max_ip: nat,
    workers: nat,
    target: Seq<u8>,
    index: nat,
    report: WorkerReport,
)
    requires
        splittable(min_ip, max_ip, workers),
        none_match(min_ip, max_ip + 1, target),
        index < workers,
        report_allowed(nth_partition(min_ip, max_ip, workers, index), target, report),
    ensures
        quiet_run(nth_partition(min_ip, max_ip, workers, index), target, initial_state())
            == WorkerState::Completed,
        report.state is Completed || report.state is Cancelled,
{
    let part = nth_partition(min_ip, max_ip, workers, index);
    lemma_partition_bounds(min_ip, max_ip, workers, index);
    lemma_quiet_run_is_truthful(part, target);
    assert forall|other: nat| part.contains(other) implies !is_preimage(other, target) by {
        lemma_partition_inside_range(min_ip, max_ip, workers, index, other);
    }
}

/// The same target and the same worker count give the same match: with at
/// most one preimage in the range, two workers that report a match, in one
/// run or in two, are the same worker and report the same candidate.
pub proof fn lemma_match_is_deterministic(
    min_ip: nat,
    max_ip: nat,
    workers: nat,
    target: Seq<u8>,
    first_index: nat,
    first: WorkerReport,
    second_index: nat,
    second: WorkerReport,
)
    requires
        splittable(min_ip, max_ip, workers),
        at_most_one_preimage(min_ip, max_ip, target),
        first_index < workers,
        second_index < workers,
        report_allowed(nth_partition(min_ip, max_ip, workers, first_index), target, first),
        report_allowed(nth_partition(min_ip, max_ip, workers, second_index), target, second),
        first.state is Matched,
        second.state is Matched,
    ensures
        first_index == second_index,
        first == second,
{
    let found = first.state->candidate as nat;
    let part = nth_partition(min_ip, max_ip, workers, first_index);
    lemma_partition_bounds(min_ip, max_ip, workers, first_index);
    lemma_partition_inside_range(min_ip, max_ip, workers, first_index, found);
    lemma_single_preimage_is_reported(min_ip, max_ip, workers, target, found, first_index, first);
    lemma_single_preimage_is_reported(min_ip, max_ip, workers, target, found, second_index, second);
    lemma_uncancelled_report_is_determined(part, target, first, second);
}

/// The processed counter lags by at most one batch and never runs ahead: a
/// worker that has passed over `later` candidates has reported no more than
/// `later` and no less than `later` minus one batch, and no less than it had
/// reported when it had passed over `earlier` candidates.
pub proof fn lemma_batches_reported_bounds(earlier: nat, later: nat)
    requires
        earlier <= later,
    ensures
        batches_reported(earlier) <= batches_reported(later) <= later,
        later <= batches_reported(later) + REPORT_BATCH,
        later > 0 ==> batches_reported(later) < later,
{
}

/// What a worker reports stays within its partition: it never reports more
/// than it hashed, nor hashes more than the partition holds, and it lags
/// behind what it hashed by at most one batch and the candidate at hand.
pub proof fn lemma_report_within_partition(part: Partition, target: Seq<u8>, report: WorkerReport)
    requires
        part.wf(),
        report_allowed(part, target, report),
    ensures
        report.reported <= report.examined <= part.size(),
        report.examined <= report.reported + REPORT_BATCH + 1,
{
    if report.state is Matched {
        lemma_batches_reported_bounds(0, (report.examined - 1) as nat);
    } else {
        lemma_batches_reported_bounds(0, report.examined as nat);
    }
}

/// The number of candidates in the first `count` partitions.
pub open spec fn candidates_in_first(min_ip: nat, max_ip: nat, workers: nat, count: nat) -> nat
    decreases count,
{
    if count == 0 {
        0
    } else {
        candidates_in_first(min_ip, max_ip, workers, (count - 1) as nat) + nth_partition(
            min_ip,
            max_ip,
            workers,
            (count - 1) as nat,
        ).size()
    }
}

/// The partitions together hold as many candidates as the range that was
/// split: the sizes add up to it, with nothing counted twice.
pub proof fn lemma_partition_sizes_add_up(min_ip: nat, max_ip: nat, workers: nat, count: nat)
    requires
        splittable(min_ip, max_ip, workers),
        count <= workers,
    ensures
        count < workers ==> candidates_in_first(min_ip, max_ip, workers, count) == count
            * step_size(min_ip, max_ip, workers),
        count == workers ==> candidates_in_first(min_ip, max_ip, workers, count) == max_ip - min_ip
            + 1,
    decreases count,
{
    if count > 0 {
        let last = (count - 1) as nat;
        let step = step_size(min_ip, max_ip, workers);
        lemma_partition_sizes_add_up(min_ip, max_ip, workers, last);
        lemma_partition_bounds(min_ip, max_ip, workers, last);
        assert((last + 1) * step == last * step + step) by (nonlinear_arith);
    }
}

/// The value of the processed counter when worker `i` has passed over
/// `steps[i]` candidates of its partition: the sum of what each has reported.
pub open spec fn counter_value(steps: Seq<nat>) -> nat
    decreases steps.len(),
{
    if steps.len() == 0 {
        0
    } else {
        counter_value(steps.drop_last()) + batches_reported(steps.last())
    }
}

/// `earlier` and `later` give, for each worker, how many candidates of its
/// partition it has passed over at two moments: no worker has gone back
/// between them, and none has left its partition.
pub open spec fn advanced_within(
    min_ip: nat,
    max_ip: nat,
    workers: nat,
    earlier: Seq<nat>,
    later: Seq<nat>,
) -> bool {
    forall|i: int|
        0 <= i < workers ==> earlier[i] <= #[trigger] later[i] && later[i] <= nth_partition(
            min_ip,
            max_ip,
            workers,
            i as nat,
        ).size()
}

/// The claim of [`lemma_counter_monotone_and_bounded`] for the first `count`
/// workers.
proof fn lemma_counter_prefix(
    min_ip: nat,
    max_ip: nat,
    workers: nat,
    earlier: Seq<nat>,
    later: Seq<nat>,
    count: nat,
)
    requires
        splittable(min_ip, max_ip, workers),
        count <= workers,
        earlier.len() == workers,
        later.len() == workers,
        advanced_within(min_ip, max_ip, workers, earlier, later),
    ensures
        counter_value(earlier.take(count as int)) <= counter_value(later.take(count as int)),
        counter_value(later.take(count as int)) <= candidates_in_first(
            min_ip,
            max_ip,
            workers,
            count,
        ),
    decreases count,
{
    if count > 0 {
        let shorter = (count - 1) as nat;
        lemma_counter_prefix(min_ip, max_ip, workers, earlier, later, shorter);
        assert(earlier.take(count as int).drop_last() =~= earlier.take(shorter as int));
        assert(later.take(count as int).drop_last() =~= later.take(shorter as int));
        assert(later[shorter as int] <= nth_partition(min_ip, max_ip, workers, shorter).size());
        lemma_batches_reported_bounds(earlier[shorter as int], later[shorter as int]);
    }
}

/// The processed counter never falls and never exceeds the number of
/// candidates in the range. As the workers advance, each within its own
/// partition, from the progress `earlier` to the progress `later`, the
/// counter does not decrease, and it is at most `max_ip - min_ip + 1`.
pub proof fn lemma_counter_monotone_and_bounded(
    min_ip: nat,
    max_ip: nat,
    workers: nat,
    earlier: Seq<nat>,
    later: Seq<nat>,
)
    requires
        splittable(min_ip, max_ip, workers),
        earlier.len() == workers,
        later.len() == workers,
        advanced_within(min_ip, max_ip, workers, earlier, later),
    ensures
        counter_value(earlier) <= counter_value(later) <= max_ip - min_ip + 1,
{
    lemma_counter_prefix(min_ip, max_ip, workers, earlier, later, workers);
    lemma_partition_sizes_add_up(min_ip, max_ip, workers, workers);
    assert(earlier.take(workers as int) =~= earlier);
    assert(later.take(workers as int) =~= later);
}

} // verus!
