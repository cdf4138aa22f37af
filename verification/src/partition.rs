//! Splitting a range of the keyspace into contiguous partitions, one per
//! worker, and the proof that nothing is dropped or handed out twice.

use vstd::prelude::*;
use crate::candidate::KEYSPACE_MAX;

verus! {

/// A contiguous inclusive range `[start, end]` of candidates, owned by one worker.
#[derive(Clone, Copy, Debug, PartialEq, Eq, Structural)]
pub struct Partition {
    pub start: u64,
    pub end: u64,
}

impl Partition {
    /// The range is not empty and lies in the keyspace.
    pub open spec fn wf(&self) -> bool {
        self.start <= self.end <= KEYSPACE_MAX
    }

    /// Whether `candidate` lies in the range.
    pub open spec fn contains(&self, candidate: nat) -> bool {
        self.start <= candidate <= self.end
    }

    /// The number of candidates in the range.
    pub open spec fn size(&self) -> nat {
        (self.end - self.start + 1) as nat
    }

    /// The number of candidates in the range.
    pub fn len(&self) -> (n: u64)
        requires
            self.wf(),
        ensures
            n == self.size(),
    {
        self.end - self.start + 1
    }
}

/// The bounds and the worker count that the partitioner accepts: a range of
/// the keyspace that is not empty, and at least one worker but no more
/// workers than candidates.
pub open spec fn splittable(min_ip: nat, max_ip: nat, workers: nat) -> bool {
    &&& min_ip <= max_ip <= KEYSPACE_MAX
    &&& 1 <= workers <= max_ip - min_ip + 1
}

/// The number of candidates that every partition but the last one holds.
pub open spec fn step_size(min_ip: nat, max_ip: nat, workers: nat) -> nat {
    ((max_ip - min_ip + 1) / workers as int) as nat
}

/// Partition `index` of the range `[min_ip, max_ip]` split among `workers`:
/// `step_size` candidates each, but the last partition runs up to `max_ip`
/// and so takes the remainder of the division as well.
pub open spec fn nth_partition(min_ip: nat, max_ip: nat, workers: nat, index: nat) -> Partition {
    let step = step_size(min_ip, max_ip, workers);
    Partition {
        start: (min_ip + index * step) as u64,
        end: if index + 1 == workers {
            max_ip as u64
        } else {
            (min_ip + (index + 1) * step - 1) as u64
        },
    }
}

/// The index of the partition that holds `candidate`.
pub open spec fn owner(min_ip: nat, max_ip: nat, workers: nat, candidate: nat) -> nat {
    let by_step = (candidate - min_ip) / step_size(min_ip, max_ip, workers) as int;
    if by_step >= workers - 1 {
        (workers - 1) as nat
    } else {
        by_step as nat
    }
}

/// The bounds of partition `index` as plain numbers: it is not empty, it
/// starts `index` steps above `min_ip`, and it ends one below the start of the
/// next partition, or at `max_ip` if it is the last.
pub proof fn lemma_partition_bounds(min_ip: nat, max_ip: nat, workers: nat, index: nat)
    requires
        splittable(min_ip, max_ip, workers),
        index < workers,
    ensures
        step_size(min_ip, max_ip, workers) >= 1,
        workers * step_size(min_ip, max_ip, workers) <= max_ip - min_ip + 1,
        nth_partition(min_ip, max_ip, workers, index).wf(),
        nth_partition(min_ip, max_ip, workers, index).start == min_ip + index * step_size(
            min_ip,
            max_ip,
            workers,
        ),
        index + 1 < workers ==> nth_partition(min_ip, max_ip, workers, index).end + 1
            == nth_partition(min_ip, max_ip, workers, index + 1).start,
        index + 1 == workers ==> nth_partition(min_ip, max_ip, workers, index).end == max_ip,
        index == 0 ==> nth_partition(min_ip, max_ip, workers, index).start == min_ip,
{
    let total = max_ip - min_ip + 1;
    let step = step_size(min_ip, max_ip, workers);
    let w = workers as int;
    let i = index as int;
    assert(step >= 1 && w * step <= total) by (nonlinear_arith)
        requires
            1 <= w <= total,
            step == total / w,
    ;
    assert(i * step + step <= w * step && (i + 1) * step == i * step + step && 0 <= i * step)
        by (nonlinear_arith)
        requires
            0 <= i < w,
            step >= 1,
    ;
}

/// No gaps and no overlaps: every candidate of the range lies in the partition
/// of its owner and in no other partition.
pub proof fn lemma_partitions_cover_exactly_once(
    min_ip: nat,
    max_ip: nat,
    workers: nat,
    candidate: nat,
)
    requires
        splittable(min_ip, max_ip, workers),
        min_ip <= candidate <= max_ip,
    ensures
        owner(min_ip, max_ip, workers, candidate) < workers,
        nth_partition(min_ip, max_ip, workers, owner(min_ip, max_ip, workers, candidate)).contains(
            candidate,
        ),
        forall|index: nat|
            index < workers && #[trigger] nth_partition(min_ip, max_ip, workers, index).contains(
                candidate,
            ) ==> index == owner(min_ip, max_ip, workers, candidate),
{
    let step = step_size(min_ip, max_ip, workers);
    let offset = candidate - min_ip;
    let w = workers as int;
    let o = owner(min_ip, max_ip, workers, candidate);
    lemma_partition_bounds(min_ip, max_ip, workers, 0);
    lemma_partition_bounds(min_ip, max_ip, workers, o);
    let q = offset / step as int;
    assert(q * step <= offset < q * step + step && q >= 0) by (nonlinear_arith)
        requires
            step >= 1,
            offset >= 0,
            q == offset / step as int,
    ;
    if q >= w - 1 {
        assert((w - 1) * step <= q * step) by (nonlinear_arith)
            requires
                q >= w - 1,
                step >= 1,
        ;
    } else {
        assert((q + 1) * step == q * step + step) by (nonlinear_arith);
    }
    assert forall|index: nat|
        index < workers && #[trigger] nth_partition(min_ip, max_ip, workers, index).contains(
            candidate,
        ) implies index == o by {
        lemma_partition_bounds(min_ip, max_ip, workers, index);
        let i = index as int;
        let oi = o as int;
        if i < oi {
            assert((i + 1) * step <= oi * step) by (nonlinear_arith)
                requires
                    i + 1 <= oi,
                    step >= 1,
            ;
        } else if i > oi {
            assert((oi + 1) * step <= i * step) by (nonlinear_arith)
                requires
                    oi + 1 <= i,
                    step >= 1,
            ;
            assert((oi + 1) * step == oi * step + step) by (nonlinear_arith);
        }
    }
}

/// No partition reaches outside the range that was split.
pub proof fn lemma_partition_inside_range(
    min_ip: nat,
    max_ip: nat,
    workers: nat,
    index: nat,
    candidate: nat,
)
    requires
        splittable(min_ip, max_ip, workers),
        index < workers,
        nth_partition(min_ip, max_ip, workers, index).contains(candidate),
    ensures
        min_ip <= candidate <= max_ip,
{
    let step = step_size(min_ip, max_ip, workers);
    let w = workers as int;
    let i = index as int;
    lemma_partition_bounds(min_ip, max_ip, workers, index);
    assert(0 <= i * step && (i + 1) * step <= w * step && (i + 1) * step == i * step + step)
        by (nonlinear_arith)
        requires
            0 <= i < w,
            step >= 1,
    ;
}

/// Splits `[min_ip, max_ip]` into exactly `workers` partitions, in ascending
/// order, the last one extended to `max_ip`.
pub fn partition(min_ip: u64, max_ip: u64, workers: u64) -> (parts: Vec<Partition>)
    requires
        splittable(min_ip as nat, max_ip as nat, workers as nat),
    ensures
        parts@.len() == workers,
        forall|index: int|
            0 <= index < workers ==> #[trigger] parts@[index] == nth_partition(
                min_ip as nat,
                max_ip as nat,
                workers as nat,
                index as nat,
            ),
        forall|index: int| 0 <= index < workers ==> (#[trigger] parts@[index]).wf(),
{
    let total_ips: u64 = max_ip - min_ip + 1;
    let step: u64 = total_ips / workers;
    let mut parts: Vec<Partition> = Vec::new();
    let mut ip: u64 = min_ip;
    let mut index: u64 = 0;
    while index < workers
        invariant
            splittable(min_ip as nat, max_ip as nat, workers as nat),
            step == step_size(min_ip as nat, max_ip as nat, workers as nat),
            index <= workers,
            ip == min_ip + index * step,
            parts@.len() == index,
            forall|k: int|
                0 <= k < index ==> #[trigger] parts@[k] == nth_partition(
                    min_ip as nat,
                    max_ip as nat,
                    workers as nat,
                    k as nat,
                ),
            forall|k: int| 0 <= k < index ==> (#[trigger] parts@[k]).wf(),
        decreases workers - index,
    {
        proof {
            lemma_partition_bounds(min_ip as nat, max_ip as nat, workers as nat, index as nat);
            assert((index + 1) * step == index * step + step && (index + 1) * step <= workers
                * step) by (nonlinear_arith)
                requires
                    index < workers,
                    step >= 1,
            ;
        }
        let end: u64 = if index == workers - 1 {
            max_ip
        } else {
            ip + step - 1
        };
        parts.push(Partition { start: ip, end });
        ip = ip + step;
        index = index + 1;
    }
    parts
}

} // verus!
