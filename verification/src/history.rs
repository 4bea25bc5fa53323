//! The history of finished jobs and its limit.

use vstd::prelude::*;
use crate::job::{Job, JobStatus, JobView};
use crate::laws;

verus! {

/// The values of a list of jobs.
pub open spec fn values(jobs: Seq<Job>) -> Seq<JobView> {
    jobs.map_values(|j: Job| j@)
}

/// Whether the job at `i` ended before the one at `j`; of two that ended at the same time, the
/// one that stands first counts as the older.
pub open spec fn older(jobs: Seq<JobView>, i: int, j: int) -> bool {
    jobs[i].end_time().before(jobs[j].end_time()) || (!jobs[j].end_time().before(
        jobs[i].end_time(),
    ) && i < j)
}

/// Whether the oldest of the finished jobs stands at `i`.
pub open spec fn is_oldest(jobs: Seq<JobView>, i: int) -> bool {
    &&& 0 <= i < jobs.len()
    &&& jobs[i].status.finished()
    &&& forall|j: int|
        0 <= j < jobs.len() && j != i && (#[trigger] jobs[j]).status.finished() ==> older(jobs, i, j)
}

/// A list of jobs without its `n` oldest finished jobs, or without all finished jobs where
/// there are fewer.
pub open spec fn without_oldest(jobs: Seq<JobView>, n: nat) -> Seq<JobView>
    decreases n,
{
    if n == 0 || !exists|i: int| is_oldest(jobs, i) {
        jobs
    } else {
        without_oldest(jobs.remove(choose|i: int| is_oldest(jobs, i)), (n - 1) as nat)
    }
}

/// A list of jobs cut down to `max_history` jobs by leaving out the oldest finished ones; zero
/// means no limit.
pub open spec fn limited(jobs: Seq<JobView>, max_history: nat) -> Seq<JobView> {
    if max_history == 0 || jobs.len() <= max_history {
        jobs
    } else {
        without_oldest(jobs, (jobs.len() - max_history) as nat)
    }
}

/// No two places hold the oldest finished job.
pub proof fn lemma_oldest_unique(jobs: Seq<JobView>, i: int, j: int)
    requires
        is_oldest(jobs, i),
        is_oldest(jobs, j),
    ensures
        i == j,
{
    if i != j {
        assert(jobs[i].status.finished() && jobs[j].status.finished());
        assert(older(jobs, i, j) && older(jobs, j, i));
    }
}

/// Finds the oldest finished job.
fn find_oldest(jobs: &Vec<Job>) -> (res: Option<usize>)
    ensures
        match res {
            Some(i) => is_oldest(values(jobs@), i as int),
            None => forall|i: int|
                0 <= i < jobs@.len() ==> !(#[trigger] values(jobs@)[i]).status.finished(),
        },
{
    let ghost vs = values(jobs@);
    let mut best: Option<usize> = None;
    let mut k: usize = 0;
    while k < jobs.len()
        invariant
            k <= jobs@.len(),
            vs == values(jobs@),
            match best {
                Some(b) => {
                    &&& b < k
                    &&& vs[b as int].status.finished()
                    &&& forall|j: int|
                        0 <= j < k && j != b && (#[trigger] vs[j]).status.finished() ==> older(
                            vs,
                            b as int,
                            j,
                        )
                },
                None => forall|j: int| 0 <= j < k ==> !(#[trigger] vs[j]).status.finished(),
            },
        decreases jobs@.len() - k,
    {
        assert(vs[k as int] == jobs@[k as int]@);
        if jobs[k].status.is_finished() {
            match best {
                Some(b) => {
                    assert(vs[b as int] == jobs@[b as int]@);
                    if jobs[k].end_time().is_before(&jobs[b].end_time()) {
                        best = Some(k);
                    }
                },
                None => {
                    best = Some(k);
                },
            }
        }
        k = k + 1;
    }
    best
}

/// Cuts a list of jobs down to `max_history` jobs by removing the oldest finished ones, as far
/// as there are any; zero means no limit.
pub fn limit_history(jobs: &mut Vec<Job>, max_history: usize)
    ensures
        values(final(jobs)@) == limited(values(old(jobs)@), max_history as nat),
{
    if max_history == 0 || jobs.len() <= max_history {
        return;
    }
    let ghost all = values(jobs@);
    let excess: usize = jobs.len() - max_history;
    let mut left: usize = excess;
    while left > 0
        invariant
            left <= excess,
            without_oldest(values(jobs@), left as nat) == without_oldest(all, excess as nat),
        ensures
            values(jobs@) == without_oldest(all, excess as nat),
        decreases left,
    {
        let ghost before = values(jobs@);
        match find_oldest(jobs) {
            Some(i) => {
                proof {
                    let c = choose|c: int| is_oldest(before, c);
                    lemma_oldest_unique(before, c, i as int);
                }
                let _old = jobs.remove(i);
                assert(values(jobs@) == before.remove(i as int));
                left = left - 1;
            },
            None => {
                assert(forall|i: int| !is_oldest(before, i));
                break;
            },
        }
    }
}

/// The values of a list of jobs are those of its jobs, in the same order.
pub proof fn law_values(jobs: Seq<Job>, i: int)
    requires
        0 <= i < jobs.len(),
    ensures
        values(jobs).len() == jobs.len(),
        values(jobs)[i] == jobs[i]@,
{
}

/// The places of jobs, told by their places once the job at `o` is gone.
spec fn shifted(places: Seq<int>, o: int) -> Seq<int> {
    Seq::new(
        places.len(),
        |k: int| if places[k] < o { places[k] } else { places[k] + 1 },
    )
}

/// A place that is not among the shifted ones was not among the places before.
proof fn lemma_shifted(places: Seq<int>, o: int, i: int)
    requires
        i != o,
        !shifted(places, o).contains(i),
    ensures
        !places.contains(if i < o { i } else { i - 1 }),
{
    let r = if i < o { i } else { i - 1 };
    if places.contains(r) {
        let k = choose|k: int| 0 <= k < places.len() && places[k] == r;
        assert(shifted(places, o)[k] == i);
    }
}

/// What is left of a list of jobs without its `n` oldest finished jobs, told by places.
#[verifier::spinoff_prover]
#[verifier::rlimit(50)]
proof fn lemma_kept_places(jobs: Seq<JobView>, n: nat) -> (kept: Seq<int>)
    ensures
        kept.len() == without_oldest(jobs, n).len(),
        forall|k: int|
            0 <= k < kept.len() ==> 0 <= #[trigger] kept[k] < jobs.len() && without_oldest(
                jobs,
                n,
            )[k] == jobs[kept[k]],
        forall|k: int, l: int| 0 <= k < l < kept.len() ==> #[trigger] kept[k] < #[trigger] kept[l],
        forall|i: int|
            0 <= i < jobs.len() && !(#[trigger] kept.contains(i)) ==> jobs[i].status.finished(),
        forall|i: int, k: int|
            0 <= i < jobs.len() && !kept.contains(i) && 0 <= k < kept.len()
                && jobs[kept[k]].status.finished() ==> #[trigger] older(jobs, i, kept[k]),
    decreases n,
{
    if n == 0 || !exists|i: int| is_oldest(jobs, i) {
        let kept = Seq::new(jobs.len(), |i: int| i);
        assert forall|i: int| 0 <= i < jobs.len() implies #[trigger] kept.contains(i) by {
            assert(kept[i] == i);
        }
        kept
    } else {
        let o = choose|i: int| is_oldest(jobs, i);
        let rest = jobs.remove(o);
        let inner = lemma_kept_places(rest, (n - 1) as nat);
        let kept = shifted(inner, o);
        let left = without_oldest(jobs, n);
        assert(left == without_oldest(rest, (n - 1) as nat));
        assert forall|k: int| 0 <= k < kept.len() implies 0 <= #[trigger] kept[k] < jobs.len()
            && left[k] == jobs[kept[k]] && kept[k] != o && rest[inner[k]] == jobs[kept[k]] by {
            assert(0 <= inner[k] < rest.len());
        }
        assert forall|k: int, l: int| 0 <= k < l < kept.len() implies #[trigger] kept[k]
            < #[trigger] kept[l] by {
            assert(inner[k] < inner[l]);
        }
        assert forall|i: int| 0 <= i < jobs.len() && !(#[trigger] kept.contains(i)) implies jobs[i].status.finished() by {
            if i != o {
                lemma_shifted(inner, o, i);
                let r = if i < o { i } else { i - 1 };
                assert(!inner.contains(r));
                assert(rest[r] == jobs[i]);
            }
        }
        assert forall|i: int, k: int|
            0 <= i < jobs.len() && !kept.contains(i) && 0 <= k < kept.len()
                && jobs[kept[k]].status.finished() implies #[trigger] older(jobs, i, kept[k]) by {
            let m = kept[k];
            assert(m != o && rest[inner[k]] == jobs[m]);
            if i != o {
                lemma_shifted(inner, o, i);
                let r = if i < o { i } else { i - 1 };
                assert(rest[r] == jobs[i]);
                assert(older(rest, r, inner[k]));
            }
        }
        kept
    }
}

/// What a limited history keeps, told by the places of the jobs in the list. The jobs that stay
/// keep their order. Those that leave neither wait nor run. Each of them ended no later than any
/// finished job that stays, and of two that ended at the same time the first in the list leaves.
/// A job ended when it was completed; without such a time, the time of its submission counts.
/// A list within the limit stays as it is, as does every list where the limit is zero; a longer
/// one is cut down to the limit, or as far as there are finished jobs.
pub proof fn law_limited(jobs: Seq<JobView>, max_history: nat) -> (kept: Seq<int>)
    ensures
        kept.len() == limited(jobs, max_history).len(),
        forall|k: int|
            0 <= k < kept.len() ==> 0 <= #[trigger] kept[k] < jobs.len() && limited(
                jobs,
                max_history,
            )[k] == jobs[kept[k]],
        forall|k: int, l: int| 0 <= k < l < kept.len() ==> #[trigger] kept[k] < #[trigger] kept[l],
        max_history == 0 || jobs.len() <= max_history ==> limited(jobs, max_history) == jobs,
        max_history > 0 && jobs.len() > max_history ==> {
            ||| kept.len() == max_history
            ||| kept.len() > max_history && forall|k: int|
                0 <= k < kept.len() ==> {
                    ||| jobs[#[trigger] kept[k]].status == JobStatus::Pending
                    ||| jobs[kept[k]].status == JobStatus::Running
                }
        },
        forall|i: int|
            0 <= i < jobs.len() && !kept.contains(i) ==> (#[trigger] jobs[i]).status
                != JobStatus::Pending && jobs[i].status != JobStatus::Running,
        forall|i: int, k: int|
            0 <= i < jobs.len() && !kept.contains(i) && 0 <= k < kept.len() && jobs[kept[k]].status
                != JobStatus::Pending && jobs[kept[k]].status != JobStatus::Running ==> ({
                let left = match (#[trigger] jobs[i]).completed_at {
                    Some(t) => t,
                    None => jobs[i].submitted_at,
                };
                let stays = match jobs[#[trigger] kept[k]].completed_at {
                    Some(t) => t,
                    None => jobs[kept[k]].submitted_at,
                };
                ||| left.secs < stays.secs
                ||| left.secs == stays.secs && left.nanos < stays.nanos
                ||| left.secs == stays.secs && left.nanos == stays.nanos && i < kept[k]
            }),
{
    if max_history == 0 || jobs.len() <= max_history {
        let kept = Seq::new(jobs.len(), |i: int| i);
        assert forall|i: int| 0 <= i < jobs.len() implies kept.contains(i) by {
            assert(kept[i] == i);
        }
        kept
    } else {
        let n = (jobs.len() - max_history) as nat;
        let kept = lemma_kept_places(jobs, n);
        laws::lemma_without_oldest_len(jobs, n);
        let r = without_oldest(jobs, n);
        if kept.len() != max_history {
            assert forall|k: int| 0 <= k < kept.len() implies {
                ||| jobs[#[trigger] kept[k]].status == JobStatus::Pending
                ||| jobs[kept[k]].status == JobStatus::Running
            } by {
                assert(laws::is_active(r[k]));
            }
        }
        assert forall|i: int|
            0 <= i < jobs.len() && !kept.contains(i) implies (#[trigger] jobs[i]).status
            != JobStatus::Pending && jobs[i].status != JobStatus::Running by {
            assert(!kept.contains(i));
        }
        assert forall|i: int, k: int|
            0 <= i < jobs.len() && !kept.contains(i) && 0 <= k < kept.len() && jobs[kept[k]].status
                != JobStatus::Pending && jobs[kept[k]].status != JobStatus::Running implies ({
                let left = match (#[trigger] jobs[i]).completed_at {
                    Some(t) => t,
                    None => jobs[i].submitted_at,
                };
                let stays = match jobs[#[trigger] kept[k]].completed_at {
                    Some(t) => t,
                    None => jobs[kept[k]].submitted_at,
                };
                ||| left.secs < stays.secs
                ||| left.secs == stays.secs && left.nanos < stays.nanos
                ||| left.secs == stays.secs && left.nanos == stays.nanos && i < kept[k]
            }) by {
            assert(older(jobs, i, kept[k]));
            assert(kept.contains(kept[k]));
        }
        kept
    }
}

} // verus!
