//! The queue of waiting jobs.

use vstd::prelude::*;
use crate::job::PendingJob;

verus! {

/// The waiting jobs. The entries are kept in ascending rank; of entries of equal rank, those
/// that came later stand first. The next job is the last entry.
pub struct PendingQueue {
    entries: Vec<PendingJob>,
}

/// Whether no entry ranks below an entry before it.
pub open spec fn ascending(q: Seq<PendingJob>) -> bool {
    forall|i: int, j: int| 0 <= i < j < q.len() ==> !(#[trigger] q[j]).below(#[trigger] q[i])
}

/// Where an entry goes into a queue: behind the entries that rank below it.
pub open spec fn place_of(q: Seq<PendingJob>, entry: PendingJob) -> int
    decreases q.len(),
{
    if q.len() == 0 {
        0
    } else if q.last().below(entry) {
        q.len() as int
    } else {
        place_of(q.drop_last(), entry)
    }
}

/// A queue with an entry added.
pub open spec fn with_entry(q: Seq<PendingJob>, entry: PendingJob) -> Seq<PendingJob> {
    q.insert(place_of(q, entry), entry)
}

/// A queue without the entries of a job.
pub open spec fn without_job(q: Seq<PendingJob>, id: u128) -> Seq<PendingJob> {
    q.filter(|e: PendingJob| e.id != id)
}

/// The place of an entry parts the entries that rank below it from the others.
pub proof fn lemma_place_of(q: Seq<PendingJob>, entry: PendingJob)
    requires
        ascending(q),
    ensures
        0 <= place_of(q, entry) <= q.len(),
        forall|i: int| 0 <= i < place_of(q, entry) ==> (#[trigger] q[i]).below(entry),
        forall|i: int| place_of(q, entry) <= i < q.len() ==> !(#[trigger] q[i]).below(entry),
    decreases q.len(),
{
    if q.len() > 0 {
        if q.last().below(entry) {
            assert forall|i: int| 0 <= i < q.len() implies (#[trigger] q[i]).below(entry) by {
                assert(i < q.len() - 1 ==> !q[q.len() - 1].below(q[i]));
            }
        } else {
            assert(ascending(q.drop_last()));
            lemma_place_of(q.drop_last(), entry);
            assert(forall|i: int| 0 <= i < q.len() - 1 ==> q.drop_last()[i] == #[trigger] q[i]);
        }
    }
}

/// Adding an entry keeps a queue in ascending rank.
pub proof fn lemma_with_entry_ascending(q: Seq<PendingJob>, entry: PendingJob)
    requires
        ascending(q),
    ensures
        ascending(with_entry(q, entry)),
{
    lemma_place_of(q, entry);
    let p = place_of(q, entry);
    let r = with_entry(q, entry);
    assert forall|i: int, j: int| 0 <= i < j < r.len() implies !(#[trigger] r[j]).below(
        #[trigger] r[i],
    ) by {
        if j < p {
            assert(r[i] == q[i] && r[j] == q[j]);
        } else if j == p {
            assert(r[i] == q[i] && r[j] == entry);
        } else if i < p {
            assert(r[i] == q[i] && r[j] == q[j - 1]);
        } else if i == p {
            assert(r[i] == entry && r[j] == q[j - 1]);
        } else {
            assert(r[i] == q[i - 1] && r[j] == q[j - 1]);
        }
    }
}

/// Taking the entries of a job out keeps a queue in ascending rank.
pub proof fn lemma_without_job_ascending(q: Seq<PendingJob>, id: u128)
    requires
        ascending(q),
    ensures
        ascending(without_job(q, id)),
    decreases q.len(),
{
    reveal(Seq::filter);
    let keep = |e: PendingJob| e.id != id;
    if q.len() > 0 {
        assert(ascending(q.drop_last()));
        lemma_without_job_ascending(q.drop_last(), id);
        let rest = without_job(q.drop_last(), id);
        let r = without_job(q, id);
        if keep(q.last()) {
            assert forall|i: int, j: int| 0 <= i < j < r.len() implies !(#[trigger] r[j]).below(
                #[trigger] r[i],
            ) by {
                assert(r[i] == rest[i]);
                if j < rest.len() {
                    assert(r[j] == rest[j]);
                } else {
                    lemma_filter_origin(q.drop_last(), keep, i);
                    let k = choose|k: int| 0 <= k < q.len() - 1 && q.drop_last()[k] == rest[i];
                    assert(q[k] == rest[i] && r[j] == q[q.len() - 1]);
                }
            }
        }
    }
}

/// Every element that a filter keeps comes from the sequence.
pub proof fn lemma_filter_origin<A>(s: Seq<A>, keep: spec_fn(A) -> bool, i: int)
    requires
        0 <= i < s.filter(keep).len(),
    ensures
        s.contains(s.filter(keep)[i]),
        keep(s.filter(keep)[i]),
    decreases s.len(),
{
    reveal(Seq::filter);
    if s.len() > 0 {
        let rest = s.drop_last().filter(keep);
        if i < rest.len() {
            lemma_filter_origin(s.drop_last(), keep, i);
            let k = choose|k: int| 0 <= k < s.len() - 1 && s.drop_last()[k] == rest[i];
            assert(s[k] == rest[i]);
        } else {
            assert(s[s.len() - 1] == s.filter(keep)[i]);
        }
    }
}

impl View for PendingQueue {
    type V = Seq<PendingJob>;

    closed spec fn view(&self) -> Seq<PendingJob> {
        self.entries@
    }
}

impl PendingQueue {
    /// The entries stand in ascending rank.
    pub open spec fn wf(&self) -> bool {
        ascending(self@)
    }

    /// An empty queue.
    pub fn new() -> (res: PendingQueue)
        ensures
            res.wf(),
            res@ == Seq::<PendingJob>::empty(),
    {
        PendingQueue { entries: Vec::new() }
    }

    /// Adds an entry.
    pub fn push(&mut self, entry: PendingJob)
        requires
            old(self).wf(),
        ensures
            final(self).wf(),
            final(self)@ == with_entry(old(self)@, entry),
    {
        let ghost q = self.entries@;
        let mut lo: usize = 0;
        let mut hi: usize = self.entries.len();
        proof {
            lemma_place_of(q, entry);
            lemma_with_entry_ascending(q, entry);
        }
        while lo < hi
            invariant
                self.entries@ == q,
                lo <= place_of(q, entry) <= hi <= q.len(),
                forall|i: int| 0 <= i < place_of(q, entry) ==> (#[trigger] q[i]).below(entry),
                forall|i: int|
                    place_of(q, entry) <= i < q.len() ==> !(#[trigger] q[i]).below(entry),
            decreases hi - lo,
        {
            let mid: usize = lo + (hi - lo) / 2;
            if self.entries[mid].is_below(&entry) {
                lo = mid + 1;
            } else {
                hi = mid;
            }
        }
        self.entries.insert(lo, entry);
    }

    /// Takes the highest-ranking entry out; of several, the one that came first.
    pub fn pop(&mut self) -> (res: Option<PendingJob>)
        requires
            old(self).wf(),
        ensures
            final(self).wf(),
            if old(self)@.len() == 0 {
                res is None && final(self)@ == old(self)@
            } else {
                res == Some(old(self)@.last()) && final(self)@ == old(self)@.drop_last()
            },
    {
        self.entries.pop()
    }

    /// Takes the entries of a job out.
    pub fn remove_job(&mut self, id: u128)
        requires
            old(self).wf(),
        ensures
            final(self).wf(),
            final(self)@ == without_job(old(self)@, id),
    {
        let ghost q = self.entries@;
        let ghost keep = |e: PendingJob| e.id != id;
        let mut kept: Vec<PendingJob> = Vec::new();
        let mut i: usize = 0;
        proof {
            lemma_without_job_ascending(q, id);
            reveal(Seq::filter);
            assert(q.take(0).filter(keep) == Seq::<PendingJob>::empty());
        }
        while i < self.entries.len()
            invariant
                i <= q.len(),
                self.entries@ == q,
                keep == (|e: PendingJob| e.id != id),
                kept@ == q.take(i as int).filter(keep),
            decreases q.len() - i,
        {
            let entry = self.entries[i];
            proof {
                reveal(Seq::filter);
                assert(q.take(i + 1).drop_last() == q.take(i as int));
            }
            if entry.id != id {
                kept.push(entry);
            }
            i = i + 1;
        }
        assert(q.take(i as int) == q);
        self.entries = kept;
    }
}

// What the operations on the queue do.

/// A queue is in ascending rank exactly if the priorities do not fall from entry to entry, and
/// entries of the same priority stand in the order of their submission, the latest first.
pub proof fn law_ascending(q: Seq<PendingJob>)
    ensures
        ascending(q) <==> forall|i: int, j: int|
            0 <= i < j < q.len() ==> (#[trigger] q[i]).priority < (#[trigger] q[j]).priority || (
            q[i].priority == q[j].priority && (q[i].submitted_at.secs > q[j].submitted_at.secs || (
            q[i].submitted_at.secs == q[j].submitted_at.secs && q[i].submitted_at.nanos
                >= q[j].submitted_at.nanos))),
{
}

/// Adding an entry to a queue in ascending rank puts it at some place and leaves the others in
/// their order: before it stand those of a lower priority and those of the same priority that
/// were submitted later, behind it all others, and so those of equal rank that came before it.
pub proof fn law_with_entry(q: Seq<PendingJob>, entry: PendingJob) -> (p: int)
    requires
        ascending(q),
    ensures
        0 <= p <= q.len(),
        with_entry(q, entry) == q.take(p) + seq![entry] + q.skip(p),
        forall|i: int|
            0 <= i < q.len() ==> (i < p <==> (#[trigger] q[i]).priority < entry.priority || (
            q[i].priority == entry.priority && (q[i].submitted_at.secs > entry.submitted_at.secs || (
            q[i].submitted_at.secs == entry.submitted_at.secs && q[i].submitted_at.nanos
                > entry.submitted_at.nanos)))),
{
    lemma_place_of(q, entry);
    let p = place_of(q, entry);
    assert(with_entry(q, entry) == q.take(p) + seq![entry] + q.skip(p));
    p
}

/// Taking the entries of a job out goes through the queue entry by entry, drops those of the job
/// and keeps the others in their order.
pub proof fn law_without_job(q: Seq<PendingJob>, e: PendingJob, id: u128)
    ensures
        without_job(Seq::<PendingJob>::empty(), id) == Seq::<PendingJob>::empty(),
        e.id == id ==> without_job(q.push(e), id) == without_job(q, id),
        e.id != id ==> without_job(q.push(e), id) == without_job(q, id).push(e),
{
    reveal(Seq::filter);
    assert(q.push(e).drop_last() == q);
}

} // verus!
