use vstd::prelude::*;

use crate::job::{same_job, Job, JobStatus, JobView};

verus! {

/// Whether `s` already tracks a job with the identity of `j`.
pub open spec fn tracks(s: Seq<JobView>, j: JobView) -> bool {
    exists|i: int| 0 <= i < s.len() && same_job(#[trigger] s[i], j)
}

/// No job identity is tracked twice.
pub open spec fn identities_unique(s: Seq<JobView>) -> bool {
    forall|i: int, k: int|
        0 <= i < s.len() && 0 <= k < s.len() && i != k ==> !same_job(#[trigger] s[i], #[trigger] s[k])
}

/// The tracked jobs after pushing `j`: unchanged when its identity is already there.
pub open spec fn pushed(s: Seq<JobView>, j: JobView) -> Seq<JobView> {
    if tracks(s, j) {
        s
    } else {
        s.push(j)
    }
}

/// Whether position `i` of `s` holds a queued job of `user`.
pub open spec fn queued_of(s: Seq<JobView>, user: Seq<char>, i: int) -> bool {
    0 <= i < s.len() && s[i].0 == user && s[i].2 == JobStatus::Queued
}

/// Whether position `i` is the first one of `s` that holds a queued job of `user`.
pub open spec fn first_queued_at(s: Seq<JobView>, user: Seq<char>, i: int) -> bool {
    queued_of(s, user, i) && forall|k: int| 0 <= k < i ==> !queued_of(s, user, k)
}

/// The first position of `s` that holds a queued job of `user`, if there is one.
pub open spec fn first_queued(s: Seq<JobView>, user: Seq<char>) -> Option<int> {
    if exists|i: int| first_queued_at(s, user, i) {
        Some(choose|i: int| first_queued_at(s, user, i))
    } else {
        None
    }
}

/// Pushing the same job twice tracks it once: the second push changes nothing,
/// and the two together lengthen the queue by one when the job was new and by
/// nothing when it was already tracked.
pub proof fn push_twice_adds_one(s: Seq<JobView>, j: JobView)
    ensures
        pushed(pushed(s, j), j) == pushed(s, j),
        !tracks(s, j) ==> pushed(pushed(s, j), j).len() == s.len() + 1,
        tracks(s, j) ==> pushed(pushed(s, j), j).len() == s.len(),
{
    if !tracks(s, j) {
        let t = s.push(j);
        assert(same_job(t[s.len() as int], j));
        assert(tracks(t, j));
    }
}

/// Taking a job of `user` takes exactly one job, and it is a queued job of
/// that user, never a running or finished one; when nothing is taken, the
/// user has no queued job.
pub proof fn taken_job_is_queued(s: Seq<JobView>, user: Seq<char>)
    ensures
        match first_queued(s, user) {
            Some(i) => 0 <= i < s.len() && s[i].0 == user && s[i].2 == JobStatus::Queued
                && s.remove(i).len() == s.len() - 1,
            None => forall|i: int| 0 <= i < s.len() ==> !(s[i].0 == user && s[i].2 == JobStatus::Queued),
        },
{
    if first_queued(s, user) is None {
        assert forall|i: int| 0 <= i < s.len() implies !(s[i].0 == user && s[i].2 == JobStatus::Queued) by {
            if s[i].0 == user && s[i].2 == JobStatus::Queued {
                lemma_first_queued_exists(s, user, i);
            }
        };
    }
}

proof fn lemma_first_queued_exists(s: Seq<JobView>, user: Seq<char>, i: int)
    requires
        queued_of(s, user, i),
    ensures
        exists|k: int| first_queued_at(s, user, k),
    decreases i,
{
    if exists|k: int| 0 <= k < i && queued_of(s, user, k) {
        let k = choose|k: int| 0 <= k < i && queued_of(s, user, k);
        lemma_first_queued_exists(s, user, k);
    } else {
        assert(first_queued_at(s, user, i));
    }
}

/// The jobs that the scheduler tracks, queued or running, each identity at most once.
pub struct Queue {
    q: Vec<Job>,
}

impl View for Queue {
    type V = Seq<JobView>;

    closed spec fn view(&self) -> Seq<JobView> {
        self.q@.map_values(|j: Job| j@)
    }
}

impl Queue {
    pub open spec fn wf(&self) -> bool {
        identities_unique(self@)
    }

    pub fn new() -> (r: Queue)
        ensures
            r@ == Seq::<JobView>::empty(),
            r.wf(),
    {
        let r = Queue { q: Vec::new() };
        assert(r@ =~= Seq::<JobView>::empty());
        r
    }

    /// Adds `job` unless a job of the same owner and identifier is already
    /// tracked; tells whether it was added.
    pub fn push(&mut self, job: Job) -> (r: bool)
        requires
            old(self).wf(),
        ensures
            final(self).wf(),
            r == !tracks(old(self)@, job@),
            final(self)@ == pushed(old(self)@, job@),
    {
        let ghost s = self@;
        let mut i: usize = 0;
        while i < self.q.len()
            invariant
                s == self@,
                identities_unique(s),
                0 <= i <= s.len(),
                forall|k: int| 0 <= k < i ==> !same_job(#[trigger] s[k], job@),
            decreases self.q.len() - i,
        {
            if self.q[i] == job {
                assert(same_job(s[i as int], job@));
                return false;
            }
            i = i + 1;
        }
        assert(!tracks(s, job@));
        self.q.push(job);
        assert(self@ =~= s.push(job@));
        true
    }

    pub fn len(&self) -> (r: usize)
        ensures
            r == self@.len(),
    {
        self.q.len()
    }

    /// Forgets every tracked job.
    pub fn dump(&mut self)
        ensures
            final(self)@ == Seq::<JobView>::empty(),
            final(self).wf(),
    {
        self.q = Vec::new();
        assert(self@ =~= Seq::<JobView>::empty());
    }

    /// Takes out the first queued job of `user`, if there is one. Running and
    /// finished jobs are never taken.
    pub fn seq_by_user(&mut self, user: String) -> (r: Option<Job>)
        requires
            old(self).wf(),
        ensures
            final(self).wf(),
            match first_queued(old(self)@, user@) {
                Some(i) => r is Some && r->0@ == old(self)@[i] && final(self)@ == old(self)@.remove(i),
                None => r is None && final(self)@ == old(self)@,
            },
    {
        let ghost s = self@;
        let mut idx: usize = 0;
        while idx < self.q.len()
            invariant
                s == self@,
                s == old(self)@,
                identities_unique(s),
                0 <= idx <= s.len(),
                forall|k: int| 0 <= k < idx ==> !queued_of(s, user@, k),
            decreases self.q.len() - idx,
        {
            if self.q[idx].status() == JobStatus::Queued && user == self.q[idx].user().to_string() {
                assert(first_queued_at(s, user@, idx as int));
                assert(first_queued(s, user@) == Some(idx as int)) by {
                    let c = choose|i: int| first_queued_at(s, user@, i);
                    assert(first_queued_at(s, user@, c));
                    if c < idx {
                        assert(!queued_of(s, user@, c));
                    } else if c > idx {
                        assert(!queued_of(s, user@, idx as int));
                    }
                };
                let ghost before = self.q@;
                let job = self.q.remove(idx);
                assert(job@ == s[idx as int]) by {
                    assert(before[idx as int] == job);
                };
                assert(self@ =~= s.remove(idx as int));
                assert forall|a: int, b: int|
                    0 <= a < self@.len() && 0 <= b < self@.len() && a != b implies
                    !same_job(#[trigger] self@[a], #[trigger] self@[b]) by {
                    let a0 = if a < idx { a } else { a + 1 };
                    let b0 = if b < idx { b } else { b + 1 };
                    assert(self@[a] == s[a0] && self@[b] == s[b0]);
                };
                return Some(job);
            }
            idx = idx + 1;
        }
        assert(!exists|i: int| first_queued_at(s, user@, i));
        None
    }
}

} // verus!
