use vstd::prelude::*;

use crate::accounting::{
    after_queued, after_scheduled, index_of, next_of, pending_of, served_of, Accounting, Standing,
};
use crate::backend::Filesystem;
use crate::job::{Job, JobStatus, JobView};
use crate::queue::{first_queued, pushed, tracks, Queue};

verus! {

/// The ranking named a user with pending work, but the queue tracks no queued
/// job of that user: the two have drifted apart, which is fatal.
#[derive(Clone, Debug)]
pub struct Inconsistency {
    pub user: String,
}

/// The decisions of the control loop: which jobs are tracked, who is served
/// next, and whether a job may be dispatched. The storage work around each
/// decision is left to the caller.
pub struct Scheduler {
    backend: Filesystem,
    q: Queue,
    acc: Accounting,
}

impl Scheduler {
    /// The tracked jobs.
    pub closed spec fn jobs(&self) -> Seq<JobView> {
        self.q@
    }

    /// The fair-share ranking.
    pub closed spec fn ranking(&self) -> Seq<Standing> {
        self.acc@
    }

    /// Where the jobs are stored.
    pub closed spec fn storage(&self) -> Filesystem {
        self.backend
    }

    pub closed spec fn wf(&self) -> bool {
        self.q.wf() && self.acc.wf()
    }

    pub fn new() -> (r: Scheduler)
        ensures
            r.wf(),
            r.jobs() == Seq::<JobView>::empty(),
            r.ranking() == Seq::<Standing>::empty(),
            r.storage()@ == ("/dropbox/Dropbox/inbox"@, "/dropbox/Dropbox/queued"@, "/dropbox/mars"@),
    {
        Scheduler { backend: Filesystem::new(), q: Queue::new(), acc: Accounting::new() }
    }

    pub fn backend(&self) -> (r: &Filesystem)
        ensures
            *r == self.storage(),
    {
        &self.backend
    }

    pub fn queue(&self) -> (r: &Queue)
        ensures
            r@ == self.jobs(),
            self.wf() ==> r.wf(),
    {
        &self.q
    }

    pub fn accounting(&self) -> (r: &Accounting)
        ensures
            r@ == self.ranking(),
            self.wf() ==> r.wf(),
    {
        &self.acc
    }

    /// Takes in a queued job, found in the queued area after a restart or just
    /// admitted from the inbox: one more pending job for its owner, and the job
    /// tracked unless it already is. Tells whether the queue took it.
    pub fn register(&mut self, job: Job) -> (r: bool)
        requires
            old(self).wf(),
            job@.2 == JobStatus::Queued,
            pending_of(old(self).ranking(), job@.0) < usize::MAX,
        ensures
            final(self).wf(),
            final(self).ranking() == after_queued(old(self).ranking(), job@.0),
            final(self).jobs() == pushed(old(self).jobs(), job@),
            r == !tracks(old(self).jobs(), job@),
            final(self).storage() == old(self).storage(),
    {
        self.acc.queued(job.user().to_string());
        self.q.push(job)
    }

    /// Reacts to the storage locations having been checked: when the queued
    /// area had vanished and was made anew, every tracked job is forgotten.
    pub fn on_initialize(&mut self, queued_recreated: bool)
        requires
            old(self).wf(),
        ensures
            final(self).wf(),
            final(self).jobs() == if queued_recreated {
                Seq::<JobView>::empty()
            } else {
                old(self).jobs()
            },
            final(self).ranking() == old(self).ranking(),
            final(self).storage() == old(self).storage(),
    {
        if queued_recreated {
            self.q.dump();
        }
    }

    /// Picks the job to dispatch now, if any, and takes it out of the queue.
    /// Nothing is picked while the execution slot is busy. Otherwise the job is
    /// the first queued one of the user the ranking serves next; when the
    /// queue has none for that user, the inconsistency is reported.
    pub fn schedule(&mut self, slot_busy: bool) -> (r: Result<Option<Job>, Inconsistency>)
        requires
            old(self).wf(),
        ensures
            final(self).wf(),
            final(self).ranking() == old(self).ranking(),
            final(self).storage() == old(self).storage(),
            slot_busy ==> r is Ok && r->Ok_0 is None && final(self).jobs() == old(self).jobs(),
            !slot_busy ==> match next_of(old(self).ranking()) {
                None => r is Ok && r->Ok_0 is None && final(self).jobs() == old(self).jobs(),
                Some(u) => match first_queued(old(self).jobs(), u) {
                    Some(i) => r is Ok && r->Ok_0 is Some
                        && r->Ok_0->0@ == old(self).jobs()[i]
                        && final(self).jobs() == old(self).jobs().remove(i),
                    None => r is Err && r->Err_0.user@ == u
                        && final(self).jobs() == old(self).jobs(),
                },
            },
    {
        if slot_busy {
            return Ok(None);
        }
        match self.acc.next_user() {
            None => Ok(None),
            Some(user) => {
                let missing = Inconsistency { user: user.clone() };
                match self.q.seq_by_user(user) {
                    Some(job) => Ok(Some(job)),
                    None => Err(missing),
                }
            },
        }
    }

    /// Takes back a job that was just moved into the execution slot: one more
    /// dispatched and one less pending job for its owner, and the job tracked
    /// again with its new status.
    pub fn dispatched(&mut self, job: Job)
        requires
            old(self).wf(),
            served_of(old(self).ranking(), job@.0) < usize::MAX,
            0 <= index_of(old(self).ranking(), job@.0) ==> pending_of(old(self).ranking(), job@.0) > 0,
        ensures
            final(self).wf(),
            final(self).ranking() == after_scheduled(old(self).ranking(), job@.0),
            final(self).jobs() == pushed(old(self).jobs(), job@),
            final(self).storage() == old(self).storage(),
    {
        self.acc.scheduled(job.user().to_string());
        self.q.push(job);
    }
}

} // verus!
