use vstd::prelude::*;

use crate::dropbox::DropboxStatus;
use crate::job::{views, Job, JobStatus, JobView, User};

verus! {

/// Where a filesystem-backed pipeline keeps its jobs: the inbox and queued
/// roots, each with one directory per user, and the execution slot.
#[derive(Clone, Debug)]
pub struct Filesystem {
    inbox: String,
    queued: String,
    outbox: String,
}

impl View for Filesystem {
    type V = (Seq<char>, Seq<char>, Seq<char>);

    closed spec fn view(&self) -> (Seq<char>, Seq<char>, Seq<char>) {
        (self.inbox@, self.queued@, self.outbox@)
    }
}

impl Filesystem {
    /// The default locations.
    pub fn new() -> (r: Filesystem)
        ensures
            r@ == ("/dropbox/Dropbox/inbox"@, "/dropbox/Dropbox/queued"@, "/dropbox/mars"@),
    {
        Filesystem {
            inbox: "/dropbox/Dropbox/inbox".to_owned(),
            queued: "/dropbox/Dropbox/queued".to_owned(),
            outbox: "/dropbox/mars".to_owned(),
        }
    }

    /// Locations of one's own choosing.
    pub fn with_dirs(inbox: String, queued: String, outbox: String) -> (r: Filesystem)
        ensures
            r@ == (inbox@, queued@, outbox@),
    {
        Filesystem { inbox, queued, outbox }
    }

    pub fn inbox(&self) -> (r: String)
        ensures
            r@ == self@.0,
    {
        self.inbox.clone()
    }

    pub fn queued(&self) -> (r: String)
        ensures
            r@ == self@.1,
    {
        self.queued.clone()
    }

    pub fn outbox(&self) -> (r: String)
        ensures
            r@ == self@.2,
    {
        self.outbox.clone()
    }
}

/// A file that a scan of the inbox found in the directory of `user`, with
/// what the sync client reported of it.
#[derive(Clone, Debug)]
pub struct InboxFile {
    pub user: String,
    pub name: String,
    pub status: DropboxStatus,
}

/// A file that a scan of the queued area found in the directory of `user`.
#[derive(Clone, Debug)]
pub struct QueuedFile {
    pub user: String,
    pub name: String,
}

/// The inbox jobs that a scan admits, in scan order: one for each file that is
/// fully mirrored; files still syncing are left for a later scan.
pub open spec fn admissible(s: Seq<InboxFile>) -> Seq<JobView>
    decreases s.len(),
{
    if s.len() == 0 {
        Seq::empty()
    } else {
        let rest = admissible(s.drop_last());
        let f = s.last();
        if f.status == DropboxStatus::UpToDate {
            rest.push((f.user@, f.name@, JobStatus::Inbox))
        } else {
            rest
        }
    }
}

/// The jobs that are waiting in the inbox and may be admitted now.
pub fn inbox_jobs(found: &Vec<InboxFile>) -> (r: Vec<Job>)
    ensures
        views(r@) == admissible(found@),
{
    let mut out: Vec<Job> = Vec::new();
    let mut i: usize = 0;
    while i < found.len()
        invariant
            0 <= i <= found@.len(),
            views(out@) == admissible(found@.take(i as int)),
        decreases found.len() - i,
    {
        let f = &found[i];
        assert(found@.take(i + 1).drop_last() =~= found@.take(i as int));
        assert(found@.take(i + 1).last() == f);
        if f.status == DropboxStatus::UpToDate {
            let job = Job::new(User::new(f.user.clone()), f.name.clone(), JobStatus::Inbox);
            out.push(job);
        }
        assert(views(out@) =~= admissible(found@.take(i + 1)));
        i = i + 1;
    }
    assert(found@.take(found@.len() as int) =~= found@);
    out
}

/// The jobs that were admitted before and still wait in the queued area, one
/// for each file, in scan order.
pub fn queued_jobs(found: &Vec<QueuedFile>) -> (r: Vec<Job>)
    ensures
        r@.len() == found@.len(),
        forall|i: int|
            0 <= i < found@.len() ==> #[trigger] r@[i]@ == (found@[i].user@, found@[i].name@, JobStatus::Queued),
{
    let mut out: Vec<Job> = Vec::new();
    let mut i: usize = 0;
    while i < found.len()
        invariant
            0 <= i <= found@.len(),
            out@.len() == i,
            forall|k: int|
                0 <= k < i ==> #[trigger] out@[k]@ == (found@[k].user@, found@[k].name@, JobStatus::Queued),
        decreases found.len() - i,
    {
        let f = &found[i];
        let job = Job::new(User::new(f.user.clone()), f.name.clone(), JobStatus::Queued);
        out.push(job);
        i = i + 1;
    }
    out
}

} // verus!
