use vstd::prelude::*;

verus! {

/// Where a job stands in its pipeline: `Inbox -> Queued -> Running -> Finished`.
#[derive(Clone, Copy, Debug, PartialEq, Eq, Structural)]
pub enum JobStatus {
    Inbox,
    Queued,
    Running,
    Finished,
}

/// The owner of a job, known by name alone.
#[derive(Clone, Debug)]
pub struct User {
    name: String,
}

impl View for User {
    type V = Seq<char>;

    closed spec fn view(&self) -> Seq<char> {
        self.name@
    }
}

impl User {
    pub fn new(name: String) -> (r: User)
        ensures
            r@ == name@,
    {
        User { name }
    }

    pub fn to_string(&self) -> (r: String)
        ensures
            r@ == self@,
    {
        self.name.clone()
    }
}

impl PartialEq for User {
    fn eq(&self, other: &User) -> (r: bool)
        ensures
            r == (self@ == other@),
    {
        self.name == other.name
    }
}

impl vstd::std_specs::cmp::PartialEqSpecImpl for User {
    open spec fn obeys_eq_spec() -> bool {
        true
    }

    open spec fn eq_spec(&self, other: &User) -> bool {
        self@ == other@
    }
}

impl Eq for User {
}

/// A fatal misuse of the pipeline: a transition asked of a job that is not in
/// the state the transition starts from.
#[derive(Clone, Copy, Debug, PartialEq, Eq, Structural)]
pub struct IllegalTransition {
    pub expected: JobStatus,
    pub found: JobStatus,
}

/// What a job is, as far as the scheduler can tell: owner, identifier, status.
pub type JobView = (Seq<char>, Seq<char>, JobStatus);

/// One unit of work of one user.
#[derive(Clone, Debug)]
pub struct Job {
    user: User,
    id: String,
    status: JobStatus,
}

impl View for Job {
    type V = JobView;

    closed spec fn view(&self) -> JobView {
        (self.user@, self.id@, self.status)
    }
}

/// Two jobs are the same job when owner and identifier agree, whatever their status.
pub open spec fn same_job(a: JobView, b: JobView) -> bool {
    a.0 == b.0 && a.1 == b.1
}

/// The views of a sequence of jobs.
pub open spec fn views(s: Seq<Job>) -> Seq<JobView> {
    s.map_values(|j: Job| j@)
}

/// The job `j` with its status replaced by `s`.
pub open spec fn with_status(j: JobView, s: JobStatus) -> JobView {
    (j.0, j.1, s)
}

impl Job {
    pub fn new(user: User, id: String, status: JobStatus) -> (r: Job)
        ensures
            r@ == (user@, id@, status),
    {
        Job { user, id, status }
    }

    pub fn user(&self) -> (r: &User)
        ensures
            r@ == self@.0,
    {
        &self.user
    }

    pub fn id(&self) -> (r: String)
        ensures
            r@ == self@.1,
    {
        self.id.clone()
    }

    pub fn status(&self) -> (r: JobStatus)
        ensures
            r == self@.2,
    {
        self.status
    }

    /// Moves the job from one status to the next one, or refuses when the job
    /// is not in the status `from`.
    fn advance(&mut self, from: JobStatus, to: JobStatus) -> (r: Result<(), IllegalTransition>)
        ensures
            old(self)@.2 == from ==> r is Ok && final(self)@ == with_status(old(self)@, to),
            old(self)@.2 != from ==> r == Err::<(), _>(IllegalTransition { expected: from, found: old(self)@.2 })
                && final(self)@ == old(self)@,
    {
        if self.status == from {
            self.status = to;
            Ok(())
        } else {
            Err(IllegalTransition { expected: from, found: self.status })
        }
    }

    /// Admission: `Inbox -> Queued`. Any other starting status is refused and
    /// leaves the job as it was.
    pub fn from_inbox_to_queued(&mut self) -> (r: Result<(), IllegalTransition>)
        ensures
            old(self)@.2 == JobStatus::Inbox ==> r is Ok && final(self)@ == with_status(old(self)@, JobStatus::Queued),
            old(self)@.2 != JobStatus::Inbox ==> r == Err::<(), _>(IllegalTransition { expected: JobStatus::Inbox, found: old(self)@.2 })
                && final(self)@ == old(self)@,
    {
        self.advance(JobStatus::Inbox, JobStatus::Queued)
    }

    /// Dispatch: `Queued -> Running`. Any other starting status is refused and
    /// leaves the job as it was.
    pub fn from_queued_to_running(&mut self) -> (r: Result<(), IllegalTransition>)
        ensures
            old(self)@.2 == JobStatus::Queued ==> r is Ok && final(self)@ == with_status(old(self)@, JobStatus::Running),
            old(self)@.2 != JobStatus::Queued ==> r == Err::<(), _>(IllegalTransition { expected: JobStatus::Queued, found: old(self)@.2 })
                && final(self)@ == old(self)@,
    {
        self.advance(JobStatus::Queued, JobStatus::Running)
    }

    /// Completion: `Running -> Finished`. Any other starting status is refused
    /// and leaves the job as it was.
    pub fn from_running_to_finished(&mut self) -> (r: Result<(), IllegalTransition>)
        ensures
            old(self)@.2 == JobStatus::Running ==> r is Ok && final(self)@ == with_status(old(self)@, JobStatus::Finished),
            old(self)@.2 != JobStatus::Running ==> r == Err::<(), _>(IllegalTransition { expected: JobStatus::Running, found: old(self)@.2 })
                && final(self)@ == old(self)@,
    {
        self.advance(JobStatus::Running, JobStatus::Finished)
    }
}

impl PartialEq for Job {
    /// Jobs are compared by owner and identifier; the status is left out, so
    /// that a job keeps its identity through its transitions.
    fn eq(&self, other: &Job) -> (r: bool)
        ensures
            r == same_job(self@, other@),
    {
        self.user == other.user && self.id == other.id
    }
}

impl vstd::std_specs::cmp::PartialEqSpecImpl for Job {
    open spec fn obeys_eq_spec() -> bool {
        true
    }

    open spec fn eq_spec(&self, other: &Job) -> bool {
        same_job(self@, other@)
    }
}

impl Eq for Job {
}

} // verus!
