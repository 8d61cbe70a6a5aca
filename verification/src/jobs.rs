//! Supervision of one run: which encoder to launch or wait for next, when
//! to write the master playlist, and what became of each job.
//!
//! The caller owns the processes and the files. It asks
//! [`Orchestrator::next`] what to do, does it, and reports the outcome with
//! [`Orchestrator::record`].

use vstd::prelude::*;

verus! {

/// Where one encoder job stands.
#[derive(Debug, Clone, Copy, PartialEq, Eq, Structural)]
pub enum JobStatus {
    /// Not launched yet.
    Pending,
    /// Launched; its exit has not been observed.
    Running,
    /// Exited with success.
    Succeeded,
    /// Exited with a failure.
    Failed,
    /// Could not be launched.
    LaunchFailed,
}

/// Where the master playlist stands.
#[derive(Debug, Clone, Copy, PartialEq, Eq, Structural)]
pub enum PlaylistStatus {
    /// Not written yet.
    Pending,
    /// Written.
    Written,
    /// Could not be written.
    Failed,
}

/// What the caller is to do next.
#[derive(Debug, Clone, Copy, PartialEq, Eq, Structural)]
pub enum Action {
    /// Launch the encoder of this profile, without waiting for any other.
    Launch(usize),
    /// Write the master playlist, anew and as a whole.
    WritePlaylist,
    /// Wait until the encoder of this profile has exited.
    Wait(usize),
    /// The run is over. `failed` tells whether any job could not be
    /// launched or exited with a failure, or the playlist could not be
    /// written.
    Finish { failed: bool },
}

/// What the caller has observed.
#[derive(Debug, Clone, Copy, PartialEq, Eq, Structural)]
pub enum Event {
    /// The encoder of this profile was launched.
    Launched(usize),
    /// The encoder of this profile could not be launched.
    LaunchFailed(usize),
    /// The master playlist was written, or could not be.
    PlaylistWritten(bool),
    /// The encoder of this profile has exited, with success or not.
    Exited(usize, bool),
}

/// A run as plain values.
pub struct RunView {
    /// The jobs, one per profile and in the profiles' order.
    pub jobs: Seq<JobStatus>,
    /// The master playlist.
    pub playlist: PlaylistStatus,
}

/// The job has reached its end: nothing more will be observed of it.
pub open spec fn terminal(status: JobStatus) -> bool {
    status == JobStatus::Succeeded || status == JobStatus::Failed || status
        == JobStatus::LaunchFailed
}

/// The first position at or after `from` where `jobs` has the status
/// `status`; the length of `jobs` if there is none.
pub open spec fn first_from(jobs: Seq<JobStatus>, status: JobStatus, from: int) -> int
    decreases jobs.len() - from,
{
    if from >= jobs.len() {
        jobs.len() as int
    } else if jobs[from] == status {
        from
    } else {
        first_from(jobs, status, from + 1)
    }
}

/// Some job could not be launched or exited with a failure.
pub open spec fn any_failed(jobs: Seq<JobStatus>) -> bool {
    exists|i: int|
        0 <= i < jobs.len() && (#[trigger] jobs[i] == JobStatus::Failed || jobs[i]
            == JobStatus::LaunchFailed)
}

/// The run before anything was done: `n` pending jobs and no playlist.
pub open spec fn fresh(n: nat) -> RunView {
    RunView { jobs: Seq::new(n, |i: int| JobStatus::Pending), playlist: PlaylistStatus::Pending }
}

/// What is to be done in the state `run`. The first job that is still
/// pending is launched. When none is pending, the playlist is written
/// unless that has been tried. After that the first job that is running
/// is waited for, and when none is running either, the run finishes.
pub open spec fn next_action(run: RunView) -> Action {
    let pending = first_from(run.jobs, JobStatus::Pending, 0);
    let running = first_from(run.jobs, JobStatus::Running, 0);
    if pending < run.jobs.len() {
        Action::Launch(pending as usize)
    } else if run.playlist == PlaylistStatus::Pending {
        Action::WritePlaylist
    } else if running < run.jobs.len() {
        Action::Wait(running as usize)
    } else {
        Action::Finish { failed: any_failed(run.jobs) || run.playlist == PlaylistStatus::Failed }
    }
}

/// The event fits the state: a launch is reported of a pending job, an exit
/// of a running job, and the playlist is reported once.
pub open spec fn accepts(run: RunView, event: Event) -> bool {
    match event {
        Event::Launched(i) => i < run.jobs.len() && run.jobs[i as int] == JobStatus::Pending,
        Event::LaunchFailed(i) => i < run.jobs.len() && run.jobs[i as int] == JobStatus::Pending,
        Event::PlaylistWritten(_) => run.playlist == PlaylistStatus::Pending,
        Event::Exited(i, _) => i < run.jobs.len() && run.jobs[i as int] == JobStatus::Running,
    }
}

/// The state after `event`. An event that does not fit changes nothing;
/// one that fits changes the status of what it is about and of nothing
/// else.
pub open spec fn step(run: RunView, event: Event) -> RunView {
    if !accepts(run, event) {
        run
    } else {
        match event {
            Event::Launched(i) => RunView {
                jobs: run.jobs.update(i as int, JobStatus::Running),
                ..run
            },
            Event::LaunchFailed(i) => RunView {
                jobs: run.jobs.update(i as int, JobStatus::LaunchFailed),
                ..run
            },
            Event::PlaylistWritten(true) => RunView { playlist: PlaylistStatus::Written, ..run },
            Event::PlaylistWritten(false) => RunView { playlist: PlaylistStatus::Failed, ..run },
            Event::Exited(i, true) => RunView {
                jobs: run.jobs.update(i as int, JobStatus::Succeeded),
                ..run
            },
            Event::Exited(i, false) => RunView {
                jobs: run.jobs.update(i as int, JobStatus::Failed),
                ..run
            },
        }
    }
}

/// The state of one run.
#[derive(Debug)]
pub struct Orchestrator {
    jobs: Vec<JobStatus>,
    playlist: PlaylistStatus,
}

impl View for Orchestrator {
    type V = RunView;

    closed spec fn view(&self) -> RunView {
        RunView { jobs: self.jobs@, playlist: self.playlist }
    }
}

impl Orchestrator {
    /// A run of `n` profiles in which nothing was done yet.
    pub fn new(n: usize) -> (orchestrator: Orchestrator)
        ensures
            orchestrator@ == fresh(n as nat),
    {
        let mut jobs: Vec<JobStatus> = Vec::new();
        let mut i: usize = 0;
        while i < n
            invariant
                i <= n,
                jobs@ == Seq::new(i as nat, |k: int| JobStatus::Pending),
            decreases n - i,
        {
            jobs.push(JobStatus::Pending);
            i += 1;
            assert(jobs@ =~= Seq::new(i as nat, |k: int| JobStatus::Pending));
        }
        Orchestrator { jobs, playlist: PlaylistStatus::Pending }
    }

    /// The number of jobs.
    pub fn len(&self) -> (n: usize)
        ensures
            n == self@.jobs.len(),
    {
        self.jobs.len()
    }

    /// Where job `i` stands; `None` if there is no such job.
    pub fn status(&self, i: usize) -> (status: Option<JobStatus>)
        ensures
            status == if i < self@.jobs.len() {
                Some(self@.jobs[i as int])
            } else {
                None
            },
    {
        if i < self.jobs.len() {
            Some(self.jobs[i])
        } else {
            None
        }
    }

    /// Where the master playlist stands.
    pub fn playlist(&self) -> (status: PlaylistStatus)
        ensures
            status == self@.playlist,
    {
        self.playlist
    }

    /// The first job with the status `status`; the number of jobs if there
    /// is none.
    fn find(&self, status: JobStatus) -> (at: usize)
        ensures
            at == first_from(self@.jobs, status, 0),
    {
        let mut i: usize = 0;
        while i < self.jobs.len()
            invariant
                i <= self.jobs.len(),
                first_from(self.jobs@, status, 0) == first_from(self.jobs@, status, i as int),
            decreases self.jobs.len() - i,
        {
            if self.jobs[i] == status {
                return i;
            }
            i += 1;
        }
        i
    }

    /// Whether some job could not be launched or exited with a failure.
    fn any_failed(&self) -> (failed: bool)
        ensures
            failed == any_failed(self@.jobs),
    {
        let mut i: usize = 0;
        while i < self.jobs.len()
            invariant
                i <= self.jobs.len(),
                forall|k: int|
                    0 <= k < i ==> self.jobs@[k] != JobStatus::Failed && self.jobs@[k]
                        != JobStatus::LaunchFailed,
            decreases self.jobs.len() - i,
        {
            if self.jobs[i] == JobStatus::Failed || self.jobs[i] == JobStatus::LaunchFailed {
                return true;
            }
            i += 1;
        }
        false
    }

    /// What the caller is to do next.
    pub fn next(&self) -> (action: Action)
        ensures
            action == next_action(self@),
    {
        let pending = self.find(JobStatus::Pending);
        if pending < self.jobs.len() {
            return Action::Launch(pending);
        }
        if self.playlist == PlaylistStatus::Pending {
            return Action::WritePlaylist;
        }
        let running = self.find(JobStatus::Running);
        if running < self.jobs.len() {
            return Action::Wait(running);
        }
        let failed = self.any_failed();
        Action::Finish { failed: failed || self.playlist == PlaylistStatus::Failed }
    }

    /// Takes note of what the caller has observed. Tells whether the event
    /// fits the state; one that does not is set aside and changes nothing.
    pub fn record(&mut self, event: Event) -> (accepted: bool)
        ensures
            accepted == accepts(old(self)@, event),
            final(self)@ == step(old(self)@, event),
    {
        match event {
            Event::Launched(i) => {
                if i < self.jobs.len() && self.jobs[i] == JobStatus::Pending {
                    self.jobs.set(i, JobStatus::Running);
                    true
                } else {
                    false
                }
            },
            Event::LaunchFailed(i) => {
                if i < self.jobs.len() && self.jobs[i] == JobStatus::Pending {
                    self.jobs.set(i, JobStatus::LaunchFailed);
                    true
                } else {
                    false
                }
            },
            Event::PlaylistWritten(done) => {
                if self.playlist == PlaylistStatus::Pending {
                    self.playlist = if done {
                        PlaylistStatus::Written
                    } else {
                        PlaylistStatus::Failed
                    };
                    true
                } else {
                    false
                }
            },
            Event::Exited(i, success) => {
                if i < self.jobs.len() && self.jobs[i] == JobStatus::Running {
                    self.jobs.set(i, if success {
                        JobStatus::Succeeded
                    } else {
                        JobStatus::Failed
                    });
                    true
                } else {
                    false
                }
            },
        }
    }
}

/// How much is left to observe of the jobs: two observations of a pending
/// job, one of a running job.
pub open spec fn jobs_left(jobs: Seq<JobStatus>) -> nat
    decreases jobs.len(),
{
    if jobs.len() == 0 {
        0
    } else {
        let last: nat = match jobs.last() {
            JobStatus::Pending => 2,
            JobStatus::Running => 1,
            _ => 0,
        };
        jobs_left(jobs.drop_last()) + last
    }
}

/// How much is left to observe of a run: of its jobs, and of the playlist
/// while it is pending.
pub open spec fn work_left(run: RunView) -> nat {
    let playlist: nat = if run.playlist == PlaylistStatus::Pending {
        1
    } else {
        0
    };
    jobs_left(run.jobs) + playlist
}

/// The state in which the launches of the first `k` of `n` jobs have been
/// reported and nothing else: job `i` is running where `outcomes[i]` holds
/// and could not be launched where it does not.
pub open spec fn launched(n: nat, outcomes: Seq<bool>, k: int) -> RunView {
    RunView {
        jobs: Seq::new(
            n,
            |i: int|
                if i < k {
                    if outcomes[i] {
                        JobStatus::Running
                    } else {
                        JobStatus::LaunchFailed
                    }
                } else {
                    JobStatus::Pending
                },
        ),
        playlist: PlaylistStatus::Pending,
    }
}

/// The report of the launch of job `k`.
pub open spec fn launch_event(outcomes: Seq<bool>, k: int) -> Event {
    if outcomes[k] {
        Event::Launched(k as usize)
    } else {
        Event::LaunchFailed(k as usize)
    }
}

/// What `first_from` finds: the position holds the status, and no position
/// between `from` and it does.
proof fn lemma_first_from(jobs: Seq<JobStatus>, status: JobStatus, from: int)
    requires
        0 <= from <= jobs.len(),
    ensures
        from <= first_from(jobs, status, from) <= jobs.len(),
        first_from(jobs, status, from) < jobs.len() ==> jobs[first_from(jobs, status, from)]
            == status,
        forall|k: int| from <= k < first_from(jobs, status, from) ==> jobs[k] != status,
    decreases jobs.len() - from,
{
    if from < jobs.len() && jobs[from] != status {
        lemma_first_from(jobs, status, from + 1);
    }
}

/// An action is about a job in the state that the action is for. No job is
/// waited for and no playlist is written while a job is pending; the
/// playlist is written before any job is waited for, and only while it is
/// pending; and the run finishes when every job has reached its end and
/// the playlist is no longer pending, and not before.
pub proof fn lemma_next_action(run: RunView)
    requires
        run.jobs.len() <= usize::MAX,
    ensures
        match next_action(run) {
            Action::Launch(i) => {
                &&& i < run.jobs.len()
                &&& run.jobs[i as int] == JobStatus::Pending
                &&& forall|k: int| 0 <= k < i ==> run.jobs[k] != JobStatus::Pending
            },
            Action::WritePlaylist => {
                &&& run.playlist == PlaylistStatus::Pending
                &&& forall|k: int| 0 <= k < run.jobs.len() ==> run.jobs[k] != JobStatus::Pending
            },
            Action::Wait(i) => {
                &&& i < run.jobs.len()
                &&& run.jobs[i as int] == JobStatus::Running
                &&& forall|k: int| 0 <= k < i ==> run.jobs[k] != JobStatus::Running
                &&& forall|k: int| 0 <= k < run.jobs.len() ==> run.jobs[k] != JobStatus::Pending
                &&& run.playlist != PlaylistStatus::Pending
            },
            Action::Finish { failed } => {
                &&& forall|k: int| 0 <= k < run.jobs.len() ==> terminal(run.jobs[k])
                &&& run.playlist != PlaylistStatus::Pending
                &&& failed == (any_failed(run.jobs) || run.playlist == PlaylistStatus::Failed)
            },
        },
        next_action(run) is Finish <==> run.playlist != PlaylistStatus::Pending && forall|k: int|
            0 <= k < run.jobs.len() ==> terminal(run.jobs[k]),
{
    lemma_first_from(run.jobs, JobStatus::Pending, 0);
    lemma_first_from(run.jobs, JobStatus::Running, 0);
}

/// Whatever the caller reports of what the action names fits the state,
/// each report that fits brings the run nearer to its end, and the run
/// finishes exactly when nothing is left to observe.
pub proof fn lemma_progress(run: RunView, event: Event)
    requires
        run.jobs.len() <= usize::MAX,
    ensures
        next_action(run) matches Action::Launch(i) ==> accepts(run, Event::Launched(i))
            && accepts(run, Event::LaunchFailed(i)),
        next_action(run) is WritePlaylist ==> accepts(run, Event::PlaylistWritten(true))
            && accepts(run, Event::PlaylistWritten(false)),
        next_action(run) matches Action::Wait(i) ==> accepts(run, Event::Exited(i, true))
            && accepts(run, Event::Exited(i, false)),
        accepts(run, event) ==> work_left(step(run, event)) < work_left(run),
        next_action(run) is Finish <==> work_left(run) == 0,
{
    lemma_next_action(run);
    lemma_jobs_left_zero(run.jobs);
    if accepts(run, event) {
        match event {
            Event::Launched(i) => lemma_jobs_left_update(run.jobs, i as int, JobStatus::Running),
            Event::LaunchFailed(i) => lemma_jobs_left_update(
                run.jobs,
                i as int,
                JobStatus::LaunchFailed,
            ),
            Event::PlaylistWritten(_) => {},
            Event::Exited(i, true) => lemma_jobs_left_update(
                run.jobs,
                i as int,
                JobStatus::Succeeded,
            ),
            Event::Exited(i, false) => lemma_jobs_left_update(
                run.jobs,
                i as int,
                JobStatus::Failed,
            ),
        }
    }
}

/// Nothing is left to observe of the jobs exactly when every job has
/// reached its end.
proof fn lemma_jobs_left_zero(jobs: Seq<JobStatus>)
    ensures
        jobs_left(jobs) == 0 <==> forall|k: int| 0 <= k < jobs.len() ==> terminal(jobs[k]),
    decreases jobs.len(),
{
    if jobs.len() > 0 {
        let rest = jobs.drop_last();
        lemma_jobs_left_zero(rest);
        if jobs_left(jobs) == 0 {
            assert forall|k: int| 0 <= k < jobs.len() implies terminal(jobs[k]) by {
                if k < rest.len() {
                    assert(rest[k] == jobs[k]);
                }
            }
        } else if jobs_left(rest) != 0 {
            let k = choose|k: int| 0 <= k < rest.len() && !terminal(rest[k]);
            assert(jobs[k] == rest[k]);
        }
    }
}

/// A job that moves on leaves less to observe.
proof fn lemma_jobs_left_update(jobs: Seq<JobStatus>, i: int, status: JobStatus)
    requires
        0 <= i < jobs.len(),
        jobs[i] == JobStatus::Pending && status != JobStatus::Pending || jobs[i]
            == JobStatus::Running && terminal(status),
    ensures
        jobs_left(jobs.update(i, status)) < jobs_left(jobs),
    decreases jobs.len(),
{
    let after = jobs.update(i, status);
    if i == jobs.len() - 1 {
        assert(after.drop_last() =~= jobs.drop_last());
    } else {
        lemma_jobs_left_update(jobs.drop_last(), i, status);
        assert(after.drop_last() =~= jobs.drop_last().update(i, status));
    }
}

/// From a fresh state the jobs are launched one after the other, in the
/// profiles' order and each exactly once, whether the launches before
/// succeeded or not. Nothing else is done before the last job has been
/// launched: no job is waited for in between.
pub proof fn lemma_launches_every_job(n: usize, outcomes: Seq<bool>, k: int)
    requires
        outcomes.len() == n,
        0 <= k <= n,
    ensures
        launched(n as nat, outcomes, 0) == fresh(n as nat),
        k < n ==> next_action(launched(n as nat, outcomes, k)) == Action::Launch(k as usize),
        k < n ==> step(launched(n as nat, outcomes, k), launch_event(outcomes, k)) == launched(
            n as nat,
            outcomes,
            k + 1,
        ),
        k == n ==> next_action(launched(n as nat, outcomes, k)) == Action::WritePlaylist,
{
    let run = launched(n as nat, outcomes, k);
    assert(launched(n as nat, outcomes, 0).jobs =~= fresh(n as nat).jobs);
    lemma_first_from(run.jobs, JobStatus::Pending, 0);
    let at = first_from(run.jobs, JobStatus::Pending, 0);
    if k < n {
        assert(run.jobs[k] == JobStatus::Pending);
        if at < k {
            assert(run.jobs[at] != JobStatus::Pending);
        }
        assert(step(run, launch_event(outcomes, k)).jobs =~= launched(
            n as nat,
            outcomes,
            k + 1,
        ).jobs);
    } else if at < n {
        assert(run.jobs[at] != JobStatus::Pending);
    }
}

/// Whatever is reported, the jobs stay as many as they were, no job goes
/// back to pending, so none is launched twice, and a job that has reached
/// its end keeps its status: its end is taken note of once.
pub proof fn lemma_status_settles(run: RunView, event: Event)
    ensures
        step(run, event).jobs.len() == run.jobs.len(),
        forall|j: int|
            0 <= j < run.jobs.len() && step(run, event).jobs[j] == JobStatus::Pending
                ==> run.jobs[j] == JobStatus::Pending,
        forall|j: int|
            0 <= j < run.jobs.len() && terminal(run.jobs[j]) ==> step(run, event).jobs[j]
                == run.jobs[j],
        run.playlist != PlaylistStatus::Pending ==> step(run, event).playlist == run.playlist,
{
}

/// A job that exits with a failure changes the status of no other job and
/// not that of the playlist. The jobs that are running are still waited
/// for: the run does not finish before each of them has exited, and the
/// failure is reported when it does.
pub proof fn lemma_failure_leaves_others(run: RunView, i: usize)
    requires
        run.jobs.len() <= usize::MAX,
        i < run.jobs.len(),
        run.jobs[i as int] == JobStatus::Running,
    ensures
        step(run, Event::Exited(i, false)).jobs.len() == run.jobs.len(),
        step(run, Event::Exited(i, false)).jobs[i as int] == JobStatus::Failed,
        step(run, Event::Exited(i, false)).playlist == run.playlist,
        forall|j: int|
            0 <= j < run.jobs.len() && j != i ==> step(run, Event::Exited(i, false)).jobs[j]
                == run.jobs[j],
        (exists|j: int| 0 <= j < run.jobs.len() && j != i && !terminal(run.jobs[j])) ==> !(
        next_action(step(run, Event::Exited(i, false))) is Finish),
        match next_action(step(run, Event::Exited(i, false))) {
            Action::Launch(j) => j != i && j < run.jobs.len() && run.jobs[j as int]
                == JobStatus::Pending,
            Action::WritePlaylist => run.playlist == PlaylistStatus::Pending,
            Action::Wait(j) => j != i && j < run.jobs.len() && run.jobs[j as int]
                == JobStatus::Running,
            Action::Finish { failed } => failed,
        },
{
    let after = step(run, Event::Exited(i, false));
    lemma_next_action(after);
    if exists|j: int| 0 <= j < run.jobs.len() && j != i && !terminal(run.jobs[j]) {
        let j = choose|j: int| 0 <= j < run.jobs.len() && j != i && !terminal(run.jobs[j]);
        assert(after.jobs[j] == run.jobs[j]);
    }
    assert(after.jobs[i as int] == JobStatus::Failed);
}

} // verus!
