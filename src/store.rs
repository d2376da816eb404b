use vstd::prelude::*;

use crate::progress::{Progress, ProgressView};

verus! {

/// Where a job stands. A failed job has no phase: it is taken out of the
/// store.
#[derive(Clone, Copy, Debug, PartialEq, Eq, Structural)]
pub enum Phase {
    Running,
    Completed,
}

/// The state of one job.
#[derive(Debug)]
pub struct Job {
    /// The external process's identifier, once it has been spawned.
    pub pid: Option<u32>,
    pub phase: Phase,
    /// The last progress report seen while the job was running.
    pub progress: Option<Progress>,
}

pub ghost struct JobView {
    pub pid: Option<u32>,
    pub phase: Phase,
    pub progress: Option<ProgressView>,
}

pub open spec fn progress_view(p: Option<Progress>) -> Option<ProgressView> {
    match p {
        Some(q) => Some(q@),
        None => None,
    }
}

impl View for Job {
    type V = JobView;

    open spec fn view(&self) -> JobView {
        JobView { pid: self.pid, phase: self.phase, progress: progress_view(self.progress) }
    }
}

/// A job just accepted: running, with no process and no progress yet.
pub open spec fn fresh_job() -> JobView {
    JobView { pid: None, phase: Phase::Running, progress: None }
}

/// The jobs of a store, by key.
pub type StoreView = Map<Seq<char>, JobView>;

/// Whether `m` holds a running job under `k`.
pub open spec fn is_running(m: StoreView, k: Seq<char>) -> bool {
    m.contains_key(k) && m[k].phase == Phase::Running
}

/// `try_create`: refused while a job runs under the key; otherwise a fresh
/// job takes the key, superseding a completed one.
pub open spec fn create_spec(m: StoreView, k: Seq<char>) -> (bool, StoreView) {
    if is_running(m, k) {
        (false, m)
    } else {
        (true, m.insert(k, fresh_job()))
    }
}

/// `attach_handle`: records the process of a running job.
pub open spec fn attach_spec(m: StoreView, k: Seq<char>, pid: u32) -> StoreView {
    if is_running(m, k) {
        m.insert(k, JobView { pid: Some(pid), ..m[k] })
    } else {
        m
    }
}

/// `update_progress`: replaces the progress of a running job.
pub open spec fn update_spec(m: StoreView, k: Seq<char>, p: ProgressView) -> StoreView {
    if is_running(m, k) {
        m.insert(k, JobView { progress: Some(p), ..m[k] })
    } else {
        m
    }
}

/// `mark_completed`: a job that is present becomes completed; its process
/// has exited and been reaped, so the job no longer holds it.
pub open spec fn complete_spec(m: StoreView, k: Seq<char>) -> StoreView {
    if m.contains_key(k) {
        m.insert(k, JobView { pid: None, phase: Phase::Completed, ..m[k] })
    } else {
        m
    }
}

/// A copy of a job that is present, `None` for an absent key.
pub open spec fn lookup(m: StoreView, k: Seq<char>) -> Option<JobView> {
    if m.contains_key(k) {
        Some(m[k])
    } else {
        None
    }
}

pub open spec fn job_view(j: Option<Job>) -> Option<JobView> {
    match j {
        Some(x) => Some(x@),
        None => None,
    }
}

struct Entry {
    key: String,
    job: Job,
}

/// The jobs of the daemon, at most one per key.
pub struct JobStore {
    entries: Vec<Entry>,
    model: Ghost<StoreView>,
}

fn copy_progress(p: &Option<Progress>) -> (r: Option<Progress>)
    ensures
        progress_view(r) == progress_view(*p),
{
    match p {
        Some(q) => Some(
            Progress { percent: q.percent.clone(), speed: q.speed.clone(), eta: q.eta.clone() },
        ),
        None => None,
    }
}

impl View for JobStore {
    type V = StoreView;

    closed spec fn view(&self) -> StoreView {
        self.model@
    }
}

impl JobStore {
    /// The entries hold exactly the jobs of the model, keys being unique.
    pub closed spec fn wf(&self) -> bool {
        &&& forall|i: int|
            0 <= i < self.entries@.len() ==> #[trigger] self.model@.contains_key(
                self.entries@[i].key@,
            ) && self.model@[self.entries@[i].key@] == self.entries@[i].job@
        &&& forall|k: Seq<char>|
            #[trigger] self.model@.contains_key(k) ==> exists|i: int|
                0 <= i < self.entries@.len() && #[trigger] self.entries@[i].key@ == k
        &&& forall|i: int, j: int|
            0 <= i < j < self.entries@.len() ==> self.entries@[i].key@
                != self.entries@[j].key@
    }

    /// An empty store.
    pub fn new() -> (r: JobStore)
        ensures
            r.wf(),
            r@ == Map::<Seq<char>, JobView>::empty(),
    {
        JobStore { entries: Vec::new(), model: Ghost(Map::empty()) }
    }

    /// The position of the entry under `key`, if any.
    fn find(&self, key: &String) -> (r: Option<usize>)
        requires
            self.wf(),
        ensures
            r matches Some(i) ==> i < self.entries@.len() && self.entries@[i as int].key@
                == key@,
            r is None ==> !self@.contains_key(key@),
    {
        let mut i: usize = 0;
        while i < self.entries.len()
            invariant
                self.wf(),
                i <= self.entries@.len(),
                forall|j: int| 0 <= j < i ==> self.entries@[j].key@ != key@,
            decreases self.entries@.len() - i,
        {
            if self.entries[i].key == *key {
                return Some(i);
            }
            i = i + 1;
        }
        proof {
            if self@.contains_key(key@) {
                let j = choose|j: int|
                    0 <= j < self.entries@.len() && #[trigger] self.entries@[j].key@ == key@;
                assert(self.entries@[j].key@ == key@);
            }
        }
        None
    }

    /// Whether a job is present under `key`.
    pub fn contains(&self, key: &String) -> (r: bool)
        requires
            self.wf(),
        ensures
            r == self@.contains_key(key@),
    {
        match self.find(key) {
            Some(i) => {
                assert(self@.contains_key(self.entries@[i as int].key@));
                true
            },
            None => false,
        }
    }

    /// Accepts a new job under `key` unless one is running there; a
    /// completed job under the key is superseded.
    pub fn try_create(&mut self, key: &String) -> (r: bool)
        requires
            old(self).wf(),
        ensures
            final(self).wf(),
            (r, final(self)@) == create_spec(old(self)@, key@),
    {
        match self.find(key) {
            Some(i) => {
                assert(self@.contains_key(self.entries@[i as int].key@));
                if self.entries[i].job.phase == Phase::Running {
                    return false;
                }
                self.set_job(i, Job { pid: None, phase: Phase::Running, progress: None });
                true
            },
            None => {
                let ghost m0 = self.entries@;
                let job = Job { pid: None, phase: Phase::Running, progress: None };
                self.entries.push(Entry { key: key.clone(), job });
                self.model = Ghost(self.model@.insert(key@, fresh_job()));
                proof {
                    assert forall|k: Seq<char>| #[trigger] self.model@.contains_key(k) implies exists|
                        j: int,
                    |
                        0 <= j < self.entries@.len() && #[trigger] self.entries@[j].key@ == k by {
                        if k != key@ {
                            let j = choose|j: int| 0 <= j < m0.len() && #[trigger] m0[j].key@ == k;
                            assert(self.entries@[j].key@ == k);
                        } else {
                            assert(self.entries@[m0.len() as int].key@ == k);
                        }
                    }
                    assert forall|j: int| 0 <= j < m0.len() implies m0[j].key@ != key@ by {
                        if m0[j].key@ == key@ {
                            assert(old(self).model@.contains_key(m0[j].key@));
                        }
                    }
                }
                true
            },
        }
    }

    /// Replaces the job of entry `i`.
    fn set_job(&mut self, i: usize, job: Job)
        requires
            old(self).wf(),
            i < old(self).entries@.len(),
        ensures
            final(self).wf(),
            final(self).entries@.len() == old(self).entries@.len(),
            final(self)@ == old(self)@.insert(old(self).entries@[i as int].key@, job@),
    {
        let ghost m0 = self.entries@;
        let ghost key = m0[i as int].key@;
        let ghost jv = job@;
        self.entries[i].job = job;
        self.model = Ghost(self.model@.insert(key, jv));
        proof {
            assert forall|j: int| 0 <= j < self.entries@.len() && j != i implies self.entries@[j]
                == m0[j] by {}
            assert forall|k: Seq<char>| #[trigger] self.model@.contains_key(k) implies exists|
                j: int,
            |
                0 <= j < self.entries@.len() && #[trigger] self.entries@[j].key@ == k by {
                if k != key {
                    let j = choose|j: int| 0 <= j < m0.len() && #[trigger] m0[j].key@ == k;
                    assert(self.entries@[j].key@ == k);
                } else {
                    assert(self.entries@[i as int].key@ == k);
                }
            }
        }
    }

    /// Records the process of the job under `key` if it is running; nothing
    /// happens otherwise.
    pub fn attach_handle(&mut self, key: &String, pid: u32)
        requires
            old(self).wf(),
        ensures
            final(self).wf(),
            final(self)@ == attach_spec(old(self)@, key@, pid),
    {
        if let Some(i) = self.find(key) {
            assert(self@.contains_key(self.entries@[i as int].key@));
            if self.entries[i].job.phase == Phase::Running {
                let job = Job {
                    pid: Some(pid),
                    phase: Phase::Running,
                    progress: copy_progress(&self.entries[i].job.progress),
                };
                self.set_job(i, job);
            }
        }
    }

    /// Replaces the progress of the job under `key` if it is running; nothing
    /// happens otherwise.
    pub fn update_progress(&mut self, key: &String, progress: Progress)
        requires
            old(self).wf(),
        ensures
            final(self).wf(),
            final(self)@ == update_spec(old(self)@, key@, progress@),
    {
        if let Some(i) = self.find(key) {
            assert(self@.contains_key(self.entries@[i as int].key@));
            if self.entries[i].job.phase == Phase::Running {
                let job = Job {
                    pid: self.entries[i].job.pid,
                    phase: Phase::Running,
                    progress: Some(progress),
                };
                self.set_job(i, job);
            }
        }
    }

    /// Marks the job under `key` completed and forgets its process; nothing
    /// happens to an absent key.
    pub fn mark_completed(&mut self, key: &String)
        requires
            old(self).wf(),
        ensures
            final(self).wf(),
            final(self)@ == complete_spec(old(self)@, key@),
    {
        if let Some(i) = self.find(key) {
            assert(self@.contains_key(self.entries@[i as int].key@));
            let job = Job {
                pid: None,
                phase: Phase::Completed,
                progress: copy_progress(&self.entries[i].job.progress),
            };
            self.set_job(i, job);
        }
    }

    /// Takes the job under `key` out of the store and hands it back.
    pub fn remove(&mut self, key: &String) -> (r: Option<Job>)
        requires
            old(self).wf(),
        ensures
            final(self).wf(),
            final(self)@ == old(self)@.remove(key@),
            job_view(r) == lookup(old(self)@, key@),
    {
        match self.find(key) {
            Some(i) => {
                let ghost m0 = self.entries@;
                assert(self@.contains_key(m0[i as int].key@));
                let e = self.entries.remove(i);
                self.model = Ghost(self.model@.remove(key@));
                proof {
                    assert forall|j: int| 0 <= j < self.entries@.len() implies
                        #[trigger] self.model@.contains_key(self.entries@[j].key@)
                        && self.model@[self.entries@[j].key@] == self.entries@[j].job@ by {
                        let oj = if j < i { j } else { j + 1 };
                        assert(self.entries@[j] == m0[oj]);
                        assert(old(self).model@.contains_key(m0[oj].key@));
                    }
                    assert forall|k: Seq<char>| #[trigger] self.model@.contains_key(k) implies exists|
                        j: int,
                    |
                        0 <= j < self.entries@.len() && #[trigger] self.entries@[j].key@ == k by {
                        let oj = choose|j: int| 0 <= j < m0.len() && #[trigger] m0[j].key@ == k;
                        if oj < i {
                            assert(self.entries@[oj].key@ == k);
                        } else {
                            assert(self.entries@[oj - 1].key@ == k);
                        }
                    }
                    assert forall|a: int, b: int| 0 <= a < b < self.entries@.len() implies
                        self.entries@[a].key@ != self.entries@[b].key@ by {
                        let oa = if a < i { a } else { a + 1 };
                        let ob = if b < i { b } else { b + 1 };
                        assert(self.entries@[a] == m0[oa]);
                        assert(self.entries@[b] == m0[ob]);
                    }
                }
                Some(e.job)
            },
            None => {
                assert(self.model@.remove(key@) =~= self.model@);
                None
            },
        }
    }

    /// A copy of the job under `key`, if any.
    pub fn snapshot(&self, key: &String) -> (r: Option<Job>)
        requires
            self.wf(),
        ensures
            job_view(r) == lookup(self@, key@),
    {
        match self.find(key) {
            Some(i) => {
                assert(self@.contains_key(self.entries@[i as int].key@));
                let j = &self.entries[i].job;
                Some(Job { pid: j.pid, phase: j.phase, progress: copy_progress(&j.progress) })
            },
            None => None,
        }
    }
}

/// Two requests in a row for a key with no running job: the first is
/// accepted, the second refused, and the refusal leaves the store as the
/// first left it.
pub proof fn lemma_create_twice(m: StoreView, k: Seq<char>)
    requires
        !is_running(m, k),
    ensures
        create_spec(m, k).0,
        !create_spec(create_spec(m, k).1, k).0,
        create_spec(create_spec(m, k).1, k).1 == create_spec(m, k).1,
{
}

} // verus!
