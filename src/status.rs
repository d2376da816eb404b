use vstd::prelude::*;

use crate::progress::{Progress, ProgressView};
use crate::store::{
    attach_spec, complete_spec, create_spec, job_view, lookup, progress_view, update_spec, Job,
    JobStore, JobView, Phase, StoreView,
};

verus! {

/// What a client is told of a job.
#[derive(Clone, Debug, PartialEq, Eq)]
pub enum StatusResponse {
    /// No such job (never started, failed, or cancelled).
    Absent,
    /// Running, with the last progress report if one has come.
    Downloading { progress: Option<Progress> },
    /// Finished successfully.
    Downloaded,
}

pub ghost enum StatusView {
    Absent,
    Downloading(Option<ProgressView>),
    Downloaded,
}

impl View for StatusResponse {
    type V = StatusView;

    open spec fn view(&self) -> StatusView {
        match self {
            StatusResponse::Absent => StatusView::Absent,
            StatusResponse::Downloading { progress } => StatusView::Downloading(
                progress_view(*progress),
            ),
            StatusResponse::Downloaded => StatusView::Downloaded,
        }
    }
}

/// The status of a job, or of its absence.
pub open spec fn project_spec(job: Option<JobView>) -> StatusView {
    match job {
        None => StatusView::Absent,
        Some(j) => if j.phase == Phase::Completed {
            StatusView::Downloaded
        } else {
            StatusView::Downloading(j.progress)
        },
    }
}

/// Whether a stream closes after showing this status.
pub open spec fn is_terminal(s: StatusView) -> bool {
    s is Absent || s is Downloaded
}

/// The key that probes the daemon's liveness.
pub open spec fn ping_key() -> Seq<char> {
    seq!['p', 'i', 'n', 'g']
}

/// What a status query for `k` answers on the store `m`.
pub open spec fn status_spec(m: StoreView, k: Seq<char>) -> StatusView {
    if k == ping_key() {
        StatusView::Absent
    } else {
        project_spec(lookup(m, k))
    }
}

impl StatusResponse {
    /// Whether a stream closes after sending this status.
    pub fn is_terminal(&self) -> (r: bool)
        ensures
            r == is_terminal(self@),
    {
        match self {
            StatusResponse::Downloading { .. } => false,
            _ => true,
        }
    }
}

/// The status that a copy of a job, or its absence, shows.
pub fn project(job: Option<Job>) -> (r: StatusResponse)
    ensures
        r@ == project_spec(job_view(job)),
{
    match job {
        None => StatusResponse::Absent,
        Some(j) => if j.phase == Phase::Completed {
            StatusResponse::Downloaded
        } else {
            StatusResponse::Downloading { progress: j.progress }
        },
    }
}

/// Answers a status query for `key`; the key `ping` answers `Absent` without
/// reading the store.
pub fn status_of(store: &JobStore, key: &String) -> (r: StatusResponse)
    requires
        store.wf(),
    ensures
        r@ == status_spec(store@, key@),
{
    let ping = String::from_str("ping");
    proof {
        reveal_strlit("ping");
        assert(ping@ =~= ping_key());
    }
    if *key == ping {
        return StatusResponse::Absent;
    }
    project(store.snapshot(key))
}

/// One mutation of the store, as the library's operations perform it.
pub ghost enum StoreOp {
    Create(Seq<char>),
    Attach(Seq<char>, u32),
    Update(Seq<char>, ProgressView),
    Complete(Seq<char>),
    Remove(Seq<char>),
}

/// The store after `op`.
pub open spec fn apply_op(m: StoreView, op: StoreOp) -> StoreView {
    match op {
        StoreOp::Create(k) => create_spec(m, k).1,
        StoreOp::Attach(k, pid) => attach_spec(m, k, pid),
        StoreOp::Update(k, p) => update_spec(m, k, p),
        StoreOp::Complete(k) => complete_spec(m, k),
        StoreOp::Remove(k) => m.remove(k),
    }
}

/// Marking a present job completed makes it show `Downloaded`.
pub proof fn lemma_completed_shows_downloaded(m: StoreView, k: Seq<char>)
    requires
        m.contains_key(k),
    ensures
        project_spec(lookup(complete_spec(m, k), k)) == StatusView::Downloaded,
{
}

/// A job that shows `Downloaded` keeps showing it through every mutation but
/// a removal of its key or a new job under it.
pub proof fn lemma_downloaded_persists(m: StoreView, k: Seq<char>, op: StoreOp)
    requires
        project_spec(lookup(m, k)) == StatusView::Downloaded,
        op != StoreOp::Create(k),
        op != StoreOp::Remove(k),
    ensures
        project_spec(lookup(apply_op(m, op), k)) == StatusView::Downloaded,
{
}

/// After a removal the key shows `Absent`.
pub proof fn lemma_removed_shows_none(m: StoreView, k: Seq<char>)
    ensures
        project_spec(lookup(m.remove(k), k)) == StatusView::Absent,
{
}

/// Whether no completed job of `m` holds a process.
pub open spec fn completed_hold_no_process(m: StoreView) -> bool {
    forall|k: Seq<char>| #[trigger] m.contains_key(k) && m[k].phase == Phase::Completed ==> m[k].pid
        is None
}

/// Once a job has completed it holds no process, whatever happens to the
/// store afterwards: cancelling a finished job has nothing to terminate.
pub proof fn lemma_completed_hold_no_process(m: StoreView, op: StoreOp)
    requires
        completed_hold_no_process(m),
    ensures
        completed_hold_no_process(apply_op(m, op)),
{
    let m2 = apply_op(m, op);
    assert forall|k: Seq<char>| #[trigger] m2.contains_key(k) && m2[k].phase == Phase::Completed
        implies m2[k].pid is None by {}
}

} // verus!
