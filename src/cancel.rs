use vstd::prelude::*;

use crate::store::{complete_spec, JobStore, StoreView};

verus! {

/// Cancels the job under `key`: it leaves the store, and the identifier of its
/// process, if it had one, is handed back to be terminated. An absent key
/// changes nothing.
pub fn cancel(store: &mut JobStore, key: &String) -> (r: Option<u32>)
    requires
        old(store).wf(),
    ensures
        final(store).wf(),
        final(store)@ == old(store)@.remove(key@),
        r == (if old(store)@.contains_key(key@) {
            old(store)@[key@].pid
        } else {
            None
        }),
        !old(store)@.contains_key(key@) ==> final(store)@ == old(store)@ && r is None,
{
    match store.remove(key) {
        Some(job) => job.pid,
        None => {
            assert(old(store)@.remove(key@) =~= old(store)@);
            None
        },
    }
}

/// A job that has completed holds no process, so cancelling it hands back
/// nothing to terminate.
pub proof fn lemma_completed_job_has_nothing_to_terminate(m: StoreView, k: Seq<char>)
    requires
        m.contains_key(k),
    ensures
        complete_spec(m, k).contains_key(k),
        complete_spec(m, k)[k].pid is None,
{
}

} // verus!
