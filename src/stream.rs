use vstd::prelude::*;

use crate::status::{is_terminal, StatusResponse, StatusView};

verus! {

/// One open status stream. Each sample of the job's status is sent; the
/// stream closes right after sending the first terminal one.
pub struct Subscription {
    closed: bool,
}

/// What a subscription in state `closed` sends on `sample`, and whether it
/// is closed afterwards.
pub open spec fn deliver_spec(closed: bool, sample: StatusView) -> (Option<StatusView>, bool) {
    if closed {
        (None, true)
    } else {
        (Some(sample), is_terminal(sample))
    }
}

/// What a subscription in state `closed` sends, fed `samples` in order.
pub open spec fn published(closed: bool, samples: Seq<StatusView>) -> Seq<StatusView>
    decreases samples.len(),
{
    if samples.len() == 0 {
        Seq::empty()
    } else {
        let (sent, now_closed) = deliver_spec(closed, samples[0]);
        match sent {
            Some(s) => seq![s] + published(now_closed, samples.drop_first()),
            None => Seq::empty(),
        }
    }
}

impl Subscription {
    pub closed spec fn is_closed_spec(&self) -> bool {
        self.closed
    }

    /// A new subscription, open.
    pub fn new() -> (r: Subscription)
        ensures
            !r.is_closed_spec(),
    {
        Subscription { closed: false }
    }

    /// Whether the stream has closed.
    pub fn is_closed(&self) -> (r: bool)
        ensures
            r == self.is_closed_spec(),
    {
        self.closed
    }

    /// Takes one sample of the job's status: an open stream sends it, and
    /// closes if it is terminal; a closed one sends nothing.
    pub fn deliver(&mut self, sample: StatusResponse) -> (r: Option<StatusResponse>)
        ensures
            (match r {
                Some(s) => Some(s@),
                None => None,
            }, final(self).is_closed_spec()) == deliver_spec(old(self).is_closed_spec(), sample@),
    {
        if self.closed {
            None
        } else {
            self.closed = sample.is_terminal();
            Some(sample)
        }
    }
}

/// A stream that closes before the samples run out has sent a terminal
/// status last: it never closes on `Downloading`.
pub proof fn lemma_closes_on_terminal(samples: Seq<StatusView>)
    ensures
        published(false, samples).len() <= samples.len(),
        published(false, samples).len() < samples.len() ==> published(false, samples).len() > 0
            && is_terminal(published(false, samples).last()),
        forall|i: int|
            0 <= i < published(false, samples).len() - 1 ==> !is_terminal(
                #[trigger] published(false, samples)[i],
            ),
    decreases samples.len(),
{
    if samples.len() > 0 {
        let rest = samples.drop_first();
        lemma_closes_on_terminal(rest);
        let out = published(false, samples);
        if is_terminal(samples[0]) {
            assert(published(true, rest) =~= Seq::<StatusView>::empty());
            assert(out =~= seq![samples[0]]);
        } else {
            assert(out =~= seq![samples[0]] + published(false, rest));
            assert forall|i: int| 0 <= i < out.len() - 1 implies !is_terminal(
                #[trigger] out[i],
            ) by {
                if i > 0 {
                    assert(out[i] == published(false, rest)[i - 1]);
                }
            }
        }
    }
}

/// A job seen running and then completed: the stream sends every sample up
/// to the first `Downloaded`, that one last.
pub proof fn lemma_sends_final_downloaded(samples: Seq<StatusView>, j: int)
    requires
        0 <= j < samples.len(),
        samples[j] == StatusView::Downloaded,
        forall|i: int| 0 <= i < j ==> #[trigger] samples[i] is Downloading,
    ensures
        published(false, samples) == samples.subrange(0, j + 1),
        published(false, samples).last() == StatusView::Downloaded,
    decreases j,
{
    let rest = samples.drop_first();
    if j == 0 {
        assert(published(true, rest) =~= Seq::<StatusView>::empty());
        assert(published(false, samples) =~= samples.subrange(0, 1));
    } else {
        assert forall|i: int| 0 <= i < j - 1 implies #[trigger] rest[i] is Downloading by {
            assert(rest[i] == samples[i + 1]);
        }
        lemma_sends_final_downloaded(rest, j - 1);
        assert(samples[0] is Downloading);
        assert(published(false, samples) =~= seq![samples[0]] + rest.subrange(0, j));
        assert(published(false, samples) =~= samples.subrange(0, j + 1));
    }
}

} // verus!
