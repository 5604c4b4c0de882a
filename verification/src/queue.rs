//! The Job Queue's semantics: a named durable channel that hands each
//! pending job to one consumer at a time and keeps every delivered but
//! unacknowledged job, so that a consumer's death loses nothing. The broker
//! speaks this protocol over the wire; this model is its contract, and what
//! the at-least-once property is proved of.

use vstd::prelude::*;

verus! {

use crate::wire::Job;

/// The jobs carried by a sequence of deliveries, in order.
pub open spec fn unacked_jobs(s: Seq<(u64, Job)>) -> Seq<Job> {
    s.map_values(|p: (u64, Job)| p.1)
}

/// The first position holding the delivery tag, or -1.
pub open spec fn first_tag_index(s: Seq<(u64, Job)>, tag: u64) -> int
    decreases s.len(),
{
    if s.len() == 0 {
        -1
    } else if s[0].0 == tag {
        0
    } else if first_tag_index(s.skip(1), tag) < 0 {
        -1
    } else {
        first_tag_index(s.skip(1), tag) + 1
    }
}

/// The durable channel: jobs awaiting delivery, deliveries awaiting
/// acknowledgment (each under a fresh tag), and the next free tag.
pub struct QueueModel {
    pub pending: Vec<Job>,
    pub unacked: Vec<(u64, Job)>,
    pub next_tag: u64,
}

fn clone_job(j: &Job) -> (r: Job)
    ensures
        r == *j,
{
    Job { url: j.url.clone(), user_id: j.user_id.clone() }
}

impl QueueModel {
    /// Every outstanding delivery carries a tag below the next free one, and
    /// no tag is carried twice.
    pub open spec fn wf(self) -> bool {
        &&& forall|i: int| 0 <= i < self.unacked@.len() ==> (#[trigger] self.unacked@[i]).0
            < self.next_tag
        &&& forall|i: int, j: int|
            0 <= i < j < self.unacked@.len() ==> (#[trigger] self.unacked@[i]).0 != (
            #[trigger] self.unacked@[j]).0
    }

    /// A fresh, declared channel: empty. Declaring it again is `declare`.
    pub fn new() -> (r: QueueModel)
        ensures
            r.pending@.len() == 0,
            r.unacked@.len() == 0,
            r.wf(),
    {
        QueueModel { pending: Vec::new(), unacked: Vec::new(), next_tag: 0 }
    }

    /// Declaring an already-existing channel changes nothing: a no-op, not
    /// an error.
    pub fn declare(&mut self)
        ensures
            final(self).pending@ == old(self).pending@,
            final(self).unacked@ == old(self).unacked@,
            final(self).next_tag == old(self).next_tag,
    {
    }

    /// Appends the job to the channel; nothing else moves.
    pub fn publish(&mut self, job: Job)
        requires
            old(self).wf(),
        ensures
            final(self).wf(),
            final(self).pending@ == old(self).pending@.push(job),
            final(self).unacked@ == old(self).unacked@,
            final(self).next_tag == old(self).next_tag,
    {
        self.pending.push(job);
    }

    /// Hands out the oldest pending job under a fresh tag and remembers the
    /// delivery until it is acknowledged; `None` on an empty channel.
    pub fn deliver(&mut self) -> (r: Option<(u64, Job)>)
        requires
            old(self).wf(),
            old(self).next_tag < u64::MAX,
        ensures
            final(self).wf(),
            match r {
                None => {
                    &&& old(self).pending@.len() == 0
                    &&& final(self).pending@ == old(self).pending@
                    &&& final(self).unacked@ == old(self).unacked@
                    &&& final(self).next_tag == old(self).next_tag
                },
                Some(p) => {
                    &&& old(self).pending@.len() > 0
                    &&& p.0 == old(self).next_tag
                    &&& p.1 == old(self).pending@[0]
                    &&& final(self).pending@ == old(self).pending@.skip(1)
                    &&& final(self).unacked@ == old(self).unacked@.push(
                        (p.0, old(self).pending@[0]),
                    )
                    &&& final(self).next_tag == old(self).next_tag + 1
                },
            },
    {
        if self.pending.len() == 0 {
            return None;
        }
        let job = self.pending.remove(0);
        assert(self.pending@ =~= old(self).pending@.skip(1));
        let tag = self.next_tag;
        self.next_tag = self.next_tag + 1;
        let out = clone_job(&job);
        self.unacked.push((tag, job));
        Some((tag, out))
    }

    /// Discharges the delivery carrying the tag, removing it for good; a
    /// tag no delivery carries is reported, not an error.
    pub fn ack(&mut self, tag: u64) -> (found: bool)
        requires
            old(self).wf(),
        ensures
            final(self).wf(),
            final(self).pending@ == old(self).pending@,
            final(self).next_tag == old(self).next_tag,
            ({
                let fi = first_tag_index(old(self).unacked@, tag);
                if fi < 0 {
                    !found && final(self).unacked@ == old(self).unacked@
                } else {
                    found && final(self).unacked@ == old(self).unacked@.remove(fi)
                }
            }),
    {
        let n = self.unacked.len();
        let mut i: usize = 0;
        while i < n
            invariant
                i <= n,
                n == self.unacked@.len(),
                old(self).wf(),
                *self == *old(self),
                forall|j: int| 0 <= j < i ==> (#[trigger] self.unacked@[j]).0 != tag,
            decreases n - i,
        {
            if self.unacked[i].0 == tag {
                proof {
                    lemma_first_tag_prefix(self.unacked@, tag, i as int);
                    assert(self.unacked@.skip(i as int)[0] == self.unacked@[i as int]);
                    assert(first_tag_index(self.unacked@, tag) == i);
                }
                let ghost u0 = self.unacked@;
                self.unacked.remove(i);
                proof {
                    u0.remove_ensures(i as int);
                    assert forall|j: int| 0 <= j < self.unacked@.len() implies (
                    #[trigger] self.unacked@[j]).0 < self.next_tag by {
                        if j < i {
                            assert(self.unacked@[j] == u0[j]);
                        } else {
                            assert(self.unacked@[j] == u0[j + 1]);
                        }
                    }
                    assert forall|j: int, k: int| 0 <= j < k < self.unacked@.len() implies (
                    #[trigger] self.unacked@[j]).0 != (#[trigger] self.unacked@[k]).0 by {
                        if j < i {
                            assert(self.unacked@[j] == u0[j]);
                        } else {
                            assert(self.unacked@[j] == u0[j + 1]);
                        }
                        if k < i {
                            assert(self.unacked@[k] == u0[k]);
                        } else {
                            assert(self.unacked@[k] == u0[k + 1]);
                        }
                    }
                }
                return true;
            }
            i += 1;
        }
        proof {
            lemma_first_tag_prefix(self.unacked@, tag, n as int);
            assert(self.unacked@.skip(n as int).len() == 0);
            assert(first_tag_index(self.unacked@, tag) == -1);
        }
        false
    }

    /// What a consumer's death means: every outstanding delivery returns to
    /// the channel, behind what was already pending, and will be handed out
    /// again. Models the broker's redelivery on connection loss.
    pub fn recover(&mut self)
        requires
            old(self).wf(),
        ensures
            final(self).wf(),
            final(self).pending@ == old(self).pending@ + unacked_jobs(old(self).unacked@),
            final(self).unacked@.len() == 0,
            final(self).next_tag == old(self).next_tag,
    {
        while self.unacked.len() > 0
            invariant
                self.wf(),
                self.next_tag == old(self).next_tag,
                old(self).pending@ + unacked_jobs(old(self).unacked@) == self.pending@
                    + unacked_jobs(self.unacked@),
            decreases self.unacked@.len(),
        {
            let ghost un0 = self.unacked@;
            let ghost pe0 = self.pending@;
            let p = self.unacked.remove(0);
            self.pending.push(p.1);
            proof {
                assert(self.unacked@ =~= un0.skip(1));
                assert(unacked_jobs(un0) =~= seq![un0[0].1] + unacked_jobs(un0.skip(1)));
                assert(pe0 + unacked_jobs(un0) =~= self.pending@ + unacked_jobs(self.unacked@));
            }
        }
        assert(unacked_jobs(self.unacked@) =~= Seq::<Job>::empty());
        assert(old(self).pending@ + unacked_jobs(old(self).unacked@) =~= self.pending@);
    }
}

/// Where no delivery among the first `i` carries the tag, the search begins
/// at `i` for all it matters.
proof fn lemma_first_tag_prefix(s: Seq<(u64, Job)>, tag: u64, i: int)
    requires
        0 <= i <= s.len(),
        forall|j: int| 0 <= j < i ==> (#[trigger] s[j]).0 != tag,
    ensures
        first_tag_index(s, tag) == if first_tag_index(s.skip(i), tag) < 0 {
            -1int
        } else {
            i + first_tag_index(s.skip(i), tag)
        },
    decreases i,
{
    if i > 0 {
        assert(s.len() > 0);
        assert(s[0].0 != tag);
        lemma_first_tag_prefix(s.skip(1), tag, i - 1);
        assert(s.skip(1).skip(i - 1) =~= s.skip(i));
        assert(forall|j: int| 0 <= j < i - 1 ==> (#[trigger] s.skip(1)[j]).0 != tag);
    } else {
        assert(s.skip(0) =~= s);
    }
}

/// At-least-once delivery: a job that was handed out but never acknowledged
/// is among the pending jobs again after its consumer's connection drops
/// (the state `recover` leaves), so it is delivered anew to some consumer.
pub proof fn lemma_at_least_once(before: QueueModel, after: QueueModel, i: int)
    requires
        0 <= i < before.unacked@.len(),
        after.pending@ == before.pending@ + unacked_jobs(before.unacked@),
    ensures
        after.pending@.contains(before.unacked@[i].1),
{
    assert(after.pending@[before.pending@.len() + i] == before.unacked@[i].1);
}

} // verus!
