use vstd::prelude::*;

verus! {

/// A request, sent after a command was accepted, to publish the objects of a
/// CA as they are at a version of its log. It may be delivered more than once.
pub struct RepublishMessage {
    pub handle: String,
    pub version: usize,
}

/// The version up to which the objects of one CA are published.
pub struct PublishedVersion {
    pub handle: String,
    pub version: usize,
}

pub open spec fn pv_view(v: Seq<PublishedVersion>) -> Seq<(Seq<char>, usize)> {
    v.map_values(|p: PublishedVersion| (p.handle@, p.version))
}

pub open spec fn has_handle(s: Seq<(Seq<char>, usize)>, h: Seq<char>) -> bool {
    exists|i: int| 0 <= i < s.len() && (#[trigger] s[i]).0 == h
}

pub open spec fn handle_index(s: Seq<(Seq<char>, usize)>, h: Seq<char>) -> int {
    choose|i: int| 0 <= i < s.len() && (#[trigger] s[i]).0 == h
}

pub open spec fn handles_unique(s: Seq<(Seq<char>, usize)>) -> bool {
    forall|i: int, j: int| 0 <= i < j < s.len() ==> (#[trigger] s[i]).0 != (#[trigger] s[j]).0
}

/// The published versions after one delivery: a version that is not newer
/// than the one published already changes nothing.
pub open spec fn deliver_model(s: Seq<(Seq<char>, usize)>, h: Seq<char>, version: usize) -> Seq<
    (Seq<char>, usize),
> {
    if has_handle(s, h) {
        if s[handle_index(s, h)].1 >= version {
            s
        } else {
            s.update(handle_index(s, h), (h, version))
        }
    } else {
        s.push((h, version))
    }
}

/// The index that `handle_index` picks is the only one with the handle.
proof fn lemma_index_unique(s: Seq<(Seq<char>, usize)>, h: Seq<char>, i: int)
    requires
        handles_unique(s),
        0 <= i < s.len(),
        s[i].0 == h,
    ensures
        has_handle(s, h),
        handle_index(s, h) == i,
{
    assert(has_handle(s, h));
    let k = handle_index(s, h);
    assert(0 <= k < s.len() && s[k].0 == h);
    if k < i {
        assert(s[k].0 != s[i].0);
    } else if k > i {
        assert(s[i].0 != s[k].0);
    }
}

/// Delivery keeps handles unique and leaves the handle published at a version
/// at least as new as the message's.
pub proof fn lemma_deliver_publishes(s: Seq<(Seq<char>, usize)>, h: Seq<char>, version: usize)
    requires
        handles_unique(s),
    ensures
        handles_unique(deliver_model(s, h, version)),
        has_handle(deliver_model(s, h, version), h),
        deliver_model(s, h, version)[handle_index(deliver_model(s, h, version), h)].1 >= version,
{
    let t = deliver_model(s, h, version);
    if has_handle(s, h) {
        let i = handle_index(s, h);
        lemma_index_unique(s, h, i);
        if s[i].1 < version {
            assert forall|a: int, b: int| 0 <= a < b < t.len() implies (#[trigger] t[a]).0 != (
            #[trigger] t[b]).0 by {
                assert(t[a].0 == s[a].0);
                assert(t[b].0 == s[b].0);
            }
        }
        lemma_index_unique(t, h, i);
    } else {
        let i = s.len() as int;
        assert forall|a: int, b: int| 0 <= a < b < t.len() implies (#[trigger] t[a]).0 != (
        #[trigger] t[b]).0 by {
            if b == i {
                assert(t[a] == s[a]);
            } else {
                assert(t[a] == s[a]);
                assert(t[b] == s[b]);
            }
        }
        lemma_index_unique(t, h, i);
    }
}

/// Delivering the same message twice leaves the same published state as
/// delivering it once.
pub proof fn law_redelivery_idempotent(s: Seq<(Seq<char>, usize)>, h: Seq<char>, version: usize)
    requires
        handles_unique(s),
    ensures
        deliver_model(deliver_model(s, h, version), h, version) == deliver_model(s, h, version),
{
    lemma_deliver_publishes(s, h, version);
}

/// The consumer of republish messages.
pub struct Republisher {
    pub published: Vec<PublishedVersion>,
}

impl Republisher {
    pub open spec fn wf(&self) -> bool {
        handles_unique(pv_view(self.published@))
    }

    pub fn new() -> (r: Republisher)
        ensures
            r.wf(),
            pv_view(r.published@).len() == 0,
    {
        let r = Republisher { published: Vec::new() };
        assert(pv_view(r.published@) =~= Seq::<(Seq<char>, usize)>::empty());
        r
    }

    /// Handles one delivery of a message. Returns whether anything was
    /// published.
    pub fn deliver(&mut self, msg: &RepublishMessage) -> (r: bool)
        requires
            old(self).wf(),
        ensures
            final(self).wf(),
            pv_view(final(self).published@) == deliver_model(
                pv_view(old(self).published@),
                msg.handle@,
                msg.version,
            ),
            r == (pv_view(final(self).published@) != pv_view(old(self).published@)),
    {
        let ghost s = pv_view(self.published@);
        proof {
            lemma_deliver_publishes(s, msg.handle@, msg.version);
        }
        let mut i: usize = 0;
        while i < self.published.len()
            invariant
                i <= self.published.len(),
                s == pv_view(self.published@),
                self.published@ == old(self).published@,
                handles_unique(s),
                forall|j: int| 0 <= j < i ==> (#[trigger] s[j]).0 != msg.handle@,
            decreases self.published.len() - i,
        {
            if self.published[i].handle.eq(&msg.handle) {
                proof {
                    lemma_index_unique(s, msg.handle@, i as int);
                }
                if self.published[i].version >= msg.version {
                    return false;
                }
                self.published.set(
                    i,
                    PublishedVersion { handle: msg.handle.clone(), version: msg.version },
                );
                assert(pv_view(self.published@) =~= s.update(i as int, (msg.handle@, msg.version)));
                assert(pv_view(self.published@)[i as int] != s[i as int]);
                return true;
            }
            i += 1;
        }
        self.published.push(PublishedVersion { handle: msg.handle.clone(), version: msg.version });
        assert(pv_view(self.published@) =~= s.push((msg.handle@, msg.version)));
        assert(pv_view(self.published@).len() != s.len());
        true
    }
}

} // verus!
