//! Outbound delivery with per-destination pending queues.
//!
//! A destination (a plugin id, or a UI channel keyed by its context) either
//! has a live outbound channel bound or it does not. Sending to a bound
//! destination hands the frame straight back for immediate transmission;
//! sending to an unbound one never fails: the frame is queued and the
//! whole queue is flushed, in original send order, the moment that
//! destination's handshake binds a channel. Plugin channels and UI
//! channels each get their own router; the two namespaces never
//! cross-deliver.

use vstd::prelude::*;

verus! {

struct QueueEntry<T> {
    key: String,
    items: Vec<T>,
}

/// The frames pending for destination `d` in queue order.
spec fn pending_in<T>(qs: Seq<QueueEntry<T>>, d: Seq<char>) -> Seq<T>
    decreases qs.len(),
{
    if qs.len() == 0 {
        Seq::empty()
    } else {
        (if qs[0].key@ == d {
            qs[0].items@
        } else {
            Seq::empty()
        }) + pending_in(qs.skip(1), d)
    }
}

proof fn lemma_pending_push<T>(qs: Seq<QueueEntry<T>>, e: QueueEntry<T>, d: Seq<char>)
    ensures
        pending_in(qs.push(e), d) == pending_in(qs, d) + (if e.key@ == d {
            e.items@
        } else {
            Seq::<T>::empty()
        }),
    decreases qs.len(),
{
    let tail: Seq<T> = if e.key@ == d { e.items@ } else { Seq::empty() };
    if qs.len() == 0 {
        assert(qs.push(e)[0] == e);
        assert(qs.push(e).skip(1) =~= Seq::<QueueEntry<T>>::empty());
        assert(pending_in(Seq::<QueueEntry<T>>::empty(), d) == Seq::<T>::empty());
        assert(pending_in(qs.push(e), d) == tail + Seq::<T>::empty());
        assert(pending_in(qs, d) == Seq::<T>::empty());
        assert(tail + Seq::<T>::empty() =~= tail);
        assert(Seq::<T>::empty() + tail =~= tail);
        assert(pending_in(qs.push(e), d) == pending_in(qs, d) + tail);
    } else {
        lemma_pending_push(qs.skip(1), e, d);
        assert(qs.push(e)[0] == qs[0]);
        assert(qs.push(e).skip(1) =~= qs.skip(1).push(e));
        let head: Seq<T> = if qs[0].key@ == d { qs[0].items@ } else { Seq::empty() };
        assert(pending_in(qs.push(e), d) == head + pending_in(qs.skip(1).push(e), d));
        assert(pending_in(qs.skip(1).push(e), d) == pending_in(qs.skip(1), d) + tail);
        assert(head + (pending_in(qs.skip(1), d) + tail) =~= (head + pending_in(qs.skip(1), d))
            + tail);
        assert(pending_in(qs, d) == head + pending_in(qs.skip(1), d));
        assert(pending_in(qs.push(e), d) == pending_in(qs, d) + tail);
    }
}

/// Whether some string in `bs` reads `d`.
spec fn has_key(bs: Seq<String>, d: Seq<char>) -> bool {
    exists|i: int| 0 <= i < bs.len() && (#[trigger] bs[i])@ == d
}

proof fn lemma_has_key_push(bs: Seq<String>, s: String, d: Seq<char>)
    ensures
        has_key(bs.push(s), d) == (has_key(bs, d) || s@ == d),
{
    if has_key(bs, d) {
        let k = choose|k: int| 0 <= k < bs.len() && (bs[k])@ == d;
        assert(bs.push(s)[k]@ == d);
    }
    if s@ == d {
        assert(bs.push(s)[bs.len() as int]@ == d);
    }
    if has_key(bs.push(s), d) {
        let k = choose|k: int| 0 <= k < bs.push(s).len() && (bs.push(s)[k])@ == d;
        if k < bs.len() {
            assert(bs[k]@ == d);
        }
    }
}

/// Routes outbound frames to one namespace of destinations, queueing for
/// any destination that has not bound a channel yet.
pub struct Router<T> {
    bound: Vec<String>,
    queues: Vec<QueueEntry<T>>,
}

/// What `send` asks of the caller: write the frame to the destination's
/// live channel now, or nothing — the frame was queued for its next
/// handshake.
#[derive(PartialEq, Eq, Debug)]
pub enum SendOutcome<T> {
    Deliver(T),
    Queued,
}

impl<T> Router<T> {
    /// Whether `d` currently has a live outbound channel bound.
    pub closed spec fn is_bound(&self, d: Seq<char>) -> bool {
        has_key(self.bound@, d)
    }

    /// The frames accepted for `d` but not yet delivered, in send order.
    pub closed spec fn pending(&self, d: Seq<char>) -> Seq<T> {
        pending_in(self.queues@, d)
    }

    /// The router invariant: queue and live channel are mutually
    /// exclusive states for a destination — a bound destination never has
    /// frames pending, since its queue was consumed whole when it bound.
    pub closed spec fn inv(&self) -> bool {
        forall|d: Seq<char>| #[trigger] self.is_bound(d) ==> self.pending(d) == Seq::<T>::empty()
    }

    /// A router with no channel bound and nothing pending.
    pub fn new() -> (r: Router<T>)
        ensures
            forall|d: Seq<char>| !r.is_bound(d),
            forall|d: Seq<char>| r.pending(d) == Seq::<T>::empty(),
            r.inv(),
    {
        Router { bound: Vec::new(), queues: Vec::new() }
    }

    fn find_bound(&self, dest: &String) -> (r: bool)
        ensures
            r == self.is_bound(dest@),
    {
        let mut i: usize = 0;
        while i < self.bound.len()
            invariant
                0 <= i <= self.bound@.len(),
                forall|k: int| 0 <= k < i ==> (#[trigger] self.bound@[k])@ != dest@,
            decreases self.bound@.len() - i,
        {
            if self.bound[i] == *dest {
                proof {
                    assert(self.bound@[i as int]@ == dest@);
                }
                return true;
            }
            i = i + 1;
        }
        proof {
            if has_key(self.bound@, dest@) {
                let k = choose|k: int|
                    0 <= k < self.bound@.len() && (self.bound@[k])@ == dest@;
                assert(false);
            }
        }
        false
    }

    /// Accepts one frame for `dest`. A bound destination gets it back for
    /// immediate transmission; an unbound one has it appended to its
    /// pending queue — the send is accepted for eventual delivery, never
    /// failed.
    pub fn send(&mut self, dest: &String, frame: T) -> (r: SendOutcome<T>)
        requires
            old(self).inv(),
        ensures
            final(self).inv(),
            old(self).is_bound(dest@) ==> {
                &&& r == SendOutcome::Deliver(frame)
                &&& *final(self) == *old(self)
            },
            !old(self).is_bound(dest@) ==> {
                &&& r == SendOutcome::<T>::Queued
                &&& final(self).pending(dest@) == old(self).pending(dest@).push(frame)
                &&& forall|d: Seq<char>|
                    d != dest@ ==> final(self).pending(d) == old(self).pending(d)
                &&& forall|d: Seq<char>| final(self).is_bound(d) == old(self).is_bound(d)
            },
    {
        let ghost f0 = frame;
        if self.find_bound(dest) {
            SendOutcome::Deliver(frame)
        } else {
            let mut items: Vec<T> = Vec::new();
            items.push(frame);
            let entry = QueueEntry { key: dest.clone(), items };
            let ghost qs0 = self.queues@;
            let ghost e = entry;
            self.queues.push(entry);
            proof {
                lemma_pending_push::<T>(qs0, e, dest@);
                assert(e.items@ =~= Seq::<T>::empty().push(f0));
                assert(pending_in(qs0, dest@) + e.items@ =~= pending_in(qs0, dest@).push(f0));
                assert forall|d: Seq<char>| d != dest@ implies final(self).pending(d) == old(
                    self,
                ).pending(d) by {
                    lemma_pending_push::<T>(qs0, e, d);
                    assert(pending_in(qs0, d) + Seq::<T>::empty() =~= pending_in(qs0, d));
                }
                assert forall|d: Seq<char>| #[trigger]
                    final(self).is_bound(d) implies final(self).pending(d)
                    == Seq::<T>::empty() by {
                    assert(old(self).is_bound(d));
                    assert(d != dest@);
                }
            }
            SendOutcome::Queued
        }
    }

    /// Binds a live channel for `dest` and returns every pending frame,
    /// in original send order, to be written to it now; the queue is
    /// consumed whole.
    pub fn bind(&mut self, dest: &String) -> (flushed: Vec<T>)
        requires
            old(self).inv(),
        ensures
            final(self).inv(),
            flushed@ == old(self).pending(dest@),
            final(self).pending(dest@) == Seq::<T>::empty(),
            forall|d: Seq<char>| d != dest@ ==> final(self).pending(d) == old(self).pending(d),
            final(self).is_bound(dest@),
            forall|d: Seq<char>| d != dest@ ==> final(self).is_bound(d) == old(self).is_bound(d),
    {
        let ghost orig = self.queues@;
        let mut rem: Vec<QueueEntry<T>> = Vec::new();
        core::mem::swap(&mut rem, &mut self.queues);
        let mut kept: Vec<QueueEntry<T>> = Vec::new();
        let mut flushed: Vec<T> = Vec::new();
        let mut i: usize = 0;
        proof {
            assert(orig.skip(0) =~= orig);
            assert(flushed@ + pending_in(orig, dest@) =~= pending_in(orig, dest@));
        }
        while i < rem.len()
            invariant
                0 <= i <= rem@.len(),
                rem@.len() == orig.len(),
                forall|k: int| i <= k < orig.len() ==> #[trigger] rem@[k] == orig[k],
                flushed@ + pending_in(orig.skip(i as int), dest@) == pending_in(orig, dest@),
                pending_in(kept@, dest@) == Seq::<T>::empty(),
                forall|d: Seq<char>|
                    d != dest@ ==> #[trigger] pending_in(kept@, d) + pending_in(
                        orig.skip(i as int),
                        d,
                    ) == pending_in(orig, d),
            decreases rem@.len() - i,
        {
            proof {
                assert(orig.skip(i as int)[0] == orig[i as int]);
                assert(orig.skip(i as int).skip(1) =~= orig.skip(i + 1));
            }
            let ghost keptq = kept@;
            let ghost flushed0 = flushed@;
            let e = &rem[i];
            if e.key == *dest {
                let mut taken: Vec<T> = Vec::new();
                let em = &mut rem[i];
                core::mem::swap(&mut taken, &mut em.items);
                let ghost ev_items = taken@;
                flushed.append(&mut taken);
                proof {
                    assert(orig[i as int].items@ == ev_items);
                    assert(flushed@ =~= flushed0 + ev_items);
                    assert((flushed0 + ev_items) + pending_in(orig.skip(i + 1), dest@)
                        =~= flushed0 + (ev_items + pending_in(orig.skip(i + 1), dest@)));
                    assert forall|d: Seq<char>| d != dest@ implies #[trigger] pending_in(
                        kept@,
                        d,
                    ) + pending_in(orig.skip(i + 1), d) == pending_in(orig, d) by {
                        assert(pending_in(orig.skip(i as int), d) == Seq::<T>::empty()
                            + pending_in(orig.skip(i + 1), d));
                        assert(Seq::<T>::empty() + pending_in(orig.skip(i + 1), d) =~= pending_in(
                            orig.skip(i + 1),
                            d,
                        ));
                    }
                }
            } else {
                let moved = take_entry(&mut rem, i);
                let ghost ev = moved;
                kept.push(moved);
                proof {
                    assert(ev.key@ == orig[i as int].key@);
                    assert(ev.items@ == orig[i as int].items@);
                    lemma_pending_push::<T>(keptq, ev, dest@);
                    assert(pending_in(keptq, dest@) + Seq::<T>::empty() =~= pending_in(
                        keptq,
                        dest@,
                    ));
                    assert forall|d: Seq<char>| d != dest@ implies #[trigger] pending_in(
                        kept@,
                        d,
                    ) + pending_in(orig.skip(i + 1), d) == pending_in(orig, d) by {
                        lemma_pending_push::<T>(keptq, ev, d);
                        if ev.key@ == d {
                            assert((pending_in(keptq, d) + ev.items@) + pending_in(
                                orig.skip(i + 1),
                                d,
                            ) =~= pending_in(keptq, d) + (ev.items@ + pending_in(
                                orig.skip(i + 1),
                                d,
                            )));
                        } else {
                            assert(pending_in(keptq, d) + Seq::<T>::empty() =~= pending_in(
                                keptq,
                                d,
                            ));
                            assert(pending_in(orig.skip(i as int), d) == Seq::<T>::empty()
                                + pending_in(orig.skip(i + 1), d));
                            assert(Seq::<T>::empty() + pending_in(orig.skip(i + 1), d)
                                =~= pending_in(orig.skip(i + 1), d));
                        }
                    }
                }
            }
            i = i + 1;
        }
        proof {
            assert(orig.skip(orig.len() as int) =~= Seq::<QueueEntry<T>>::empty());
            assert(flushed@ + Seq::<T>::empty() =~= flushed@);
            assert forall|d: Seq<char>| d != dest@ implies pending_in(kept@, d) == pending_in(
                orig,
                d,
            ) by {
                assert(pending_in(kept@, d) + Seq::<T>::empty() =~= pending_in(kept@, d));
            }
        }
        self.queues = kept;
        let ghost bound0 = self.bound@;
        let already = self.find_bound(dest);
        if !already {
            let s = dest.clone();
            let ghost sv = s;
            self.bound.push(s);
            proof {
                assert(self.bound@ =~= bound0.push(sv));
                lemma_has_key_push(bound0, sv, dest@);
                assert forall|d: Seq<char>|
                    d != dest@ implies has_key(self.bound@, d) == has_key(bound0, d) by {
                    lemma_has_key_push(bound0, sv, d);
                }
            }
        }
        proof {
            assert forall|d: Seq<char>| #[trigger]
                final(self).is_bound(d) implies final(self).pending(d) == Seq::<T>::empty() by {
                if d != dest@ {
                    assert(old(self).is_bound(d));
                    assert(final(self).pending(d) == old(self).pending(d));
                }
            }
        }
        flushed
    }

    /// Drops the live channel for `dest`, if any: the destination queues
    /// again from now on. Frames already flushed are untouched.
    pub fn unbind(&mut self, dest: &String)
        requires
            old(self).inv(),
        ensures
            final(self).inv(),
            !final(self).is_bound(dest@),
            forall|d: Seq<char>| d != dest@ ==> final(self).is_bound(d) == old(self).is_bound(d),
            forall|d: Seq<char>| final(self).pending(d) == old(self).pending(d),
    {
        let ghost bound0 = self.bound@;
        let mut nb: Vec<String> = Vec::new();
        let mut i: usize = 0;
        proof {
            assert(bound0.take(0) =~= Seq::<String>::empty());
        }
        while i < self.bound.len()
            invariant
                0 <= i <= self.bound@.len(),
                self.bound@ == bound0,
                forall|k: int| 0 <= k < nb@.len() ==> (#[trigger] nb@[k])@ != dest@,
                forall|d: Seq<char>|
                    d != dest@ ==> #[trigger] has_key(nb@, d) == has_key(
                        bound0.take(i as int),
                        d,
                    ),
            decreases self.bound@.len() - i,
        {
            let ghost nb0 = nb@;
            proof {
                assert(bound0.take(i + 1) =~= bound0.take(i as int).push(bound0[i as int]));
            }
            let same = self.bound[i] == *dest;
            if !same {
                let s = self.bound[i].clone();
                let ghost sv = s;
                nb.push(s);
                proof {
                    assert(nb@ =~= nb0.push(sv));
                    assert(sv@ == bound0[i as int]@);
                }
            }
            proof {
                assert forall|d: Seq<char>|
                    d != dest@ implies #[trigger] has_key(nb@, d) == has_key(
                        bound0.take(i + 1),
                        d,
                    ) by {
                    lemma_has_key_push(bound0.take(i as int), bound0[i as int], d);
                    if !same {
                        lemma_has_key_push(nb0, nb@[nb@.len() - 1], d);
                    }
                }
            }
            i = i + 1;
        }
        proof {
            assert(bound0.take(bound0.len() as int) =~= bound0);
            if has_key(nb@, dest@) {
                let k = choose|k: int| 0 <= k < nb@.len() && (nb@[k])@ == dest@;
                assert(false);
            }
        }
        self.bound = nb;
        proof {
            assert forall|d: Seq<char>| #[trigger]
                final(self).is_bound(d) implies final(self).pending(d) == Seq::<T>::empty() by {
                assert(d != dest@);
                assert(old(self).is_bound(d));
            }
        }
    }
}

/// Moves the entry at `i` out of the vector, leaving an empty placeholder
/// in its slot; the caller never reads that slot again.
fn take_entry<T>(v: &mut Vec<QueueEntry<T>>, i: usize) -> (r: QueueEntry<T>)
    requires
        i < old(v)@.len(),
    ensures
        r.key@ == old(v)@[i as int].key@,
        r.items@ == old(v)@[i as int].items@,
        final(v)@.len() == old(v)@.len(),
        forall|k: int| 0 <= k < old(v)@.len() && k != i ==> #[trigger] final(v)@[k] == old(v)@[k],
{
    let mut slot = QueueEntry { key: String::new(), items: Vec::new() };
    let em = &mut v[i];
    core::mem::swap(&mut slot, em);
    slot
}

} // verus!
