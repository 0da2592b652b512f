use vstd::prelude::*;

verus! {

/// One connected participant of a session: its identity and the descriptor of
/// the user behind it. The outbound channel is kept by the transport layer,
/// keyed by `id`.
pub struct Presence<D> {
    pub id: usize,
    pub session: D,
}

/// The source of presence identities: starts at 1, counts up, never reuses a
/// value. One allocator is meant to serve every session of a process.
pub struct IdAllocator {
    next: usize,
}

impl IdAllocator {
    /// The identity that the next call of `issue` hands out.
    pub closed spec fn next_id(&self) -> nat {
        self.next as nat
    }

    /// Every identity this allocator has handed out, in the order it did so.
    pub closed spec fn issued(&self) -> Seq<nat> {
        Seq::new((self.next - 1) as nat, |i: int| (i + 1) as nat)
    }

    /// Whether `id` has already been handed out by this allocator.
    pub open spec fn has_issued(&self, id: nat) -> bool {
        1 <= id < self.next_id()
    }

    pub closed spec fn wf(&self) -> bool {
        self.next >= 1
    }

    pub fn new() -> (r: Self)
        ensures
            r.wf(),
            r.next_id() == 1,
            r.issued().len() == 0,
    {
        IdAllocator { next: 1 }
    }

    /// Whether every identity has been handed out, so that `issue` may not be called.
    pub fn exhausted(&self) -> (r: bool)
        ensures
            r == (self.next_id() == usize::MAX),
    {
        self.next == usize::MAX
    }

    /// Hands out a fresh identity, larger than every identity issued before.
    pub fn issue(&mut self) -> (r: usize)
        requires
            old(self).wf(),
            old(self).next_id() < usize::MAX,
        ensures
            final(self).wf(),
            r as nat == old(self).next_id(),
            r >= 1,
            final(self).next_id() == old(self).next_id() + 1,
            !old(self).has_issued(r as nat),
            final(self).has_issued(r as nat),
            final(self).issued() == old(self).issued().push(r as nat),
            forall|x: nat| old(self).has_issued(x) ==> x < r,
    {
        let r = self.next;
        self.next = self.next + 1;
        assert(self.issued() =~= old(self).issued().push(r as nat));
        r
    }

    /// Identities are never reused and only grow: the identities an allocator
    /// has handed out, in order, are strictly increasing, hence pairwise distinct.
    pub proof fn lemma_issued_strictly_increasing(&self)
        requires
            self.wf(),
        ensures
            forall|i: int, j: int|
                0 <= i < j < self.issued().len() ==> self.issued()[i] < self.issued()[j],
            forall|i: int| 0 <= i < self.issued().len() ==> self.has_issued(#[trigger] self.issued()[i]),
    {
    }
}

} // verus!
