use vstd::prelude::*;

use crate::session::EditorSession;

verus! {

/// Who an outbound entry of a dispatcher is meant for.
#[derive(Clone, Copy, Debug, PartialEq, Eq, Structural)]
pub enum Target {
    /// Every presence registered when the dispatcher is flushed, but the excluded one.
    All { exclude: Option<usize> },
    /// Exactly the presence with this identity, if it is still registered at flush time.
    One { id: usize },
}

/// Whether the presence `id` is a recipient of an entry addressed to `t`.
pub open spec fn receives(t: Target, id: usize) -> bool {
    match t {
        Target::All { exclude } => exclude != Some(id),
        Target::One { id: target } => target == id,
    }
}

/// The presences of `ids` that an entry addressed to `t` reaches, in the order of `ids`.
pub open spec fn recipients(t: Target, ids: Seq<usize>) -> Seq<usize>
    decreases ids.len(),
{
    if ids.len() == 0 {
        Seq::empty()
    } else {
        let rest = recipients(t, ids.drop_last());
        if receives(t, ids.last()) {
            rest.push(ids.last())
        } else {
            rest
        }
    }
}

/// The deliveries that flushing entries addressed to `targets` makes against the
/// presence list `ids`: pairs of (entry index, presence identity), entries in the
/// order they were recorded and, within an entry, presences in list order.
pub open spec fn deliveries(targets: Seq<Target>, ids: Seq<usize>) -> Seq<(usize, usize)>
    decreases targets.len(),
{
    if targets.len() == 0 {
        Seq::empty()
    } else {
        let i = (targets.len() - 1) as usize;
        deliveries(targets.drop_last(), ids) + recipients(targets.last(), ids).map_values(
            |id: usize| (i, id),
        )
    }
}

/// Whether the presence `id` is a recipient of an entry addressed to `t`.
fn target_receives(t: Target, id: usize) -> (r: bool)
    ensures
        r == receives(t, id),
{
    match t {
        Target::All { exclude } => match exclude {
            Some(x) => x != id,
            None => true,
        },
        Target::One { id: target } => target == id,
    }
}

/// A per-tick accumulator of outbound messages, resolved against the presence
/// list only when it is flushed.
pub struct Dispatcher<O> {
    messages: Vec<O>,
    targets: Vec<Target>,
}

impl<O> Dispatcher<O> {
    /// The recorded messages, in recording order.
    pub closed spec fn messages(&self) -> Seq<O> {
        self.messages@
    }

    /// Where each recorded message goes, in recording order.
    pub closed spec fn targets(&self) -> Seq<Target> {
        self.targets@
    }

    pub closed spec fn wf(&self) -> bool {
        self.messages@.len() == self.targets@.len()
    }

    pub fn new() -> (r: Self)
        ensures
            r.wf(),
            r.messages() == Seq::<O>::empty(),
            r.targets() == Seq::<Target>::empty(),
    {
        Dispatcher { messages: Vec::new(), targets: Vec::new() }
    }

    /// Records `message` for every presence registered at flush time, but `exclude`.
    pub fn broadcast(&mut self, message: O, exclude: Option<usize>)
        requires
            old(self).wf(),
        ensures
            final(self).wf(),
            final(self).messages() == old(self).messages().push(message),
            final(self).targets() == old(self).targets().push(Target::All { exclude }),
    {
        self.messages.push(message);
        self.targets.push(Target::All { exclude });
    }

    /// Records `message` for the presence `target` alone.
    pub fn send(&mut self, message: O, target: usize)
        requires
            old(self).wf(),
        ensures
            final(self).wf(),
            final(self).messages() == old(self).messages().push(message),
            final(self).targets() == old(self).targets().push(Target::One { id: target }),
    {
        self.messages.push(message);
        self.targets.push(Target::One { id: target });
    }

    /// Resolves every recorded entry against the presences of `session` as they
    /// stand now: for each entry in recording order, one delivery (entry index,
    /// presence identity) per recipient, in presence-list order.
    pub fn flush<S, D, M>(&self, session: &EditorSession<S, D, M>) -> (r: Vec<(usize, usize)>)
        requires
            self.wf(),
        ensures
            r@ == deliveries(self.targets(), session.presence_ids()),
    {
        let presences = session.presences();
        let ghost ids = session.presence_ids();
        let mut out: Vec<(usize, usize)> = Vec::new();
        let mut i: usize = 0;
        while i < self.targets.len()
            invariant
                i <= self.targets@.len(),
                presences@ == session.presence_list(),
                ids == session.presence_ids(),
                out@ == deliveries(self.targets@.take(i as int), ids),
            decreases self.targets@.len() - i,
        {
            let t = self.targets[i];
            let ghost before = out@;
            let mut j: usize = 0;
            while j < presences.len()
                invariant
                    i < self.targets@.len(),
                    t == self.targets@[i as int],
                    j <= presences@.len(),
                    presences@ == session.presence_list(),
                    ids == session.presence_ids(),
                    before == deliveries(self.targets@.take(i as int), ids),
                    out@ == before + recipients(t, ids.take(j as int)).map_values(
                        |id: usize| (i, id),
                    ),
                decreases presences@.len() - j,
            {
                let id = presences[j].id;
                proof {
                    assert(ids.take(j + 1).drop_last() =~= ids.take(j as int));
                    assert(ids.take(j + 1).last() == id);
                }
                if target_receives(t, id) {
                    out.push((i, id));
                    assert(recipients(t, ids.take(j + 1)).map_values(|id: usize| (i, id))
                        =~= recipients(t, ids.take(j as int)).map_values(|id: usize| (i, id)).push((i, id)));
                }
                j += 1;
            }
            proof {
                assert(ids.take(ids.len() as int) =~= ids);
                assert(self.targets@.take(i + 1).drop_last() =~= self.targets@.take(i as int));
                assert(self.targets@.take(i + 1).last() == t);
            }
            i += 1;
        }
        proof {
            assert(self.targets@.take(self.targets@.len() as int) =~= self.targets@);
        }
        out
    }

    /// The number of recorded entries.
    pub fn len(&self) -> (r: usize)
        requires
            self.wf(),
        ensures
            r == self.targets().len(),
            r == self.messages().len(),
    {
        self.targets.len()
    }

    /// The message of entry `i`.
    pub fn message(&self, i: usize) -> (r: &O)
        requires
            self.wf(),
            i < self.messages().len(),
        ensures
            *r == self.messages()[i as int],
    {
        &self.messages[i]
    }

    /// Where entry `i` goes.
    pub fn target(&self, i: usize) -> (r: Target)
        requires
            self.wf(),
            i < self.targets().len(),
        ensures
            r == self.targets()[i as int],
    {
        self.targets[i]
    }
}

} // verus!
