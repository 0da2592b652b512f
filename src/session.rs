use vstd::prelude::*;

use crate::dispatcher::{deliveries, Dispatcher, Target};
use crate::presence::{IdAllocator, Presence};

verus! {

/// Number of consecutive ticks without a presence after which a session ends
/// (ten seconds at twenty ticks a second).
pub const IDLE_TICK_LIMIT: u32 = 200;

/// A fact that the session lifecycle itself produces.
#[derive(Clone, Copy, Debug, PartialEq, Eq, Structural)]
pub enum EditorEvent {
    UserJoined { id: usize },
    UserLeft { id: usize },
}

/// One unit of work handed to the handlers during a tick, in processing order.
pub enum TickStep<M> {
    /// A queued event, for the event handler.
    Event(EditorEvent),
    /// A queued client message with the identity of its sender, for the command handler.
    Command(M, usize),
}

/// How a tick ended: whether the session goes on, and what the dispatcher's
/// flush delivered, as (entry index, presence identity) pairs.
pub struct TickEnd {
    pub keep_running: bool,
    pub deliveries: Vec<(usize, usize)>,
}

/// The identities of a presence list, in list order.
pub open spec fn ids_of<D>(presences: Seq<Presence<D>>) -> Seq<usize> {
    presences.map_values(|p: Presence<D>| p.id)
}

/// The steps that a tick hands out for the queued events and messages.
pub open spec fn steps_of<M>(events: Seq<EditorEvent>, messages: Seq<(M, usize)>) -> Seq<TickStep<M>> {
    events.map_values(|e: EditorEvent| TickStep::<M>::Event(e)) + messages.map_values(
        |m: (M, usize)| TickStep::Command(m.0, m.1),
    )
}

/// The idle counter after a tick that found the session empty or not.
pub open spec fn next_idle(count: u32, empty: bool) -> u32 {
    if !empty {
        0
    } else if count < u32::MAX {
        (count + 1) as u32
    } else {
        count
    }
}

/// One collaborative editing session: the document state `S`, the connected
/// presences (descriptors `D`), and the queues of events and client messages
/// (`M`) waiting for the next tick.
pub struct EditorSession<S, D, M> {
    beatmap_id: String,
    state: S,
    presences: Vec<Presence<D>>,
    events: Vec<EditorEvent>,
    messages: Vec<(M, usize)>,
    empty_ticks: u32,
}

impl<S, D, M> EditorSession<S, D, M> {
    pub closed spec fn beatmap_id_spec(&self) -> Seq<char> {
        self.beatmap_id@
    }

    /// The document state, opaque to the session core.
    pub closed spec fn doc_state(&self) -> S {
        self.state
    }

    pub closed spec fn presence_list(&self) -> Seq<Presence<D>> {
        self.presences@
    }

    /// The identities of the connected presences, in join order.
    pub open spec fn presence_ids(&self) -> Seq<usize> {
        ids_of(self.presence_list())
    }

    /// The events waiting for the next tick, oldest first.
    pub closed spec fn pending_events(&self) -> Seq<EditorEvent> {
        self.events@
    }

    /// The client messages waiting for the next tick, with their senders, oldest first.
    pub closed spec fn pending_messages(&self) -> Seq<(M, usize)> {
        self.messages@
    }

    /// The number of consecutive ticks that found no presence.
    pub closed spec fn idle_ticks(&self) -> u32 {
        self.empty_ticks
    }

    /// No two presences share an identity.
    pub open spec fn wf(&self) -> bool {
        forall|i: int, j: int|
            0 <= i < j < self.presence_ids().len() ==> self.presence_ids()[i]
                != self.presence_ids()[j]
    }

    /// Every connected presence holds an identity that `ids` has handed out.
    pub open spec fn ids_from(&self, ids: IdAllocator) -> bool {
        forall|i: int| 0 <= i < self.presence_ids().len() ==> ids.has_issued(#[trigger] self.presence_ids()[i] as nat)
    }

    /// A session over the document state that loading `beatmap_id` produced, or
    /// none where loading failed.
    pub fn create(beatmap_id: String, loaded: Option<S>) -> (r: Option<Self>)
        ensures
            r.is_some() <==> loaded.is_some(),
            r matches Some(s) ==> {
                &&& s.wf()
                &&& Some(s.doc_state()) == loaded
                &&& s.beatmap_id_spec() == beatmap_id@
                &&& s.presence_list().len() == 0
                &&& s.pending_events().len() == 0
                &&& s.pending_messages().len() == 0
                &&& s.idle_ticks() == 0
            },
    {
        match loaded {
            Some(state) => Some(
                EditorSession {
                    beatmap_id,
                    state,
                    presences: Vec::new(),
                    events: Vec::new(),
                    messages: Vec::new(),
                    empty_ticks: 0,
                },
            ),
            None => None,
        }
    }

    /// The connected presences, in join order.
    pub fn presences(&self) -> (r: &Vec<Presence<D>>)
        ensures
            r@ == self.presence_list(),
    {
        &self.presences
    }

    /// Takes the work of a tick: both queues are swapped for empty ones, and
    /// their former contents come back as steps, every queued event first, in
    /// the order it was queued, then every queued client message, in arrival
    /// order. Events queued or messages inserted while the steps are handled
    /// wait for the next tick.
    pub fn drain(&mut self) -> (steps: Vec<TickStep<M>>)
        ensures
            steps@ == steps_of(old(self).pending_events(), old(self).pending_messages()),
            steps@.len() == old(self).pending_events().len() + old(self).pending_messages().len(),
            forall|i: int|
                0 <= i < old(self).pending_events().len() ==> steps@[i] == TickStep::<M>::Event(
                    old(self).pending_events()[i],
                ),
            forall|i: int, j: int|
                0 <= i < old(self).pending_events().len() <= j < steps@.len() ==> (
                steps@[i] is Event && steps@[j] is Command),
            final(self).pending_events().len() == 0,
            final(self).pending_messages().len() == 0,
            final(self).presence_list() == old(self).presence_list(),
            final(self).doc_state() == old(self).doc_state(),
            final(self).beatmap_id_spec() == old(self).beatmap_id_spec(),
            final(self).idle_ticks() == old(self).idle_ticks(),
    {
        let mut events: Vec<EditorEvent> = Vec::new();
        std::mem::swap(&mut self.events, &mut events);
        let mut messages: Vec<(M, usize)> = Vec::new();
        std::mem::swap(&mut self.messages, &mut messages);
        let ghost old_messages = messages@;

        let mut steps: Vec<TickStep<M>> = Vec::new();
        let mut i: usize = 0;
        while i < events.len()
            invariant
                i <= events@.len(),
                steps@ == events@.take(i as int).map_values(|e: EditorEvent| TickStep::<M>::Event(e)),
            decreases events@.len() - i,
        {
            steps.push(TickStep::Event(events[i]));
            assert(events@.take(i + 1) =~= events@.take(i as int).push(events@[i as int]));
            assert(steps@ =~= events@.take(i + 1).map_values(|e: EditorEvent| TickStep::<M>::Event(e)));
            i += 1;
        }
        assert(events@.take(events@.len() as int) =~= events@);
        let ghost head = steps@;
        while messages.len() > 0
            invariant
                head == events@.map_values(|e: EditorEvent| TickStep::<M>::Event(e)),
                old_messages == old_messages.take(old_messages.len() - messages@.len()) + messages@,
                messages@.len() <= old_messages.len(),
                steps@ == head + old_messages.take(old_messages.len() - messages@.len()).map_values(
                    |m: (M, usize)| TickStep::Command(m.0, m.1),
                ),
            decreases messages@.len(),
        {
            let ghost k = old_messages.len() - messages@.len();
            let (message, sender) = messages.remove(0);
            proof {
                assert(old_messages[k] == (message, sender));
                assert(old_messages.take(k + 1) =~= old_messages.take(k).push((message, sender)));
                assert(old_messages =~= old_messages.take(k + 1) + messages@);
            }
            steps.push(TickStep::Command(message, sender));
            assert(steps@ =~= head + old_messages.take(k + 1).map_values(
                |m: (M, usize)| TickStep::Command(m.0, m.1),
            ));
        }
        assert(old_messages.take(old_messages.len() as int) =~= old_messages);
        assert(steps@ =~= steps_of(events@, old_messages));
        steps
    }

    /// Ends a tick whose steps have been handled: records the broadcast of
    /// `snapshot` (the per-participant summary as of now) for every presence,
    /// updates the idle counter (one more where no presence is connected, zero
    /// otherwise), flushes `dispatcher` against the presences as they stand, and
    /// says whether the session goes on: not once the idle counter has reached
    /// `IDLE_TICK_LIMIT`.
    pub fn tick<O>(&mut self, _tick: u32, dispatcher: &mut Dispatcher<O>, snapshot: O) -> (r: TickEnd)
        requires
            old(dispatcher).wf(),
        ensures
            final(dispatcher).wf(),
            final(dispatcher).messages() == old(dispatcher).messages().push(snapshot),
            final(dispatcher).targets() == old(dispatcher).targets().push(Target::All { exclude: None }),
            final(self).idle_ticks() == next_idle(
                old(self).idle_ticks(),
                old(self).presence_list().len() == 0,
            ),
            r.keep_running == (final(self).idle_ticks() < IDLE_TICK_LIMIT),
            r.deliveries@ == deliveries(final(dispatcher).targets(), final(self).presence_ids()),
            final(self).presence_list() == old(self).presence_list(),
            final(self).pending_events() == old(self).pending_events(),
            final(self).pending_messages() == old(self).pending_messages(),
            final(self).doc_state() == old(self).doc_state(),
            final(self).beatmap_id_spec() == old(self).beatmap_id_spec(),
    {
        dispatcher.broadcast(snapshot, None);

        if self.presences.len() == 0 {
            if self.empty_ticks < u32::MAX {
                self.empty_ticks = self.empty_ticks + 1;
            }
        } else {
            self.empty_ticks = 0;
        }

        let deliveries = dispatcher.flush(self);
        TickEnd { keep_running: self.empty_ticks < IDLE_TICK_LIMIT, deliveries }
    }

    /// Connects a participant: takes a fresh identity from `ids`, appends the
    /// presence to the list, queues a joined event for it, and returns the identity.
    pub fn join(&mut self, ids: &mut IdAllocator, session_info: D) -> (r: usize)
        requires
            old(self).wf(),
            old(ids).wf(),
            old(ids).next_id() < usize::MAX,
            old(self).ids_from(*old(ids)),
        ensures
            final(self).wf(),
            final(ids).wf(),
            final(self).ids_from(*final(ids)),
            r as nat == old(ids).next_id(),
            final(ids).next_id() == old(ids).next_id() + 1,
            !old(self).presence_ids().contains(r),
            final(self).presence_list() == old(self).presence_list().push(
                Presence { id: r, session: session_info },
            ),
            final(self).presence_ids() == old(self).presence_ids().push(r),
            final(self).pending_events() == old(self).pending_events().push(
                EditorEvent::UserJoined { id: r },
            ),
            final(self).pending_messages() == old(self).pending_messages(),
            final(self).doc_state() == old(self).doc_state(),
            final(self).beatmap_id_spec() == old(self).beatmap_id_spec(),
            final(self).idle_ticks() == old(self).idle_ticks(),
    {
        let id = ids.issue();
        let ghost old_ids = self.presence_ids();
        proof {
            if old_ids.contains(id) {
                let k = choose|k: int| 0 <= k < old_ids.len() && old_ids[k] == id;
                assert(old(ids).has_issued(old_ids[k] as nat));
            }
        }
        self.presences.push(Presence { id, session: session_info });
        assert(self.presence_ids() =~= old_ids.push(id));
        self.events.push(EditorEvent::UserJoined { id });
        id
    }

    /// Disconnects the presence `id`, if it is connected, and queues a left
    /// event for it either way.
    pub fn leave(&mut self, id: usize)
        requires
            old(self).wf(),
        ensures
            final(self).wf(),
            forall|ids: IdAllocator| old(self).ids_from(ids) ==> final(self).ids_from(ids),
            !final(self).presence_ids().contains(id),
            old(self).presence_ids().contains(id) ==> exists|k: int|
                0 <= k < old(self).presence_ids().len() && old(self).presence_ids()[k] == id
                    && final(self).presence_list() == old(self).presence_list().remove(k),
            !old(self).presence_ids().contains(id) ==> final(self).presence_list()
                == old(self).presence_list(),
            final(self).pending_events() == old(self).pending_events().push(
                EditorEvent::UserLeft { id },
            ),
            final(self).pending_messages() == old(self).pending_messages(),
            final(self).doc_state() == old(self).doc_state(),
            final(self).beatmap_id_spec() == old(self).beatmap_id_spec(),
            final(self).idle_ticks() == old(self).idle_ticks(),
    {
        let ghost old_ids = self.presence_ids();
        let mut k: usize = 0;
        while k < self.presences.len() && self.presences[k].id != id
            invariant
                k <= self.presences@.len(),
                self.presence_ids() == old_ids,
                forall|x: int| 0 <= x < k ==> old_ids[x] != id,
            decreases self.presences@.len() - k,
        {
            k += 1;
        }
        if k < self.presences.len() {
            let ghost old_list = self.presences@;
            self.presences.remove(k);
            proof {
                let new_ids = self.presence_ids();
                assert(old_ids[k as int] == id);
                assert(new_ids =~= old_ids.remove(k as int));
                assert forall|x: int| 0 <= x < new_ids.len() implies new_ids[x] != id by {
                    if x < k {
                        assert(new_ids[x] == old_ids[x]);
                    } else {
                        assert(new_ids[x] == old_ids[x + 1]);
                        assert(old_ids[k as int] != old_ids[x + 1]);
                    }
                }
                assert forall|ids: IdAllocator| old(self).ids_from(ids) implies self.ids_from(ids) by {
                    assert forall|x: int| 0 <= x < new_ids.len() implies ids.has_issued(#[trigger] new_ids[x] as nat) by {
                        if x < k {
                            assert(new_ids[x] == old_ids[x]);
                        } else {
                            assert(new_ids[x] == old_ids[x + 1]);
                        }
                    }
                }
            }
        }
        self.events.push(EditorEvent::UserLeft { id });
    }

    /// The connected presence with identity `id`, if there is one.
    pub fn presence(&self, id: usize) -> (r: Option<&Presence<D>>)
        ensures
            r.is_some() <==> self.presence_ids().contains(id),
            r matches Some(p) ==> p.id == id && exists|k: int|
                0 <= k < self.presence_list().len() && self.presence_list()[k] == *p,
    {
        let mut k: usize = 0;
        while k < self.presences.len()
            invariant
                k <= self.presences@.len(),
                forall|x: int| 0 <= x < k ==> self.presence_ids()[x] != id,
            decreases self.presences@.len() - k,
        {
            if self.presences[k].id == id {
                assert(self.presence_ids()[k as int] == id);
                return Some(&self.presences[k]);
            }
            k += 1;
        }
        None
    }

    /// Queues a client message from the presence `presence` for the next tick.
    /// `message` is the decoded payload, or none where it could not be decoded:
    /// then, as when `presence` is no longer connected, nothing changes.
    pub fn insert_message(&mut self, presence: usize, message: Option<M>)
        ensures
            (message is None || !old(self).presence_ids().contains(presence)) ==> *final(self)
                == *old(self),
            message is Some && old(self).presence_ids().contains(presence) ==> {
                &&& final(self).pending_messages() == old(self).pending_messages().push(
                    (message.unwrap(), presence),
                )
                &&& final(self).presence_list() == old(self).presence_list()
                &&& final(self).pending_events() == old(self).pending_events()
                &&& final(self).doc_state() == old(self).doc_state()
                &&& final(self).beatmap_id_spec() == old(self).beatmap_id_spec()
                &&& final(self).idle_ticks() == old(self).idle_ticks()
            },
    {
        if let Some(message) = message {
            if self.presence(presence).is_some() {
                self.messages.push((message, presence));
            }
        }
    }

    /// The identifier of the document this session edits.
    pub fn beatmap_id(&self) -> (r: &String)
        ensures
            r@ == self.beatmap_id_spec(),
    {
        &self.beatmap_id
    }

    /// The document state.
    pub fn state(&self) -> (r: &S)
        ensures
            *r == self.doc_state(),
    {
        &self.state
    }

    /// The document state, for the handlers of a tick to change.
    pub fn state_mut(&mut self) -> (r: &mut S)
        ensures
            *r == old(self).doc_state(),
            final(self).doc_state() == *final(r),
            final(self).presence_list() == old(self).presence_list(),
            final(self).pending_events() == old(self).pending_events(),
            final(self).pending_messages() == old(self).pending_messages(),
            final(self).beatmap_id_spec() == old(self).beatmap_id_spec(),
            final(self).idle_ticks() == old(self).idle_ticks(),
    {
        &mut self.state
    }

    /// The number of consecutive ticks that found no presence.
    pub fn empty_ticks(&self) -> (r: u32)
        ensures
            r == self.idle_ticks(),
    {
        self.empty_ticks
    }
}

} // verus!
