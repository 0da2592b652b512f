use gameserver::dispatcher::{Dispatcher, Target};
use gameserver::presence::IdAllocator;
use gameserver::session::{EditorEvent, EditorSession, TickStep, IDLE_TICK_LIMIT};

type Session = EditorSession<Vec<String>, String, String>;

fn new_session() -> Session {
    EditorSession::create("beatmap-1".to_string(), Some(Vec::new())).unwrap()
}

fn step_label(step: &TickStep<String>) -> String {
    match step {
        TickStep::Event(EditorEvent::UserJoined { id }) => format!("joined {}", id),
        TickStep::Event(EditorEvent::UserLeft { id }) => format!("left {}", id),
        TickStep::Command(m, from) => format!("command {} from {}", m, from),
    }
}

fn finish(session: &mut Session, tick: u32, snapshot: &str) -> (bool, Vec<(usize, usize)>, Dispatcher<String>) {
    let mut dispatcher = Dispatcher::new();
    let end = session.tick(tick, &mut dispatcher, snapshot.to_string());
    (end.keep_running, end.deliveries, dispatcher)
}

#[test]
fn create_without_loaded_state_gives_no_session() {
    let s: Option<Session> = EditorSession::create("x".to_string(), None);
    assert!(s.is_none());
    let s = new_session();
    assert_eq!(s.beatmap_id(), "beatmap-1");
    assert!(s.presences().is_empty());
    assert_eq!(s.empty_ticks(), 0);
}

#[test]
fn end_to_end_scenario() {
    let mut ids = IdAllocator::new();
    let mut s = new_session();
    let a = s.join(&mut ids, "alice".to_string());
    assert_eq!(a, 1);

    let steps = s.drain();
    assert_eq!(steps.iter().map(step_label).collect::<Vec<_>>(), vec!["joined 1"]);
    let (keep, deliveries, d) = finish(&mut s, 0, "users: 1");
    assert!(keep);
    assert_eq!(deliveries, vec![(0, 1)]);
    assert_eq!(d.message(0), "users: 1");

    s.insert_message(a, Some("move note".to_string()));
    let steps = s.drain();
    assert_eq!(steps.iter().map(step_label).collect::<Vec<_>>(), vec!["command move note from 1"]);
    s.state_mut().push("note moved".to_string());
    let (keep, deliveries, d) = finish(&mut s, 1, "users: 1, note moved");
    assert!(keep);
    assert_eq!(deliveries, vec![(0, 1)]);
    assert_eq!(d.message(0), "users: 1, note moved");
    assert_eq!(s.state(), &vec!["note moved".to_string()]);

    s.leave(a);
    let steps = s.drain();
    assert_eq!(steps.iter().map(step_label).collect::<Vec<_>>(), vec!["left 1"]);
    for n in 1..200u32 {
        let (keep, deliveries, _) = finish(&mut s, 1 + n, "users: 0");
        assert!(keep, "ended early on empty tick {}", n);
        assert!(deliveries.is_empty());
    }
    assert_eq!(s.empty_ticks(), 199);
    let (keep, _, _) = finish(&mut s, 201, "users: 0");
    assert!(!keep);
    assert_eq!(s.empty_ticks(), IDLE_TICK_LIMIT);
}

#[test]
fn drain_hands_out_events_then_messages_once() {
    let mut ids = IdAllocator::new();
    let mut s = new_session();
    let a = s.join(&mut ids, "a".to_string());
    let b = s.join(&mut ids, "b".to_string());
    s.insert_message(b, Some("first".to_string()));
    s.insert_message(a, Some("second".to_string()));
    s.leave(a);
    let steps = s.drain();
    let labels: Vec<String> = steps.iter().map(step_label).collect();
    assert_eq!(
        labels,
        vec![
            format!("joined {}", a),
            format!("joined {}", b),
            format!("left {}", a),
            format!("command first from {}", b),
            format!("command second from {}", a),
        ]
    );
    assert!(s.drain().is_empty());
}

#[test]
fn idle_counter_resets_when_a_presence_is_connected() {
    let mut ids = IdAllocator::new();
    let mut s = new_session();
    for n in 0..150u32 {
        assert!(finish(&mut s, n, "").0);
    }
    assert_eq!(s.empty_ticks(), 150);
    let a = s.join(&mut ids, "a".to_string());
    assert!(finish(&mut s, 150, "").0);
    assert_eq!(s.empty_ticks(), 0);
    s.leave(a);
    for n in 0..199u32 {
        assert!(finish(&mut s, 151 + n, "").0);
    }
    assert!(!finish(&mut s, 350, "").0);
}

#[test]
fn broadcast_resolves_presences_at_flush_time() {
    let mut ids = IdAllocator::new();
    let mut s = new_session();
    let a = s.join(&mut ids, "a".to_string());
    let b = s.join(&mut ids, "b".to_string());
    let mut d: Dispatcher<String> = Dispatcher::new();
    d.broadcast("hello".to_string(), None);
    let c = s.join(&mut ids, "c".to_string());
    s.leave(a);
    assert_eq!(d.flush(&s), vec![(0, b), (0, c)]);
}

#[test]
fn flush_honours_exclusion_and_direct_sends() {
    let mut ids = IdAllocator::new();
    let mut s = new_session();
    let a = s.join(&mut ids, "a".to_string());
    let b = s.join(&mut ids, "b".to_string());
    let mut d: Dispatcher<String> = Dispatcher::new();
    d.broadcast("not to a".to_string(), Some(a));
    d.send("to a".to_string(), a);
    d.send("to nobody".to_string(), 99);
    d.broadcast("everyone".to_string(), None);
    assert_eq!(d.len(), 4);
    assert_eq!(d.target(0), Target::All { exclude: Some(a) });
    assert_eq!(d.target(1), Target::One { id: a });
    assert_eq!(d.flush(&s), vec![(0, b), (1, a), (3, a), (3, b)]);
}

#[test]
fn identities_are_distinct_and_increasing() {
    let mut ids = IdAllocator::new();
    let mut s1 = new_session();
    let mut s2 = new_session();
    let mut issued = Vec::new();
    for k in 0..10 {
        let id = if k % 2 == 0 {
            s1.join(&mut ids, format!("user{}", k))
        } else {
            s2.join(&mut ids, format!("user{}", k))
        };
        if k % 3 == 0 {
            s1.leave(id);
        }
        issued.push(id);
    }
    assert_eq!(issued, (1..=10).collect::<Vec<usize>>());
    assert!(!ids.exhausted());
    assert_eq!(ids.issue(), 11);
}

#[test]
fn undecodable_or_orphan_messages_change_nothing() {
    let mut ids = IdAllocator::new();
    let mut s = new_session();
    let a = s.join(&mut ids, "a".to_string());
    s.drain();
    s.insert_message(a, None);
    s.insert_message(a + 1, Some("from nobody".to_string()));
    assert!(s.drain().is_empty());
    s.insert_message(a, Some("ok".to_string()));
    assert_eq!(s.drain().len(), 1);
}

#[test]
fn leave_of_absent_presence_only_queues_event() {
    let mut ids = IdAllocator::new();
    let mut s = new_session();
    let a = s.join(&mut ids, "a".to_string());
    s.drain();
    s.leave(a + 5);
    assert_eq!(s.presences().len(), 1);
    assert_eq!(s.presence(a).unwrap().session, "a");
    assert!(s.presence(a + 5).is_none());
    let labels: Vec<String> = s.drain().iter().map(step_label).collect();
    assert_eq!(labels, vec![format!("left {}", a + 5)]);
}
