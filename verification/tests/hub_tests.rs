use termio::hub::SessionHub;
use termio::message::{AsciiFrame, Message};

fn frame_2x1() -> AsciiFrame {
    let mut f = AsciiFrame::new(2, 1);
    f.set_cell(0, 0, '@', 10, 10, 10);
    f.set_cell(1, 0, ' ', 0, 0, 0);
    f
}

#[test]
fn test_join_acknowledges_and_delivers_roster() {
    let mut hub = SessionHub::new();
    let alice = hub.join_at("alice".to_string(), "t0".to_string());
    let msgs = hub.take_outbox(alice);
    assert_eq!(msgs.len(), 2);
    match &msgs[0] {
        Message::Ack { success, message } => {
            assert!(*success);
            assert_eq!(message, "Welcome, alice!");
        },
        _ => panic!("expected an acknowledgment first"),
    }
    match &msgs[1] {
        Message::UserList(users) => {
            assert_eq!(users.len(), 1);
            assert_eq!(users[0].username, "alice");
            assert_eq!(users[0].user_id, alice);
            assert_eq!(users[0].connected_at, "t0");
        },
        _ => panic!("expected the roster second"),
    }
}

#[test]
fn test_join_notifies_existing_members_once() {
    let mut hub = SessionHub::new();
    let alice = hub.join_at("alice".to_string(), "t0".to_string());
    hub.take_outbox(alice);
    let bob = hub.join_at("bob".to_string(), "t1".to_string());
    assert_ne!(alice, bob);

    // Alice hears exactly one roster update and one joined-notice.
    let to_alice = hub.take_outbox(alice);
    assert_eq!(to_alice.len(), 2);
    match &to_alice[0] {
        Message::UserList(users) => {
            let names: Vec<&str> = users.iter().map(|u| u.username.as_str()).collect();
            assert_eq!(names, vec!["alice", "bob"]);
        },
        _ => panic!("expected the roster first"),
    }
    match &to_alice[1] {
        Message::UserJoined { user_id, username } => {
            assert_eq!(*user_id, bob);
            assert_eq!(username, "bob");
        },
        _ => panic!("expected the joined-notice second"),
    }

    // Bob gets the acknowledgment and the roster, but no notice about
    // himself.
    let to_bob = hub.take_outbox(bob);
    assert_eq!(to_bob.len(), 2);
    assert!(matches!(&to_bob[0], Message::Ack { success: true, .. }));
    assert!(matches!(&to_bob[1], Message::UserList(_)));
}

#[test]
fn test_unjoined_submissions_have_no_effect() {
    let mut hub = SessionHub::new();
    let alice = hub.join_at("alice".to_string(), "t0".to_string());
    hub.take_outbox(alice);

    // A session id that never joined can submit frames and chat without
    // crashing and without anything being broadcast.
    hub.submit_frame(999, frame_2x1());
    hub.submit_chat(999, "hello".to_string());
    assert!(hub.take_outbox(alice).is_empty());
    assert!(hub.take_outbox(999).is_empty());
}

#[test]
fn test_frames_reach_everyone_in_order() {
    let mut hub = SessionHub::new();
    let alice = hub.join_at("alice".to_string(), "t0".to_string());
    let bob = hub.join_at("bob".to_string(), "t1".to_string());
    hub.take_outbox(alice);
    hub.take_outbox(bob);

    let f1 = frame_2x1();
    let mut f2 = AsciiFrame::new(2, 1);
    f2.set_cell(0, 0, '#', 7, 7, 7);
    hub.submit_frame(alice, f1);
    hub.submit_frame(alice, f2);

    // Every joined session, the sender included, receives both frames
    // tagged with the sender, in submission order.
    for sid in [alice, bob] {
        let msgs = hub.take_outbox(sid);
        assert_eq!(msgs.len(), 2);
        match &msgs[0] {
            Message::Frame { user_id, username, frame } => {
                assert_eq!(*user_id, alice);
                assert_eq!(username, "alice");
                assert_eq!(frame.get_cell(0, 0), Some(('@', 10, 10, 10)));
            },
            _ => panic!("expected the first frame"),
        }
        match &msgs[1] {
            Message::Frame { user_id, frame, .. } => {
                assert_eq!(*user_id, alice);
                assert_eq!(frame.get_cell(0, 0), Some(('#', 7, 7, 7)));
            },
            _ => panic!("expected the second frame"),
        }
    }
}

#[test]
fn test_chat_is_broadcast_tagged_with_sender() {
    let mut hub = SessionHub::new();
    let alice = hub.join_at("alice".to_string(), "t0".to_string());
    let bob = hub.join_at("bob".to_string(), "t1".to_string());
    hub.take_outbox(alice);
    hub.take_outbox(bob);

    hub.submit_chat(bob, "hi there".to_string());
    for sid in [alice, bob] {
        let msgs = hub.take_outbox(sid);
        assert_eq!(msgs.len(), 1);
        match &msgs[0] {
            Message::Chat { user_id, username, content } => {
                assert_eq!(*user_id, bob);
                assert_eq!(username, "bob");
                assert_eq!(content, "hi there");
            },
            _ => panic!("expected a chat message"),
        }
    }
}

#[test]
fn test_disconnect_notifies_remaining_then_roster() {
    let mut hub = SessionHub::new();
    let alice = hub.join_at("alice".to_string(), "t0".to_string());
    let bob = hub.join_at("bob".to_string(), "t1".to_string());
    hub.take_outbox(alice);
    hub.take_outbox(bob);

    hub.disconnect(alice);
    let msgs = hub.take_outbox(bob);
    assert_eq!(msgs.len(), 2);
    match &msgs[0] {
        Message::UserLeft { user_id, username } => {
            assert_eq!(*user_id, alice);
            assert_eq!(username, "alice");
        },
        _ => panic!("expected the peer-left notice first"),
    }
    match &msgs[1] {
        Message::UserList(users) => {
            assert_eq!(users.len(), 1);
            assert_eq!(users[0].username, "bob");
        },
        _ => panic!("expected the refreshed roster second"),
    }

    // The disconnected session's queue is gone; disconnecting again is a
    // no-op.
    assert!(hub.take_outbox(alice).is_empty());
    hub.disconnect(alice);
    assert!(hub.take_outbox(bob).is_empty());
}

#[test]
fn test_keepalive_is_a_direct_pong() {
    let mut hub = SessionHub::new();
    assert!(matches!(hub.keepalive(), Message::Pong));
    let alice = hub.join_at("alice".to_string(), "t0".to_string());
    hub.take_outbox(alice);
    // A ping through the state machine is answered directly, never
    // broadcast.
    let (sid, reply) = hub.handle_inbound(Some(alice), Message::Ping, "t2".to_string());
    assert_eq!(sid, Some(alice));
    assert!(matches!(reply, Some(Message::Pong)));
    assert!(hub.take_outbox(alice).is_empty());
}

#[test]
fn test_handle_inbound_state_machine() {
    let mut hub = SessionHub::new();
    // A frame before any join is ignored.
    let (sid, reply) = hub.handle_inbound(None, Message::Frame {
        user_id: 42,
        username: "spoof".to_string(),
        frame: frame_2x1(),
    }, "t0".to_string());
    assert_eq!(sid, None);
    assert!(reply.is_none());

    // A join names the session.
    let (sid, _) = hub.handle_inbound(None, Message::Join { username: "alice".to_string() },
        "t1".to_string());
    let alice = sid.expect("join must name the session");
    let msgs = hub.take_outbox(alice);
    assert_eq!(msgs.len(), 2);

    // After the join, frames flow; the sender's identity comes from the
    // session, not from the message fields.
    hub.handle_inbound(Some(alice), Message::Frame {
        user_id: 42,
        username: "spoof".to_string(),
        frame: frame_2x1(),
    }, "t2".to_string());
    let msgs = hub.take_outbox(alice);
    assert_eq!(msgs.len(), 1);
    match &msgs[0] {
        Message::Frame { user_id, username, .. } => {
            assert_eq!(*user_id, alice);
            assert_eq!(username, "alice");
        },
        _ => panic!("expected the echoed frame"),
    }
}

#[test]
fn test_slow_peer_does_not_change_others_delivery() {
    // One peer never drains its queue; the other's deliveries are exactly
    // what they would be anyway.
    let mut hub = SessionHub::new();
    let slow = hub.join_at("slow".to_string(), "t0".to_string());
    let fast = hub.join_at("fast".to_string(), "t1".to_string());
    hub.take_outbox(fast);

    for i in 0..100 {
        hub.submit_chat(fast, format!("line {}", i));
        // The fast peer's delivery is unaffected by the slow peer's
        // growing backlog.
        let msgs = hub.take_outbox(fast);
        assert_eq!(msgs.len(), 1);
    }
    // The slow peer's backlog held everything meanwhile: its own join
    // acknowledgment and roster, the two join broadcasts for the fast peer,
    // and the hundred chat lines.
    let backlog = hub.take_outbox(slow);
    assert_eq!(backlog.len(), 104);
}

#[test]
fn test_join_with_clock_timestamp() {
    // The clock-based join stamps the roster entry with the current time.
    let mut hub = SessionHub::new();
    let alice = hub.join("alice".to_string());
    let (sid, _) = hub.handle_inbound_now(None, Message::Join { username: "bob".to_string() });
    let bob = sid.expect("join must name the session");
    let msgs = hub.take_outbox(bob);
    assert_eq!(msgs.len(), 2);
    match &msgs[1] {
        Message::UserList(users) => {
            assert_eq!(users.len(), 2);
            assert_eq!(users[0].user_id, alice);
            assert!(!users[0].connected_at.is_empty());
            assert!(!users[1].connected_at.is_empty());
        },
        _ => panic!("expected the roster second"),
    }
}
