use termio::client::TermIOClient;
use termio::hub::SessionHub;
use termio::message::{AsciiFrame, Message, UserInfo};
use termio::ui::{KeyInput, TermioUI};
use termio::user::{User, UserManager};
use termio::webcam::{detect_devices, frame_wait_ms, WebcamConfig};

fn info(id: u64, name: &str) -> UserInfo {
    UserInfo { user_id: id, username: name.to_string(), connected_at: "t".to_string() }
}

#[test]
fn test_aggregator_roster_replaced_wholesale() {
    let mut c = TermIOClient::new("me".to_string(), "ws://host".to_string());
    c.apply(Message::UserList(vec![info(1, "alice")]));
    assert_eq!(c.connected_users, vec!["alice"]);
    // The next roster replaces the previous one entirely, duplicates and
    // all orderings included.
    c.apply(Message::UserList(vec![info(2, "bob"), info(1, "alice")]));
    assert_eq!(c.connected_users, vec!["bob", "alice"]);
    c.apply(Message::UserList(vec![]));
    assert!(c.connected_users.is_empty());
}

#[test]
fn test_aggregator_last_frame_wins() {
    let mut c = TermIOClient::new("me".to_string(), "ws://host".to_string());
    let mut f1 = AsciiFrame::new(1, 1);
    f1.set_cell(0, 0, 'a', 1, 1, 1);
    let mut f2 = AsciiFrame::new(1, 1);
    f2.set_cell(0, 0, 'b', 2, 2, 2);

    c.apply(Message::Frame { user_id: 1, username: "alice".to_string(), frame: f1 });
    c.apply(Message::Frame { user_id: 1, username: "alice".to_string(), frame: f2 });
    assert_eq!(c.last_frames.len(), 1);
    assert_eq!(c.last_frames[0].0, "alice");
    assert_eq!(c.last_frames[0].1.get_cell(0, 0), Some(('b', 2, 2, 2)));

    let mut f3 = AsciiFrame::new(1, 1);
    f3.set_cell(0, 0, 'c', 3, 3, 3);
    c.apply(Message::Frame { user_id: 2, username: "bob".to_string(), frame: f3 });
    assert_eq!(c.last_frames.len(), 2);
    assert_eq!(c.last_frames[1].0, "bob");
}

#[test]
fn test_aggregator_chat_appended_in_order() {
    let mut c = TermIOClient::new("me".to_string(), "ws://host".to_string());
    c.apply(Message::Chat { user_id: 1, username: "alice".to_string(), content: "one".to_string() });
    c.apply(Message::Chat { user_id: 2, username: "bob".to_string(), content: "two".to_string() });
    // Messages that carry no projection are ignored.
    c.apply(Message::Ping);
    c.apply(Message::Pong);
    c.apply(Message::Ack { success: true, message: "ok".to_string() });
    assert_eq!(c.chat_messages, vec![
        ("alice".to_string(), "one".to_string()),
        ("bob".to_string(), "two".to_string()),
    ]);
    let recent = c.recent_chat(1);
    assert_eq!(recent, vec![("bob".to_string(), "two".to_string())]);
    assert_eq!(c.recent_chat(10).len(), 2);
}

#[test]
fn test_end_to_end_two_sessions() {
    // Two sessions join; alice submits a 2x1 frame; bob's aggregator, after
    // processing his queue, shows alice's frame and the full roster.
    let mut hub = SessionHub::new();
    let alice_id = hub.join_at("alice".to_string(), "t0".to_string());
    let bob_id = hub.join_at("bob".to_string(), "t1".to_string());

    let mut frame = AsciiFrame::new(2, 1);
    frame.set_cell(0, 0, '@', 10, 10, 10);
    frame.set_cell(1, 0, ' ', 0, 0, 0);
    let expected = frame.data.clone();
    hub.submit_frame(alice_id, frame);

    let mut bob = TermIOClient::new("bob".to_string(), "ws://host".to_string());
    for msg in hub.take_outbox(bob_id) {
        bob.apply(msg);
    }

    assert_eq!(bob.connected_users, vec!["alice", "bob"]);
    let entry = bob.last_frames.iter().find(|p| p.0 == "alice").expect("alice's frame arrived");
    assert_eq!(entry.1.width, 2);
    assert_eq!(entry.1.height, 1);
    assert_eq!(entry.1.data, expected);
    assert_eq!(entry.1.get_cell(0, 0), Some(('@', 10, 10, 10)));
    assert_eq!(entry.1.get_cell(1, 0), Some((' ', 0, 0, 0)));
}

#[test]
fn test_make_messages() {
    let c = TermIOClient::new("me".to_string(), "ws://host".to_string());
    match c.make_join() {
        Message::Join { username } => assert_eq!(username, "me"),
        _ => panic!("expected a join message"),
    }
    match c.make_chat("hello".to_string()) {
        Message::Chat { user_id, username, content } => {
            assert_eq!(user_id, 0);
            assert_eq!(username, "me");
            assert_eq!(content, "hello");
        },
        _ => panic!("expected a chat message"),
    }
}

#[test]
fn test_ui_typing_and_sending() {
    let client = TermIOClient::new("me".to_string(), "ws://host".to_string());
    let mut ui = TermioUI::new(client);
    assert!(ui.handle_key(KeyInput::Enter).is_none());
    assert!(ui.handle_key(KeyInput::CharKey('h')).is_none());
    assert!(ui.handle_key(KeyInput::CharKey('i')).is_none());
    assert!(ui.handle_key(KeyInput::CharKey('!')).is_none());
    assert!(ui.handle_key(KeyInput::Backspace).is_none());
    assert_eq!(ui.input_buffer, "hi");
    let sent = ui.handle_key(KeyInput::Enter).expect("a typed line is sent");
    match sent {
        Message::Chat { username, content, .. } => {
            assert_eq!(username, "me");
            assert_eq!(content, "hi");
        },
        _ => panic!("expected a chat message"),
    }
    assert!(ui.input_buffer.is_empty());
    assert!(!ui.should_exit);
}

#[test]
fn test_ui_quit_and_scroll() {
    let client = TermIOClient::new("me".to_string(), "ws://host".to_string());
    let mut ui = TermioUI::new(client);
    assert_eq!(ui.scroll_position, 0);
    ui.handle_key(KeyInput::Down);
    assert_eq!(ui.scroll_position, 0);
    ui.handle_key(KeyInput::Up);
    ui.handle_key(KeyInput::Up);
    assert_eq!(ui.scroll_position, 2);
    ui.handle_key(KeyInput::Down);
    assert_eq!(ui.scroll_position, 1);
    ui.handle_key(KeyInput::Other);
    assert!(!ui.should_exit);
    ui.handle_key(KeyInput::CharKey('q'));
    assert!(ui.should_exit);

    let client2 = TermIOClient::new("me".to_string(), "ws://host".to_string());
    let mut ui2 = TermioUI::new(client2);
    ui2.handle_key(KeyInput::Esc);
    assert!(ui2.should_exit);
}

#[test]
fn test_registry_operations() {
    let mut m = UserManager::new();
    assert_eq!(m.count(), 0);
    let a = m.add_user("alice".to_string(), "t0".to_string());
    let b = m.add_user("bob".to_string(), "t1".to_string());
    assert_ne!(a.user_id, b.user_id);
    assert_eq!(m.count(), 2);
    assert!(m.user_exists(a.user_id));

    let list = m.get_user_list();
    assert_eq!(list.len(), 2);
    assert_eq!(list[0].username, "alice");
    assert_eq!(list[1].username, "bob");

    let others = m.get_other_users(a.user_id);
    assert_eq!(others.len(), 1);
    assert_eq!(others[0].username, "bob");

    let u = m.get_user(b.user_id).expect("bob is registered");
    assert_eq!(u.username, "bob");
    assert_eq!(u.connected_at, "t1");
    assert!(u.get_frame().is_none());

    let mut f = AsciiFrame::new(1, 1);
    f.set_cell(0, 0, 'x', 1, 2, 3);
    assert!(m.update_user_frame(b.user_id, f).is_some());
    let u = m.get_user(b.user_id).unwrap();
    assert_eq!(u.get_frame().unwrap().get_cell(0, 0), Some(('x', 1, 2, 3)));

    let gone = m.remove_user(a.user_id).expect("alice was registered");
    assert_eq!(gone.username, "alice");
    assert!(!m.user_exists(a.user_id));
    assert!(m.remove_user(a.user_id).is_none());
    assert_eq!(m.count(), 1);
}

#[test]
fn test_user_info() {
    let u = User::new(7, "carol".to_string(), "t9".to_string());
    let i = u.info();
    assert_eq!(i.user_id, 7);
    assert_eq!(i.username, "carol");
    assert_eq!(i.connected_at, "t9");
}

#[test]
fn test_frame_pacing() {
    // 30 fps gives a 33 ms interval; the producer sleeps the remainder.
    assert_eq!(frame_wait_ms(30, 0), 33);
    assert_eq!(frame_wait_ms(30, 10), 23);
    assert_eq!(frame_wait_ms(30, 33), 0);
    assert_eq!(frame_wait_ms(30, 1000), 0);
    // Uncapped capture never waits.
    assert_eq!(frame_wait_ms(0, 0), 0);
}

#[test]
fn test_detect_devices_fallback() {
    let found = vec!["/dev/video1".to_string(), "/dev/video3".to_string()];
    assert_eq!(detect_devices(found.clone()), found);
    assert_eq!(detect_devices(Vec::new()), vec!["/dev/video0".to_string()]);
}

#[test]
fn test_webcam_config_default() {
    let c = WebcamConfig::default();
    assert_eq!(c.device, "0");
    assert_eq!(c.width, 80);
    assert_eq!(c.height, 24);
    assert_eq!(c.fps_cap, 30);
    assert!(!c.mono);
}
