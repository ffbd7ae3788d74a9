use macwincontrol::control::{Action, ControlState, Phase};
use macwincontrol::messages::Message;
use macwincontrol::screens::{ReceivedScreen, ScreenData, ScreenInfo};
use macwincontrol::session::{
    apply_message, get_connected_to, is_connected, release_control, send_click_to_remote,
    send_key_to_remote, send_layout_sync, split_lines, SessionState,
};

fn local_1080() -> Vec<ScreenInfo> {
    vec![ScreenInfo {
        name: "Main".to_string(),
        x: 0,
        y: 0,
        width: 1920,
        height: 1080,
        is_primary: true,
    }]
}

fn received(owner: &str, x: i32, w: i32) -> ReceivedScreen {
    ReceivedScreen {
        computer_name: owner.to_string(),
        computer_type: "mac".to_string(),
        name: "D".to_string(),
        x,
        y: 0,
        width: w,
        height: 1080,
        is_primary: true,
    }
}

fn fresh() -> (ControlState, Vec<ReceivedScreen>, Option<String>) {
    (ControlState::initial(), Vec::new(), None)
}

#[test]
fn ping_is_answered_with_pong() {
    let (mut ctl, mut reg, mut layout) = fresh();
    let local = local_1080();
    let acts = apply_message(&mut ctl, &mut reg, &mut layout, &Message::ping(), &local);
    assert_eq!(acts.len(), 1);
    match &acts[0] {
        Action::Send(m) => assert_eq!(m.msg_type, "pong"),
        other => panic!("expected a pong send, got {:?}", other),
    }
}

#[test]
fn mouse_move_applies_only_while_being_controlled() {
    let (mut ctl, mut reg, mut layout) = fresh();
    let local = local_1080();
    let m = Message::mouse_move(100, 200);
    let acts = apply_message(&mut ctl, &mut reg, &mut layout, &m, &local);
    assert!(acts.is_empty());
    ctl.phase = Phase::BeingControlled;
    let acts = apply_message(&mut ctl, &mut reg, &mut layout, &m, &local);
    assert_eq!(acts, vec![Action::MoveCursor(100, 200)]);
}

#[test]
fn control_start_clamps_to_local_screens() {
    let (mut ctl, mut reg, mut layout) = fresh();
    let local = local_1080();
    let m = Message::control_start(5000, 540);
    let acts = apply_message(&mut ctl, &mut reg, &mut layout, &m, &local);
    assert_eq!(ctl.phase, Phase::BeingControlled);
    assert_eq!(acts, vec![Action::MoveCursor(1919, 540)]);
}

#[test]
fn control_end_releases_being_controlled() {
    let (mut ctl, mut reg, mut layout) = fresh();
    let local = local_1080();
    ctl.phase = Phase::BeingControlled;
    let acts = apply_message(&mut ctl, &mut reg, &mut layout, &Message::control_end(), &local);
    assert_eq!(ctl.phase, Phase::Idle);
    assert!(acts.is_empty());
}

#[test]
fn hello_replaces_only_the_senders_screens() {
    let (mut ctl, mut reg, mut layout) = fresh();
    let local = local_1080();
    reg.push(received("A", 0, 1000));
    reg.push(received("B", 0, 2000));
    let screens = vec![ScreenData {
        name: "New".to_string(),
        x: 100,
        y: 0,
        width: 1280,
        height: 720,
        is_primary: true,
    }];
    let m = Message::hello_with_screens("A", screens, "mac");
    let acts = apply_message(&mut ctl, &mut reg, &mut layout, &m, &local);
    assert!(acts.is_empty());
    assert_eq!(reg.len(), 2);
    assert_eq!(reg[0].computer_name, "B");
    assert_eq!(reg[0].width, 2000);
    assert_eq!(reg[1].computer_name, "A");
    assert_eq!(reg[1].name, "New");
    assert_eq!(reg[1].x, 100);
    assert_eq!(reg[1].width, 1280);
    assert_eq!(reg[1].height, 720);
}

#[test]
fn hello_round_trip_populates_registry() {
    // one side advertises its displays; the other side's registry then
    // holds exactly those displays, entry for entry
    let (mut ctl, mut reg, mut layout) = fresh();
    let local = local_1080();
    let screens = vec![
        ScreenData {
            name: "Main".to_string(),
            x: 0,
            y: 0,
            width: 1920,
            height: 1080,
            is_primary: true,
        },
        ScreenData {
            name: "Side".to_string(),
            x: 1920,
            y: 0,
            width: 1280,
            height: 1024,
            is_primary: false,
        },
    ];
    let m = Message::hello_with_screens("Mac", screens.clone(), "mac");
    apply_message(&mut ctl, &mut reg, &mut layout, &m, &local);
    assert_eq!(reg.len(), screens.len());
    for (r, s) in reg.iter().zip(screens.iter()) {
        assert_eq!(r.computer_name, "Mac");
        assert_eq!(r.computer_type, "mac");
        assert_eq!(r.name, s.name);
        assert_eq!((r.x, r.y, r.width, r.height), (s.x, s.y, s.width, s.height));
        assert_eq!(r.is_primary, s.is_primary);
    }
}

#[test]
fn degenerate_hello_screens_are_dropped() {
    let (mut ctl, mut reg, mut layout) = fresh();
    let local = local_1080();
    let screens = vec![
        ScreenData {
            name: "Bad".to_string(),
            x: 0,
            y: 0,
            width: 0,
            height: 1080,
            is_primary: false,
        },
        ScreenData {
            name: "Good".to_string(),
            x: 0,
            y: 0,
            width: 640,
            height: 480,
            is_primary: true,
        },
    ];
    let m = Message::hello_with_screens("A", screens, "mac");
    apply_message(&mut ctl, &mut reg, &mut layout, &m, &local);
    assert_eq!(reg.len(), 1);
    assert_eq!(reg[0].name, "Good");
}

#[test]
fn clipboard_key_and_click_become_actions() {
    let (mut ctl, mut reg, mut layout) = fresh();
    let local = local_1080();
    let acts = apply_message(&mut ctl, &mut reg, &mut layout, &Message::clipboard("hi"), &local);
    assert_eq!(acts, vec![Action::SetClipboard("hi".to_string())]);
    let acts = apply_message(
        &mut ctl,
        &mut reg,
        &mut layout,
        &Message::mouse_click("left", "press"),
        &local,
    );
    assert_eq!(acts, vec![Action::Click("left".to_string(), "press".to_string())]);
    let acts = apply_message(
        &mut ctl,
        &mut reg,
        &mut layout,
        &Message::key_event(42, "release"),
        &local,
    );
    assert_eq!(acts, vec![Action::Key(42, "release".to_string())]);
}

#[test]
fn layout_sync_is_stored() {
    let (mut ctl, mut reg, mut layout) = fresh();
    let local = local_1080();
    let m = Message::layout_sync("{\"a\":1}");
    let acts = apply_message(&mut ctl, &mut reg, &mut layout, &m, &local);
    assert!(acts.is_empty());
    assert_eq!(layout.as_deref(), Some("{\"a\":1}"));
}

#[test]
fn unknown_message_type_is_dropped() {
    let (mut ctl, mut reg, mut layout) = fresh();
    let local = local_1080();
    let mut m = Message::ping();
    m.msg_type = "mystery".to_string();
    let acts = apply_message(&mut ctl, &mut reg, &mut layout, &m, &local);
    assert!(acts.is_empty());
    assert_eq!(ctl.phase, Phase::Idle);
}

#[test]
fn split_lines_buffers_partials_in_order() {
    let mut buffer: Vec<u8> = Vec::new();
    let lines = split_lines(&mut buffer, &b"{not json}\n{\"type\":\"pi".to_vec());
    assert_eq!(lines.len(), 1);
    assert_eq!(lines[0], b"{not json}".to_vec());
    let lines = split_lines(&mut buffer, &b"ng\"}\nrest".to_vec());
    assert_eq!(lines.len(), 1);
    assert_eq!(lines[0], b"{\"type\":\"ping\"}".to_vec());
    assert_eq!(buffer, b"rest".to_vec());
    let lines = split_lines(&mut buffer, &b"\na\nb\n".to_vec());
    assert_eq!(lines, vec![b"rest".to_vec(), b"a".to_vec(), b"b".to_vec()]);
    assert!(buffer.is_empty());
}

#[test]
fn inbound_never_displaces_outbound_write_endpoint() {
    let mut s = SessionState::initial();
    assert!(s.should_autoconnect());
    s.on_outbound_established("10.0.0.3".to_string());
    assert!(!s.should_autoconnect());
    let use_as_active = s.on_inbound_connection("10.0.0.9".to_string());
    assert!(!use_as_active);
    assert!(s.is_outgoing);
    let mut t = SessionState::initial();
    let use_as_active = t.on_inbound_connection("10.0.0.9".to_string());
    assert!(use_as_active);
    assert!(is_connected(&t));
    assert_eq!(get_connected_to(&t).as_deref(), Some("10.0.0.9"));
}

#[test]
fn forwarding_is_gated_by_control_phase() {
    let mut ctl = ControlState::initial();
    assert!(send_key_to_remote(&ctl, 10, "press").is_none());
    assert!(send_click_to_remote(&ctl, "left", "press").is_none());
    ctl.phase = Phase::ControllingRemote;
    let m = send_key_to_remote(&ctl, 10, "press").unwrap();
    assert_eq!(m.msg_type, "key_event");
    assert_eq!(m.key_code, Some(10));
    let m = send_click_to_remote(&ctl, "left", "press").unwrap();
    assert_eq!(m.msg_type, "mouse_click");
    assert_eq!(m.button.as_deref(), Some("left"));
    release_control(&mut ctl);
    assert_eq!(ctl.phase, Phase::Idle);
}

#[test]
fn layout_sync_needs_a_write_endpoint() {
    let s = SessionState::initial();
    assert!(send_layout_sync(&s, "{}").is_err());
    let mut s = SessionState::initial();
    s.on_outbound_established("10.0.0.3".to_string());
    let m = send_layout_sync(&s, "{}").unwrap();
    assert_eq!(m.msg_type, "layout_sync");
    assert_eq!(m.layout.as_deref(), Some("{}"));
}
