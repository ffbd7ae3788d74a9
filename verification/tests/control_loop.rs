use macwincontrol::control::{tick, Action, ControlState, Phase};
use macwincontrol::screens::{ReceivedScreen, ScreenInfo};
use macwincontrol::Edge;

fn local_1080() -> Vec<ScreenInfo> {
    vec![ScreenInfo {
        name: "Main".to_string(),
        x: 0,
        y: 0,
        width: 1920,
        height: 1080,
        is_primary: true,
    }]
}

fn remote_1080() -> Vec<ReceivedScreen> {
    vec![ReceivedScreen {
        computer_name: "B".to_string(),
        computer_type: "windows".to_string(),
        name: "Primary".to_string(),
        x: 0,
        y: 0,
        width: 1920,
        height: 1080,
        is_primary: true,
    }]
}

fn msg_of(a: &Action) -> &macwincontrol::messages::Message {
    match a {
        Action::Send(m) => m,
        other => panic!("expected a send, got {:?}", other),
    }
}

#[test]
fn right_edge_transfer() {
    let mut st = ControlState::initial();
    let remote = remote_1080();
    let local = local_1080();
    let acts = tick(&mut st, &remote, &local, true, true, 1919, 540, 1000);
    assert_eq!(st.phase, Phase::ControllingRemote);
    assert_eq!((st.edge_lock_x, st.edge_lock_y), (1919, 540));
    assert_eq!((st.remote_x, st.remote_y), (10, 540));
    assert_eq!(st.control_start_ms, 1000);
    assert_eq!(acts.len(), 3);
    let m = msg_of(&acts[0]);
    assert_eq!(m.msg_type, "control_start");
    assert_eq!(m.x, Some(10));
    assert_eq!(m.y, Some(540));
    assert_eq!(acts[1], Action::MoveCursor(1919, 540));
    assert_eq!(acts[2], Action::HideCursor);
}

#[test]
fn delta_while_controlling() {
    let mut st = ControlState::initial();
    let remote = remote_1080();
    let local = local_1080();
    tick(&mut st, &remote, &local, true, true, 1919, 540, 1000);
    // the user moved 100 px right in one tick; sensitivity 1.5 scales it
    let acts = tick(&mut st, &remote, &local, true, true, 2019, 540, 1100);
    assert_eq!(st.phase, Phase::ControllingRemote);
    assert_eq!(acts.len(), 2);
    let m = msg_of(&acts[0]);
    assert_eq!(m.msg_type, "mouse_move");
    assert_eq!(m.x, Some(160));
    assert_eq!(m.y, Some(540));
    assert_eq!(acts[1], Action::MoveCursor(1919, 540));
    assert_eq!((st.remote_x, st.remote_y), (160, 540));
}

#[test]
fn return_after_cooldown() {
    let mut st = ControlState::initial();
    let remote = remote_1080();
    let local = local_1080();
    tick(&mut st, &remote, &local, true, true, 1919, 540, 1000);
    tick(&mut st, &remote, &local, true, true, 2019, 540, 1100);
    // 1000 ms later the user pulls 200 px left: remote x would drop below 0
    let acts = tick(&mut st, &remote, &local, true, true, 1719, 540, 2100);
    assert_eq!(st.phase, Phase::Idle);
    assert_eq!(acts.len(), 3);
    let m = msg_of(&acts[0]);
    assert_eq!(m.msg_type, "control_end");
    assert_eq!(acts[1], Action::ShowCursor);
    assert_eq!(acts[2], Action::MoveCursor(1870, 540));
}

#[test]
fn top_edge_return_mirrors_vertically() {
    let mut st = ControlState::initial();
    st.remote_edge = Edge::Top;
    let remote = remote_1080();
    let local = local_1080();
    // crossing the top edge enters the remote at its bottom
    tick(&mut st, &remote, &local, true, true, 960, 5, 1000);
    assert_eq!(st.phase, Phase::ControllingRemote);
    assert_eq!((st.edge_lock_x, st.edge_lock_y), (960, 1));
    assert_eq!((st.remote_x, st.remote_y), (960, 1070));
    // past the cooldown, dragging down pushes the remote cursor past its
    // bottom edge: control returns, fifty pixels in from the local top
    let acts = tick(&mut st, &remote, &local, true, true, 960, 101, 2000);
    assert_eq!(st.phase, Phase::Idle);
    assert_eq!(acts.len(), 3);
    assert_eq!(msg_of(&acts[0]).msg_type, "control_end");
    assert_eq!(acts[1], Action::ShowCursor);
    assert_eq!(acts[2], Action::MoveCursor(960, 50));
}

#[test]
fn bottom_edge_return_mirrors_vertically() {
    let mut st = ControlState::initial();
    st.remote_edge = Edge::Bottom;
    let remote = remote_1080();
    let local = local_1080();
    // crossing the bottom edge enters the remote at its top
    tick(&mut st, &remote, &local, true, true, 960, 1075, 1000);
    assert_eq!(st.phase, Phase::ControllingRemote);
    assert_eq!((st.edge_lock_x, st.edge_lock_y), (960, 1079));
    assert_eq!((st.remote_x, st.remote_y), (960, 10));
    // dragging up pushes the remote cursor past its top edge
    let acts = tick(&mut st, &remote, &local, true, true, 960, 979, 2000);
    assert_eq!(st.phase, Phase::Idle);
    assert_eq!(msg_of(&acts[0]).msg_type, "control_end");
    assert_eq!(acts[2], Action::MoveCursor(960, 1030));
}

#[test]
fn rightward_overshoot_clamps_and_never_returns() {
    let mut st = ControlState::initial();
    let remote = remote_1080();
    let local = local_1080();
    tick(&mut st, &remote, &local, true, true, 1919, 540, 1000);
    // well past the cooldown, an overshoot in the entry direction is
    // clamped, not misread as a return
    let acts = tick(&mut st, &remote, &local, true, true, 3919, 540, 9000);
    assert_eq!(st.phase, Phase::ControllingRemote);
    assert_eq!(acts.len(), 2);
    let m = msg_of(&acts[0]);
    assert_eq!(m.msg_type, "mouse_move");
    assert_eq!(m.x, Some(1919));
    assert_eq!(m.y, Some(540));
}

#[test]
fn cooldown_blocks_immediate_return() {
    let mut st = ControlState::initial();
    let remote = remote_1080();
    let local = local_1080();
    tick(&mut st, &remote, &local, true, true, 1919, 540, 1000);
    // a violent leftward pull 300 ms in: still inside the 500 ms window
    let acts = tick(&mut st, &remote, &local, true, true, 919, 540, 1300);
    assert_eq!(st.phase, Phase::ControllingRemote);
    for a in &acts {
        if let Action::Send(m) = a {
            assert_ne!(m.msg_type, "control_end");
        }
    }
    let m = msg_of(&acts[0]);
    assert_eq!(m.msg_type, "mouse_move");
    assert_eq!(m.x, Some(0));
    assert_eq!(m.y, Some(540));
}

#[test]
fn remote_cursor_is_clamped() {
    let mut st = ControlState::initial();
    let remote = remote_1080();
    let local = local_1080();
    tick(&mut st, &remote, &local, true, true, 1919, 540, 1000);
    // a delta that would land the remote cursor far past remote_max_x
    let acts = tick(&mut st, &remote, &local, true, true, 3259, 540, 1100);
    let m = msg_of(&acts[0]);
    assert_eq!(m.msg_type, "mouse_move");
    assert_eq!(m.x, Some(1919));
    assert_eq!(m.y, Some(540));
    assert_eq!((st.remote_x, st.remote_y), (1919, 540));
}

#[test]
fn pinned_cursor_restored_every_tick() {
    let mut st = ControlState::initial();
    let remote = remote_1080();
    let local = local_1080();
    tick(&mut st, &remote, &local, true, true, 1919, 540, 1000);
    let acts = tick(&mut st, &remote, &local, true, true, 1930, 545, 1100);
    assert_eq!(acts.last(), Some(&Action::MoveCursor(1919, 540)));
    // no user motion: nothing to do, the cursor already sits on the lock
    let acts = tick(&mut st, &remote, &local, true, true, 1919, 540, 1200);
    assert!(acts.is_empty());
}

#[test]
fn disconnect_reverts_to_idle() {
    let mut st = ControlState::initial();
    let remote = remote_1080();
    let local = local_1080();
    tick(&mut st, &remote, &local, true, true, 1919, 540, 1000);
    let acts = tick(&mut st, &remote, &local, true, false, 1919, 540, 1100);
    assert_eq!(st.phase, Phase::Idle);
    assert_eq!(acts.len(), 2);
    assert_eq!(msg_of(&acts[0]).msg_type, "control_end");
    assert_eq!(acts[1], Action::ShowCursor);
}

#[test]
fn no_transfer_without_remote_screens() {
    let mut st = ControlState::initial();
    let remote: Vec<ReceivedScreen> = Vec::new();
    let local = local_1080();
    let acts = tick(&mut st, &remote, &local, true, true, 1919, 540, 1000);
    assert_eq!(st.phase, Phase::Idle);
    assert!(acts.is_empty());
}

#[test]
fn no_transfer_away_from_edge() {
    let mut st = ControlState::initial();
    let remote = remote_1080();
    let local = local_1080();
    let acts = tick(&mut st, &remote, &local, true, true, 960, 540, 1000);
    assert_eq!(st.phase, Phase::Idle);
    assert!(acts.is_empty());
}

#[test]
fn left_edge_transfer_mirrors_right() {
    let mut st = ControlState::initial();
    st.remote_edge = Edge::Left;
    let remote = remote_1080();
    let local = local_1080();
    let acts = tick(&mut st, &remote, &local, true, true, 5, 540, 1000);
    assert_eq!(st.phase, Phase::ControllingRemote);
    assert_eq!((st.edge_lock_x, st.edge_lock_y), (1, 540));
    assert_eq!((st.remote_x, st.remote_y), (1910, 540));
    let m = msg_of(&acts[0]);
    assert_eq!(m.msg_type, "control_start");
    assert_eq!((m.x, m.y), (Some(1910), Some(540)));
}

#[test]
fn top_edge_transfer_maps_x() {
    let mut st = ControlState::initial();
    st.remote_edge = Edge::Top;
    let remote = remote_1080();
    let local = local_1080();
    let acts = tick(&mut st, &remote, &local, true, true, 960, 5, 1000);
    assert_eq!(st.phase, Phase::ControllingRemote);
    assert_eq!((st.edge_lock_x, st.edge_lock_y), (960, 1));
    assert_eq!((st.remote_x, st.remote_y), (960, 1070));
    assert_eq!(msg_of(&acts[0]).msg_type, "control_start");
}

#[test]
fn being_controlled_tick_is_inert() {
    let mut st = ControlState::initial();
    st.phase = Phase::BeingControlled;
    let remote = remote_1080();
    let local = local_1080();
    let acts = tick(&mut st, &remote, &local, true, true, 1919, 540, 1000);
    assert_eq!(st.phase, Phase::BeingControlled);
    assert!(acts.is_empty());
}

#[test]
fn entry_point_maps_y_proportionally() {
    let mut st = ControlState::initial();
    let remote = vec![ReceivedScreen {
        computer_name: "B".to_string(),
        computer_type: "windows".to_string(),
        name: "Primary".to_string(),
        x: 0,
        y: 0,
        width: 1280,
        height: 720,
        is_primary: true,
    }];
    let local = local_1080();
    tick(&mut st, &remote, &local, true, true, 1919, 540, 1000);
    // 540 of 1080 maps to 360 of 720
    assert_eq!((st.remote_x, st.remote_y), (10, 360));
}
