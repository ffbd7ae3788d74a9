use macwincontrol::control::{ControlState, Phase};
use macwincontrol::discovery::DiscoveredPeer;
use macwincontrol::screens::{Bounds, ReceivedScreen};
use macwincontrol::session::SessionState;
use macwincontrol::state::{
    add_computer, debug_snapshot, get_computer_type, get_computers, get_connection_status,
    get_debug_info, get_discovered_peers, get_remote_screens, get_screen_layout,
    get_synced_layout, is_connected, is_server, remove_computer, set_clipboard_sync,
    set_remote_screens, set_screen_layout, AppState, ComputerKind,
};
use macwincontrol::Edge;

#[test]
fn computers_are_added_and_removed_by_ip() {
    let mut st = AppState::initial("10.0.0.2".to_string());
    assert!(!is_server(&st));
    assert!(!is_connected(&st));
    add_computer(&mut st, "A".to_string(), "10.0.0.3".to_string(), "right".to_string());
    add_computer(&mut st, "B".to_string(), "10.0.0.4".to_string(), "left".to_string());
    let cs = get_computers(&st);
    assert_eq!(cs.len(), 2);
    assert_eq!(cs[0].name, "A");
    assert_eq!(cs[0].screen_width, 1920);
    assert_eq!(cs[0].screen_height, 1080);
    assert!(!cs[0].is_connected);
    remove_computer(&mut st, "10.0.0.3".to_string());
    let cs = get_computers(&st);
    assert_eq!(cs.len(), 1);
    assert_eq!(cs[0].name, "B");
}

#[test]
fn clipboard_sync_toggle() {
    let mut st = AppState::initial("ip".to_string());
    set_clipboard_sync(&mut st, false);
    assert!(!st.clipboard_sync_enabled);
    set_clipboard_sync(&mut st, true);
    assert!(st.clipboard_sync_enabled);
}

#[test]
fn remote_screens_convert_for_the_gui() {
    let reg = vec![ReceivedScreen {
        computer_name: "B".to_string(),
        computer_type: "windows".to_string(),
        name: "Primary".to_string(),
        x: 5,
        y: 6,
        width: 700,
        height: 800,
        is_primary: true,
    }];
    let out = get_remote_screens(&reg);
    assert_eq!(out.len(), 1);
    assert_eq!(out[0].computer_name, "B");
    assert_eq!((out[0].x, out[0].y, out[0].width, out[0].height), (5, 6, 700, 800));
    let mut st = AppState::initial("ip".to_string());
    set_remote_screens(&mut st, out);
    assert_eq!(st.remote_screens.len(), 1);
}

#[test]
fn screen_layout_accepts_only_the_four_edges() {
    let mut ctl = ControlState::initial();
    assert_eq!(ctl.remote_edge, Edge::Right);
    assert!(set_screen_layout(&mut ctl, "left".to_string()).is_ok());
    assert_eq!(ctl.remote_edge, Edge::Left);
    assert_eq!(get_screen_layout(&ctl), "left");
    assert!(set_screen_layout(&mut ctl, "top".to_string()).is_ok());
    assert_eq!(get_screen_layout(&ctl), "top");
    assert!(set_screen_layout(&mut ctl, "bottom".to_string()).is_ok());
    assert_eq!(get_screen_layout(&ctl), "bottom");
    assert!(set_screen_layout(&mut ctl, "right".to_string()).is_ok());
    assert_eq!(get_screen_layout(&ctl), "right");
    let err = set_screen_layout(&mut ctl, "diagonal".to_string());
    assert!(err.is_err());
    // rejected input leaves the state unchanged
    assert_eq!(ctl.remote_edge, Edge::Right);
}

#[test]
fn synced_layout_round_trips() {
    assert_eq!(get_synced_layout(&None), None);
    let l = Some("{\"pos\":1}".to_string());
    assert_eq!(get_synced_layout(&l).as_deref(), Some("{\"pos\":1}"));
}

#[test]
fn connection_status_reflects_session_and_peers() {
    let mut s = SessionState::initial();
    s.on_outbound_established("10.0.0.3".to_string());
    let peers = vec![DiscoveredPeer {
        name: "W".to_string(),
        ip: "10.0.0.3".to_string(),
        computer_type: "windows".to_string(),
        last_seen: 9,
    }];
    let st = get_connection_status(&s, &peers);
    assert!(st.is_connected);
    assert_eq!(st.connected_to.as_deref(), Some("10.0.0.3"));
    assert_eq!(st.discovered_peers.len(), 1);
    assert_eq!(st.discovered_peers[0].name, "W");
    assert_eq!(st.discovered_peers[0].ip, "10.0.0.3");
    let copy = get_discovered_peers(&peers);
    assert_eq!(copy, peers);
}

#[test]
fn computer_type_tags() {
    assert_eq!(get_computer_type(ComputerKind::Mac), "mac");
    assert_eq!(get_computer_type(ComputerKind::Windows), "windows");
    assert_eq!(get_computer_type(ComputerKind::Other), "other");
}

#[test]
fn debug_snapshot_formats_bounds_and_status() {
    let b = Bounds { min_x: 0, max_x: 1920, min_y: 0, max_y: 1080 };
    let d = debug_snapshot(1919, 540, b, false, Phase::Idle, 0, 77);
    assert_eq!(d.screen_bounds, "x:[0,1920] y:[0,1080]");
    assert_eq!(d.edge_status, "Not connected");
    assert_eq!((d.mouse_x, d.mouse_y), (1919, 540));
    assert_eq!(d.last_update, 77);
    let d = debug_snapshot(1919, 540, b, true, Phase::Idle, 2, 78);
    assert_eq!(d.edge_status, "Watching edges (R:true, L:false, T:false, B:false)");
    assert_eq!(d.remote_screen_count, 2);
    let d = debug_snapshot(0, 0, b, true, Phase::ControllingRemote, 2, 79);
    assert_eq!(d.edge_status, "Controlling remote");
    let d = debug_snapshot(0, 0, b, true, Phase::BeingControlled, 2, 80);
    assert_eq!(d.edge_status, "Being controlled by remote");
    let b2 = Bounds { min_x: -1280, max_x: 1920, min_y: -200, max_y: 1080 };
    let d = debug_snapshot(0, 0, b2, false, Phase::Idle, 0, 1);
    assert_eq!(d.screen_bounds, "x:[-1280,1920] y:[-200,1080]");
    let r = get_debug_info(&d);
    assert_eq!(r.screen_bounds, d.screen_bounds);
    assert_eq!(r.edge_status, d.edge_status);
    assert_eq!(r.mouse_x, d.mouse_x);
}
