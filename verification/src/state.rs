//! The process-wide application state the GUI collaborator reads and
//! writes, and the snapshot types handed to it.

use vstd::prelude::*;
use crate::Edge;
use crate::codec::{push_i32, push_str};
use crate::control::{ControlState, Phase};
use crate::discovery::DiscoveredPeer;
use crate::messages::str_eq;
use crate::screens::{Bounds, BoundsV, ReceivedScreen, RemoteScreenInfo, box_wf};
use crate::session::SessionState;
use crate::text::{chars_to_string, spec_int_chars};

verus! {

/// A computer configured by the GUI: its address and where it sits.
#[derive(Clone, Debug, PartialEq)]
pub struct ComputerInfo {
    pub name: String,
    pub ip: String,
    /// One of `left`, `right`, `top`, `bottom`.
    pub position: String,
    pub is_connected: bool,
    pub screen_width: i32,
    pub screen_height: i32,
}

/// The GUI-side application state.
pub struct AppState {
    pub is_server: bool,
    pub is_connected: bool,
    pub active_computer: Option<String>,
    pub computers: Vec<ComputerInfo>,
    pub local_ip: String,
    pub clipboard_sync_enabled: bool,
    pub remote_screens: Vec<RemoteScreenInfo>,
}

/// A raw input event as the GUI forwards it.
#[derive(Clone, Debug, PartialEq)]
pub struct InputEvent {
    pub event_type: String,
    pub x: Option<i32>,
    pub y: Option<i32>,
    pub button: Option<String>,
    pub key_code: Option<u32>,
    pub modifiers: Option<Modifiers>,
}

/// Modifier keys held during an input event.
#[derive(Clone, Copy, Debug, PartialEq, Eq, Structural)]
pub struct Modifiers {
    pub shift: bool,
    pub control: bool,
    pub alt: bool,
    pub meta: bool,
}

/// A discovered peer as shown to the GUI.
#[derive(Clone, Debug, PartialEq)]
pub struct PeerInfo {
    pub name: String,
    pub ip: String,
    pub computer_type: String,
}

/// The connection snapshot shown to the GUI.
#[derive(Clone, Debug, PartialEq)]
pub struct ConnectionStatus {
    pub is_connected: bool,
    pub connected_to: Option<String>,
    pub discovered_peers: Vec<PeerInfo>,
}

/// The control loop's observable snapshot.
#[derive(Clone, Debug, PartialEq)]
pub struct DebugInfo {
    pub mouse_x: i32,
    pub mouse_y: i32,
    pub screen_bounds: String,
    pub edge_status: String,
    pub remote_screen_count: usize,
    pub last_update: u64,
}

/// The debug snapshot as handed over the GUI boundary.
#[derive(Clone, Debug, PartialEq)]
pub struct DebugInfoResponse {
    pub mouse_x: i32,
    pub mouse_y: i32,
    pub screen_bounds: String,
    pub edge_status: String,
    pub remote_screen_count: usize,
    pub last_update: u64,
}

/// The host kinds a beacon advertises.
#[derive(Clone, Copy, Debug, PartialEq, Eq, Structural)]
pub enum ComputerKind {
    Mac,
    Windows,
    Other,
}

/// The beacon tag of a host kind.
pub fn get_computer_type(kind: ComputerKind) -> (s: &'static str)
    ensures
        kind == ComputerKind::Mac ==> s@ == "mac"@,
        kind == ComputerKind::Windows ==> s@ == "windows"@,
        kind == ComputerKind::Other ==> s@ == "other"@,
{
    match kind {
        ComputerKind::Mac => "mac",
        ComputerKind::Windows => "windows",
        ComputerKind::Other => "other",
    }
}

impl AppState {
    /// The state the process starts with.
    pub fn initial(local_ip: String) -> (st: AppState)
        ensures
            !st.is_server,
            !st.is_connected,
            st.active_computer is None,
            st.computers@.len() == 0,
            st.local_ip == local_ip,
            st.clipboard_sync_enabled,
            st.remote_screens@.len() == 0,
    {
        AppState {
            is_server: false,
            is_connected: false,
            active_computer: None,
            computers: Vec::new(),
            local_ip,
            clipboard_sync_enabled: true,
            remote_screens: Vec::new(),
        }
    }
}

/// Registers a computer with the conventional 1920x1080 size.
pub fn add_computer(state: &mut AppState, name: String, ip: String, position: String)
    ensures
        final(state).computers@.len() == old(state).computers@.len() + 1,
        final(state).computers@.drop_last() == old(state).computers@,
        final(state).computers@.last().name == name,
        final(state).computers@.last().ip == ip,
        final(state).computers@.last().position == position,
        !final(state).computers@.last().is_connected,
        final(state).computers@.last().screen_width == 1920,
        final(state).computers@.last().screen_height == 1080,
        final(state).is_server == old(state).is_server,
        final(state).is_connected == old(state).is_connected,
        final(state).remote_screens@ == old(state).remote_screens@,
{
    state.computers.push(ComputerInfo {
        name,
        ip,
        position,
        is_connected: false,
        screen_width: 1920,
        screen_height: 1080,
    });
    proof {
        assert(final(state).computers@.drop_last() =~= old(state).computers@);
    }
}

/// A field-by-field copy of a computer entry.
fn copy_computer(c: &ComputerInfo) -> (r: ComputerInfo)
    ensures
        r == *c,
{
    ComputerInfo {
        name: c.name.clone(),
        ip: c.ip.clone(),
        position: c.position.clone(),
        is_connected: c.is_connected,
        screen_width: c.screen_width,
        screen_height: c.screen_height,
    }
}

/// The configured computers, copied out for the GUI.
pub fn get_computers(state: &AppState) -> (r: Vec<ComputerInfo>)
    ensures
        r@ == state.computers@,
{
    let mut r: Vec<ComputerInfo> = Vec::new();
    let mut i: usize = 0;
    while i < state.computers.len()
        invariant
            0 <= i <= state.computers@.len(),
            r@ == state.computers@.subrange(0, i as int),
        decreases state.computers@.len() - i,
    {
        r.push(copy_computer(&state.computers[i]));
        i = i + 1;
        proof {
            assert(r@ =~= state.computers@.subrange(0, i as int));
        }
    }
    proof {
        assert(state.computers@.subrange(0, state.computers@.len() as int)
            =~= state.computers@);
    }
    r
}

/// The configured computers without the addressed one, in order.
pub open spec fn spec_without_ip(cs: Seq<ComputerInfo>, ipv: Seq<char>) -> Seq<ComputerInfo>
    decreases cs.len(),
{
    if cs.len() == 0 {
        Seq::empty()
    } else {
        let rest = spec_without_ip(cs.drop_last(), ipv);
        if cs.last().ip@ != ipv {
            rest.push(cs.last())
        } else {
            rest
        }
    }
}

/// Removes every computer registered under `ip`.
pub fn remove_computer(state: &mut AppState, ip: String)
    ensures
        final(state).computers@ == spec_without_ip(old(state).computers@, ip@),
        final(state).is_server == old(state).is_server,
        final(state).is_connected == old(state).is_connected,
        final(state).remote_screens@ == old(state).remote_screens@,
{
    let mut kept: Vec<ComputerInfo> = Vec::new();
    let mut i: usize = 0;
    while i < state.computers.len()
        invariant
            0 <= i <= state.computers@.len(),
            state.computers@ == old(state).computers@,
            kept@ == spec_without_ip(state.computers@.subrange(0, i as int), ip@),
        decreases state.computers@.len() - i,
    {
        let c = &state.computers[i];
        if !str_eq(c.ip.as_str(), ip.as_str()) {
            kept.push(copy_computer(c));
        }
        proof {
            let sub1 = state.computers@.subrange(0, i + 1);
            assert(sub1.drop_last() =~= state.computers@.subrange(0, i as int));
            assert(sub1.last() == state.computers@[i as int]);
            assert(kept@ =~= spec_without_ip(sub1, ip@));
        }
        i = i + 1;
    }
    proof {
        assert(state.computers@.subrange(0, state.computers@.len() as int)
            =~= state.computers@);
    }
    state.computers = kept;
}

/// Switches clipboard synchronization on or off.
pub fn set_clipboard_sync(state: &mut AppState, enabled: bool)
    ensures
        final(state).clipboard_sync_enabled == enabled,
        final(state).computers@ == old(state).computers@,
        final(state).is_connected == old(state).is_connected,
        final(state).is_server == old(state).is_server,
        final(state).remote_screens@ == old(state).remote_screens@,
{
    state.clipboard_sync_enabled = enabled;
}

/// Whether the GUI-side state believes a session exists.
pub fn is_connected(state: &AppState) -> (r: bool)
    ensures
        r == state.is_connected,
{
    state.is_connected
}

/// Whether this process was started as the listening side.
pub fn is_server(state: &AppState) -> (r: bool)
    ensures
        r == state.is_server,
{
    state.is_server
}

/// Stores the GUI's copy of the remote display list.
pub fn set_remote_screens(state: &mut AppState, screens: Vec<RemoteScreenInfo>)
    ensures
        final(state).remote_screens == screens,
        final(state).computers@ == old(state).computers@,
        final(state).is_connected == old(state).is_connected,
        final(state).is_server == old(state).is_server,
{
    state.remote_screens = screens;
}

/// The remote display registry, converted for the GUI.
pub fn get_remote_screens(reg: &Vec<ReceivedScreen>) -> (r: Vec<RemoteScreenInfo>)
    ensures
        r@.len() == reg@.len(),
        forall|i: int| 0 <= i < reg@.len() ==> #[trigger] r@[i]@ == reg@[i]@,
{
    let mut r: Vec<RemoteScreenInfo> = Vec::new();
    let mut i: usize = 0;
    while i < reg.len()
        invariant
            0 <= i <= reg@.len(),
            r@.len() == i,
            forall|j: int| 0 <= j < i ==> #[trigger] r@[j]@ == reg@[j]@,
        decreases reg@.len() - i,
    {
        let s = &reg[i];
        r.push(RemoteScreenInfo {
            computer_name: s.computer_name.clone(),
            computer_type: s.computer_type.clone(),
            name: s.name.clone(),
            x: s.x,
            y: s.y,
            width: s.width,
            height: s.height,
            is_primary: s.is_primary,
        });
        i = i + 1;
    }
    r
}

/// The connection snapshot for the GUI: session flags and the discovered
/// peers.
pub fn get_connection_status(session: &SessionState, peers: &Vec<DiscoveredPeer>) -> (r:
    ConnectionStatus)
    ensures
        r.is_connected == session.is_connected,
        r.connected_to == session.connected_to,
        r.discovered_peers@.len() == peers@.len(),
        forall|i: int| 0 <= i < peers@.len() ==> {
            &&& (#[trigger] r.discovered_peers@[i]).name == peers@[i].name
            &&& r.discovered_peers@[i].ip == peers@[i].ip
            &&& r.discovered_peers@[i].computer_type == peers@[i].computer_type
        },
{
    let connected_to = match &session.connected_to {
        Some(s) => Some(s.clone()),
        None => None,
    };
    let mut discovered_peers: Vec<PeerInfo> = Vec::new();
    let mut i: usize = 0;
    while i < peers.len()
        invariant
            0 <= i <= peers@.len(),
            discovered_peers@.len() == i,
            forall|j: int| 0 <= j < i ==> {
                &&& (#[trigger] discovered_peers@[j]).name == peers@[j].name
                &&& discovered_peers@[j].ip == peers@[j].ip
                &&& discovered_peers@[j].computer_type == peers@[j].computer_type
            },
        decreases peers@.len() - i,
    {
        let p = &peers[i];
        discovered_peers.push(PeerInfo {
            name: p.name.clone(),
            ip: p.ip.clone(),
            computer_type: p.computer_type.clone(),
        });
        i = i + 1;
    }
    ConnectionStatus { is_connected: session.is_connected, connected_to, discovered_peers }
}

/// The discovered peers, copied out for the GUI.
pub fn get_discovered_peers(peers: &Vec<DiscoveredPeer>) -> (r: Vec<DiscoveredPeer>)
    ensures
        r@ == peers@,
{
    let mut r: Vec<DiscoveredPeer> = Vec::new();
    let mut i: usize = 0;
    while i < peers.len()
        invariant
            0 <= i <= peers@.len(),
            r@ == peers@.subrange(0, i as int),
        decreases peers@.len() - i,
    {
        let p = &peers[i];
        r.push(DiscoveredPeer {
            name: p.name.clone(),
            ip: p.ip.clone(),
            computer_type: p.computer_type.clone(),
            last_seen: p.last_seen,
        });
        i = i + 1;
        proof {
            assert(r@ =~= peers@.subrange(0, i as int));
        }
    }
    proof {
        assert(peers@.subrange(0, peers@.len() as int) =~= peers@);
    }
    r
}

/// Arms the named edge; any other value is rejected and the state kept.
pub fn set_screen_layout(ctl: &mut ControlState, remote_edge: String) -> (r: Result<(), String>)
    ensures
        remote_edge@ == "right"@ ==> r is Ok && final(ctl).remote_edge == Edge::Right,
        remote_edge@ == "left"@ ==> r is Ok && final(ctl).remote_edge == Edge::Left,
        remote_edge@ == "top"@ ==> r is Ok && final(ctl).remote_edge == Edge::Top,
        remote_edge@ == "bottom"@ ==> r is Ok && final(ctl).remote_edge == Edge::Bottom,
        !(remote_edge@ == "right"@ || remote_edge@ == "left"@ || remote_edge@ == "top"@
            || remote_edge@ == "bottom"@) ==> r is Err && *final(ctl) == *old(ctl),
        final(ctl).phase == old(ctl).phase,
        final(ctl).edge_lock_x == old(ctl).edge_lock_x,
        final(ctl).edge_lock_y == old(ctl).edge_lock_y,
        final(ctl).remote_x == old(ctl).remote_x,
        final(ctl).remote_y == old(ctl).remote_y,
        final(ctl).control_start_ms == old(ctl).control_start_ms,
{
    proof {
        reveal_strlit("right");
        reveal_strlit("left");
        reveal_strlit("top");
        reveal_strlit("bottom");
        assert("right"@.len() == 5 && "left"@.len() == 4 && "top"@.len() == 3
            && "bottom"@.len() == 6);
    }
    let e = remote_edge.as_str();
    if str_eq(e, "right") {
        ctl.remote_edge = Edge::Right;
        Ok(())
    } else if str_eq(e, "left") {
        ctl.remote_edge = Edge::Left;
        Ok(())
    } else if str_eq(e, "top") {
        ctl.remote_edge = Edge::Top;
        Ok(())
    } else if str_eq(e, "bottom") {
        ctl.remote_edge = Edge::Bottom;
        Ok(())
    } else {
        let mut msg = String::new();
        msg.append("Invalid edge: ");
        msg.append(e);
        msg.append(". Must be one of: right, left, top, bottom");
        Err(msg)
    }
}

/// The armed edge's name.
pub fn get_screen_layout(ctl: &ControlState) -> (r: String)
    ensures
        ctl.remote_edge == Edge::Right ==> r@ == "right"@,
        ctl.remote_edge == Edge::Left ==> r@ == "left"@,
        ctl.remote_edge == Edge::Top ==> r@ == "top"@,
        ctl.remote_edge == Edge::Bottom ==> r@ == "bottom"@,
{
    match ctl.remote_edge {
        Edge::Right => "right".to_owned(),
        Edge::Left => "left".to_owned(),
        Edge::Top => "top".to_owned(),
        Edge::Bottom => "bottom".to_owned(),
    }
}

/// The layout string the peer last synced, if any.
pub fn get_synced_layout(layout: &Option<String>) -> (r: Option<String>)
    ensures
        r == *layout,
{
    match layout {
        Some(l) => Some(l.clone()),
        None => None,
    }
}

/// The debug snapshot as handed to the GUI.
pub fn get_debug_info(d: &DebugInfo) -> (r: DebugInfoResponse)
    ensures
        r.mouse_x == d.mouse_x,
        r.mouse_y == d.mouse_y,
        r.screen_bounds == d.screen_bounds,
        r.edge_status == d.edge_status,
        r.remote_screen_count == d.remote_screen_count,
        r.last_update == d.last_update,
{
    DebugInfoResponse {
        mouse_x: d.mouse_x,
        mouse_y: d.mouse_y,
        screen_bounds: d.screen_bounds.clone(),
        edge_status: d.edge_status.clone(),
        remote_screen_count: d.remote_screen_count,
        last_update: d.last_update,
    }
}

/// The bounds line of the debug snapshot.
pub open spec fn spec_bounds_str(b: BoundsV) -> Seq<char> {
    "x:["@ + spec_int_chars(b.min_x) + ","@ + spec_int_chars(b.max_x) + "] y:["@
        + spec_int_chars(b.min_y) + ","@ + spec_int_chars(b.max_y) + "]"@
}

/// The status line of the debug snapshot.
pub open spec fn spec_edge_status(
    is_connected: bool,
    phase: Phase,
    mx: int,
    my: int,
    b: BoundsV,
) -> Seq<char> {
    if !is_connected {
        "Not connected"@
    } else if phase == Phase::BeingControlled {
        "Being controlled by remote"@
    } else if phase == Phase::ControllingRemote {
        "Controlling remote"@
    } else {
        "Watching edges (R:"@ + spec_bool_str(mx >= b.max_x - 10) + ", L:"@ + spec_bool_str(
            mx <= b.min_x + 10,
        ) + ", T:"@ + spec_bool_str(my <= b.min_y + 10) + ", B:"@ + spec_bool_str(
            my >= b.max_y - 10,
        ) + ")"@
    }
}

pub open spec fn spec_bool_str(b: bool) -> Seq<char> {
    if b {
        "true"@
    } else {
        "false"@
    }
}

fn push_bool(out: &mut Vec<char>, b: bool)
    ensures
        final(out)@ == old(out)@ + spec_bool_str(b),
{
    if b {
        push_str(out, "true");
    } else {
        push_str(out, "false");
    }
}

/// Builds the periodic debug snapshot the GUI observes.
pub fn debug_snapshot(
    mx: i32,
    my: i32,
    local: Bounds,
    is_connected: bool,
    phase: Phase,
    remote_count: usize,
    now_s: u64,
) -> (d: DebugInfo)
    requires
        box_wf(local@),
    ensures
        d.mouse_x == mx,
        d.mouse_y == my,
        d.remote_screen_count == remote_count,
        d.last_update == now_s,
        d.screen_bounds@ == spec_bounds_str(local@),
        d.edge_status@ == spec_edge_status(is_connected, phase, mx as int, my as int, local@),
{
    let mut bounds_out: Vec<char> = Vec::new();
    push_str(&mut bounds_out, "x:[");
    push_i32(&mut bounds_out, local.min_x);
    push_str(&mut bounds_out, ",");
    push_i32(&mut bounds_out, local.max_x);
    push_str(&mut bounds_out, "] y:[");
    push_i32(&mut bounds_out, local.min_y);
    push_str(&mut bounds_out, ",");
    push_i32(&mut bounds_out, local.max_y);
    push_str(&mut bounds_out, "]");
    proof {
        assert(bounds_out@ =~= spec_bounds_str(local@));
    }
    let screen_bounds = chars_to_string(&bounds_out);
    let edge_status: String = if !is_connected {
        "Not connected".to_owned()
    } else if phase == Phase::BeingControlled {
        "Being controlled by remote".to_owned()
    } else if phase == Phase::ControllingRemote {
        "Controlling remote".to_owned()
    } else {
        let at_right = mx as i64 >= local.max_x as i64 - 10;
        let at_left = mx as i64 <= local.min_x as i64 + 10;
        let at_top = my as i64 <= local.min_y as i64 + 10;
        let at_bottom = my as i64 >= local.max_y as i64 - 10;
        let mut status_out: Vec<char> = Vec::new();
        push_str(&mut status_out, "Watching edges (R:");
        push_bool(&mut status_out, at_right);
        push_str(&mut status_out, ", L:");
        push_bool(&mut status_out, at_left);
        push_str(&mut status_out, ", T:");
        push_bool(&mut status_out, at_top);
        push_str(&mut status_out, ", B:");
        push_bool(&mut status_out, at_bottom);
        push_str(&mut status_out, ")");
        proof {
            assert(status_out@ =~= spec_edge_status(
                is_connected,
                phase,
                mx as int,
                my as int,
                local@,
            ));
        }
        chars_to_string(&status_out)
    };
    DebugInfo {
        mouse_x: mx,
        mouse_y: my,
        screen_bounds,
        edge_status,
        remote_screen_count: remote_count,
        last_update: now_s,
    }
}

} // verus!
