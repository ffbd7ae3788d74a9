//! The session layer: connection bookkeeping, line framing, and the
//! handler that applies one received message to the process state.
//!
//! A process keeps exactly one canonical write endpoint. An outbound dial
//! that succeeded owns it; inbound connections are read from but never
//! displace it. The wire format is UTF-8 JSON, one message per
//! `\n`-terminated line; a TCP read may carry any number of complete lines
//! plus a partial one, which [`split_lines`] buffers across reads.

use vstd::prelude::*;
use crate::control::{Action, ControlState, Phase, control_wf, count_sends_of, is_send_of};
use crate::messages::{Message, MsgKind, spec_kind, str_eq};
use crate::screens::{ReceivedScreen, ReceivedScreenV, ScreenData, ScreenInfo};
use crate::screens::{bounds, rect_wf, rects_of_received, rects_of_screens, rects_wf, spec_box,
    spec_clamp, spec_rects_of_received, spec_rects_of_screens};

verus! {

/// The TCP port the session listener binds.
pub const TCP_PORT: u16 = 52525;

/// Connection bookkeeping: who we are connected to and which side owns
/// the canonical write endpoint.
#[derive(Clone, Debug, PartialEq)]
pub struct SessionState {
    /// A session (either direction) is established.
    pub is_connected: bool,
    /// Address of the peer of the most recent session.
    pub connected_to: Option<String>,
    /// An outbound dial succeeded; the write endpoint is the outbound one.
    pub is_outgoing: bool,
    /// A write endpoint exists.
    pub has_write: bool,
}

impl SessionState {
    /// The state a process starts in: no session at all.
    pub fn initial() -> (st: SessionState)
        ensures
            !st.is_connected,
            st.connected_to is None,
            !st.is_outgoing,
            !st.has_write,
    {
        SessionState { is_connected: false, connected_to: None, is_outgoing: false, has_write: false }
    }

    /// An inbound connection was accepted. It becomes the active channel
    /// only when no outbound connection exists; an existing outbound
    /// session is never displaced.
    pub fn on_inbound_connection(&mut self, addr: String) -> (use_as_active: bool)
        ensures
            use_as_active == !old(self).is_outgoing,
            final(self).is_connected,
            final(self).connected_to matches Some(a) && a@ == addr@,
            final(self).is_outgoing == old(self).is_outgoing,
            final(self).has_write == old(self).has_write,
    {
        let use_as_active = !self.is_outgoing;
        self.is_connected = true;
        self.connected_to = Some(addr);
        use_as_active
    }

    /// An outbound dial succeeded: its write half becomes the canonical
    /// write endpoint.
    pub fn on_outbound_established(&mut self, ip: String)
        ensures
            final(self).is_connected,
            final(self).connected_to matches Some(a) && a@ == ip@,
            final(self).is_outgoing,
            final(self).has_write,
    {
        self.is_connected = true;
        self.connected_to = Some(ip);
        self.is_outgoing = true;
        self.has_write = true;
    }

    /// Whether a discovered peer's beacon should trigger an outbound dial:
    /// only while no write endpoint exists.
    pub fn should_autoconnect(&self) -> (r: bool)
        ensures
            r == !self.has_write,
    {
        !self.has_write
    }
}

/// Whether a session exists.
pub fn is_connected(session: &SessionState) -> (r: bool)
    ensures
        r == session.is_connected,
{
    session.is_connected
}

/// The connected peer's address, if any.
pub fn get_connected_to(session: &SessionState) -> (r: Option<String>)
    ensures
        r == session.connected_to,
{
    match &session.connected_to {
        Some(s) => Some(s.clone()),
        None => None,
    }
}

/// The key event to forward to the remote, if any: keys are forwarded
/// only while this side controls the remote.
pub fn send_key_to_remote(ctl: &ControlState, key_code: u32, action: &str) -> (m: Option<Message>)
    ensures
        m is Some <==> ctl.phase == Phase::ControllingRemote,
        m matches Some(msg) ==> msg.msg_type@ == "key_event"@ && msg.key_code == Some(key_code)
            && (msg.action matches Some(a) && a@ == action@),
{
    if ctl.phase == Phase::ControllingRemote {
        Some(Message::key_event(key_code, action))
    } else {
        None
    }
}

/// The click to forward to the remote, if any: clicks are forwarded only
/// while this side controls the remote.
pub fn send_click_to_remote(ctl: &ControlState, button: &str, action: &str) -> (m: Option<
    Message,
>)
    ensures
        m is Some <==> ctl.phase == Phase::ControllingRemote,
        m matches Some(msg) ==> msg.msg_type@ == "mouse_click"@ && (msg.button matches Some(b)
            && b@ == button@) && (msg.action matches Some(a) && a@ == action@),
{
    if ctl.phase == Phase::ControllingRemote {
        Some(Message::mouse_click(button, action))
    } else {
        None
    }
}

/// Hands control back to the local side unconditionally.
pub fn release_control(ctl: &mut ControlState)
    ensures
        final(ctl).phase == (if old(ctl).phase == Phase::ControllingRemote {
            Phase::Idle
        } else {
            old(ctl).phase
        }),
        final(ctl).edge_lock_x == old(ctl).edge_lock_x,
        final(ctl).edge_lock_y == old(ctl).edge_lock_y,
        final(ctl).remote_x == old(ctl).remote_x,
        final(ctl).remote_y == old(ctl).remote_y,
        final(ctl).control_start_ms == old(ctl).control_start_ms,
        final(ctl).remote_edge == old(ctl).remote_edge,
{
    if ctl.phase == Phase::ControllingRemote {
        ctl.phase = Phase::Idle;
    }
}

/// The layout-sync message to send, or the error when no write endpoint
/// exists.
pub fn send_layout_sync(session: &SessionState, layout_json: &str) -> (r: Result<Message, String>)
    ensures
        r is Ok <==> session.has_write,
        r matches Ok(msg) ==> msg.msg_type@ == "layout_sync"@ && (msg.layout matches Some(l)
            && l@ == layout_json@),
{
    if session.has_write {
        Ok(Message::layout_sync(layout_json))
    } else {
        Err("No write stream available".to_owned())
    }
}

/// The bytes a sequence of framed lines occupies on the wire: each line
/// followed by the `\n` terminator.
pub open spec fn spec_join(ls: Seq<Seq<u8>>) -> Seq<u8>
    decreases ls.len(),
{
    if ls.len() == 0 {
        Seq::empty()
    } else {
        spec_join(ls.drop_last()) + ls.last() + seq![10u8]
    }
}

pub open spec fn lines_view(ls: Seq<Vec<u8>>) -> Seq<Seq<u8>> {
    ls.map_values(|l: Vec<u8>| l@)
}

/// `s` holds no line terminator.
pub open spec fn no_newline(s: Seq<u8>) -> bool {
    forall|i: int| 0 <= i < s.len() ==> s[i] != 10u8
}

/// Buffers one read's worth of bytes and hands back the complete lines.
///
/// The returned lines, each re-terminated, followed by what stays
/// buffered, are exactly the buffered bytes followed by the read bytes:
/// framing loses nothing and keeps order. No returned line and no
/// remainder contains a terminator.
pub fn split_lines(buffer: &mut Vec<u8>, data: &Vec<u8>) -> (lines: Vec<Vec<u8>>)
    requires
        no_newline(old(buffer)@),
    ensures
        spec_join(lines_view(lines@)) + final(buffer)@ == old(buffer)@ + data@,
        forall|i: int| 0 <= i < lines@.len() ==> no_newline(#[trigger] lines@[i]@),
        no_newline(final(buffer)@),
{
    let ghost input: Seq<u8> = buffer@ + data@;
    let mut all: Vec<u8> = Vec::new();
    std::mem::swap(&mut all, buffer);
    let mut k: usize = 0;
    while k < data.len()
        invariant
            0 <= k <= data@.len(),
            all@ == old(buffer)@ + data@.subrange(0, k as int),
        decreases data@.len() - k,
    {
        all.push(data[k]);
        k = k + 1;
        proof {
            assert(all@ =~= old(buffer)@ + data@.subrange(0, k as int));
        }
    }
    proof {
        assert(all@ =~= input);
    }
    let mut lines: Vec<Vec<u8>> = Vec::new();
    let mut cur: Vec<u8> = Vec::new();
    let mut i: usize = 0;
    while i < all.len()
        invariant
            0 <= i <= all@.len(),
            all@ == input,
            spec_join(lines_view(lines@)) + cur@ == input.subrange(0, i as int),
            forall|j: int| 0 <= j < lines@.len() ==> no_newline(#[trigger] lines@[j]@),
            no_newline(cur@),
        decreases all@.len() - i,
    {
        let b = all[i];
        if b == 10u8 {
            let ghost prev_lines = lines@;
            let ghost prev_cur = cur@;
            let mut done = cur;
            cur = Vec::new();
            lines.push(done);
            proof {
                assert(lines_view(lines@).drop_last() =~= lines_view(prev_lines));
                assert(lines_view(lines@).last() == prev_cur);
                assert(spec_join(lines_view(lines@)) == spec_join(lines_view(prev_lines))
                    + prev_cur + seq![10u8]);
                assert(input[i as int] == 10u8);
                assert(input.subrange(0, i + 1) =~= input.subrange(0, i as int) + seq![10u8]);
                assert(spec_join(lines_view(lines@)) + cur@ =~= input.subrange(0, i + 1));
            }
        } else {
            cur.push(b);
            proof {
                assert(spec_join(lines_view(lines@)) + cur@ =~= input.subrange(0, i + 1));
            }
        }
        i = i + 1;
    }
    proof {
        assert(input.subrange(0, input.len() as int) =~= input);
    }
    let mut rest = cur;
    std::mem::swap(&mut rest, buffer);
    lines
}

/// A display carried in a `hello` is usable when it is a non-degenerate
/// rectangle whose far corner fits the coordinate type; others are
/// dropped on receipt.
pub open spec fn screen_data_wf(s: ScreenData) -> bool {
    &&& 0 < s.width
    &&& 0 < s.height
    &&& s.x + s.width <= i32::MAX
    &&& s.y + s.height <= i32::MAX
}

/// The registry entry a `hello` display becomes, tagged with the sender.
pub open spec fn conv1(namev: Seq<char>, ctypev: Seq<char>, s: ScreenData) -> ReceivedScreenV {
    ReceivedScreenV {
        computer_name: namev,
        computer_type: ctypev,
        name: s.name@,
        x: s.x as int,
        y: s.y as int,
        width: s.width as int,
        height: s.height as int,
        is_primary: s.is_primary,
    }
}

/// The registry entries a `hello` display list becomes: each usable
/// display in order, tagged with the sender.
pub open spec fn spec_convert(namev: Seq<char>, ctypev: Seq<char>, ss: Seq<ScreenData>) -> Seq<
    ReceivedScreenV,
>
    decreases ss.len(),
{
    if ss.len() == 0 {
        Seq::empty()
    } else {
        let rest = spec_convert(namev, ctypev, ss.drop_last());
        if screen_data_wf(ss.last()) {
            rest.push(conv1(namev, ctypev, ss.last()))
        } else {
            rest
        }
    }
}

/// The mathematical content of a remote display registry.
pub open spec fn reg_view(rs: Seq<ReceivedScreen>) -> Seq<ReceivedScreenV> {
    rs.map_values(|s: ReceivedScreen| s@)
}

/// The registry with every entry of the named peer removed, in order.
pub open spec fn spec_drop_named(rs: Seq<ReceivedScreen>, namev: Seq<char>) -> Seq<
    ReceivedScreenV,
>
    decreases rs.len(),
{
    if rs.len() == 0 {
        Seq::empty()
    } else {
        let rest = spec_drop_named(rs.drop_last(), namev);
        if rs.last()@.computer_name != namev {
            rest.push(rs.last()@)
        } else {
            rest
        }
    }
}

/// The sender name a `hello` is stored under.
pub open spec fn spec_hello_name(m: Message) -> Seq<char> {
    match m.name {
        Some(n) => n@,
        None => "Unknown"@,
    }
}

/// The sender kind a `hello` is stored under.
pub open spec fn spec_hello_ctype(m: Message) -> Seq<char> {
    match m.computer_type {
        Some(c) => c@,
        None => "unknown"@,
    }
}

/// A field-by-field copy of a registry entry.
fn copy_received(s: &ReceivedScreen) -> (r: ReceivedScreen)
    ensures
        r == *s,
{
    ReceivedScreen {
        computer_name: s.computer_name.clone(),
        computer_type: s.computer_type.clone(),
        name: s.name.clone(),
        x: s.x,
        y: s.y,
        width: s.width,
        height: s.height,
        is_primary: s.is_primary,
    }
}

/// Removes every entry of the named peer from the registry.
fn drop_named(reg: &mut Vec<ReceivedScreen>, name: &String)
    ensures
        reg_view(final(reg)@) == spec_drop_named(old(reg)@, name@),
        rects_wf(spec_rects_of_received(old(reg)@)) ==> rects_wf(
            spec_rects_of_received(final(reg)@),
        ),
{
    let mut kept: Vec<ReceivedScreen> = Vec::new();
    let mut i: usize = 0;
    while i < reg.len()
        invariant
            0 <= i <= reg@.len(),
            reg@ == old(reg)@,
            reg_view(kept@) == spec_drop_named(reg@.subrange(0, i as int), name@),
            forall|j: int| 0 <= j < kept@.len() ==> exists|k: int|
                0 <= k < reg@.len() && #[trigger] kept@[j] == reg@[k],
        decreases reg@.len() - i,
    {
        let ghost prev = kept@;
        let entry = &reg[i];
        if !str_eq(entry.computer_name.as_str(), name.as_str()) {
            let c = copy_received(entry);
            kept.push(c);
            proof {
                assert(kept@[kept@.len() - 1] == reg@[i as int]);
            }
        }
        proof {
            let sub1 = reg@.subrange(0, i + 1);
            assert(sub1.drop_last() =~= reg@.subrange(0, i as int));
            assert(sub1.last() == reg@[i as int]);
            assert(reg_view(kept@) =~= spec_drop_named(sub1, name@));
        }
        i = i + 1;
    }
    proof {
        assert(reg@.subrange(0, reg@.len() as int) =~= reg@);
        assert(rects_wf(spec_rects_of_received(reg@)) ==> rects_wf(
            spec_rects_of_received(kept@),
        )) by {
            if rects_wf(spec_rects_of_received(reg@)) {
                assert forall|j: int| 0 <= j < kept@.len() implies rect_wf(
                    #[trigger] spec_rects_of_received(kept@)[j],
                ) by {
                    let k = choose|k: int| 0 <= k < reg@.len() && kept@[j] == reg@[k];
                    assert(rect_wf(spec_rects_of_received(reg@)[k]));
                }
            }
        }
    }
    let mut out = kept;
    std::mem::swap(&mut out, reg);
}

/// Converts a `hello` display list into registry entries for the sender,
/// dropping unusable rectangles.
fn convert_screens(name: &String, ctype: &String, ss: &Vec<ScreenData>) -> (out: Vec<
    ReceivedScreen,
>)
    ensures
        reg_view(out@) == spec_convert(name@, ctype@, ss@),
        rects_wf(spec_rects_of_received(out@)),
{
    let mut out: Vec<ReceivedScreen> = Vec::new();
    let mut i: usize = 0;
    while i < ss.len()
        invariant
            0 <= i <= ss@.len(),
            reg_view(out@) == spec_convert(name@, ctype@, ss@.subrange(0, i as int)),
            forall|j: int| 0 <= j < out@.len() ==> rect_wf(
                #[trigger] spec_rects_of_received(out@)[j],
            ),
        decreases ss@.len() - i,
    {
        let ghost prev = out@;
        let s = &ss[i];
        let usable = s.width > 0 && s.height > 0 && s.x as i64 + s.width as i64
            <= i32::MAX as i64 && s.y as i64 + s.height as i64 <= i32::MAX as i64;
        if usable {
            out.push(ReceivedScreen {
                computer_name: name.clone(),
                computer_type: ctype.clone(),
                name: s.name.clone(),
                x: s.x,
                y: s.y,
                width: s.width,
                height: s.height,
                is_primary: s.is_primary,
            });
        }
        proof {
            let sub1 = ss@.subrange(0, i + 1);
            assert(sub1.drop_last() =~= ss@.subrange(0, i as int));
            assert(sub1.last() == ss@[i as int]);
            assert(reg_view(out@) =~= spec_convert(name@, ctype@, sub1));
            assert forall|j: int| 0 <= j < out@.len() implies rect_wf(
                #[trigger] spec_rects_of_received(out@)[j],
            ) by {
                if j < prev.len() {
                    assert(out@[j] == prev[j]);
                    assert(rect_wf(spec_rects_of_received(prev)[j]));
                } else {
                    assert(out@[j].x as int + out@[j].width as int <= i32::MAX);
                    assert(out@[j].y as int + out@[j].height as int <= i32::MAX);
                }
            }
        }
        i = i + 1;
    }
    proof {
        assert(ss@.subrange(0, ss@.len() as int) =~= ss@);
        assert(rects_wf(spec_rects_of_received(out@)));
    }
    out
}

/// The `hello` round trip. A peer advertises its displays with
/// `hello_with_screens`; the receiver stores them with `apply_message`,
/// whose contract makes the sender's block of the registry
/// `spec_convert` of the advertised list. This law closes the loop: for
/// well-formed displays that block equals the advertised list
/// entry-for-entry, so after both peers exchange `hello`, each side's
/// remote registry holds exactly the other side's local displays.
pub proof fn lemma_hello_round_trip(namev: Seq<char>, ctypev: Seq<char>, ss: Seq<ScreenData>)
    requires
        forall|i: int| 0 <= i < ss.len() ==> screen_data_wf(#[trigger] ss[i]),
    ensures
        spec_convert(namev, ctypev, ss).len() == ss.len(),
        forall|i: int| 0 <= i < ss.len() ==> #[trigger] spec_convert(namev, ctypev, ss)[i]
            == conv1(namev, ctypev, ss[i]),
    decreases ss.len(),
{
    if ss.len() > 0 {
        assert(forall|i: int| 0 <= i < ss.drop_last().len() ==> #[trigger] ss.drop_last()[i]
            == ss[i]);
        lemma_hello_round_trip(namev, ctypev, ss.drop_last());
        assert(screen_data_wf(ss.last()));
        assert(spec_convert(namev, ctypev, ss) == spec_convert(
            namev,
            ctypev,
            ss.drop_last(),
        ).push(conv1(namev, ctypev, ss.last())));
    }
}

/// An empty registry has nothing to drop: a `hello` arriving at a fresh
/// process populates the registry with the sender's displays alone.
pub proof fn lemma_drop_named_empty(namev: Seq<char>)
    ensures
        spec_drop_named(Seq::<ReceivedScreen>::empty(), namev) == Seq::<ReceivedScreenV>::empty(),
{
}

proof fn lemma_count_singleton(a: Action, t: Seq<char>)
    ensures
        count_sends_of(seq![a], t) == (if is_send_of(a, t) {
            1nat
        } else {
            0nat
        }),
{
    assert(seq![a].drop_last() =~= Seq::<Action>::empty());
    assert(count_sends_of(Seq::<Action>::empty(), t) == 0);
}

/// Applies one received message to the process state and returns the
/// actions to perform, mirroring the receiving side of the protocol:
/// `ping` is answered with `pong`; `mouse_move` moves the cursor only
/// while being controlled; clicks and keys are synthesized as sent;
/// `control_start` enters the controlled phase and moves the cursor to
/// the clamped entry point; `control_end` leaves it; `hello` replaces the
/// sender's block of the remote display registry; `layout_sync` stores
/// the opaque layout; unknown types are dropped.
pub fn apply_message(
    ctl: &mut ControlState,
    remote_screens: &mut Vec<ReceivedScreen>,
    synced_layout: &mut Option<String>,
    msg: &Message,
    local_screens: &Vec<ScreenInfo>,
) -> (acts: Vec<Action>)
    requires
        rects_wf(spec_rects_of_screens(local_screens@)),
        rects_wf(spec_rects_of_received(old(remote_screens)@)),
        control_wf(*old(ctl), spec_rects_of_received(old(remote_screens)@)),
    ensures
        rects_wf(spec_rects_of_received(final(remote_screens)@)),
        control_wf(*final(ctl), spec_rects_of_received(final(remote_screens)@)),
        count_sends_of(acts@, "control_start"@) == 0,
        count_sends_of(acts@, "control_end"@) == 0,
        final(ctl).phase == Phase::ControllingRemote ==> old(ctl).phase
            == Phase::ControllingRemote,
        final(ctl).remote_edge == old(ctl).remote_edge,
        final(ctl).edge_lock_x == old(ctl).edge_lock_x,
        final(ctl).edge_lock_y == old(ctl).edge_lock_y,
        final(ctl).control_start_ms == old(ctl).control_start_ms,
        spec_kind(msg.msg_type@) == MsgKind::Ping ==> {
            &&& *final(ctl) == *old(ctl)
            &&& final(remote_screens)@ == old(remote_screens)@
            &&& *final(synced_layout) == *old(synced_layout)
            &&& acts@.len() == 1
            &&& (acts@[0] matches Action::Send(m) && m.msg_type@ == "pong"@)
        },
        spec_kind(msg.msg_type@) == MsgKind::MouseMove ==> {
            &&& *final(ctl) == *old(ctl)
            &&& final(remote_screens)@ == old(remote_screens)@
            &&& *final(synced_layout) == *old(synced_layout)
            &&& msg.x matches Some(x) ==> msg.y matches Some(y) ==> old(ctl).phase
                == Phase::BeingControlled ==> acts@ == seq![Action::MoveCursor(x, y)]
            &&& (msg.x is None || msg.y is None || old(ctl).phase != Phase::BeingControlled)
                ==> acts@.len() == 0
        },
        spec_kind(msg.msg_type@) == MsgKind::MouseClick ==> {
            &&& *final(ctl) == *old(ctl)
            &&& final(remote_screens)@ == old(remote_screens)@
            &&& *final(synced_layout) == *old(synced_layout)
            &&& msg.button matches Some(b) ==> msg.action matches Some(a) ==> acts@ == seq![
                Action::Click(b, a),
            ]
            &&& (msg.button is None || msg.action is None) ==> acts@.len() == 0
        },
        spec_kind(msg.msg_type@) == MsgKind::KeyEvent ==> {
            &&& *final(ctl) == *old(ctl)
            &&& final(remote_screens)@ == old(remote_screens)@
            &&& *final(synced_layout) == *old(synced_layout)
            &&& msg.key_code matches Some(k) ==> msg.action matches Some(a) ==> acts@ == seq![
                Action::Key(k, a),
            ]
            &&& (msg.key_code is None || msg.action is None) ==> acts@.len() == 0
        },
        spec_kind(msg.msg_type@) == MsgKind::Clipboard ==> {
            &&& *final(ctl) == *old(ctl)
            &&& final(remote_screens)@ == old(remote_screens)@
            &&& *final(synced_layout) == *old(synced_layout)
            &&& msg.text matches Some(t) ==> acts@ == seq![Action::SetClipboard(t)]
            &&& msg.text is None ==> acts@.len() == 0
        },
        spec_kind(msg.msg_type@) == MsgKind::ControlStart ==> {
            let lb = spec_box(spec_rects_of_screens(local_screens@));
            &&& final(ctl).phase == Phase::BeingControlled
            &&& final(ctl).remote_x == old(ctl).remote_x
            &&& final(ctl).remote_y == old(ctl).remote_y
            &&& final(remote_screens)@ == old(remote_screens)@
            &&& *final(synced_layout) == *old(synced_layout)
            &&& msg.x matches Some(x) ==> msg.y matches Some(y) ==> acts@ == seq![
                Action::MoveCursor(
                    spec_clamp(x as int, lb.min_x, lb.max_x - 1) as i32,
                    spec_clamp(y as int, lb.min_y, lb.max_y - 1) as i32,
                ),
            ]
            &&& (msg.x is None || msg.y is None) ==> acts@.len() == 0
        },
        spec_kind(msg.msg_type@) == MsgKind::ControlEnd ==> {
            &&& final(ctl).phase == (if old(ctl).phase == Phase::BeingControlled {
                Phase::Idle
            } else {
                old(ctl).phase
            })
            &&& final(ctl).remote_x == old(ctl).remote_x
            &&& final(ctl).remote_y == old(ctl).remote_y
            &&& final(remote_screens)@ == old(remote_screens)@
            &&& *final(synced_layout) == *old(synced_layout)
            &&& acts@.len() == 0
        },
        spec_kind(msg.msg_type@) == MsgKind::LayoutSync ==> {
            &&& *final(ctl) == *old(ctl)
            &&& final(remote_screens)@ == old(remote_screens)@
            &&& msg.layout matches Some(l) ==> *final(synced_layout) == Some(l)
            &&& msg.layout is None ==> *final(synced_layout) == *old(synced_layout)
            &&& acts@.len() == 0
        },
        spec_kind(msg.msg_type@) == MsgKind::Hello ==> {
            &&& *final(synced_layout) == *old(synced_layout)
            &&& acts@.len() == 0
            &&& final(ctl).phase == old(ctl).phase
            &&& msg.screens is None ==> final(remote_screens)@ == old(remote_screens)@
                && *final(ctl) == *old(ctl)
            &&& msg.screens matches Some(ss) ==> {
                let rb = spec_box(spec_rects_of_received(final(remote_screens)@));
                &&& reg_view(final(remote_screens)@) == spec_drop_named(
                    old(remote_screens)@,
                    spec_hello_name(*msg),
                ) + spec_convert(spec_hello_name(*msg), spec_hello_ctype(*msg), ss@)
                &&& old(ctl).phase != Phase::ControllingRemote ==> final(ctl).remote_x
                    == old(ctl).remote_x && final(ctl).remote_y == old(ctl).remote_y
                &&& old(ctl).phase == Phase::ControllingRemote ==> {
                    &&& final(ctl).remote_x as int == spec_clamp(
                        old(ctl).remote_x as int,
                        rb.min_x,
                        rb.max_x - 1,
                    )
                    &&& final(ctl).remote_y as int == spec_clamp(
                        old(ctl).remote_y as int,
                        rb.min_y,
                        rb.max_y - 1,
                    )
                }
            }
        },
        spec_kind(msg.msg_type@) == MsgKind::Pong || spec_kind(msg.msg_type@)
            == MsgKind::Unknown ==> {
            &&& *final(ctl) == *old(ctl)
            &&& final(remote_screens)@ == old(remote_screens)@
            &&& *final(synced_layout) == *old(synced_layout)
            &&& acts@.len() == 0
        },
{
    let k = msg.kind();
    match k {
        MsgKind::Ping => {
            let mut acts: Vec<Action> = Vec::new();
            acts.push(Action::Send(Message::pong()));
            proof {
                reveal_strlit("pong");
                reveal_strlit("control_start");
                reveal_strlit("control_end");
                assert("pong"@.len() != "control_start"@.len());
                assert("pong"@.len() != "control_end"@.len());
                assert(acts@ =~= seq![acts@[0]]);
                lemma_count_singleton(acts@[0], "control_start"@);
                lemma_count_singleton(acts@[0], "control_end"@);
            }
            acts
        },
        MsgKind::MouseMove => {
            let mut acts: Vec<Action> = Vec::new();
            match (msg.x, msg.y) {
                (Some(x), Some(y)) => {
                    if ctl.phase == Phase::BeingControlled {
                        acts.push(Action::MoveCursor(x, y));
                        proof {
                            assert(acts@ =~= seq![Action::MoveCursor(x, y)]);
                            lemma_count_singleton(acts@[0], "control_start"@);
                            lemma_count_singleton(acts@[0], "control_end"@);
                        }
                    }
                },
                _ => {},
            }
            acts
        },
        MsgKind::MouseClick => {
            let mut acts: Vec<Action> = Vec::new();
            match (&msg.button, &msg.action) {
                (Some(b), Some(a)) => {
                    acts.push(Action::Click(b.clone(), a.clone()));
                    proof {
                        lemma_count_singleton(acts@[0], "control_start"@);
                        lemma_count_singleton(acts@[0], "control_end"@);
                        assert(acts@ =~= seq![acts@[0]]);
                    }
                },
                _ => {},
            }
            acts
        },
        MsgKind::KeyEvent => {
            let mut acts: Vec<Action> = Vec::new();
            match (msg.key_code, &msg.action) {
                (Some(kc), Some(a)) => {
                    acts.push(Action::Key(kc, a.clone()));
                    proof {
                        lemma_count_singleton(acts@[0], "control_start"@);
                        lemma_count_singleton(acts@[0], "control_end"@);
                        assert(acts@ =~= seq![acts@[0]]);
                    }
                },
                _ => {},
            }
            acts
        },
        MsgKind::Clipboard => {
            let mut acts: Vec<Action> = Vec::new();
            match (&msg.text) {
                Some(t) => {
                    acts.push(Action::SetClipboard(t.clone()));
                    proof {
                        lemma_count_singleton(acts@[0], "control_start"@);
                        lemma_count_singleton(acts@[0], "control_end"@);
                        assert(acts@ =~= seq![acts@[0]]);
                    }
                },
                None => {},
            }
            acts
        },
        MsgKind::ControlStart => {
            ctl.phase = Phase::BeingControlled;
            let mut acts: Vec<Action> = Vec::new();
            match (msg.x, msg.y) {
                (Some(x), Some(y)) => {
                    let lrects = rects_of_screens(local_screens);
                    let lb = bounds(&lrects);
                    let cx = crate::screens::clamp_i32(x, lb.min_x, lb.max_x - 1);
                    let cy = crate::screens::clamp_i32(y, lb.min_y, lb.max_y - 1);
                    acts.push(Action::MoveCursor(cx, cy));
                    proof {
                        lemma_count_singleton(acts@[0], "control_start"@);
                        lemma_count_singleton(acts@[0], "control_end"@);
                        assert(acts@ =~= seq![acts@[0]]);
                    }
                },
                _ => {},
            }
            acts
        },
        MsgKind::ControlEnd => {
            if ctl.phase == Phase::BeingControlled {
                ctl.phase = Phase::Idle;
            }
            Vec::new()
        },
        MsgKind::LayoutSync => {
            match (&msg.layout) {
                Some(l) => {
                    *synced_layout = Some(l.clone());
                },
                None => {},
            }
            Vec::new()
        },
        MsgKind::Hello => {
            let name: String = match &msg.name {
                Some(n) => n.clone(),
                None => "Unknown".to_owned(),
            };
            let ctype: String = match &msg.computer_type {
                Some(c) => c.clone(),
                None => "unknown".to_owned(),
            };
            match &msg.screens {
                Some(ss) => {
                    drop_named(remote_screens, &name);
                    let mut converted = convert_screens(&name, &ctype, ss);
                    let ghost kept = remote_screens@;
                    let ghost conv = converted@;
                    remote_screens.append(&mut converted);
                    proof {
                        assert(reg_view(remote_screens@) =~= reg_view(kept) + reg_view(conv));
                        assert(spec_rects_of_received(remote_screens@)
                            =~= spec_rects_of_received(kept) + spec_rects_of_received(conv));
                        assert(rects_wf(spec_rects_of_received(remote_screens@))) by {
                            assert forall|j: int|
                                0 <= j < remote_screens@.len() implies rect_wf(
                                #[trigger] spec_rects_of_received(remote_screens@)[j],
                            ) by {
                                if j < kept.len() {
                                    assert(spec_rects_of_received(remote_screens@)[j]
                                        == spec_rects_of_received(kept)[j]);
                                } else {
                                    assert(spec_rects_of_received(remote_screens@)[j]
                                        == spec_rects_of_received(conv)[j - kept.len()]);
                                }
                            }
                        }
                    }
                    if ctl.phase == Phase::ControllingRemote {
                        let rrects = rects_of_received(remote_screens);
                        let rb = bounds(&rrects);
                        ctl.remote_x = crate::screens::clamp_i32(
                            ctl.remote_x,
                            rb.min_x,
                            rb.max_x - 1,
                        );
                        ctl.remote_y = crate::screens::clamp_i32(
                            ctl.remote_y,
                            rb.min_y,
                            rb.max_y - 1,
                        );
                    }
                },
                None => {},
            }
            Vec::new()
        },
        MsgKind::Pong => Vec::new(),
        MsgKind::Unknown => Vec::new(),
    }
}

} // verus!
