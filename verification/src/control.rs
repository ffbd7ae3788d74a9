//! The control state machine: edge detection, transfer, delta capture and
//! return.
//!
//! The sampling loop calls [`tick`] once per period with the values it read
//! (cursor position, clock, display inventories, connectivity); `tick`
//! decides the next control state and hands back the actions to perform:
//! cursor moves, cursor visibility changes and messages to send. All
//! decisions live here; performing the actions is the caller's job.

use vstd::prelude::*;
use crate::Edge;
use crate::messages::Message;
use crate::screens::{Bounds, BoundsV, Rect, ReceivedScreen, ScreenInfo};
use crate::screens::{box_wf, bounds, rects_of_received, rects_of_screens, spec_box,
    spec_clamp, spec_rects_of_received, spec_rects_of_screens, rects_wf};

verus! {

/// Pixels from a bounding-box edge within which the cursor counts as "at"
/// that edge.
pub const EDGE_THRESHOLD: i32 = 10;

/// Milliseconds after a transfer during which return detection is off.
pub const RETURN_COOLDOWN_MS: u64 = 500;

/// Who owns the shared input at this instant.
#[derive(Clone, Copy, Debug, PartialEq, Eq, Structural)]
pub enum Phase {
    /// Input is local; the edges are watched.
    Idle,
    /// This side drives the remote cursor.
    ControllingRemote,
    /// The remote side drives this cursor.
    BeingControlled,
}

/// The process-wide control tuple.
#[derive(Clone, Copy, Debug, PartialEq, Eq, Structural)]
pub struct ControlState {
    pub phase: Phase,
    /// Where the local cursor is pinned while controlling the remote.
    pub edge_lock_x: i32,
    pub edge_lock_y: i32,
    /// Best estimate of the cursor position on the remote, in remote coords.
    pub remote_x: i32,
    pub remote_y: i32,
    /// Wall-clock millis when control of the remote was taken.
    pub control_start_ms: u64,
    /// Which local edge leads to the remote.
    pub remote_edge: Edge,
}

impl ControlState {
    /// The state a process starts in.
    pub fn initial() -> (st: ControlState)
        ensures
            st.phase == Phase::Idle,
            st.remote_edge == Edge::Right,
            st.edge_lock_x == 0 && st.edge_lock_y == 0,
            st.remote_x == 0 && st.remote_y == 0,
            st.control_start_ms == 0,
    {
        ControlState {
            phase: Phase::Idle,
            edge_lock_x: 0,
            edge_lock_y: 0,
            remote_x: 0,
            remote_y: 0,
            control_start_ms: 0,
            remote_edge: Edge::Right,
        }
    }
}

/// One effect the sampling loop must perform after a tick.
#[derive(Clone, Debug, PartialEq)]
pub enum Action {
    /// Absolute move of the local cursor.
    MoveCursor(i32, i32),
    HideCursor,
    ShowCursor,
    /// Send this message on the write channel.
    Send(Message),
    /// Hand this text to the local clipboard.
    SetClipboard(String),
    /// Synthesize a button press or release locally: button, action.
    Click(String, String),
    /// Synthesize a key press or release locally: key code, action.
    Key(u32, String),
}

/// `(x, y)` lies in the box, whose far edges are exclusive.
pub open spec fn in_box(x: int, y: int, b: BoundsV) -> bool {
    &&& b.min_x <= x <= b.max_x - 1
    &&& b.min_y <= y <= b.max_y - 1
}

/// The cursor is within `thr` pixels of the armed edge.
pub open spec fn at_armed_edge(mx: int, my: int, thr: int, b: BoundsV, e: Edge) -> bool {
    match e {
        Edge::Right => mx >= b.max_x - thr,
        Edge::Left => mx <= b.min_x + thr,
        Edge::Top => my <= b.min_y + thr,
        Edge::Bottom => my >= b.max_y - thr,
    }
}

/// Proportional mapping of `c` from the span `[lmin, lmax]` onto the span
/// `[rmin, rmax]`, landing inside `[rmin, rmax - 1]`.
pub open spec fn spec_map_span(c: int, lmin: int, lmax: int, rmin: int, rmax: int) -> int {
    let rel = spec_clamp(c - lmin, 0, lmax - lmin);
    spec_clamp(rmin + rel * (rmax - rmin) / (lmax - lmin), rmin, rmax - 1)
}

/// The remote-side entry point for a transfer across `e`: ten pixels in
/// from the facing remote edge, the perpendicular coordinate mapped
/// proportionally, the whole clamped into the remote box.
pub open spec fn spec_entry_point(mx: int, my: int, lb: BoundsV, rb: BoundsV, e: Edge) -> (int, int) {
    match e {
        Edge::Right => (
            spec_clamp(rb.min_x + 10, rb.min_x, rb.max_x - 1),
            spec_map_span(my, lb.min_y, lb.max_y, rb.min_y, rb.max_y),
        ),
        Edge::Left => (
            spec_clamp(rb.max_x - 10, rb.min_x, rb.max_x - 1),
            spec_map_span(my, lb.min_y, lb.max_y, rb.min_y, rb.max_y),
        ),
        Edge::Top => (
            spec_map_span(mx, lb.min_x, lb.max_x, rb.min_x, rb.max_x),
            spec_clamp(rb.max_y - 10, rb.min_y, rb.max_y - 1),
        ),
        Edge::Bottom => (
            spec_map_span(mx, lb.min_x, lb.max_x, rb.min_x, rb.max_x),
            spec_clamp(rb.min_y + 10, rb.min_y, rb.max_y - 1),
        ),
    }
}

/// Where the local cursor is pinned for a transfer across `e`: the pixel
/// just inside the crossed edge, the other coordinate kept.
pub open spec fn spec_edge_lock(mx: int, my: int, b: BoundsV, e: Edge) -> (int, int) {
    match e {
        Edge::Right => (b.max_x - 1, my),
        Edge::Left => (b.min_x + 1, my),
        Edge::Top => (mx, b.min_y + 1),
        Edge::Bottom => (mx, b.max_y - 1),
    }
}

/// A raw cursor delta scaled by the 1.5 sensitivity factor, rounding
/// toward zero.
pub open spec fn spec_scale(d: int) -> int {
    if d >= 0 {
        d * 3 / 2
    } else {
        -((-d) * 3 / 2)
    }
}

/// Millis since control started; zero if the clock ran backward.
pub open spec fn spec_elapsed(now: u64, start: u64) -> int {
    if now >= start {
        now - start
    } else {
        0
    }
}

/// The tentative remote position after applying this tick's scaled delta.
pub open spec fn spec_new_remote(st: ControlState, mx: int, my: int) -> (int, int) {
    (
        st.remote_x + spec_scale(mx - st.edge_lock_x),
        st.remote_y + spec_scale(my - st.edge_lock_y),
    )
}

/// Return detection: past the cooldown, control returns when the tentative
/// remote position leaves the remote box past the edge facing the one that
/// was crossed, keyed on the armed edge. A transfer across the local
/// right edge enters the remote at its left, so a move left past
/// `rb.min_x` returns; across the top edge the remote is entered at its
/// bottom, so a move down past `rb.max_y` returns; and mirrored for the
/// other two edges.
pub open spec fn spec_should_return(
    st: ControlState,
    mx: int,
    my: int,
    now: u64,
    rb: BoundsV,
) -> bool {
    let (nx, ny) = spec_new_remote(st, mx, my);
    &&& spec_elapsed(now, st.control_start_ms) > RETURN_COOLDOWN_MS
    &&& match st.remote_edge {
        Edge::Right => nx < rb.min_x,
        Edge::Left => nx > rb.max_x,
        Edge::Top => ny > rb.max_y,
        Edge::Bottom => ny < rb.min_y,
    }
}

/// Where the local cursor lands after a return: fifty pixels inward from
/// the crossed edge, keeping the pinned coordinate on the other axis.
pub open spec fn spec_return_point(st: ControlState, lb: BoundsV) -> (int, int) {
    match st.remote_edge {
        Edge::Right => (
            spec_clamp(lb.max_x - 50, lb.min_x, lb.max_x - 1),
            st.edge_lock_y as int,
        ),
        Edge::Left => (
            spec_clamp(lb.min_x + 50, lb.min_x, lb.max_x - 1),
            st.edge_lock_y as int,
        ),
        Edge::Top => (
            st.edge_lock_x as int,
            spec_clamp(lb.min_y + 50, lb.min_y, lb.max_y - 1),
        ),
        Edge::Bottom => (
            st.edge_lock_x as int,
            spec_clamp(lb.max_y - 50, lb.min_y, lb.max_y - 1),
        ),
    }
}

/// The local cursor position after performing `acts`, starting from `p`.
pub open spec fn cursor_after(acts: Seq<Action>, p: (int, int)) -> (int, int)
    decreases acts.len(),
{
    if acts.len() == 0 {
        p
    } else {
        let q = match acts[0] {
            Action::MoveCursor(x, y) => (x as int, y as int),
            _ => p,
        };
        cursor_after(acts.drop_first(), q)
    }
}

/// `a` sends a message whose `type` field is `t`.
pub open spec fn is_send_of(a: Action, t: Seq<char>) -> bool {
    a matches Action::Send(m) && m.msg_type@ == t
}

/// How many of the actions send a message with `type` field `t`.
pub open spec fn count_sends_of(acts: Seq<Action>, t: Seq<char>) -> nat
    decreases acts.len(),
{
    if acts.len() == 0 {
        0
    } else {
        count_sends_of(acts.drop_last(), t) + if is_send_of(acts.last(), t) {
            1nat
        } else {
            0nat
        }
    }
}

/// The control invariant: while controlling the remote, the tracked remote
/// cursor lies within the remote screen union's bounding box.
pub open spec fn control_wf(st: ControlState, remote_rects: Seq<Rect>) -> bool {
    st.phase == Phase::ControllingRemote ==> in_box(
        st.remote_x as int,
        st.remote_y as int,
        spec_box(remote_rects),
    )
}

/// Exactly one of the three phase values holds of any control state:
/// the phases are mutually exclusive and jointly exhaustive.
pub proof fn lemma_phase_exclusive(p: Phase)
    ensures
        (if p == Phase::Idle {
            1int
        } else {
            0int
        }) + (if p == Phase::ControllingRemote {
            1int
        } else {
            0int
        }) + (if p == Phase::BeingControlled {
            1int
        } else {
            0int
        }) == 1,
{
}

/// Edge crossing idempotence: a transfer that immediately returns puts
/// the local cursor back within fifty pixels of where it crossed, and
/// exactly on the crossing's other coordinate — the pinned row for a
/// horizontal transfer, the pinned column for a vertical one.
pub proof fn lemma_edge_crossing_idempotence(mx: int, my: int, lb: BoundsV, st: ControlState)
    requires
        box_wf(lb),
        in_box(mx, my, lb),
        at_armed_edge(mx, my, EDGE_THRESHOLD as int, lb, st.remote_edge),
        (st.edge_lock_x as int, st.edge_lock_y as int) == spec_edge_lock(
            mx,
            my,
            lb,
            st.remote_edge,
        ),
    ensures
        -50 <= spec_return_point(st, lb).0 - mx <= 50,
        -50 <= spec_return_point(st, lb).1 - my <= 50,
        st.remote_edge == Edge::Right || st.remote_edge == Edge::Left
            ==> spec_return_point(st, lb).1 == my,
        st.remote_edge == Edge::Top || st.remote_edge == Edge::Bottom
            ==> spec_return_point(st, lb).0 == mx,
{
    let (rx, ry) = spec_return_point(st, lb);
    match st.remote_edge {
        Edge::Right => {
            assert(lb.min_x <= rx <= lb.max_x - 1);
            if lb.max_x - lb.min_x > 51 {
                assert(rx == lb.max_x - 50);
                assert(mx >= lb.max_x - EDGE_THRESHOLD);
            }
            assert(-50 <= rx - mx <= 50);
        },
        Edge::Left => {
            assert(lb.min_x <= rx <= lb.max_x - 1);
            if lb.max_x - lb.min_x > 51 {
                assert(rx == lb.min_x + 50);
                assert(mx <= lb.min_x + EDGE_THRESHOLD);
            }
            assert(-50 <= rx - mx <= 50);
        },
        Edge::Top => {
            assert(lb.min_y <= ry <= lb.max_y - 1);
            if lb.max_y - lb.min_y > 51 {
                assert(ry == lb.min_y + 50);
                assert(my <= lb.min_y + EDGE_THRESHOLD);
            }
            assert(-50 <= ry - my <= 50);
        },
        Edge::Bottom => {
            assert(lb.min_y <= ry <= lb.max_y - 1);
            if lb.max_y - lb.min_y > 51 {
                assert(ry == lb.max_y - 50);
                assert(my >= lb.max_y - EDGE_THRESHOLD);
            }
            assert(-50 <= ry - my <= 50);
        },
    }
}

/// What one step of the process may emit, as `tick` and the message
/// handler ensure it: a `control_start` leaves exactly on the idle-to-
/// controlling transition, a `control_end` exactly on the controlling-to-
/// idle transition, and the controlling phase is entered no other way.
pub open spec fn step_ok(pre: Phase, acts: Seq<Action>, post: Phase) -> bool {
    &&& count_sends_of(acts, "control_start"@) == (if pre == Phase::Idle && post
        == Phase::ControllingRemote {
        1nat
    } else {
        0nat
    })
    &&& count_sends_of(acts, "control_end"@) == (if pre == Phase::ControllingRemote && post
        == Phase::Idle {
        1nat
    } else {
        0nat
    })
    &&& post == Phase::ControllingRemote ==> pre == Phase::Idle || pre
        == Phase::ControllingRemote
}

/// All actions a run emitted, in order.
pub open spec fn flat_actions(emissions: Seq<Seq<Action>>) -> Seq<Action>
    decreases emissions.len(),
{
    if emissions.len() == 0 {
        Seq::empty()
    } else {
        flat_actions(emissions.drop_last()) + emissions.last()
    }
}

/// How many `control_end` messages were sent since the last
/// `control_start` (or since the beginning, if none was sent yet).
pub open spec fn ends_since_start(s: Seq<Action>) -> nat
    decreases s.len(),
{
    if s.len() == 0 {
        0
    } else if is_send_of(s.last(), "control_start"@) {
        0
    } else {
        ends_since_start(s.drop_last()) + (if is_send_of(s.last(), "control_end"@) {
            1nat
        } else {
            0nat
        })
    }
}

proof fn lemma_ends_append(head: Seq<Action>, acts: Seq<Action>)
    ensures
        count_sends_of(acts, "control_start"@) == 0 && count_sends_of(acts, "control_end"@)
            == 0 ==> ends_since_start(head + acts) == ends_since_start(head),
        count_sends_of(acts, "control_start"@) == 1 && count_sends_of(acts, "control_end"@)
            == 0 ==> ends_since_start(head + acts) == 0,
        count_sends_of(acts, "control_start"@) == 0 && count_sends_of(acts, "control_end"@)
            == 1 ==> ends_since_start(head + acts) == ends_since_start(head) + 1,
    decreases acts.len(),
{
    if acts.len() == 0 {
        assert(head + acts =~= head);
    } else {
        let rest = acts.drop_last();
        lemma_ends_append(head, rest);
        assert((head + acts).drop_last() =~= head + rest);
        assert((head + acts).last() == acts.last());
    }
}

/// Control handoffs alternate. In any run of steps that each satisfy
/// [`step_ok`] and that starts idle, every prefix of what was emitted
/// holds at most one `control_end` since the last `control_start`: a
/// `control_start` is followed by at most one `control_end` before the
/// next `control_start`.
pub proof fn lemma_control_alternation(phases: Seq<Phase>, emissions: Seq<Seq<Action>>)
    requires
        phases.len() == emissions.len() + 1,
        phases[0] == Phase::Idle,
        forall|i: int| 0 <= i < emissions.len() ==> step_ok(
            phases[i],
            #[trigger] emissions[i],
            phases[i + 1],
        ),
    ensures
        forall|k: int| 0 <= k <= emissions.len() ==> ends_since_start(
            #[trigger] flat_actions(emissions.take(k)),
        ) <= 1,
{
    assert forall|k: int| 0 <= k <= emissions.len() implies ends_since_start(
        #[trigger] flat_actions(emissions.take(k)),
    ) <= 1 by {
        lemma_alternation_prefix(phases, emissions, k);
    }
}

proof fn lemma_alternation_prefix(phases: Seq<Phase>, emissions: Seq<Seq<Action>>, k: int)
    requires
        phases.len() == emissions.len() + 1,
        phases[0] == Phase::Idle,
        forall|i: int| 0 <= i < emissions.len() ==> step_ok(
            phases[i],
            #[trigger] emissions[i],
            phases[i + 1],
        ),
        0 <= k <= emissions.len(),
    ensures
        ends_since_start(flat_actions(emissions.take(k))) <= 1,
        phases[k] == Phase::ControllingRemote ==> ends_since_start(
            flat_actions(emissions.take(k)),
        ) == 0,
    decreases k,
{
    if k == 0 {
        assert(emissions.take(0) =~= Seq::empty());
    } else {
        lemma_alternation_prefix(phases, emissions, k - 1);
        let head = flat_actions(emissions.take(k - 1));
        let acts = emissions[k - 1];
        assert(emissions.take(k).drop_last() =~= emissions.take(k - 1));
        assert(emissions.take(k).last() == acts);
        assert(flat_actions(emissions.take(k)) == head + acts);
        assert(step_ok(phases[k - 1], acts, phases[k]));
        lemma_ends_append(head, acts);
    }
}

/// What one step may emit regarding cursor forwarding, as `tick`
/// ensures it: a `mouse_move` leaves only while this side is controlling
/// the remote, before and after the step. The message handler's exact
/// per-kind action lists discharge it for receive steps, which send at
/// most a `pong`.
pub open spec fn step_ok_moves(pre: Phase, acts: Seq<Action>, post: Phase) -> bool {
    count_sends_of(acts, "mouse_move"@) > 0 ==> pre == Phase::ControllingRemote && post
        == Phase::ControllingRemote
}

/// Counting sends distributes over concatenation.
proof fn lemma_count_sends_append(a: Seq<Action>, b: Seq<Action>, t: Seq<char>)
    ensures
        count_sends_of(a + b, t) == count_sends_of(a, t) + count_sends_of(b, t),
    decreases b.len(),
{
    if b.len() == 0 {
        assert(a + b =~= a);
    } else {
        lemma_count_sends_append(a, b.drop_last(), t);
        assert((a + b).drop_last() =~= a + b.drop_last());
        assert((a + b).last() == b.last());
    }
}

/// While the process controls the remote, the episode's `control_start`
/// has already been emitted.
proof fn lemma_start_before_controlling(phases: Seq<Phase>, emissions: Seq<Seq<Action>>, k: int)
    requires
        phases.len() == emissions.len() + 1,
        phases[0] == Phase::Idle,
        forall|i: int| 0 <= i < emissions.len() ==> step_ok(
            phases[i],
            #[trigger] emissions[i],
            phases[i + 1],
        ),
        0 <= k <= emissions.len(),
        phases[k] == Phase::ControllingRemote,
    ensures
        count_sends_of(flat_actions(emissions.take(k)), "control_start"@) > 0,
    decreases k,
{
    assert(k > 0);
    assert(step_ok(phases[k - 1], emissions[k - 1], phases[k]));
    assert(emissions.take(k).drop_last() =~= emissions.take(k - 1));
    assert(emissions.take(k).last() == emissions[k - 1]);
    assert(flat_actions(emissions.take(k)) == flat_actions(emissions.take(k - 1))
        + emissions[k - 1]);
    lemma_count_sends_append(
        flat_actions(emissions.take(k - 1)),
        emissions[k - 1],
        "control_start"@,
    );
    if phases[k - 1] == Phase::Idle {
        assert(count_sends_of(emissions[k - 1], "control_start"@) == 1);
    } else {
        assert(phases[k - 1] == Phase::ControllingRemote);
        lemma_start_before_controlling(phases, emissions, k - 1);
    }
}

/// The send order of a control episode. In any run whose steps satisfy
/// [`step_ok`] and [`step_ok_moves`] and that starts idle, a step that
/// emits a `mouse_move` comes after a step that emitted a
/// `control_start`, with no `control_end` emitted since that start:
/// writes leave in this order, and per-session TCP delivery keeps it.
pub proof fn lemma_moves_follow_start(phases: Seq<Phase>, emissions: Seq<Seq<Action>>, k: int)
    requires
        phases.len() == emissions.len() + 1,
        phases[0] == Phase::Idle,
        forall|i: int| 0 <= i < emissions.len() ==> step_ok(
            phases[i],
            #[trigger] emissions[i],
            phases[i + 1],
        ),
        forall|i: int| 0 <= i < emissions.len() ==> step_ok_moves(
            phases[i],
            #[trigger] emissions[i],
            phases[i + 1],
        ),
        0 <= k < emissions.len(),
        count_sends_of(emissions[k], "mouse_move"@) > 0,
    ensures
        count_sends_of(flat_actions(emissions.take(k)), "control_start"@) > 0,
        ends_since_start(flat_actions(emissions.take(k))) == 0,
{
    assert(step_ok_moves(phases[k], emissions[k], phases[k + 1]));
    assert(phases[k] == Phase::ControllingRemote);
    lemma_start_before_controlling(phases, emissions, k);
    lemma_alternation_prefix(phases, emissions, k);
}

/// Maps `c` proportionally from the local span onto the remote span.
fn map_span(c: i32, lmin: i32, lmax: i32, rmin: i32, rmax: i32) -> (r: i32)
    requires
        lmin < lmax,
        rmin < rmax,
    ensures
        r as int == spec_map_span(c as int, lmin as int, lmax as int, rmin as int, rmax as int),
        rmin <= r <= rmax - 1,
{
    let lspan: u64 = (lmax as i64 - lmin as i64) as u64;
    let rspan: u64 = (rmax as i64 - rmin as i64) as u64;
    let mut rel: i64 = c as i64 - lmin as i64;
    if rel < 0 {
        rel = 0;
    }
    if rel > lspan as i64 {
        rel = lspan as i64;
    }
    assert(0 <= rel <= lspan);
    assert(lspan < 0x1_0000_0000 && rspan < 0x1_0000_0000);
    assert((rel as u64) * rspan < 0xFFFF_FFFF_FFFF_FFFF) by (nonlinear_arith)
        requires
            0 <= (rel as u64) < 0x1_0000_0000,
            rspan < 0x1_0000_0000,
    ;
    let prod: u64 = (rel as u64) * rspan;
    let q: u64 = prod / lspan;
    proof {
        assert(prod <= lspan * rspan) by (nonlinear_arith)
            requires
                0 <= rel as u64 <= lspan,
                prod == (rel as u64) * rspan,
                0 <= rspan,
        ;
        vstd::arithmetic::div_mod::lemma_div_is_ordered(prod as int, (lspan * rspan) as int, lspan as int);
        vstd::arithmetic::div_mod::lemma_div_multiples_vanish(rspan as int, lspan as int);
        assert(q <= rspan);
    }
    let mapped: i64 = rmin as i64 + q as i64;
    let lo: i64 = rmin as i64;
    let hi: i64 = rmax as i64 - 1;
    let out: i64 = if mapped < lo {
        lo
    } else if mapped > hi {
        hi
    } else {
        mapped
    };
    out as i32
}

/// Watches the armed edge while idle; on a hit, flips to controlling the
/// remote and emits the transfer actions: `control_start` with the remote
/// entry point, then pinning and hiding the local cursor.
pub fn check_edge_transition(
    st: &mut ControlState,
    mx: i32,
    my: i32,
    threshold: i32,
    local: Bounds,
    remote: Bounds,
    remote_count: usize,
    now_ms: u64,
) -> (acts: Vec<Action>)
    requires
        old(st).phase == Phase::Idle,
        box_wf(local@),
        box_wf(remote@),
        0 < threshold,
    ensures
        final(st).remote_edge == old(st).remote_edge,
        !(at_armed_edge(mx as int, my as int, threshold as int, local@, old(st).remote_edge)
            && remote_count > 0) ==> *final(st) == *old(st) && acts@.len() == 0,
        (at_armed_edge(mx as int, my as int, threshold as int, local@, old(st).remote_edge)
            && remote_count > 0) ==> {
            &&& final(st).phase == Phase::ControllingRemote
            &&& (final(st).edge_lock_x as int, final(st).edge_lock_y as int) == spec_edge_lock(
                mx as int, my as int, local@, old(st).remote_edge)
            &&& (final(st).remote_x as int, final(st).remote_y as int) == spec_entry_point(
                mx as int, my as int, local@, remote@, old(st).remote_edge)
            &&& in_box(final(st).remote_x as int, final(st).remote_y as int, remote@)
            &&& final(st).control_start_ms == now_ms
            &&& acts@.len() == 3
            &&& (acts@[0] matches Action::Send(m) && m.msg_type@ == "control_start"@
                && m.x == Some(final(st).remote_x) && m.y == Some(final(st).remote_y))
            &&& acts@[1] == Action::MoveCursor(final(st).edge_lock_x, final(st).edge_lock_y)
            &&& acts@[2] == Action::HideCursor
        },
        count_sends_of(acts@, "control_end"@) == 0,
        count_sends_of(acts@, "mouse_move"@) == 0,
        count_sends_of(acts@, "control_start"@) == (if final(st).phase
            == Phase::ControllingRemote {
            1nat
        } else {
            0nat
        }),
        final(st).phase == Phase::ControllingRemote ==> cursor_after(
            acts@,
            (mx as int, my as int),
        ) == (final(st).edge_lock_x as int, final(st).edge_lock_y as int),
        final(st).phase == Phase::ControllingRemote || *final(st) == *old(st),
{
    let e = st.remote_edge;
    let triggered = match e {
        Edge::Right => mx as i64 >= local.max_x as i64 - threshold as i64,
        Edge::Left => mx as i64 <= local.min_x as i64 + threshold as i64,
        Edge::Top => my as i64 <= local.min_y as i64 + threshold as i64,
        Edge::Bottom => my as i64 >= local.max_y as i64 - threshold as i64,
    };
    if !triggered || remote_count == 0 {
        return Vec::new();
    }
    let (entry_x, entry_y) = match e {
        Edge::Right => {
            let ex = crate::screens::clamp_to_i32(
                remote.min_x as i64 + 10, remote.min_x, remote.max_x - 1);
            let ey = map_span(my, local.min_y, local.max_y, remote.min_y, remote.max_y);
            (ex, ey)
        },
        Edge::Left => {
            let ex = crate::screens::clamp_to_i32(
                remote.max_x as i64 - 10, remote.min_x, remote.max_x - 1);
            let ey = map_span(my, local.min_y, local.max_y, remote.min_y, remote.max_y);
            (ex, ey)
        },
        Edge::Top => {
            let ex = map_span(mx, local.min_x, local.max_x, remote.min_x, remote.max_x);
            let ey = crate::screens::clamp_to_i32(
                remote.max_y as i64 - 10, remote.min_y, remote.max_y - 1);
            (ex, ey)
        },
        Edge::Bottom => {
            let ex = map_span(mx, local.min_x, local.max_x, remote.min_x, remote.max_x);
            let ey = crate::screens::clamp_to_i32(
                remote.min_y as i64 + 10, remote.min_y, remote.max_y - 1);
            (ex, ey)
        },
    };
    let (edge_x, edge_y) = match e {
        Edge::Right => (local.max_x - 1, my),
        Edge::Left => (local.min_x + 1, my),
        Edge::Top => (mx, local.min_y + 1),
        Edge::Bottom => (mx, local.max_y - 1),
    };
    st.edge_lock_x = edge_x;
    st.edge_lock_y = edge_y;
    st.remote_x = entry_x;
    st.remote_y = entry_y;
    st.control_start_ms = now_ms;
    st.phase = Phase::ControllingRemote;
    let mut acts: Vec<Action> = Vec::new();
    acts.push(Action::Send(Message::control_start(entry_x, entry_y)));
    acts.push(Action::MoveCursor(edge_x, edge_y));
    acts.push(Action::HideCursor);
    proof {
        reveal_strlit("control_start");
        reveal_strlit("control_end");
        reveal_strlit("mouse_move");
        let s = acts@;
        assert(s.len() == 3);
        assert("control_start"@.len() != "mouse_move"@.len());
        assert(!is_send_of(s.last(), "mouse_move"@));
        assert(!is_send_of(s.drop_last().last(), "mouse_move"@));
        assert(!is_send_of(s.drop_last().drop_last().last(), "mouse_move"@));
        assert(count_sends_of(s.drop_last().drop_last().drop_last(), "mouse_move"@) == 0);
        assert(count_sends_of(s.drop_last().drop_last(), "mouse_move"@) == 0);
        assert(count_sends_of(s.drop_last(), "mouse_move"@) == 0);
        assert(count_sends_of(s, "mouse_move"@) == 0);
        assert(!is_send_of(s.last(), "control_end"@));
        assert(!is_send_of(s.drop_last().last(), "control_end"@));
        assert("control_start"@.len() != "control_end"@.len());
        assert(!is_send_of(s.drop_last().drop_last().last(), "control_end"@));
        assert(s.drop_last().drop_last().drop_last() =~= Seq::<Action>::empty());
        assert(count_sends_of(s.drop_last().drop_last().drop_last(), "control_end"@) == 0);
        assert(count_sends_of(s.drop_last().drop_last(), "control_end"@) == 0);
        assert(count_sends_of(s.drop_last(), "control_end"@) == 0);
        assert(count_sends_of(s, "control_end"@) == 0);
        assert(!is_send_of(s.last(), "control_start"@));
        assert(!is_send_of(s.drop_last().last(), "control_start"@));
        assert(is_send_of(s.drop_last().drop_last().last(), "control_start"@));
        assert(count_sends_of(s.drop_last().drop_last().drop_last(), "control_start"@) == 0);
        assert(count_sends_of(s.drop_last().drop_last(), "control_start"@) == 1);
        assert(count_sends_of(s.drop_last(), "control_start"@) == 1);
        assert(count_sends_of(s, "control_start"@) == 1);
        let p = (mx as int, my as int);
        assert(cursor_after(s, p) == cursor_after(s.drop_first(), p));
        assert(s.drop_first()[0] == Action::MoveCursor(edge_x, edge_y));
        assert(cursor_after(s.drop_first(), p) == cursor_after(
            s.drop_first().drop_first(),
            (edge_x as int, edge_y as int),
        ));
        assert(s.drop_first().drop_first()[0] == Action::HideCursor);
        assert(cursor_after(s.drop_first().drop_first(), (edge_x as int, edge_y as int))
            == cursor_after(
            s.drop_first().drop_first().drop_first(),
            (edge_x as int, edge_y as int),
        ));
        assert(s.drop_first().drop_first().drop_first().len() == 0);
    }
    acts
}

/// Scales a raw delta component by the sensitivity factor.
fn scale_delta(d: i64) -> (r: i64)
    requires
        -0x1_0000_0000 <= d <= 0x1_0000_0000,
    ensures
        r as int == spec_scale(d as int),
        -0x1_8000_0000 <= r <= 0x1_8000_0000,
{
    if d >= 0 {
        ((d as u64) * 3 / 2) as i64
    } else {
        -((((-d) as u64) * 3 / 2) as i64)
    }
}

/// One sampling iteration while controlling the remote: read the delta the
/// user produced since the cursor was last pinned, scale it, advance the
/// tracked remote cursor, detect a return past the originating edge (only
/// once the cooldown has passed), and otherwise clamp, forward the move,
/// and pin the local cursor back on the edge.
pub fn delta_capture(
    st: &mut ControlState,
    mx: i32,
    my: i32,
    now_ms: u64,
    local: Bounds,
    remote: Bounds,
) -> (acts: Vec<Action>)
    requires
        old(st).phase == Phase::ControllingRemote,
        box_wf(local@),
        box_wf(remote@),
        in_box(old(st).remote_x as int, old(st).remote_y as int, remote@),
    ensures
        final(st).edge_lock_x == old(st).edge_lock_x,
        final(st).edge_lock_y == old(st).edge_lock_y,
        final(st).control_start_ms == old(st).control_start_ms,
        final(st).remote_edge == old(st).remote_edge,
        (mx == old(st).edge_lock_x && my == old(st).edge_lock_y) ==> *final(st) == *old(st)
            && acts@.len() == 0,
        (!(mx == old(st).edge_lock_x && my == old(st).edge_lock_y)
            && spec_should_return(*old(st), mx as int, my as int, now_ms, remote@)) ==> {
            &&& final(st).phase == Phase::Idle
            &&& final(st).remote_x == old(st).remote_x
            &&& final(st).remote_y == old(st).remote_y
            &&& acts@.len() == 3
            &&& (acts@[0] matches Action::Send(m) && m.msg_type@ == "control_end"@)
            &&& acts@[1] == Action::ShowCursor
            &&& (acts@[2] matches Action::MoveCursor(rx, ry)
                && (rx as int, ry as int) == spec_return_point(*old(st), local@))
        },
        (!(mx == old(st).edge_lock_x && my == old(st).edge_lock_y)
            && !spec_should_return(*old(st), mx as int, my as int, now_ms, remote@)) ==> {
            &&& final(st).phase == Phase::ControllingRemote
            &&& final(st).remote_x as int == spec_clamp(
                spec_new_remote(*old(st), mx as int, my as int).0,
                remote@.min_x,
                remote@.max_x - 1,
            )
            &&& final(st).remote_y as int == spec_clamp(
                spec_new_remote(*old(st), mx as int, my as int).1,
                remote@.min_y,
                remote@.max_y - 1,
            )
            &&& acts@.len() == 2
            &&& (acts@[0] matches Action::Send(m) && m.msg_type@ == "mouse_move"@
                && m.x == Some(final(st).remote_x) && m.y == Some(final(st).remote_y))
            &&& acts@[1] == Action::MoveCursor(old(st).edge_lock_x, old(st).edge_lock_y)
        },
        final(st).phase == Phase::ControllingRemote ==> cursor_after(
            acts@,
            (mx as int, my as int),
        ) == (final(st).edge_lock_x as int, final(st).edge_lock_y as int),
        final(st).phase == Phase::ControllingRemote ==> in_box(
            final(st).remote_x as int,
            final(st).remote_y as int,
            remote@,
        ),
        spec_elapsed(now_ms, old(st).control_start_ms) <= RETURN_COOLDOWN_MS
            ==> final(st).phase == Phase::ControllingRemote,
        count_sends_of(acts@, "control_start"@) == 0,
        count_sends_of(acts@, "control_end"@) == (if final(st).phase == Phase::Idle {
            1nat
        } else {
            0nat
        }),
        count_sends_of(acts@, "mouse_move"@) == (if final(st).phase
            == Phase::ControllingRemote && !(mx == old(st).edge_lock_x && my == old(
            st,
        ).edge_lock_y) {
            1nat
        } else {
            0nat
        }),
        final(st).phase == Phase::ControllingRemote || final(st).phase == Phase::Idle,
{
    let raw_dx: i64 = mx as i64 - st.edge_lock_x as i64;
    let raw_dy: i64 = my as i64 - st.edge_lock_y as i64;
    if raw_dx == 0 && raw_dy == 0 {
        return Vec::new();
    }
    let dx = scale_delta(raw_dx);
    let dy = scale_delta(raw_dy);
    let new_rx: i64 = st.remote_x as i64 + dx;
    let new_ry: i64 = st.remote_y as i64 + dy;
    let elapsed: u64 = if now_ms >= st.control_start_ms {
        now_ms - st.control_start_ms
    } else {
        0
    };
    let should_return = elapsed > RETURN_COOLDOWN_MS && (match st.remote_edge {
        Edge::Right => new_rx < remote.min_x as i64,
        Edge::Left => new_rx > remote.max_x as i64,
        Edge::Top => new_ry > remote.max_y as i64,
        Edge::Bottom => new_ry < remote.min_y as i64,
    });
    if should_return {
        st.phase = Phase::Idle;
        let (return_x, return_y) = match st.remote_edge {
            Edge::Right => (
                crate::screens::clamp_to_i32(local.max_x as i64 - 50, local.min_x, local.max_x - 1),
                st.edge_lock_y,
            ),
            Edge::Left => (
                crate::screens::clamp_to_i32(local.min_x as i64 + 50, local.min_x, local.max_x - 1),
                st.edge_lock_y,
            ),
            Edge::Top => (
                st.edge_lock_x,
                crate::screens::clamp_to_i32(local.min_y as i64 + 50, local.min_y, local.max_y - 1),
            ),
            Edge::Bottom => (
                st.edge_lock_x,
                crate::screens::clamp_to_i32(local.max_y as i64 - 50, local.min_y, local.max_y - 1),
            ),
        };
        let mut acts: Vec<Action> = Vec::new();
        acts.push(Action::Send(Message::control_end()));
        acts.push(Action::ShowCursor);
        acts.push(Action::MoveCursor(return_x, return_y));
        proof {
            reveal_strlit("control_start");
            reveal_strlit("control_end");
            reveal_strlit("mouse_move");
            let s = acts@;
            assert(s.len() == 3);
            assert("mouse_move"@.len() != "control_end"@.len());
            assert(!is_send_of(s.last(), "mouse_move"@));
            assert(!is_send_of(s.drop_last().last(), "mouse_move"@));
            assert(!is_send_of(s.drop_last().drop_last().last(), "mouse_move"@));
            assert(count_sends_of(s.drop_last().drop_last().drop_last(), "mouse_move"@) == 0);
            assert(count_sends_of(s.drop_last().drop_last(), "mouse_move"@) == 0);
            assert(count_sends_of(s.drop_last(), "mouse_move"@) == 0);
            assert(count_sends_of(s, "mouse_move"@) == 0);
            assert(!is_send_of(s.last(), "control_end"@));
            assert(!is_send_of(s.drop_last().last(), "control_end"@));
            assert(is_send_of(s.drop_last().drop_last().last(), "control_end"@));
            assert("control_start"@.len() != "control_end"@.len());
            assert(s.drop_last().drop_last().drop_last() =~= Seq::<Action>::empty());
            assert(count_sends_of(s.drop_last().drop_last().drop_last(), "control_end"@) == 0);
            assert(count_sends_of(s.drop_last().drop_last(), "control_end"@) == 1);
            assert(count_sends_of(s.drop_last(), "control_end"@) == 1);
            assert(count_sends_of(s, "control_end"@) == 1);
            assert(count_sends_of(s.drop_last().drop_last().drop_last(), "control_start"@) == 0);
            assert(count_sends_of(s.drop_last().drop_last(), "control_start"@) == 0);
            assert(count_sends_of(s.drop_last(), "control_start"@) == 0);
            assert(count_sends_of(s, "control_start"@) == 0);
        }
        acts
    } else {
        let cx = crate::screens::clamp_to_i32(new_rx, remote.min_x, remote.max_x - 1);
        let cy = crate::screens::clamp_to_i32(new_ry, remote.min_y, remote.max_y - 1);
        st.remote_x = cx;
        st.remote_y = cy;
        let mut acts: Vec<Action> = Vec::new();
        acts.push(Action::Send(Message::mouse_move(cx, cy)));
        acts.push(Action::MoveCursor(st.edge_lock_x, st.edge_lock_y));
        proof {
            reveal_strlit("control_start");
            reveal_strlit("control_end");
            reveal_strlit("mouse_move");
            let s = acts@;
            let p = (mx as int, my as int);
            assert(s.len() == 2);
            assert("mouse_move"@.len() != "control_end"@.len());
            assert("mouse_move"@.len() != "control_start"@.len());
            assert(!is_send_of(s.last(), "control_end"@));
            assert(!is_send_of(s.drop_last().last(), "control_end"@));
            assert(!is_send_of(s.drop_last().last(), "control_start"@));
            assert(s.drop_last().drop_last() =~= Seq::<Action>::empty());
            assert(count_sends_of(s.drop_last().drop_last(), "control_end"@) == 0);
            assert(count_sends_of(s.drop_last(), "control_end"@) == 0);
            assert(count_sends_of(s, "control_end"@) == 0);
            assert(count_sends_of(s.drop_last().drop_last(), "control_start"@) == 0);
            assert(count_sends_of(s.drop_last(), "control_start"@) == 0);
            assert(count_sends_of(s, "control_start"@) == 0);
            assert(is_send_of(s.drop_last().last(), "mouse_move"@));
            assert(!is_send_of(s.last(), "mouse_move"@));
            assert(count_sends_of(s.drop_last().drop_last(), "mouse_move"@) == 0);
            assert(count_sends_of(s.drop_last(), "mouse_move"@) == 1);
            assert(count_sends_of(s, "mouse_move"@) == 1);
            assert(cursor_after(s, p) == cursor_after(s.drop_first(), p));
            assert(s.drop_first()[0] == Action::MoveCursor(st.edge_lock_x, st.edge_lock_y));
            assert(cursor_after(s.drop_first(), p) == cursor_after(
                s.drop_first().drop_first(),
                (st.edge_lock_x as int, st.edge_lock_y as int),
            ));
            assert(s.drop_first().drop_first().len() == 0);
        }
        acts
    }
}

/// One iteration of the ~125 Hz sampling loop.
///
/// The caller reads the cursor, the clock, the display inventories and the
/// session flags and performs the returned actions; everything decided
/// about control ownership is decided here. While being controlled or
/// without a session nothing is watched; while idle the armed edge is
/// watched; while controlling the remote the delta is captured. Losing the
/// write channel while controlling reverts to idle with a best-effort
/// `control_end`.
pub fn tick(
    st: &mut ControlState,
    remote_screens: &Vec<ReceivedScreen>,
    local_screens: &Vec<ScreenInfo>,
    is_connected: bool,
    has_write: bool,
    mx: i32,
    my: i32,
    now_ms: u64,
) -> (acts: Vec<Action>)
    requires
        rects_wf(spec_rects_of_screens(local_screens@)),
        rects_wf(spec_rects_of_received(remote_screens@)),
        control_wf(*old(st), spec_rects_of_received(remote_screens@)),
    ensures
        final(st).remote_edge == old(st).remote_edge,
        // P2: the tracked remote cursor stays inside the remote box.
        control_wf(*final(st), spec_rects_of_received(remote_screens@)),
        // P1: while controlling, the tick leaves the cursor on the lock.
        final(st).phase == Phase::ControllingRemote ==> cursor_after(
            acts@,
            (mx as int, my as int),
        ) == (final(st).edge_lock_x as int, final(st).edge_lock_y as int),
        // Control handoff messages leave only on the matching transitions.
        count_sends_of(acts@, "control_start"@) == (if old(st).phase == Phase::Idle
            && final(st).phase == Phase::ControllingRemote {
            1nat
        } else {
            0nat
        }),
        count_sends_of(acts@, "control_end"@) == (if old(st).phase == Phase::ControllingRemote
            && final(st).phase == Phase::Idle {
            1nat
        } else {
            0nat
        }),
        count_sends_of(acts@, "mouse_move"@) > 0 ==> old(st).phase == Phase::ControllingRemote
            && final(st).phase == Phase::ControllingRemote,
        final(st).phase == Phase::ControllingRemote ==> old(st).phase == Phase::Idle
            || old(st).phase == Phase::ControllingRemote,
        old(st).phase == Phase::BeingControlled ==> *final(st) == *old(st) && acts@.len() == 0,
        // The cooldown: no return within its window.
        old(st).phase == Phase::ControllingRemote && is_connected && has_write
            && spec_elapsed(now_ms, old(st).control_start_ms) <= RETURN_COOLDOWN_MS
            ==> final(st).phase == Phase::ControllingRemote,
        // Without a session or write channel: revert if controlling, else rest.
        !(is_connected && has_write) ==> {
            &&& old(st).phase == Phase::ControllingRemote ==> {
                &&& final(st).phase == Phase::Idle
                &&& acts@.len() == 2
                &&& (acts@[0] matches Action::Send(m) && m.msg_type@ == "control_end"@)
                &&& acts@[1] == Action::ShowCursor
            }
            &&& old(st).phase != Phase::ControllingRemote ==> *final(st) == *old(st)
                && acts@.len() == 0
        },
        // Idle, in a session: the armed edge is watched.
        is_connected && has_write && old(st).phase == Phase::Idle ==> {
            let lb = spec_box(spec_rects_of_screens(local_screens@));
            let rb = spec_box(spec_rects_of_received(remote_screens@));
            let e = old(st).remote_edge;
            let triggered = local_screens@.len() > 0 && remote_screens@.len() > 0
                && at_armed_edge(mx as int, my as int, EDGE_THRESHOLD as int, lb, e);
            &&& !triggered ==> *final(st) == *old(st) && acts@.len() == 0
            &&& triggered ==> {
                &&& final(st).phase == Phase::ControllingRemote
                &&& (final(st).edge_lock_x as int, final(st).edge_lock_y as int)
                    == spec_edge_lock(mx as int, my as int, lb, e)
                &&& (final(st).remote_x as int, final(st).remote_y as int)
                    == spec_entry_point(mx as int, my as int, lb, rb, e)
                &&& final(st).control_start_ms == now_ms
                &&& acts@.len() == 3
                &&& (acts@[0] matches Action::Send(m) && m.msg_type@ == "control_start"@
                    && m.x == Some(final(st).remote_x) && m.y == Some(final(st).remote_y))
                &&& acts@[1] == Action::MoveCursor(final(st).edge_lock_x, final(st).edge_lock_y)
                &&& acts@[2] == Action::HideCursor
            }
        },
        // Controlling, in a session: the delta is captured.
        is_connected && has_write && old(st).phase == Phase::ControllingRemote ==> {
            let lb = spec_box(spec_rects_of_screens(local_screens@));
            let rb = spec_box(spec_rects_of_received(remote_screens@));
            &&& (mx == old(st).edge_lock_x && my == old(st).edge_lock_y)
                ==> *final(st) == *old(st) && acts@.len() == 0
            &&& (!(mx == old(st).edge_lock_x && my == old(st).edge_lock_y)
                && spec_should_return(*old(st), mx as int, my as int, now_ms, rb)) ==> {
                &&& final(st).phase == Phase::Idle
                &&& acts@.len() == 3
                &&& (acts@[0] matches Action::Send(m) && m.msg_type@ == "control_end"@)
                &&& acts@[1] == Action::ShowCursor
                &&& (acts@[2] matches Action::MoveCursor(rx, ry)
                    && (rx as int, ry as int) == spec_return_point(*old(st), lb))
            }
            &&& (!(mx == old(st).edge_lock_x && my == old(st).edge_lock_y)
                && !spec_should_return(*old(st), mx as int, my as int, now_ms, rb)) ==> {
                &&& final(st).phase == Phase::ControllingRemote
                &&& final(st).remote_x as int == spec_clamp(
                    spec_new_remote(*old(st), mx as int, my as int).0,
                    rb.min_x,
                    rb.max_x - 1,
                )
                &&& final(st).remote_y as int == spec_clamp(
                    spec_new_remote(*old(st), mx as int, my as int).1,
                    rb.min_y,
                    rb.max_y - 1,
                )
                &&& acts@.len() == 2
                &&& (acts@[0] matches Action::Send(m) && m.msg_type@ == "mouse_move"@
                    && m.x == Some(final(st).remote_x) && m.y == Some(final(st).remote_y))
                &&& acts@[1] == Action::MoveCursor(old(st).edge_lock_x, old(st).edge_lock_y)
            }
        },
{
    let lrects = rects_of_screens(local_screens);
    let rrects = rects_of_received(remote_screens);
    let lb = bounds(&lrects);
    let rb = bounds(&rrects);
    if !is_connected || !has_write {
        if matches!(st.phase, Phase::ControllingRemote) {
            st.phase = Phase::Idle;
            let mut acts: Vec<Action> = Vec::new();
            acts.push(Action::Send(Message::control_end()));
            acts.push(Action::ShowCursor);
            proof {
                reveal_strlit("control_start");
                reveal_strlit("control_end");
                reveal_strlit("mouse_move");
                let s = acts@;
                assert(s.len() == 2);
                assert("control_start"@.len() != "control_end"@.len());
                assert("mouse_move"@.len() != "control_end"@.len());
                assert(!is_send_of(s.last(), "control_end"@));
                assert(is_send_of(s.drop_last().last(), "control_end"@));
                assert(s.drop_last().drop_last() =~= Seq::<Action>::empty());
                assert(count_sends_of(s.drop_last().drop_last(), "control_end"@) == 0);
                assert(count_sends_of(s.drop_last(), "control_end"@) == 1);
                assert(count_sends_of(s, "control_end"@) == 1);
                assert(count_sends_of(s.drop_last().drop_last(), "control_start"@) == 0);
                assert(count_sends_of(s.drop_last(), "control_start"@) == 0);
                assert(count_sends_of(s, "control_start"@) == 0);
                assert(!is_send_of(s.last(), "mouse_move"@));
                assert(!is_send_of(s.drop_last().last(), "mouse_move"@));
                assert(count_sends_of(s.drop_last().drop_last(), "mouse_move"@) == 0);
                assert(count_sends_of(s.drop_last(), "mouse_move"@) == 0);
                assert(count_sends_of(s, "mouse_move"@) == 0);
            }
            return acts;
        }
        let acts: Vec<Action> = Vec::new();
        proof {
            assert(count_sends_of(acts@, "control_start"@) == 0);
            assert(count_sends_of(acts@, "control_end"@) == 0);
        }
        return acts;
    }
    match st.phase {
        Phase::BeingControlled => {
            let acts: Vec<Action> = Vec::new();
            proof {
                assert(count_sends_of(acts@, "control_start"@) == 0);
                assert(count_sends_of(acts@, "control_end"@) == 0);
            }
            acts
        },
        Phase::ControllingRemote => delta_capture(st, mx, my, now_ms, lb, rb),
        Phase::Idle => {
            if local_screens.len() == 0 {
                let acts: Vec<Action> = Vec::new();
                proof {
                    assert(count_sends_of(acts@, "control_start"@) == 0);
                    assert(count_sends_of(acts@, "control_end"@) == 0);
                }
                acts
            } else {
                check_edge_transition(
                    st,
                    mx,
                    my,
                    EDGE_THRESHOLD,
                    lb,
                    rb,
                    remote_screens.len(),
                    now_ms,
                )
            }
        },
    }
}

} // verus!
