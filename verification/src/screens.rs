//! Display rectangles and the bounding box of a virtual desktop.
//!
//! A host's virtual desktop is the union of its displays, each an
//! axis-aligned rectangle in the host's integer coordinate system. The
//! control logic only ever needs the bounding box of that union; when a
//! host reports no displays the conventional 1920x1080 box at the origin
//! stands in.

use vstd::prelude::*;

verus! {

/// A display rectangle of the local host, as the platform reports it.
#[derive(Clone, Debug, PartialEq)]
pub struct ScreenInfo {
    pub name: String,
    pub x: i32,
    pub y: i32,
    pub width: i32,
    pub height: i32,
    pub is_primary: bool,
}

/// A display rectangle as carried inside a `hello` message.
#[derive(Clone, Debug, PartialEq)]
pub struct ScreenData {
    pub name: String,
    pub x: i32,
    pub y: i32,
    pub width: i32,
    pub height: i32,
    pub is_primary: bool,
}

/// A remote display as stored in the remote display registry, tagged with
/// the peer that owns it.
#[derive(Clone, Debug, PartialEq)]
pub struct ReceivedScreen {
    pub computer_name: String,
    pub computer_type: String,
    pub name: String,
    pub x: i32,
    pub y: i32,
    pub width: i32,
    pub height: i32,
    pub is_primary: bool,
}

/// A remote display as handed to the GUI collaborator.
#[derive(Clone, Debug, PartialEq)]
pub struct RemoteScreenInfo {
    pub computer_name: String,
    pub computer_type: String,
    pub name: String,
    pub x: i32,
    pub y: i32,
    pub width: i32,
    pub height: i32,
    pub is_primary: bool,
}

/// Mathematical model of one display rectangle.
pub ghost struct ScreenV {
    pub name: Seq<char>,
    pub x: int,
    pub y: int,
    pub width: int,
    pub height: int,
    pub is_primary: bool,
}

/// Mathematical model of a remote display registry entry.
pub ghost struct ReceivedScreenV {
    pub computer_name: Seq<char>,
    pub computer_type: Seq<char>,
    pub name: Seq<char>,
    pub x: int,
    pub y: int,
    pub width: int,
    pub height: int,
    pub is_primary: bool,
}

impl View for ScreenInfo {
    type V = ScreenV;

    open spec fn view(&self) -> ScreenV {
        ScreenV {
            name: self.name@,
            x: self.x as int,
            y: self.y as int,
            width: self.width as int,
            height: self.height as int,
            is_primary: self.is_primary,
        }
    }
}

impl View for ScreenData {
    type V = ScreenV;

    open spec fn view(&self) -> ScreenV {
        ScreenV {
            name: self.name@,
            x: self.x as int,
            y: self.y as int,
            width: self.width as int,
            height: self.height as int,
            is_primary: self.is_primary,
        }
    }
}

impl View for ReceivedScreen {
    type V = ReceivedScreenV;

    open spec fn view(&self) -> ReceivedScreenV {
        ReceivedScreenV {
            computer_name: self.computer_name@,
            computer_type: self.computer_type@,
            name: self.name@,
            x: self.x as int,
            y: self.y as int,
            width: self.width as int,
            height: self.height as int,
            is_primary: self.is_primary,
        }
    }
}

impl View for RemoteScreenInfo {
    type V = ReceivedScreenV;

    open spec fn view(&self) -> ReceivedScreenV {
        ReceivedScreenV {
            computer_name: self.computer_name@,
            computer_type: self.computer_type@,
            name: self.name@,
            x: self.x as int,
            y: self.y as int,
            width: self.width as int,
            height: self.height as int,
            is_primary: self.is_primary,
        }
    }
}

/// A bare rectangle, the part of a display the geometry cares about.
#[derive(Clone, Copy, Debug, PartialEq, Eq, Structural)]
pub struct Rect {
    pub x: i32,
    pub y: i32,
    pub width: i32,
    pub height: i32,
}

/// The bounding box `[min_x, max_x) x [min_y, max_y)` of a screen union.
#[derive(Clone, Copy, Debug, PartialEq, Eq, Structural)]
pub struct Bounds {
    pub min_x: i32,
    pub max_x: i32,
    pub min_y: i32,
    pub max_y: i32,
}

/// A rectangle is well formed when it is non-degenerate and its far corner
/// still fits in the coordinate type.
pub open spec fn rect_wf(r: Rect) -> bool {
    &&& 0 < r.width
    &&& 0 < r.height
    &&& r.x + r.width <= i32::MAX
    &&& r.y + r.height <= i32::MAX
}

pub open spec fn rects_wf(rs: Seq<Rect>) -> bool {
    forall|i: int| 0 <= i < rs.len() ==> rect_wf(#[trigger] rs[i])
}

/// Least display origin on the x axis; 0 when there are no displays.
pub open spec fn spec_min_x(rs: Seq<Rect>) -> int
    decreases rs.len(),
{
    if rs.len() == 0 {
        0
    } else if rs.len() == 1 {
        rs[0].x as int
    } else {
        vstd::math::min(spec_min_x(rs.drop_last()), rs.last().x as int)
    }
}

/// Greatest display far edge on the x axis; 1920 when there are no displays.
pub open spec fn spec_max_x(rs: Seq<Rect>) -> int
    decreases rs.len(),
{
    if rs.len() == 0 {
        1920
    } else if rs.len() == 1 {
        rs[0].x + rs[0].width
    } else {
        vstd::math::max(spec_max_x(rs.drop_last()), rs.last().x + rs.last().width)
    }
}

/// Least display origin on the y axis; 0 when there are no displays.
pub open spec fn spec_min_y(rs: Seq<Rect>) -> int
    decreases rs.len(),
{
    if rs.len() == 0 {
        0
    } else if rs.len() == 1 {
        rs[0].y as int
    } else {
        vstd::math::min(spec_min_y(rs.drop_last()), rs.last().y as int)
    }
}

/// Greatest display far edge on the y axis; 1080 when there are no displays.
pub open spec fn spec_max_y(rs: Seq<Rect>) -> int
    decreases rs.len(),
{
    if rs.len() == 0 {
        1080
    } else if rs.len() == 1 {
        rs[0].y + rs[0].height
    } else {
        vstd::math::max(spec_max_y(rs.drop_last()), rs.last().y + rs.last().height)
    }
}

/// Mathematical model of a bounding box.
pub ghost struct BoundsV {
    pub min_x: int,
    pub max_x: int,
    pub min_y: int,
    pub max_y: int,
}

impl View for Bounds {
    type V = BoundsV;

    open spec fn view(&self) -> BoundsV {
        BoundsV {
            min_x: self.min_x as int,
            max_x: self.max_x as int,
            min_y: self.min_y as int,
            max_y: self.max_y as int,
        }
    }
}

/// The bounding box of a display set, mathematically.
pub open spec fn spec_box(rs: Seq<Rect>) -> BoundsV {
    BoundsV {
        min_x: spec_min_x(rs),
        max_x: spec_max_x(rs),
        min_y: spec_min_y(rs),
        max_y: spec_max_y(rs),
    }
}

/// A box is proper when each axis spans at least one pixel.
pub open spec fn box_wf(b: BoundsV) -> bool {
    &&& b.min_x < b.max_x
    &&& b.min_y < b.max_y
    &&& i32::MIN <= b.min_x
    &&& b.max_x <= i32::MAX
    &&& i32::MIN <= b.min_y
    &&& b.max_y <= i32::MAX
}

/// On a well-formed display set the bounding box is never degenerate:
/// each axis spans at least one pixel. This also holds for the stand-in
/// box of an empty set.
pub proof fn lemma_bounds_nondegenerate(rs: Seq<Rect>)
    requires
        rects_wf(rs),
    ensures
        spec_min_x(rs) < spec_max_x(rs),
        spec_min_y(rs) < spec_max_y(rs),
        i32::MIN <= spec_min_x(rs),
        spec_max_x(rs) <= i32::MAX,
        i32::MIN <= spec_min_y(rs),
        spec_max_y(rs) <= i32::MAX,
    decreases rs.len(),
{
    if rs.len() == 0 {
    } else if rs.len() == 1 {
        assert(rect_wf(rs[0]));
    } else {
        assert(rects_wf(rs.drop_last())) by {
            assert(forall|i: int|
                0 <= i < rs.drop_last().len() ==> rs.drop_last()[i] == #[trigger] rs[i]);
        }
        lemma_bounds_nondegenerate(rs.drop_last());
        assert(rect_wf(rs.last()));
    }
}

/// Computes the bounding box of a display set; the 1920x1080 box at the
/// origin stands in when the set is empty.
pub fn bounds(rs: &Vec<Rect>) -> (b: Bounds)
    requires
        rects_wf(rs@),
    ensures
        b@ == spec_box(rs@),
        box_wf(b@),
{
    proof {
        lemma_bounds_nondegenerate(rs@);
    }
    if rs.len() == 0 {
        return Bounds { min_x: 0, max_x: 1920, min_y: 0, max_y: 1080 };
    }
    let mut min_x: i32 = rs[0].x;
    let mut max_x: i32 = rs[0].x + rs[0].width;
    let mut min_y: i32 = rs[0].y;
    let mut max_y: i32 = rs[0].y + rs[0].height;
    let mut i: usize = 1;
    while i < rs.len()
        invariant
            1 <= i <= rs@.len(),
            rects_wf(rs@),
            min_x as int == spec_min_x(rs@.subrange(0, i as int)),
            max_x as int == spec_max_x(rs@.subrange(0, i as int)),
            min_y as int == spec_min_y(rs@.subrange(0, i as int)),
            max_y as int == spec_max_y(rs@.subrange(0, i as int)),
        decreases rs@.len() - i,
    {
        proof {
            assert(rs@.subrange(0, i + 1).drop_last() =~= rs@.subrange(0, i as int));
            assert(rs@.subrange(0, i + 1).last() == rs@[i as int]);
            assert(rect_wf(rs@[i as int]));
        }
        let r = rs[i];
        if r.x < min_x {
            min_x = r.x;
        }
        if r.x + r.width > max_x {
            max_x = r.x + r.width;
        }
        if r.y < min_y {
            min_y = r.y;
        }
        if r.y + r.height > max_y {
            max_y = r.y + r.height;
        }
        i = i + 1;
    }
    proof {
        assert(rs@.subrange(0, rs@.len() as int) =~= rs@);
    }
    Bounds { min_x, max_x, min_y, max_y }
}

/// The bare rectangles of the local display list, mathematically.
pub open spec fn spec_rects_of_screens(ss: Seq<ScreenInfo>) -> Seq<Rect> {
    ss.map_values(|s: ScreenInfo| Rect { x: s.x, y: s.y, width: s.width, height: s.height })
}

/// The bare rectangles of the remote display registry, mathematically.
pub open spec fn spec_rects_of_received(ss: Seq<ReceivedScreen>) -> Seq<Rect> {
    ss.map_values(|s: ReceivedScreen| Rect { x: s.x, y: s.y, width: s.width, height: s.height })
}

/// Projects the local display list to its bare rectangles.
pub fn rects_of_screens(ss: &Vec<ScreenInfo>) -> (rs: Vec<Rect>)
    ensures
        rs@ == spec_rects_of_screens(ss@),
{
    let mut rs: Vec<Rect> = Vec::new();
    let mut i: usize = 0;
    while i < ss.len()
        invariant
            0 <= i <= ss@.len(),
            rs@.len() == i,
            forall|j: int| 0 <= j < i ==> rs@[j] == (Rect {
                x: ss@[j].x,
                y: ss@[j].y,
                width: ss@[j].width,
                height: ss@[j].height,
            }),
        decreases ss@.len() - i,
    {
        let s = &ss[i];
        rs.push(Rect { x: s.x, y: s.y, width: s.width, height: s.height });
        i = i + 1;
    }
    proof {
        assert(rs@ =~= spec_rects_of_screens(ss@));
    }
    rs
}

/// Projects the remote display registry to its bare rectangles.
pub fn rects_of_received(ss: &Vec<ReceivedScreen>) -> (rs: Vec<Rect>)
    ensures
        rs@ == spec_rects_of_received(ss@),
{
    let mut rs: Vec<Rect> = Vec::new();
    let mut i: usize = 0;
    while i < ss.len()
        invariant
            0 <= i <= ss@.len(),
            rs@.len() == i,
            forall|j: int| 0 <= j < i ==> rs@[j] == (Rect {
                x: ss@[j].x,
                y: ss@[j].y,
                width: ss@[j].width,
                height: ss@[j].height,
            }),
        decreases ss@.len() - i,
    {
        let s = &ss[i];
        rs.push(Rect { x: s.x, y: s.y, width: s.width, height: s.height });
        i = i + 1;
    }
    proof {
        assert(rs@ =~= spec_rects_of_received(ss@));
    }
    rs
}

/// Clamps `v` into `[lo, hi]`.
pub fn clamp_i32(v: i32, lo: i32, hi: i32) -> (r: i32)
    requires
        lo <= hi,
    ensures
        r as int == spec_clamp(v as int, lo as int, hi as int),
{
    if v < lo {
        lo
    } else if v > hi {
        hi
    } else {
        v
    }
}

/// Clamps a wide intermediate value into `[lo, hi]` and narrows it.
pub fn clamp_to_i32(v: i64, lo: i32, hi: i32) -> (r: i32)
    requires
        lo <= hi,
    ensures
        r as int == spec_clamp(v as int, lo as int, hi as int),
        lo <= r <= hi,
{
    if v < lo as i64 {
        lo
    } else if v > hi as i64 {
        hi
    } else {
        v as i32
    }
}

/// Clamps `v` into `[lo, hi]`, mathematically.
pub open spec fn spec_clamp(v: int, lo: int, hi: int) -> int {
    if v < lo {
        lo
    } else if v > hi {
        hi
    } else {
        v
    }
}

} // verus!
