use vstd::prelude::*;
use crate::types::DeviceId;

verus! {

/// A side of a screen through which the pointer can leave it.
#[derive(Clone, Copy, Debug, PartialEq, Eq, Structural, Hash)]
pub enum ScreenEdge {
    Left,
    Right,
    Top,
    Bottom,
}

pub open spec fn opposite_edge(edge: ScreenEdge) -> ScreenEdge {
    match edge {
        ScreenEdge::Left => ScreenEdge::Right,
        ScreenEdge::Right => ScreenEdge::Left,
        ScreenEdge::Top => ScreenEdge::Bottom,
        ScreenEdge::Bottom => ScreenEdge::Top,
    }
}

impl ScreenEdge {
    /// The edge on the other side of the screen.
    pub fn opposite(self) -> (e: ScreenEdge)
        ensures
            e == opposite_edge(self),
    {
        match self {
            ScreenEdge::Left => ScreenEdge::Right,
            ScreenEdge::Right => ScreenEdge::Left,
            ScreenEdge::Top => ScreenEdge::Bottom,
            ScreenEdge::Bottom => ScreenEdge::Top,
        }
    }
}

/// A rectangle of pixels: origin `(x, y)`, `width` columns and `height` rows.
#[derive(Clone, Copy, Debug, PartialEq, Eq, Structural)]
pub struct MonitorGeometry {
    pub x: i32,
    pub y: i32,
    pub width: u32,
    pub height: u32,
}

pub open spec fn min_int(a: int, b: int) -> int {
    if a <= b { a } else { b }
}

pub open spec fn max_int(a: int, b: int) -> int {
    if a >= b { a } else { b }
}

/// `v` pinned into `[lo, hi]`, giving `lo` when the range is empty.
pub open spec fn clamp_int(v: int, lo: int, hi: int) -> int {
    max_int(lo, min_int(v, hi))
}

impl MonitorGeometry {
    /// The rectangle's right and bottom edges are representable as `i32`.
    pub open spec fn wf(self) -> bool {
        &&& self.x + self.width <= i32::MAX
        &&& self.y + self.height <= i32::MAX
    }

    pub open spec fn spec_right(self) -> int {
        self.x + self.width
    }

    pub open spec fn spec_bottom(self) -> int {
        self.y + self.height
    }

    /// Last column that belongs to the rectangle (its left edge when empty).
    pub open spec fn last_x(self) -> int {
        max_int(self.x as int, self.spec_right() - 1)
    }

    /// Last row that belongs to the rectangle (its top edge when empty).
    pub open spec fn last_y(self) -> int {
        max_int(self.y as int, self.spec_bottom() - 1)
    }

    pub open spec fn contains(self, x: int, y: int) -> bool {
        self.x <= x < self.spec_right() && self.y <= y < self.spec_bottom()
    }

    pub fn new(x: i32, y: i32, width: u32, height: u32) -> (g: MonitorGeometry)
        ensures
            g == (MonitorGeometry { x, y, width, height }),
    {
        MonitorGeometry { x, y, width, height }
    }

    pub fn left(&self) -> (v: i32)
        ensures
            v == self.x,
    {
        self.x
    }

    pub fn top(&self) -> (v: i32)
        ensures
            v == self.y,
    {
        self.y
    }

    /// First column past the rectangle.
    pub fn right(&self) -> (v: i32)
        requires
            self.wf(),
        ensures
            v == self.spec_right(),
    {
        (self.x as i64 + self.width as i64) as i32
    }

    /// First row past the rectangle.
    pub fn bottom(&self) -> (v: i32)
        requires
            self.wf(),
        ensures
            v == self.spec_bottom(),
    {
        (self.y as i64 + self.height as i64) as i32
    }

    /// The closest point of the rectangle to `(x, y)`.
    pub fn clamp_point(&self, x: i32, y: i32) -> (p: (i32, i32))
        requires
            self.wf(),
        ensures
            p.0 == clamp_int(x as int, self.x as int, self.last_x()),
            p.1 == clamp_int(y as int, self.y as int, self.last_y()),
    {
        let last_x = if self.width > 0 {
            (self.x as i64 + self.width as i64 - 1) as i32
        } else {
            self.x
        };
        let last_y = if self.height > 0 {
            (self.y as i64 + self.height as i64 - 1) as i32
        } else {
            self.y
        };
        let cx = if x > last_x { last_x } else { x };
        let cx = if cx < self.x { self.x } else { cx };
        let cy = if y > last_y { last_y } else { y };
        let cy = if cy < self.y { self.y } else { cy };
        (cx, cy)
    }
}

/// Bounding box, as `(left, top, right, bottom)`, of two boxes.
pub open spec fn union_box(a: (int, int, int, int), b: (int, int, int, int)) -> (int, int, int, int) {
    (min_int(a.0, b.0), min_int(a.1, b.1), max_int(a.2, b.2), max_int(a.3, b.3))
}

pub open spec fn box_of(m: MonitorGeometry) -> (int, int, int, int) {
    (m.x as int, m.y as int, m.spec_right(), m.spec_bottom())
}

/// Bounding box of every rectangle of `s`; `None` when `s` is empty.
pub open spec fn bounding_box_of(s: Seq<MonitorGeometry>) -> Option<(int, int, int, int)>
    decreases s.len(),
{
    if s.len() == 0 {
        None
    } else {
        match bounding_box_of(s.drop_last()) {
            None => Some(box_of(s.last())),
            Some(b) => Some(union_box(b, box_of(s.last()))),
        }
    }
}

pub open spec fn geometry_of_box(b: (int, int, int, int)) -> MonitorGeometry {
    MonitorGeometry {
        x: b.0 as i32,
        y: b.1 as i32,
        width: (b.2 - b.0) as u32,
        height: (b.3 - b.1) as u32,
    }
}

pub open spec fn all_wf(s: Seq<MonitorGeometry>) -> bool {
    forall|i: int| 0 <= i < s.len() ==> (#[trigger] s[i]).wf()
}

proof fn lemma_bounding_box_range(s: Seq<MonitorGeometry>)
    requires
        all_wf(s),
        s.len() > 0,
    ensures
        bounding_box_of(s) matches Some(b) && i32::MIN <= b.0 <= i32::MAX && i32::MIN <= b.1
            <= i32::MAX && b.0 <= b.2 <= i32::MAX && b.1 <= b.3 <= i32::MAX,
    decreases s.len(),
{
    assert(s[s.len() - 1].wf());
    if s.len() > 1 {
        assert(all_wf(s.drop_last())) by {
            assert forall|i: int| 0 <= i < s.drop_last().len() implies (#[trigger] s.drop_last()[i]).wf() by {
                assert(s.drop_last()[i] == s[i]);
            }
        }
        lemma_bounding_box_range(s.drop_last());
    } else {
        assert(s.drop_last().len() == 0);
    }
}

/// Bounding box of a list of rectangles, as a rectangle.
pub fn bounding_box(monitors: &[MonitorGeometry]) -> (r: Option<MonitorGeometry>)
    requires
        all_wf(monitors@),
    ensures
        r == (match bounding_box_of(monitors@) {
            Some(b) => Some(geometry_of_box(b)),
            None => None,
        }),
        r matches Some(g) ==> g.wf(),
{
    if monitors.len() == 0 {
        return None;
    }
    let first = monitors[0];
    let mut left: i32 = first.x;
    let mut top: i32 = first.y;
    let mut right: i32 = first.right();
    let mut bottom: i32 = first.bottom();
    assert(monitors@.take(1).drop_last() =~= Seq::<MonitorGeometry>::empty());
    assert(bounding_box_of(Seq::<MonitorGeometry>::empty()) is None);
    assert(monitors@.take(1).last() == first);
    assert(first.wf());
    let mut i: usize = 1;
    while i < monitors.len()
        invariant
            1 <= i <= monitors.len(),
            all_wf(monitors@),
            bounding_box_of(monitors@.take(i as int)) == Some(
                (left as int, top as int, right as int, bottom as int),
            ),
            left <= right,
            top <= bottom,
        decreases monitors.len() - i,
    {
        let m = monitors[i];
        assert(m.wf());
        let r = m.right();
        let b = m.bottom();
        if m.x < left {
            left = m.x;
        }
        if m.y < top {
            top = m.y;
        }
        if r > right {
            right = r;
        }
        if b > bottom {
            bottom = b;
        }
        assert(monitors@.take(i + 1).drop_last() =~= monitors@.take(i as int));
        i = i + 1;
    }
    assert(monitors@.take(monitors.len() as int) =~= monitors@);
    let width = (right as i64 - left as i64) as u32;
    let height = (bottom as i64 - top as i64) as u32;
    Some(MonitorGeometry { x: left, y: top, width, height })
}

/// The monitors that make up one machine's desktop.
#[derive(Debug, PartialEq, Eq)]
pub struct VirtualDesktop {
    pub monitors: Vec<MonitorGeometry>,
}

impl VirtualDesktop {
    pub open spec fn wf(&self) -> bool {
        all_wf(self.monitors@)
    }

    pub fn new(monitors: Vec<MonitorGeometry>) -> (d: VirtualDesktop)
        ensures
            d.monitors@ == monitors@,
    {
        VirtualDesktop { monitors }
    }

    /// Bounding box of all monitors, `None` for a desktop without monitors.
    pub fn bounds(&self) -> (r: Option<MonitorGeometry>)
        requires
            self.wf(),
        ensures
            r == (match bounding_box_of(self.monitors@) {
                Some(b) => Some(geometry_of_box(b)),
                None => None,
            }),
            r matches Some(g) ==> g.wf(),
    {
        bounding_box(self.monitors.as_slice())
    }
}

/// Where the pointer reappears after crossing into another machine.
#[derive(Clone, Copy, Debug, PartialEq, Eq)]
pub struct Handoff {
    pub target_device: DeviceId,
    pub x: i32,
    pub y: i32,
}

/// Latest bounds recorded for `device` in an append-only list (later entries
/// replace earlier ones).
pub open spec fn lookup_bounds(s: Seq<(DeviceId, Option<MonitorGeometry>)>, device: DeviceId) -> Option<
    Option<MonitorGeometry>,
>
    decreases s.len(),
{
    if s.len() == 0 {
        None
    } else if s.last().0 == device {
        Some(s.last().1)
    } else {
        lookup_bounds(s.drop_last(), device)
    }
}

/// Latest neighbour recorded for `(device, edge)`.
pub open spec fn lookup_link(s: Seq<(DeviceId, ScreenEdge, DeviceId)>, device: DeviceId, edge: ScreenEdge) -> Option<
    DeviceId,
>
    decreases s.len(),
{
    if s.len() == 0 {
        None
    } else if s.last().0 == device && s.last().1 == edge {
        Some(s.last().2)
    } else {
        lookup_link(s.drop_last(), device, edge)
    }
}

/// Placement of every machine's desktop and which screen edge leads where.
pub struct Layout {
    pub desktops: Vec<(DeviceId, Option<MonitorGeometry>)>,
    pub links: Vec<(DeviceId, ScreenEdge, DeviceId)>,
}

/// Entry point on `target` when arriving through its `edge` side, keeping
/// the coordinate that runs along the edge (clamped to the target).
pub open spec fn entry_point(target: MonitorGeometry, arriving_on: ScreenEdge, x: int, y: int) -> (int, int) {
    match arriving_on {
        ScreenEdge::Right => (target.last_x(), clamp_int(y, target.y as int, target.last_y())),
        ScreenEdge::Left => (target.x as int, clamp_int(y, target.y as int, target.last_y())),
        ScreenEdge::Bottom => (clamp_int(x, target.x as int, target.last_x()), target.last_y()),
        ScreenEdge::Top => (clamp_int(x, target.x as int, target.last_x()), target.y as int),
    }
}

/// Whether `(x, y)` lies beyond `edge` of `b`.
pub open spec fn crosses(b: MonitorGeometry, edge: ScreenEdge, x: int, y: int) -> bool {
    match edge {
        ScreenEdge::Left => x < b.x,
        ScreenEdge::Right => x >= b.spec_right(),
        ScreenEdge::Top => y < b.y,
        ScreenEdge::Bottom => y >= b.spec_bottom(),
    }
}

impl Layout {
    pub open spec fn wf(&self) -> bool {
        forall|i: int|
            0 <= i < self.desktops@.len() ==> ((#[trigger] self.desktops@[i]).1 matches Some(g)
                ==> g.wf())
    }

    /// Bounds known for `device`: `None` if it has no desktop, `Some(None)`
    /// if its desktop has no monitors.
    pub open spec fn spec_bounds_of(&self, device: DeviceId) -> Option<Option<MonitorGeometry>> {
        lookup_bounds(self.desktops@, device)
    }

    /// The machine reached through `edge` of `device`, if one is linked.
    pub open spec fn spec_neighbor(&self, device: DeviceId, edge: ScreenEdge) -> Option<DeviceId> {
        lookup_link(self.links@, device, edge)
    }

    /// Hand-off through one edge, when that edge is crossed, linked and the
    /// neighbour has a non-empty desktop.
    pub open spec fn through_edge(&self, b: MonitorGeometry, device: DeviceId, edge: ScreenEdge, x: int, y: int) -> Option<(DeviceId, int, int)> {
        if !crosses(b, edge, x, y) {
            None
        } else {
            match self.spec_neighbor(device, edge) {
                Some(target) => match self.spec_bounds_of(target) {
                    Some(Some(tb)) => {
                        let p = entry_point(tb, opposite_edge(edge), x, y);
                        Some((target, p.0, p.1))
                    },
                    _ => None,
                },
                None => None,
            }
        }
    }

    /// The hand-off that a position `(x, y)` on `device`'s desktop causes:
    /// edges are tried left, right, top, bottom; the first crossed edge with a
    /// usable neighbour wins.
    pub open spec fn spec_crossing(&self, device: DeviceId, x: int, y: int) -> Option<(DeviceId, int, int)> {
        match self.spec_bounds_of(device) {
            Some(Some(b)) => {
                let l = self.through_edge(b, device, ScreenEdge::Left, x, y);
                let r = self.through_edge(b, device, ScreenEdge::Right, x, y);
                let t = self.through_edge(b, device, ScreenEdge::Top, x, y);
                let bo = self.through_edge(b, device, ScreenEdge::Bottom, x, y);
                if l is Some {
                    l
                } else if r is Some {
                    r
                } else if t is Some {
                    t
                } else {
                    bo
                }
            },
            _ => None,
        }
    }

    pub fn new() -> (l: Layout)
        ensures
            l.wf(),
            l.desktops@.len() == 0,
            l.links@.len() == 0,
            forall|d: DeviceId| l.spec_bounds_of(d) is None,
            forall|d: DeviceId, e: ScreenEdge| l.spec_neighbor(d, e) is None,
    {
        Layout { desktops: Vec::new(), links: Vec::new() }
    }

    /// Record (or replace) the desktop of `device`.
    pub fn set_desktop(&mut self, device: DeviceId, desktop: VirtualDesktop)
        requires
            old(self).wf(),
            desktop.wf(),
        ensures
            final(self).wf(),
            final(self).links@ == old(self).links@,
            final(self).spec_bounds_of(device) == Some(
                match bounding_box_of(desktop.monitors@) {
                    Some(b) => Some(geometry_of_box(b)),
                    None => None,
                },
            ),
            forall|d: DeviceId|
                d != device ==> final(self).spec_bounds_of(d) == old(self).spec_bounds_of(d),
    {
        let bounds = desktop.bounds();
        self.desktops.push((device, bounds));
        assert(self.desktops@.drop_last() =~= old(self).desktops@);
    }

    /// Link `edge` of `from` to `to` (one direction only).
    pub fn link(&mut self, from: DeviceId, edge: ScreenEdge, to: DeviceId)
        ensures
            final(self).desktops@ == old(self).desktops@,
            final(self).spec_neighbor(from, edge) == Some(to),
            forall|d: DeviceId, e: ScreenEdge|
                !(d == from && e == edge) ==> final(self).spec_neighbor(d, e) == old(self).spec_neighbor(d, e),
    {
        self.links.push((from, edge, to));
        assert(self.links@.drop_last() =~= old(self).links@);
    }

    /// Link `edge` of `a` to `b`, and the opposite edge of `b` back to `a`.
    pub fn link_mirrored(&mut self, a: DeviceId, edge: ScreenEdge, b: DeviceId)
        ensures
            final(self).desktops@ == old(self).desktops@,
            final(self).spec_neighbor(b, opposite_edge(edge)) == Some(a),
            !(a == b && opposite_edge(edge) == edge) ==> final(self).spec_neighbor(a, edge) == Some(b),
            forall|d: DeviceId, e: ScreenEdge|
                !(d == a && e == edge) && !(d == b && e == opposite_edge(edge)) ==> final(self).spec_neighbor(d, e) == old(self).spec_neighbor(d, e),
    {
        self.link(a, edge, b);
        self.link(b, edge.opposite(), a);
    }

    /// Bounds currently known for `device`.
    pub fn bounds_of(&self, device: DeviceId) -> (r: Option<Option<MonitorGeometry>>)
        requires
            self.wf(),
        ensures
            r == self.spec_bounds_of(device),
            r matches Some(Some(g)) ==> g.wf(),
    {
        let mut i = self.desktops.len();
        assert(self.desktops@.take(i as int) =~= self.desktops@);
        while i > 0
            invariant
                i <= self.desktops@.len(),
                self.wf(),
                lookup_bounds(self.desktops@, device) == lookup_bounds(
                    self.desktops@.take(i as int),
                    device,
                ),
            decreases i,
        {
            let entry = self.desktops[i - 1];
            assert(self.desktops@.take(i as int).drop_last() =~= self.desktops@.take(i - 1));
            assert(self.desktops@.take(i as int).last() == self.desktops@[i - 1]);
            if entry.0.same_as(&device) {
                return Some(entry.1);
            }
            i = i - 1;
        }
        assert(self.desktops@.take(0) =~= Seq::<(DeviceId, Option<MonitorGeometry>)>::empty());
        None
    }

    /// Machine linked to `edge` of `device`.
    pub fn neighbor(&self, device: DeviceId, edge: ScreenEdge) -> (r: Option<DeviceId>)
        ensures
            r == self.spec_neighbor(device, edge),
    {
        let mut i = self.links.len();
        assert(self.links@.take(i as int) =~= self.links@);
        while i > 0
            invariant
                i <= self.links@.len(),
                lookup_link(self.links@, device, edge) == lookup_link(
                    self.links@.take(i as int),
                    device,
                    edge,
                ),
            decreases i,
        {
            let entry = self.links[i - 1];
            assert(self.links@.take(i as int).drop_last() =~= self.links@.take(i - 1));
            assert(self.links@.take(i as int).last() == self.links@[i - 1]);
            if entry.0.same_as(&device) && entry.1 == edge {
                return Some(entry.2);
            }
            i = i - 1;
        }
        assert(self.links@.take(0) =~= Seq::<(DeviceId, ScreenEdge, DeviceId)>::empty());
        None
    }

    fn try_edge(&self, b: MonitorGeometry, device: DeviceId, edge: ScreenEdge, x: i32, y: i32) -> (r: Option<Handoff>)
        requires
            self.wf(),
            b.wf(),
        ensures
            r matches Some(h) ==> self.through_edge(b, device, edge, x as int, y as int) == Some(
                (h.target_device, h.x as int, h.y as int),
            ),
            r is None ==> self.through_edge(b, device, edge, x as int, y as int) is None,
    {
        let crossed = match edge {
            ScreenEdge::Left => x < b.x,
            ScreenEdge::Right => x >= b.right(),
            ScreenEdge::Top => y < b.y,
            ScreenEdge::Bottom => y >= b.bottom(),
        };
        if !crossed {
            return None;
        }
        let target = match self.neighbor(device, edge) {
            Some(t) => t,
            None => return None,
        };
        let tb = match self.bounds_of(target) {
            Some(Some(g)) => g,
            _ => return None,
        };
        let (cx, cy) = tb.clamp_point(x, y);
        let (ex, ey) = match edge {
            ScreenEdge::Left => {
                let last_x = if tb.width > 0 {
                    (tb.x as i64 + tb.width as i64 - 1) as i32
                } else {
                    tb.x
                };
                (last_x, cy)
            },
            ScreenEdge::Right => (tb.x, cy),
            ScreenEdge::Top => {
                let last_y = if tb.height > 0 {
                    (tb.y as i64 + tb.height as i64 - 1) as i32
                } else {
                    tb.y
                };
                (cx, last_y)
            },
            ScreenEdge::Bottom => (cx, tb.y),
        };
        Some(Handoff { target_device: target, x: ex, y: ey })
    }

    /// Which machine, if any, takes over when the pointer is at `(x, y)`
    /// relative to `device`'s desktop, and where it reappears there.
    pub fn detect_crossing(&self, device: DeviceId, x: i32, y: i32) -> (r: Option<Handoff>)
        requires
            self.wf(),
        ensures
            r matches Some(h) ==> self.spec_crossing(device, x as int, y as int) == Some(
                (h.target_device, h.x as int, h.y as int),
            ),
            r is None ==> self.spec_crossing(device, x as int, y as int) is None,
    {
        let b = match self.bounds_of(device) {
            Some(Some(g)) => g,
            _ => return None,
        };
        let l = self.try_edge(b, device, ScreenEdge::Left, x, y);
        if l.is_some() {
            return l;
        }
        let r = self.try_edge(b, device, ScreenEdge::Right, x, y);
        if r.is_some() {
            return r;
        }
        let t = self.try_edge(b, device, ScreenEdge::Top, x, y);
        if t.is_some() {
            return t;
        }
        self.try_edge(b, device, ScreenEdge::Bottom, x, y)
    }
}

/// A clamped value lies in the range when the range is not empty.
pub proof fn lemma_clamp_in_range(v: int, lo: int, hi: int)
    requires
        lo <= hi,
    ensures
        lo <= clamp_int(v, lo, hi) <= hi,
        lo <= v <= hi ==> clamp_int(v, lo, hi) == v,
{
}

/// A point pinned onto a non-empty rectangle lies in it.
pub proof fn lemma_pinned_inside(b: MonitorGeometry, x: int, y: int)
    requires
        b.width > 0,
        b.height > 0,
    ensures
        b.contains(clamp_int(x, b.x as int, b.last_x()), clamp_int(y, b.y as int, b.last_y())),
{
}

/// Where the pointer reappears after crossing into a non-empty desktop
/// lies on that desktop.
pub proof fn lemma_entry_inside(target: MonitorGeometry, arriving_on: ScreenEdge, x: int, y: int)
    requires
        target.width > 0,
        target.height > 0,
    ensures
        target.contains(entry_point(target, arriving_on, x, y).0, entry_point(target, arriving_on, x, y).1),
{
}

/// A position inside a machine's desktop never hands control over.
pub proof fn lemma_inside_no_crossing(layout: Layout, device: DeviceId, x: int, y: int)
    requires
        layout.spec_bounds_of(device) matches Some(Some(b)) && b.contains(x, y),
    ensures
        layout.spec_crossing(device, x, y) is None,
{
}

/// Going back out through the side one came in by returns control to the
/// machine one came from: when `edge` of `from` leads to `to` and the
/// opposite edge of `to` leads back, a position of `to` beyond that
/// opposite edge, and level with `to`'s desktop along it, hands control to
/// `from`.
pub proof fn lemma_crossing_back(layout: Layout, from: DeviceId, to: DeviceId, edge: ScreenEdge, x: int, y: int)
    requires
        layout.spec_neighbor(to, opposite_edge(edge)) == Some(from),
        layout.spec_bounds_of(from) is Some && layout.spec_bounds_of(from)->0 is Some,
        layout.spec_bounds_of(to) matches Some(Some(tb)) && crosses(tb, opposite_edge(edge), x, y) && (match edge {
            ScreenEdge::Left | ScreenEdge::Right => tb.y <= y < tb.spec_bottom(),
            ScreenEdge::Top | ScreenEdge::Bottom => tb.x <= x < tb.spec_right(),
        }),
    ensures
        layout.spec_crossing(to, x, y) matches Some(h) && h.0 == from,
{
}

/// A crossing lands on the target's desktop: the target has known bounds,
/// and when they are not empty the entry point lies inside them.
pub proof fn lemma_crossing_lands_inside(layout: Layout, device: DeviceId, x: int, y: int)
    requires
        layout.spec_crossing(device, x, y) is Some,
    ensures
        ({
            let (target, ex, ey) = layout.spec_crossing(device, x, y)->0;
            layout.spec_bounds_of(target) matches Some(Some(tb)) && (tb.width > 0 && tb.height > 0 ==> tb.contains(ex, ey))
        }),
{
    let b = layout.spec_bounds_of(device)->0->0;
    let (target, ex, ey) = layout.spec_crossing(device, x, y)->0;
    let tb = layout.spec_bounds_of(target)->0->0;
    if tb.width > 0 && tb.height > 0 {
        if layout.through_edge(b, device, ScreenEdge::Left, x, y) is Some {
            lemma_entry_inside(tb, ScreenEdge::Right, x, y);
        } else if layout.through_edge(b, device, ScreenEdge::Right, x, y) is Some {
            lemma_entry_inside(tb, ScreenEdge::Left, x, y);
        } else if layout.through_edge(b, device, ScreenEdge::Top, x, y) is Some {
            lemma_entry_inside(tb, ScreenEdge::Bottom, x, y);
        } else {
            lemma_entry_inside(tb, ScreenEdge::Top, x, y);
        }
    }
}

} // verus!
