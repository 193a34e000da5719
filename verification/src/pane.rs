//! Pane management: panes are subdivisions of a window, arranged as a binary
//! tree of splits whose leaves hold terminals. A split pane becomes a
//! container whose two children share its area.
//!
//! Layouts are fixed-point fractions of the window: [`LAYOUT_ONE`] stands
//! for the whole width or height.

use vstd::prelude::*;
use std::collections::HashMap;
use vstd::std_specs::iter::IteratorSpec;

use crate::sys::hash_map_get_mut;

verus! {

/// The fixed-point unit of layouts: a coordinate or extent of `LAYOUT_ONE`
/// is the full width or height of the window.
pub const LAYOUT_ONE: u64 = 0x4000_0000_0000_0000;

/// Unique identifier for a pane within a window.
#[derive(Debug, Clone, Copy, PartialEq, Eq, Hash, Default, Structural)]
pub struct PaneId(pub u64);

impl From<PaneId> for u64 {
    fn from(id: PaneId) -> (r: u64) {
        id.0
    }
}

impl vstd::std_specs::convert::FromSpecImpl<PaneId> for u64 {
    open spec fn obeys_from_spec() -> bool {
        true
    }

    open spec fn from_spec(v: PaneId) -> u64 {
        v.0
    }
}

impl From<u64> for PaneId {
    fn from(id: u64) -> (r: PaneId) {
        PaneId(id)
    }
}

impl vstd::std_specs::convert::FromSpecImpl<u64> for PaneId {
    open spec fn obeys_from_spec() -> bool {
        true
    }

    open spec fn from_spec(v: u64) -> PaneId {
        PaneId(v)
    }
}

/// Direction for pane operations.
#[derive(Debug, Clone, Copy, PartialEq, Eq, Structural)]
pub enum Direction {
    Up,
    Down,
    Left,
    Right,
}

/// Split direction for creating new panes.
#[derive(Debug, Clone, Copy, PartialEq, Eq, Structural)]
pub enum SplitDirection {
    /// Split horizontally (creates top/bottom panes).
    Horizontal,
    /// Split vertically (creates left/right panes).
    Vertical,
}

/// Layout information for a pane, as fixed-point fractions of the window
/// (see [`LAYOUT_ONE`]).
#[derive(Debug, Clone, Copy, PartialEq, Eq, Structural)]
pub struct PaneLayout {
    /// X position.
    pub x: u64,
    /// Y position.
    pub y: u64,
    /// Width.
    pub width: u64,
    /// Height.
    pub height: u64,
}

/// The layout that covers the whole window.
pub open spec fn full_layout() -> PaneLayout {
    PaneLayout { x: 0, y: 0, width: LAYOUT_ONE, height: LAYOUT_ONE }
}

impl Default for PaneLayout {
    fn default() -> (l: Self)
        ensures
            l == full_layout(),
    {
        Self { x: 0, y: 0, width: LAYOUT_ONE, height: LAYOUT_ONE }
    }
}

impl PaneLayout {
    /// The layout lies within the window.
    pub open spec fn in_bounds(self) -> bool {
        &&& self.x + self.width <= LAYOUT_ONE
        &&& self.y + self.height <= LAYOUT_ONE
    }
}

/// The two halves of `l` when it is split in direction `d`: top and bottom
/// for a horizontal split, left and right for a vertical one.
pub open spec fn split_layouts(l: PaneLayout, d: SplitDirection) -> (PaneLayout, PaneLayout) {
    match d {
        SplitDirection::Horizontal => {
            let h = l.height / 2;
            (
                PaneLayout { x: l.x, y: l.y, width: l.width, height: h },
                PaneLayout { x: l.x, y: (l.y + h) as u64, width: l.width, height: h },
            )
        },
        SplitDirection::Vertical => {
            let w = l.width / 2;
            (
                PaneLayout { x: l.x, y: l.y, width: w, height: l.height },
                PaneLayout { x: (l.x + w) as u64, y: l.y, width: w, height: l.height },
            )
        },
    }
}

/// Splitting a layout within the window yields two halves within the window
/// that lie side by side inside it: they keep the parent's extent across
/// the split, share the extent along it equally, the second starts where
/// the first ends, and together they leave at most one unit of the parent
/// uncovered.
pub proof fn lemma_split_halves_tile(l: PaneLayout, d: SplitDirection)
    requires
        l.in_bounds(),
    ensures
        split_layouts(l, d).0.in_bounds(),
        split_layouts(l, d).1.in_bounds(),
        d == SplitDirection::Horizontal ==> {
            let a = split_layouts(l, d).0;
            let b = split_layouts(l, d).1;
            &&& a.x == l.x && b.x == l.x && a.width == l.width && b.width == l.width
            &&& a.y == l.y && b.y == a.y + a.height && a.height == b.height
            &&& l.height - 1 <= a.height + b.height <= l.height
        },
        d == SplitDirection::Vertical ==> {
            let a = split_layouts(l, d).0;
            let b = split_layouts(l, d).1;
            &&& a.y == l.y && b.y == l.y && a.height == l.height && b.height == l.height
            &&& a.x == l.x && b.x == a.x + a.width && a.width == b.width
            &&& l.width - 1 <= a.width + b.width <= l.width
        },
{
}

/// Computes [`split_layouts`].
fn compute_split_layouts(l: PaneLayout, d: SplitDirection) -> (r: (PaneLayout, PaneLayout))
    requires
        l.in_bounds(),
    ensures
        r == split_layouts(l, d),
        r.0.in_bounds(),
        r.1.in_bounds(),
{
    match d {
        SplitDirection::Horizontal => {
            let h = l.height / 2;
            (
                PaneLayout { x: l.x, y: l.y, width: l.width, height: h },
                PaneLayout { x: l.x, y: l.y + h, width: l.width, height: h },
            )
        },
        SplitDirection::Vertical => {
            let w = l.width / 2;
            (
                PaneLayout { x: l.x, y: l.y, width: w, height: l.height },
                PaneLayout { x: l.x + w, y: l.y, width: w, height: l.height },
            )
        },
    }
}

/// A pane of a window.
#[derive(Debug, Clone)]
pub struct Pane {
    /// Unique identifier.
    pub id: PaneId,
    /// Layout information.
    pub layout: PaneLayout,
    /// Whether this pane is active/focused.
    pub is_active: bool,
    /// The terminal this pane shows, as the key under which the embedding
    /// program keeps the terminal and its event-loop notifier.
    pub terminal: u64,
    /// The platform window this pane belongs to, as the number its window
    /// id converts to.
    pub window_id: u64,
    /// Pane title (usually the running process).
    pub title: String,
    /// Whether the pane is zoomed (fills the window).
    pub is_zoomed: bool,
    /// Parent pane ID (for tree structure).
    pub parent: Option<PaneId>,
    /// Left/Top child.
    pub first_child: Option<PaneId>,
    /// Right/Bottom child.
    pub second_child: Option<PaneId>,
    /// Split direction if this pane has been split.
    pub split_direction: Option<SplitDirection>,
}

impl Pane {
    /// The pane has no children.
    pub open spec fn spec_is_leaf(self) -> bool {
        self.first_child is None && self.second_child is None
    }

    /// A pane as it is right after creation.
    pub open spec fn is_fresh(self, id: PaneId, terminal: u64, window_id: u64) -> bool {
        &&& self.id == id
        &&& self.layout == full_layout()
        &&& !self.is_active
        &&& self.terminal == terminal
        &&& self.window_id == window_id
        &&& self.title@ == Seq::<char>::empty()
        &&& !self.is_zoomed
        &&& self.parent is None
        &&& self.first_child is None
        &&& self.second_child is None
        &&& self.split_direction is None
    }

    /// The pane with another activity flag.
    pub open spec fn with_active(self, a: bool) -> Pane {
        Pane { is_active: a, ..self }
    }

    /// The pane turned into a container of two children after a split.
    pub open spec fn split_into(self, d: SplitDirection, first: u64, second: u64) -> Pane {
        Pane {
            split_direction: Some(d),
            first_child: Some(PaneId(first)),
            second_child: Some(PaneId(second)),
            is_active: false,
            ..self
        }
    }

    /// A pane as it is right after a split created it as a child.
    pub open spec fn is_new_child(
        self,
        id: u64,
        terminal: u64,
        window_id: u64,
        parent: u64,
        layout: PaneLayout,
        active: bool,
    ) -> bool {
        &&& self.id == PaneId(id)
        &&& self.layout == layout
        &&& self.is_active == active
        &&& self.terminal == terminal
        &&& self.window_id == window_id
        &&& self.title@ == Seq::<char>::empty()
        &&& !self.is_zoomed
        &&& self.parent == Some(PaneId(parent))
        &&& self.first_child is None
        &&& self.second_child is None
        &&& self.split_direction is None
    }

    /// The pane with another layout.
    pub open spec fn with_layout(self, l: PaneLayout) -> Pane {
        Pane { layout: l, ..self }
    }

    /// Create a new pane.
    pub fn new(id: PaneId, terminal: u64, window_id: u64) -> (p: Self)
        ensures
            p.is_fresh(id, terminal, window_id),
    {
        Self {
            id,
            layout: PaneLayout::default(),
            is_active: false,
            terminal,
            window_id,
            title: String::new(),
            is_zoomed: false,
            parent: None,
            first_child: None,
            second_child: None,
            split_direction: None,
        }
    }

    /// Check if this pane is a leaf (has no children).
    pub fn is_leaf(&self) -> (r: bool)
        ensures
            r == self.spec_is_leaf(),
    {
        self.first_child.is_none() && self.second_child.is_none()
    }

    /// Check if this pane has been split.
    pub fn is_split(&self) -> (r: bool)
        ensures
            r == self.split_direction is Some,
    {
        self.split_direction.is_some()
    }
}

/// The abstract state of a [`PaneManager`].
#[verifier::ext_equal]
pub struct PaneManagerView {
    /// Panes by the number inside their id.
    pub panes: Map<u64, Pane>,
    /// The active pane, if any.
    pub active_pane: Option<PaneId>,
    /// The number the next pane id will carry.
    pub next_id: u64,
    /// The root of the split tree, if any.
    pub root_pane: Option<PaneId>,
    /// Border width in pixels.
    pub border_width: u32,
    /// Active border color, as bit patterns of single-precision RGBA floats.
    pub active_border_color: [u32; 4],
    /// Inactive border color, as bit patterns of single-precision RGBA floats.
    pub inactive_border_color: [u32; 4],
}

impl PaneManagerView {
    /// The pane tree is well formed: ids match keys and lie below the next
    /// id; layouts lie within the window; a pane has both children or none,
    /// exactly when it records a split direction; children are distinct,
    /// carry larger ids than their parent and name it as parent; a parent
    /// names its child; the root has no parent.
    pub open spec fn wf(self) -> bool {
        &&& self.next_id >= 1
        &&& forall|k: u64| #[trigger] self.panes.contains_key(k) ==> self.pane_wf(k)
        &&& self.root_pane matches Some(r) ==> {
            &&& self.panes.contains_key(r.0)
            &&& self.panes[r.0].parent is None
        }
    }

    /// The conditions of [`PaneManagerView::wf`] on one pane.
    pub open spec fn pane_wf(self, k: u64) -> bool {
        let p = self.panes[k];
        &&& p.id == PaneId(k)
        &&& 1 <= k < self.next_id
        &&& p.layout.in_bounds()
        &&& (p.first_child is Some <==> p.second_child is Some)
        &&& (p.first_child is Some <==> p.split_direction is Some)
        &&& p.first_child matches Some(c) ==> {
            &&& self.panes.contains_key(c.0)
            &&& self.panes[c.0].parent == Some(PaneId(k))
            &&& c.0 > k
        }
        &&& p.second_child matches Some(c) ==> {
            &&& self.panes.contains_key(c.0)
            &&& self.panes[c.0].parent == Some(PaneId(k))
            &&& c.0 > k
        }
        &&& p.first_child is Some ==> p.first_child != p.second_child
        &&& p.parent matches Some(q) ==> {
            &&& self.panes.contains_key(q.0)
            &&& (self.panes[q.0].first_child == Some(PaneId(k)) || self.panes[q.0].second_child
                == Some(PaneId(k)))
        }
    }

    /// The pane `k` exists and is a leaf.
    pub open spec fn is_leaf_key(self, k: u64) -> bool {
        self.panes.contains_key(k) && self.panes[k].spec_is_leaf()
    }

    /// The keys of the leaf panes.
    pub open spec fn leaf_keys(self) -> Set<u64> {
        self.panes.dom().filter(|k: u64| self.panes[k].spec_is_leaf())
    }

    /// The state after `set_active(id)` with `id` present: the previously
    /// active pane, if present, is marked inactive, then `id` is marked
    /// active and becomes the active pane.
    pub open spec fn after_set_active(self, id: u64) -> PaneManagerView {
        let p1 = match self.active_pane {
            Some(a) => if self.panes.contains_key(a.0) {
                self.panes.insert(a.0, self.panes[a.0].with_active(false))
            } else {
                self.panes
            },
            None => self.panes,
        };
        PaneManagerView {
            panes: p1.insert(id, p1[id].with_active(true)),
            active_pane: Some(PaneId(id)),
            ..self
        }
    }
}

/// `g` with its child `old` replaced by `new`.
pub open spec fn replace_child(g: Pane, old: u64, new: u64) -> Pane {
    if g.first_child == Some(PaneId(old)) {
        Pane { first_child: Some(PaneId(new)), ..g }
    } else {
        Pane { second_child: Some(PaneId(new)), ..g }
    }
}

/// The other child of the parent of pane `id`, if `id` has a parent.
pub open spec fn sibling_of(m: Map<u64, Pane>, id: u64) -> Option<PaneId> {
    match m[id].parent {
        Some(p) => if m[p.0].first_child == Some(PaneId(id)) {
            m[p.0].second_child
        } else {
            m[p.0].first_child
        },
        None => None,
    }
}

/// The panes after leaf `id` is closed: it is removed; if it had a parent,
/// the parent is removed too and the sibling takes the parent's place in
/// the tree, with the parent's layout.
pub open spec fn collapsed(m: Map<u64, Pane>, id: u64) -> Map<u64, Pane> {
    match m[id].parent {
        None => m.remove(id),
        Some(p) => {
            let pp = m[p.0];
            let sib = sibling_of(m, id)->Some_0.0;
            let m1 = m.remove(id).insert(sib, Pane { parent: pp.parent, layout: pp.layout, ..m[sib] });
            let m2 = match pp.parent {
                Some(g) => m1.insert(g.0, replace_child(m1[g.0], p.0, sib)),
                None => m1,
            };
            m2.remove(p.0)
        },
    }
}

/// The root after leaf `id` is closed.
pub open spec fn collapsed_root(v: PaneManagerView, id: u64) -> Option<PaneId> {
    match v.panes[id].parent {
        None => None,
        Some(p) => match v.panes[p.0].parent {
            None => sibling_of(v.panes, id),
            Some(_) => v.root_pane,
        },
    }
}

/// Twice the horizontal center of a layout.
pub open spec fn center2x(l: PaneLayout) -> int {
    2 * l.x + l.width
}

/// Twice the vertical center of a layout.
pub open spec fn center2y(l: PaneLayout) -> int {
    2 * l.y + l.height
}

/// The center of `l` lies strictly in direction `d` from the center of
/// `cur`.
pub open spec fn in_direction(cur: PaneLayout, l: PaneLayout, d: Direction) -> bool {
    match d {
        Direction::Up => center2y(l) < center2y(cur),
        Direction::Down => center2y(l) > center2y(cur),
        Direction::Left => center2x(l) < center2x(cur),
        Direction::Right => center2x(l) > center2x(cur),
    }
}

/// Four times the squared Euclidean distance between the centers of two
/// layouts.
pub open spec fn distance4(cur: PaneLayout, l: PaneLayout) -> int {
    let dx = center2x(l) - center2x(cur);
    let dy = center2y(l) - center2y(cur);
    dx * dx + dy * dy
}

impl PaneManagerView {
    /// Pane `k` is a leaf other than `cur` whose center lies in direction
    /// `d` from the center of `cur`.
    pub open spec fn is_candidate(self, cur: u64, d: Direction, k: u64) -> bool {
        &&& k != cur
        &&& self.is_leaf_key(k)
        &&& in_direction(self.panes[cur].layout, self.panes[k].layout, d)
    }
}

/// Computes [`distance4`] of two layouts within the window.
fn compute_distance4(cur: PaneLayout, l: PaneLayout) -> (d: u128)
    requires
        cur.in_bounds(),
        l.in_bounds(),
    ensures
        d == distance4(cur, l),
{
    let cx = 2 * cur.x + cur.width;
    let cy = 2 * cur.y + cur.height;
    let lx = 2 * l.x + l.width;
    let ly = 2 * l.y + l.height;
    let dx: u128 = if lx >= cx { (lx - cx) as u128 } else { (cx - lx) as u128 };
    let dy: u128 = if ly >= cy { (ly - cy) as u128 } else { (cy - ly) as u128 };
    assert(dx * dx <= 0x8000_0000_0000_0000u128 * 0x8000_0000_0000_0000u128) by (nonlinear_arith)
        requires dx <= 0x8000_0000_0000_0000u128;
    assert(dy * dy <= 0x8000_0000_0000_0000u128 * 0x8000_0000_0000_0000u128) by (nonlinear_arith)
        requires dy <= 0x8000_0000_0000_0000u128;
    proof {
        let ex = center2x(l) - center2x(cur);
        let ey = center2y(l) - center2y(cur);
        assert(dx * dx == ex * ex) by (nonlinear_arith)
            requires dx == ex || dx == -ex;
        assert(dy * dy == ey * ey) by (nonlinear_arith)
            requires dy == ey || dy == -ey;
    }
    dx * dx + dy * dy
}

/// Decides whether layout `l` lies in direction `d` from `cur`.
fn compute_in_direction(cur: PaneLayout, l: PaneLayout, d: Direction) -> (r: bool)
    requires
        cur.in_bounds(),
        l.in_bounds(),
    ensures
        r == in_direction(cur, l, d),
{
    match d {
        Direction::Up => 2 * l.y + l.height < 2 * cur.y + cur.height,
        Direction::Down => 2 * l.y + l.height > 2 * cur.y + cur.height,
        Direction::Left => 2 * l.x + l.width < 2 * cur.x + cur.width,
        Direction::Right => 2 * l.x + l.width > 2 * cur.x + cur.width,
    }
}

/// `k` lies in the subtree rooted at `a`: following parents from `k`
/// reaches `a`.
pub open spec fn is_desc(panes: Map<u64, Pane>, a: u64, k: u64) -> bool
    decreases k,
{
    if k == a {
        true
    } else if panes.contains_key(k) {
        match panes[k].parent {
            Some(p) => if p.0 < k {
                is_desc(panes, a, p.0)
            } else {
                false
            },
            None => false,
        }
    } else {
        false
    }
}

/// The layout a split pane `parent` gives its child `k`.
pub open spec fn slot_layout(parent: Pane, k: u64) -> PaneLayout {
    let halves = split_layouts(parent.layout, parent.split_direction->Some_0);
    if parent.first_child == Some(PaneId(k)) {
        halves.0
    } else {
        halves.1
    }
}

/// Two pane maps with the same keys and the same parent links.
pub open spec fn same_parents(m1: Map<u64, Pane>, m2: Map<u64, Pane>) -> bool {
    &&& m1.dom() == m2.dom()
    &&& forall|k: u64| #[trigger] m1.contains_key(k) ==> m1[k].parent == m2[k].parent
}

/// Descent depends on the parent links only.
proof fn lemma_desc_same_parents(m1: Map<u64, Pane>, m2: Map<u64, Pane>, a: u64, k: u64)
    requires
        same_parents(m1, m2),
    ensures
        is_desc(m1, a, k) == is_desc(m2, a, k),
    decreases k,
{
    if k != a && m1.contains_key(k) {
        if let Some(p) = m1[k].parent {
            if p.0 < k {
                lemma_desc_same_parents(m1, m2, a, p.0);
            }
        }
    }
}

/// A descendant carries an id no smaller than its ancestor.
proof fn lemma_desc_ge(m: Map<u64, Pane>, a: u64, k: u64)
    requires
        is_desc(m, a, k),
    ensures
        a <= k,
    decreases k,
{
    if k != a {
        let p = m[k].parent->Some_0;
        lemma_desc_ge(m, a, p.0);
    }
}

/// Descent is transitive.
proof fn lemma_desc_trans(m: Map<u64, Pane>, a: u64, b: u64, k: u64)
    requires
        is_desc(m, a, b),
        is_desc(m, b, k),
    ensures
        is_desc(m, a, k),
    decreases k,
{
    if k != b {
        let p = m[k].parent->Some_0;
        lemma_desc_trans(m, a, b, p.0);
    }
}

/// A child lies in the subtree of its parent.
proof fn lemma_child_desc(v: PaneManagerView, x: u64, c: u64)
    requires
        v.wf(),
        v.panes.contains_key(c),
        v.panes[c].parent == Some(PaneId(x)),
    ensures
        is_desc(v.panes, x, c),
{
    assert(v.pane_wf(c));
    assert(v.pane_wf(x));
    assert(is_desc(v.panes, x, x));
}

/// The subtrees of two distinct children of one pane are disjoint.
proof fn lemma_desc_disjoint(v: PaneManagerView, x: u64, c1: u64, c2: u64, k: u64)
    requires
        v.wf(),
        v.panes.contains_key(c1),
        v.panes.contains_key(c2),
        v.panes[c1].parent == Some(PaneId(x)),
        v.panes[c2].parent == Some(PaneId(x)),
        c1 != c2,
    ensures
        !(is_desc(v.panes, c1, k) && is_desc(v.panes, c2, k)),
    decreases k,
{
    assert(v.pane_wf(c1));
    assert(v.pane_wf(c2));
    assert(v.pane_wf(x));
    if is_desc(v.panes, c1, k) && is_desc(v.panes, c2, k) {
        if k == c1 {
            lemma_desc_ge(v.panes, c2, x);
        } else if k == c2 {
            lemma_desc_ge(v.panes, c1, x);
        } else {
            let p = v.panes[k].parent->Some_0;
            lemma_desc_disjoint(v, x, c1, c2, p.0);
        }
    }
}

/// A strict descendant of a pane lies in the subtree of one of its children.
proof fn lemma_desc_through_child(v: PaneManagerView, x: u64, k: u64)
    requires
        v.wf(),
        v.panes.contains_key(x),
        is_desc(v.panes, x, k),
        k != x,
    ensures
        v.panes[x].first_child is Some,
        is_desc(v.panes, v.panes[x].first_child->Some_0.0, k) || is_desc(
            v.panes,
            v.panes[x].second_child->Some_0.0,
            k,
        ),
    decreases k,
{
    let p = v.panes[k].parent->Some_0;
    assert(v.pane_wf(k));
    assert(v.pane_wf(x));
    if p.0 == x {
        assert(v.pane_wf(p.0));
    } else {
        lemma_desc_through_child(v, x, p.0);
    }
}

/// `v` is `o` with the layouts of the strict descendants of `root`
/// recalculated top down: each gets its half of its parent's new layout;
/// everything else is unchanged.
spec fn relaid(o: Map<u64, Pane>, v: Map<u64, Pane>, root: u64) -> bool {
    &&& v.dom() == o.dom()
    &&& forall|k: u64| #[trigger] o.contains_key(k) ==> {
        &&& v[k] == o[k].with_layout(v[k].layout)
        &&& v[k].layout == if k != root && is_desc(o, root, k) {
            slot_layout(v[o[k].parent->Some_0.0], k)
        } else {
            o[k].layout
        }
    }
}

/// The facts about one step of a top-down recalculation below `root`:
/// `s1` sets the first child's layout, `s2` recalculates below it, `s3`
/// sets the second child's layout, `v` recalculates below that.
spec fn relaid_steps(
    o: Map<u64, Pane>,
    s1: Map<u64, Pane>,
    s2: Map<u64, Pane>,
    s3: Map<u64, Pane>,
    v: Map<u64, Pane>,
    root: u64,
) -> bool {
    let c1 = o[root].first_child->Some_0.0;
    let c2 = o[root].second_child->Some_0.0;
    let halves = split_layouts(o[root].layout, o[root].split_direction->Some_0);
    &&& s1 == o.insert(c1, o[c1].with_layout(halves.0))
    &&& relaid(s1, s2, c1)
    &&& s3 == s2.insert(c2, s2[c2].with_layout(halves.1))
    &&& relaid(s3, v, c2)
}

/// One pane of a recalculation composed of its steps.
#[verifier::rlimit(40)]
proof fn lemma_relaid_compose_at(
    ov: PaneManagerView,
    s1: Map<u64, Pane>,
    s2: Map<u64, Pane>,
    s3: Map<u64, Pane>,
    v: Map<u64, Pane>,
    root: u64,
    k: u64,
)
    requires
        ov.wf(),
        ov.panes.contains_key(root),
        ov.panes[root].split_direction is Some,
        relaid_steps(ov.panes, s1, s2, s3, v, root),
        same_parents(ov.panes, s1),
        same_parents(ov.panes, s3),
        ov.panes.contains_key(k),
    ensures
        v[k] == ov.panes[k].with_layout(v[k].layout),
        v[k].layout == if k != root && is_desc(ov.panes, root, k) {
            slot_layout(v[ov.panes[k].parent->Some_0.0], k)
        } else {
            ov.panes[k].layout
        },
{
    let o = ov.panes;
    let c1 = o[root].first_child->Some_0.0;
    let c2 = o[root].second_child->Some_0.0;
    assert(ov.pane_wf(root));
    assert(ov.pane_wf(c1));
    assert(ov.pane_wf(c2));
    lemma_child_desc(ov, root, c1);
    lemma_child_desc(ov, root, c2);
    lemma_desc_same_parents(o, s1, c1, k);
    lemma_desc_same_parents(o, s3, c2, k);
    lemma_desc_disjoint(ov, root, c1, c2, k);
    assert(s1.contains_key(k) && s3.contains_key(k));
    if is_desc(o, c1, k) {
        lemma_desc_trans(o, root, c1, k);
        lemma_desc_ge(o, c1, k);
    }
    if is_desc(o, c2, k) {
        lemma_desc_trans(o, root, c2, k);
        lemma_desc_ge(o, c2, k);
    }
    if k != root && is_desc(o, root, k) {
        lemma_desc_through_child(ov, root, k);
        assert(ov.pane_wf(k));
        let q = o[k].parent->Some_0.0;
        if k == c1 || k == c2 {
            // The root itself is outside both subtrees.
            lemma_desc_same_parents(o, s1, c1, root);
            lemma_desc_same_parents(o, s3, c2, root);
            lemma_desc_disjoint(ov, root, c1, c2, root);
            if is_desc(o, c1, root) {
                lemma_desc_ge(o, c1, root);
            }
            if is_desc(o, c2, root) {
                lemma_desc_ge(o, c2, root);
            }
            assert(s1.contains_key(root) && s3.contains_key(root));
            assert(v[root] == o[root].with_layout(o[root].layout));
        } else if is_desc(o, c1, k) {
            assert(is_desc(o, c1, q));
            lemma_desc_disjoint(ov, root, c1, c2, q);
            lemma_desc_same_parents(o, s3, c2, q);
            lemma_desc_ge(o, c1, q);
            assert(s3.contains_key(q));
        }
    }
}

/// Recalculating a split pane's subtree is: setting the first child's
/// layout, recalculating below it, then the same for the second child.
proof fn lemma_relaid_compose(
    ov: PaneManagerView,
    s1: Map<u64, Pane>,
    s2: Map<u64, Pane>,
    s3: Map<u64, Pane>,
    v: Map<u64, Pane>,
    root: u64,
)
    requires
        ov.wf(),
        ov.panes.contains_key(root),
        ov.panes[root].split_direction is Some,
        relaid_steps(ov.panes, s1, s2, s3, v, root),
    ensures
        relaid(ov.panes, v, root),
{
    let o = ov.panes;
    assert(ov.pane_wf(root));
    assert(s1.dom() =~= o.dom());
    assert(same_parents(o, s1));
    assert(same_parents(s1, s2));
    assert(s3.dom() =~= o.dom());
    assert(same_parents(o, s3));
    assert(v.dom() =~= o.dom());
    assert forall|k: u64| #[trigger] o.contains_key(k) implies {
        &&& v[k] == o[k].with_layout(v[k].layout)
        &&& v[k].layout == if k != root && is_desc(o, root, k) {
            slot_layout(v[o[k].parent->Some_0.0], k)
        } else {
            o[k].layout
        }
    } by {
        lemma_relaid_compose_at(ov, s1, s2, s3, v, root, k);
    }
}

impl PaneManagerView {
    /// The outcome of `split_pane`: how the state and the result relate.
    pub open spec fn split_pane_post(
        self,
        post: PaneManagerView,
        pane_id: PaneId,
        direction: SplitDirection,
        new_terminal: u64,
        r: Option<PaneId>,
    ) -> bool {
        &&& (r is Some <==> self.is_leaf_key(pane_id.0))
        &&& (r is None ==> post =~= self)
        &&& (r is Some ==> {
            let f = self.next_id;
            let sc = (f + 1) as u64;
            let p = self.panes[pane_id.0];
            let halves = split_layouts(p.layout, direction);
            &&& r == Some(PaneId(sc))
            &&& post.panes.dom() =~= self.panes.dom().insert(f).insert(sc)
            &&& post.panes[pane_id.0] == p.split_into(direction, f, sc)
            &&& post.panes[f].is_new_child(f, p.terminal, p.window_id, pane_id.0, halves.0, false)
            &&& post.panes[sc].is_new_child(sc, new_terminal, p.window_id, pane_id.0, halves.1, true)
            &&& forall|k: u64| k != pane_id.0 && self.panes.contains_key(k)
                ==> #[trigger] post.panes[k] == if self.active_pane == Some(PaneId(k)) {
                self.panes[k].with_active(false)
            } else {
                self.panes[k]
            }
            &&& post.active_pane == Some(PaneId(sc))
            &&& post.leaf_keys().len() == self.leaf_keys().len() + 1
            &&& post.next_id == f + 2
            &&& post.root_pane == self.root_pane
            &&& post.border_width == self.border_width
            &&& post.active_border_color == self.active_border_color
            &&& post.inactive_border_color == self.inactive_border_color
        })
    }

    /// The outcome of `navigate`: how the state and the result relate.
    pub open spec fn navigate_post(self, post: PaneManagerView, direction: Direction, r: Option<PaneId>) -> bool {
        &&& (match self.active_pane {
            None => r is None && post =~= self,
            Some(c) => if !self.panes.contains_key(c.0) {
                r is None && post =~= self
            } else {
                &&& r is None <==> (forall|k: u64| !#[trigger] self.is_candidate(
                    c.0,
                    direction,
                    k,
                ))
                &&& r is None ==> post =~= self
                &&& r matches Some(b) ==> {
                    &&& self.is_candidate(c.0, direction, b.0)
                    &&& forall|k: u64| #[trigger] self.is_candidate(c.0, direction, k)
                        ==> distance4(self.panes[c.0].layout, self.panes[b.0].layout)
                        <= distance4(self.panes[c.0].layout, self.panes[k].layout)
                    &&& post =~= self.after_set_active(b.0)
                }
            },
        })
    }

    /// The outcome of `close_pane`: how the state and the result relate.
    pub open spec fn close_pane_post(self, post: PaneManagerView, id: PaneId, r: bool) -> bool {
        &&& (r == self.is_leaf_key(id.0))
        &&& (!r ==> post =~= self)
        &&& (r ==> {
            let mid = collapsed(self.panes, id.0);
            let sib = sibling_of(self.panes, id.0);
            let newly_active = self.active_pane == Some(id);
            &&& post.panes.dom() =~= mid.dom()
            &&& forall|k: u64| #[trigger] mid.contains_key(k) ==> {
                &&& post.panes[k] == mid[k].with_layout(
                    post.panes[k].layout,
                ).with_active(post.panes[k].is_active)
                &&& post.panes[k].layout == if (sib matches Some(s) && k != s.0
                    && is_desc(mid, s.0, k)) {
                    slot_layout(post.panes[mid[k].parent->Some_0.0], k)
                } else {
                    mid[k].layout
                }
                &&& post.panes[k].is_active == (mid[k].is_active || (newly_active
                    && post.active_pane == Some(PaneId(k))))
            }
            &&& newly_active ==> (post.active_pane is None
                <==> post.leaf_keys() =~= Set::empty())
            &&& newly_active ==> (post.active_pane matches Some(a)
                ==> post.is_leaf_key(a.0))
            &&& !newly_active ==> post.active_pane == self.active_pane
            &&& post.leaf_keys().len() + 1 == self.leaf_keys().len()
            &&& post.root_pane == collapsed_root(self, id.0)
            &&& post.next_id == self.next_id
            &&& post.border_width == self.border_width
            &&& post.active_border_color == self.active_border_color
            &&& post.inactive_border_color == self.inactive_border_color
        })
    }

    /// The outcome of `set_active`: how the state and the result relate.
    pub open spec fn set_active_post(self, post: PaneManagerView, id: PaneId, r: bool) -> bool {
        &&& (r == self.panes.contains_key(id.0))
        &&& (r ==> post =~= self.after_set_active(id.0))
        &&& (!r ==> post =~= self)
    }
}

/// Manages all panes in a window.
pub struct PaneManager {
    /// All panes by ID.
    panes: HashMap<u64, Pane>,
    /// The currently active pane ID.
    active_pane: Option<PaneId>,
    /// Next pane ID to assign.
    next_id: u64,
    /// Root pane ID.
    root_pane: Option<PaneId>,
    /// Border width in pixels.
    pub border_width: u32,
    /// Active border color, as bit patterns of single-precision RGBA floats.
    pub active_border_color: [u32; 4],
    /// Inactive border color, as bit patterns of single-precision RGBA floats.
    pub inactive_border_color: [u32; 4],
}

impl View for PaneManager {
    type V = PaneManagerView;

    closed spec fn view(&self) -> PaneManagerView {
        PaneManagerView {
            panes: self.panes@,
            active_pane: self.active_pane,
            next_id: self.next_id,
            root_pane: self.root_pane,
            border_width: self.border_width,
            active_border_color: self.active_border_color,
            inactive_border_color: self.inactive_border_color,
        }
    }
}

/// The default active border color: orange (1.0, 0.67, 0.0, 1.0).
pub open spec fn default_active_border_color() -> [u32; 4] {
    [0x3f800000u32, 0x3f2b851fu32, 0u32, 0x3f800000u32]
}

/// The default inactive border color: dark gray (0.27, 0.27, 0.27, 1.0).
pub open spec fn default_inactive_border_color() -> [u32; 4] {
    [0x3e8a3d71u32, 0x3e8a3d71u32, 0x3e8a3d71u32, 0x3f800000u32]
}

impl Default for PaneManager {
    fn default() -> (m: Self)
        ensures
            m@.panes == Map::<u64, Pane>::empty(),
            m@.active_pane is None,
            m@.next_id == 1,
            m@.root_pane is None,
            m@.border_width == 2,
            m@.active_border_color == default_active_border_color(),
            m@.inactive_border_color == default_inactive_border_color(),
            m@.wf(),
    {
        Self {
            panes: HashMap::new(),
            active_pane: None,
            next_id: 1,
            root_pane: None,
            border_width: 2,
            active_border_color: [0x3f800000u32, 0x3f2b851fu32, 0u32, 0x3f800000u32],
            inactive_border_color: [0x3e8a3d71u32, 0x3e8a3d71u32, 0x3e8a3d71u32, 0x3f800000u32],
        }
    }
}

impl PaneManager {
    /// Create a new pane manager.
    pub fn new() -> (m: Self)
        ensures
            m@.panes == Map::<u64, Pane>::empty(),
            m@.active_pane is None,
            m@.next_id == 1,
            m@.root_pane is None,
            m@.border_width == 2,
            m@.active_border_color == default_active_border_color(),
            m@.inactive_border_color == default_inactive_border_color(),
            m@.wf(),
    {
        Self::default()
    }

    /// Create the root pane: a fresh active pane covering the window and
    /// showing `terminal`.
    pub fn create_root(&mut self, terminal: u64, window_id: u64) -> (id: PaneId)
        requires
            old(self)@.next_id < u64::MAX,
        ensures
            id == PaneId(old(self)@.next_id),
            final(self)@.panes.dom() == old(self)@.panes.dom().insert(id.0),
            final(self)@.panes[id.0].is_active,
            final(self)@.panes[id.0].with_active(false).is_fresh(id, terminal, window_id),
            forall|k: u64| k != id.0 && old(self)@.panes.contains_key(k)
                ==> #[trigger] final(self)@.panes[k] == old(self)@.panes[k],
            final(self)@.active_pane == Some(id),
            final(self)@.root_pane == Some(id),
            final(self)@.next_id == id.0 + 1,
            final(self)@.border_width == old(self)@.border_width,
            final(self)@.active_border_color == old(self)@.active_border_color,
            final(self)@.inactive_border_color == old(self)@.inactive_border_color,
            old(self)@.wf() ==> final(self)@.wf(),
    {
        let id = PaneId(self.next_id);
        self.next_id = self.next_id + 1;

        let mut pane = Pane::new(id, terminal, window_id);
        pane.is_active = true;
        pane.layout = PaneLayout::default();

        self.panes.insert(id.0, pane);
        self.active_pane = Some(id);
        self.root_pane = Some(id);

        id
    }

    /// Split a leaf pane: it becomes a container of two new panes that share
    /// its area; the first keeps showing the split pane's terminal, the
    /// second shows `new_terminal` and becomes active. Panes that are
    /// unknown or already split are refused.
    pub fn split_pane(&mut self, pane_id: PaneId, direction: SplitDirection, new_terminal: u64) -> (r: Option<PaneId>)
        requires
            old(self)@.wf(),
            old(self)@.is_leaf_key(pane_id.0) ==> old(self)@.next_id < u64::MAX - 1,
        ensures
            old(self)@.split_pane_post(final(self)@, pane_id, direction, new_terminal, r),
            final(self)@.wf(),
    {
        let (window_id, layout, terminal) = match self.panes.get(&pane_id.0) {
            Some(pane) => {
                if !pane.is_leaf() {
                    return None;
                }
                (pane.window_id, pane.layout, pane.terminal)
            },
            None => return None,
        };
        proof {
            assert(old(self)@.pane_wf(pane_id.0));
        }

        let first_id = PaneId(self.next_id);
        self.next_id = self.next_id + 1;
        let second_id = PaneId(self.next_id);
        self.next_id = self.next_id + 1;

        let (first_layout, second_layout) = compute_split_layouts(layout, direction);

        let mut first_pane = Pane::new(first_id, terminal, window_id);
        first_pane.layout = first_layout;
        first_pane.parent = Some(pane_id);
        first_pane.is_active = false;

        let mut second_pane = Pane::new(second_id, new_terminal, window_id);
        second_pane.layout = second_layout;
        second_pane.parent = Some(pane_id);
        second_pane.is_active = true;

        match self.active_pane {
            Some(a) => match hash_map_get_mut(&mut self.panes, a.0) {
                Some(previous) => previous.is_active = false,
                None => {},
            },
            None => {},
        }
        match hash_map_get_mut(&mut self.panes, pane_id.0) {
            Some(parent) => {
                parent.split_direction = Some(direction);
                parent.first_child = Some(first_id);
                parent.second_child = Some(second_id);
                parent.is_active = false;
            },
            None => {},
        }

        self.panes.insert(first_id.0, first_pane);
        self.panes.insert(second_id.0, second_pane);

        self.active_pane = Some(second_id);

        proof {
            let o = old(self)@;
            let v = self@;
            assert(!o.panes.contains_key(first_id.0));
            assert(!o.panes.contains_key(second_id.0));
            assert(v.leaf_keys() =~= o.leaf_keys().remove(pane_id.0).insert(first_id.0).insert(second_id.0));
            assert(o.leaf_keys().contains(pane_id.0));
            assert forall|k: u64| #[trigger] v.panes.contains_key(k) implies v.pane_wf(k) by {
                if k != pane_id.0 && k != first_id.0 && k != second_id.0 {
                    assert(o.pane_wf(k));
                    let p = o.panes[k];
                    if let Some(q) = p.parent {
                        assert(o.panes.contains_key(q.0));
                    }
                }
            }
        }
        Some(second_id)
    }

    /// Recalculate the layouts of the subtree below `root_id`, top down:
    /// each child of a split pane gets its half of the layout its parent has
    /// once recalculated, so the subtree tiles the area of `root_id`.
    fn recalculate_layouts(&mut self, root_id: PaneId)
        requires
            old(self)@.wf(),
            old(self)@.panes.contains_key(root_id.0),
        ensures
            final(self)@.wf(),
            relaid(old(self)@.panes, final(self)@.panes, root_id.0),
            final(self)@.active_pane == old(self)@.active_pane,
            final(self)@.next_id == old(self)@.next_id,
            final(self)@.root_pane == old(self)@.root_pane,
            final(self)@.border_width == old(self)@.border_width,
            final(self)@.active_border_color == old(self)@.active_border_color,
            final(self)@.inactive_border_color == old(self)@.inactive_border_color,
        decreases old(self)@.next_id - root_id.0,
    {
        let ghost o = self@;
        proof {
            assert(o.pane_wf(root_id.0));
        }
        let (direction, first, second, layout) = match self.panes.get(&root_id.0) {
            Some(pane) => match pane.split_direction {
                Some(d) => (d, pane.first_child, pane.second_child, pane.layout),
                None => {
                    proof {
                        assert forall|k: u64| #[trigger] o.panes.contains_key(k) && k != root_id.0
                            implies !is_desc(o.panes, root_id.0, k) by {
                            if is_desc(o.panes, root_id.0, k) {
                                lemma_desc_through_child(o, root_id.0, k);
                            }
                        }
                        assert(o.panes.dom() =~= self@.panes.dom());
                    }
                    return ;
                },
            },
            None => return ,
        };
        let c1 = first.unwrap();
        let c2 = second.unwrap();
        let (first_layout, second_layout) = compute_split_layouts(layout, direction);
        proof {
            assert(o.pane_wf(c1.0));
            assert(o.pane_wf(c2.0));
        }

        match hash_map_get_mut(&mut self.panes, c1.0) {
            Some(pane) => pane.layout = first_layout,
            None => {},
        }
        let ghost s1 = self@;
        proof {
            assert(s1.panes.dom() =~= o.panes.dom());
            assert(same_parents(o.panes, s1.panes));
            assert forall|k: u64| #[trigger] s1.panes.contains_key(k) implies s1.pane_wf(k) by {
                assert(o.pane_wf(k));
            }
            assert(s1.wf());
        }
        self.recalculate_layouts(c1);
        let ghost s2 = self@;
        match hash_map_get_mut(&mut self.panes, c2.0) {
            Some(pane) => pane.layout = second_layout,
            None => {},
        }
        let ghost s3 = self@;
        proof {
            assert(same_parents(s1.panes, s2.panes));
            assert(s3.panes.dom() =~= o.panes.dom());
            assert(same_parents(o.panes, s3.panes));
            assert forall|k: u64| #[trigger] s3.panes.contains_key(k) implies s3.pane_wf(k) by {
                assert(s2.pane_wf(k));
            }
            assert(s3.wf());
        }
        self.recalculate_layouts(c2);
        proof {
            lemma_relaid_compose(o, s1.panes, s2.panes, s3.panes, self@.panes, root_id.0);
        }
    }

    /// Close a leaf pane. Its parent split collapses: the sibling takes the
    /// parent's place and layout, and the layouts below the sibling are
    /// recalculated. If the closed pane was active, some remaining leaf
    /// becomes active. Unknown panes and split panes are refused.
    pub fn close_pane(&mut self, id: PaneId) -> (r: bool)
        requires
            old(self)@.wf(),
        ensures
            old(self)@.close_pane_post(final(self)@, id, r),
            final(self)@.wf(),
    {
        let is_leaf = match self.panes.get(&id.0) {
            Some(pane) => pane.is_leaf(),
            None => false,
        };
        if !is_leaf {
            return false;
        }
        let sibling = self.collapse_leaf(id);
        let ghost mid_view = self@;
        match sibling {
            Some(s) => self.recalculate_layouts(s),
            None => {},
        }
        let ghost after_layouts = self@;
        let was_active = match self.active_pane {
            Some(a) => a.0 == id.0,
            None => false,
        };
        if was_active {
            let next_active = self.any_leaf();
            self.active_pane = next_active;
            match next_active {
                Some(a) => {
                    match hash_map_get_mut(&mut self.panes, a.0) {
                        Some(pane) => pane.is_active = true,
                        None => {},
                    }
                },
                None => {},
            }
        }
        proof {
            let v = self@;
            assert(v.panes.dom() =~= after_layouts.panes.dom());
            assert forall|k: u64| #[trigger] v.panes.contains_key(k) implies v.pane_wf(k) by {
                assert(after_layouts.pane_wf(k));
            }
            assert forall|k: u64| #[trigger] v.leaf_keys().contains(k) <==> after_layouts.leaf_keys().contains(k) by {
                if v.panes.contains_key(k) {
                    assert(after_layouts.panes.contains_key(k));
                }
            }
            assert(v.leaf_keys() =~= after_layouts.leaf_keys());
            let o = old(self)@;
            assert(after_layouts.leaf_keys() =~= mid_view.leaf_keys());
            assert(o.pane_wf(id.0));
            if let Some(p) = o.panes[id.0].parent {
                assert(o.pane_wf(p.0));
                let sib = sibling_of(o.panes, id.0)->Some_0.0;
                assert(o.pane_wf(sib));
                if let Some(g) = o.panes[p.0].parent {
                    assert(o.pane_wf(g.0));
                }
            }
            assert(mid_view.leaf_keys() =~= o.leaf_keys().remove(id.0));
            assert(o.leaf_keys().contains(id.0));
        }
        true
    }

    /// Navigate to the nearest leaf pane in the specified direction: among
    /// the leaves whose center lies in that direction from the active
    /// pane's center, one closest to it becomes active.
    pub fn navigate(&mut self, direction: Direction) -> (r: Option<PaneId>)
        requires
            old(self)@.wf(),
        ensures
            old(self)@.navigate_post(final(self)@, direction, r),
            final(self)@.wf(),
    {
        let current_id = match self.active_pane {
            Some(id) => id,
            None => return None,
        };
        let current = match self.panes.get(&current_id.0) {
            Some(p) => p.layout,
            None => return None,
        };
        proof {
            assert(self@.pane_wf(current_id.0));
        }
        let ghost v = self@;
        let ghost all = vstd::std_specs::hash::spec_keys_iter(&self.panes).remaining();
        let mut best: Option<(u64, u128)> = None;
        for k in it: self.panes.keys()
            invariant
                it.seq() == all,
                all.unref().to_set() == v.panes.dom(),
                v == self@,
                v.wf(),
                v.panes.contains_key(current_id.0),
                current == v.panes[current_id.0].layout,
                best matches Some(bp) ==> {
                    &&& v.is_candidate(current_id.0, direction, bp.0)
                    &&& bp.1 == distance4(current, v.panes[bp.0].layout)
                    &&& forall|j: int| 0 <= j < it.index() && v.is_candidate(current_id.0, direction, *all[j])
                        ==> bp.1 <= distance4(current, v.panes[*all[j]].layout)
                },
                best is None ==> forall|j: int| 0 <= j < it.index() ==> !v.is_candidate(
                    current_id.0,
                    direction,
                    *all[j],
                ),
        {
            let key = *k;
            if key != current_id.0 {
                match self.panes.get(&key) {
                    Some(pane) => {
                        if pane.is_leaf() {
                            proof {
                                assert(v.pane_wf(key));
                            }
                            if compute_in_direction(current, pane.layout, direction) {
                                let distance = compute_distance4(current, pane.layout);
                                let better = match best {
                                    Some(bp) => distance < bp.1,
                                    None => true,
                                };
                                if better {
                                    best = Some((key, distance));
                                }
                            }
                        }
                    },
                    None => {},
                }
            }
        }
        proof {
            assert forall|k: u64| #[trigger] v.is_candidate(current_id.0, direction, k) implies
                best is Some && distance4(current, v.panes[best->Some_0.0].layout) <= distance4(
                current,
                v.panes[k].layout,
            ) by {
                assert(all.unref().to_set().contains(k));
                let j = choose|j: int| 0 <= j < all.unref().len() && all.unref()[j] == k;
                assert(*all[j] == k);
            }
        }
        match best {
            Some((id, _)) => {
                self.set_active(PaneId(id));
                Some(PaneId(id))
            },
            None => None,
        }
    }

    /// Get all leaf panes (actual terminal panes), each once.
    pub fn leaf_panes(&self) -> (r: Vec<&Pane>)
        requires
            self@.wf(),
        ensures
            r@.len() == self@.leaf_keys().len(),
            forall|i: int| 0 <= i < r@.len() ==> self@.is_leaf_key(#[trigger] r@[i].id.0) && *r@[i]
                == self@.panes[r@[i].id.0],
            forall|k: u64| #[trigger] self@.leaf_keys().contains(k) ==> exists|i: int|
                0 <= i < r@.len() && r@[i].id.0 == k,
    {
        let ghost v = self@;
        let ghost all = vstd::std_specs::hash::spec_keys_iter(&self.panes).remaining();
        let ghost mut seen: Set<u64> = Set::empty();
        let mut out: Vec<&Pane> = Vec::new();
        for k in it: self.panes.keys()
            invariant
                it.seq() == all,
                all.unref().to_set() == v.panes.dom(),
                all.no_duplicates(),
                v == self@,
                v.wf(),
                seen.finite(),
                seen.len() == out@.len(),
                seen =~= Set::new(|key: u64| exists|j: int| 0 <= j < it.index() && *all[j] == key && v.is_leaf_key(key)),
                forall|i: int| 0 <= i < out@.len() ==> #[trigger] v.is_leaf_key(out@[i].id.0),
                forall|i: int| 0 <= i < out@.len() ==> *out@[i] == v.panes[#[trigger] out@[i].id.0],
                forall|i: int| 0 <= i < out@.len() ==> seen.contains(#[trigger] out@[i].id.0),
                forall|key: u64| #[trigger] seen.contains(key) ==> exists|i: int|
                    0 <= i < out@.len() && out@[i].id.0 == key,
        {
            let key = *k;
            let ghost old_out = out@;
            let ghost old_seen = seen;
            proof {
                assert(!seen.contains(key)) by {
                    if seen.contains(key) {
                        let j = choose|j: int| 0 <= j < it.index() && *all[j] == key && v.is_leaf_key(key);
                        assert(all[j] == all[it.index()]);
                    }
                }
            }
            match self.panes.get(&key) {
                Some(pane) => {
                    if pane.is_leaf() {
                        proof {
                            assert(v.pane_wf(key));
                            seen = seen.insert(key);
                        }
                        out.push(pane);
                        proof {
                            assert(out@[out@.len() - 1].id.0 == key);
                            assert forall|key2: u64| #[trigger] seen.contains(key2) implies exists|i: int|
                                0 <= i < out@.len() && out@[i].id.0 == key2 by {
                                if key2 == key {
                                    assert(out@[out@.len() - 1].id.0 == key2);
                                } else {
                                    assert(old_seen.contains(key2));
                                    let i = choose|i: int| 0 <= i < old_out.len() && old_out[i].id.0 == key2;
                                    assert(out@[i] == old_out[i]);
                                }
                            }
                            assert forall|i: int| 0 <= i < out@.len() implies v.is_leaf_key(#[trigger] out@[i].id.0) && *out@[i]
                                == v.panes[out@[i].id.0] && seen.contains(out@[i].id.0) by {
                                if i < old_out.len() {
                                    assert(out@[i] == old_out[i]);
                                }
                            }
                        }
                    }
                },
                None => {},
            }
            assert(seen =~= Set::new(|key2: u64| exists|j: int| 0 <= j < it.index() + 1 && *all[j] == key2 && v.is_leaf_key(key2)));
        }
        proof {
            assert forall|key: u64| v.leaf_keys().contains(key) <==> seen.contains(key) by {
                if v.leaf_keys().contains(key) {
                    assert(all.unref().to_set().contains(key));
                    let j = choose|j: int| 0 <= j < all.unref().len() && all.unref()[j] == key;
                    assert(*all[j] == key);
                }
            }
            assert(v.leaf_keys() =~= seen);
        }
        out
    }

    /// Get the number of leaf panes.
    pub fn len(&self) -> (n: usize)
        requires
            self@.wf(),
        ensures
            n == self@.leaf_keys().len(),
    {
        self.leaf_panes().len()
    }

    /// Check if there are no leaf panes.
    pub fn is_empty(&self) -> (r: bool)
        requires
            self@.wf(),
        ensures
            r == (self@.leaf_keys().len() == 0),
    {
        self.len() == 0
    }

    /// Get all leaf panes, in render order.
    pub fn visible_panes(&self) -> (r: Vec<&Pane>)
        requires
            self@.wf(),
        ensures
            r@.len() == self@.leaf_keys().len(),
            forall|i: int| 0 <= i < r@.len() ==> self@.is_leaf_key(#[trigger] r@[i].id.0) && *r@[i]
                == self@.panes[r@[i].id.0],
            forall|k: u64| #[trigger] self@.leaf_keys().contains(k) ==> exists|i: int|
                0 <= i < r@.len() && r@[i].id.0 == k,
    {
        self.leaf_panes()
    }

    /// Removes leaf `id` and, if it has a parent, collapses that split: the
    /// sibling takes the parent's place and layout. Returns the sibling.
    #[verifier::rlimit(60)]
    fn collapse_leaf(&mut self, id: PaneId) -> (sib: Option<PaneId>)
        requires
            old(self)@.wf(),
            old(self)@.is_leaf_key(id.0),
        ensures
            sib == sibling_of(old(self)@.panes, id.0),
            sib matches Some(s) ==> final(self)@.panes.contains_key(s.0),
            final(self)@.panes == collapsed(old(self)@.panes, id.0),
            final(self)@.root_pane == collapsed_root(old(self)@, id.0),
            final(self)@.active_pane == old(self)@.active_pane,
            final(self)@.next_id == old(self)@.next_id,
            final(self)@.border_width == old(self)@.border_width,
            final(self)@.active_border_color == old(self)@.active_border_color,
            final(self)@.inactive_border_color == old(self)@.inactive_border_color,
            final(self)@.wf(),
    {
        let ghost o = self@;
        proof {
            assert(o.pane_wf(id.0));
        }
        let parent_id = match self.panes.get(&id.0) {
            Some(pane) => pane.parent,
            None => None,
        };
        let pid = match parent_id {
            Some(p) => p,
            None => {
                self.panes.remove(&id.0);
                self.root_pane = None;
                proof {
                    let v = self@;
                    assert forall|k: u64| #[trigger] v.panes.contains_key(k) implies v.pane_wf(k) by {
                        assert(o.pane_wf(k));
                        if let Some(c) = o.panes[k].first_child {
                            assert(o.pane_wf(c.0));
                        }
                        if let Some(c) = o.panes[k].second_child {
                            assert(o.pane_wf(c.0));
                        }
                        if let Some(q) = o.panes[k].parent {
                            assert(o.pane_wf(q.0));
                        }
                    }
                }
                return None;
            },
        };
        proof {
            assert(o.pane_wf(pid.0));
        }
        let (sibling, parent_layout, grandparent) = match self.panes.get(&pid.0) {
            Some(parent) => {
                let s = if parent.first_child == Some(id) {
                    parent.second_child
                } else {
                    parent.first_child
                };
                (s.unwrap(), parent.layout, parent.parent)
            },
            None => return None,
        };
        proof {
            assert(o.pane_wf(sibling.0));
        }
        self.panes.remove(&id.0);
        match hash_map_get_mut(&mut self.panes, sibling.0) {
            Some(s) => {
                s.parent = grandparent;
                s.layout = parent_layout;
            },
            None => {},
        }
        match grandparent {
            Some(g) => {
                match hash_map_get_mut(&mut self.panes, g.0) {
                    Some(gp) => {
                        if gp.first_child == Some(pid) {
                            gp.first_child = Some(sibling);
                        } else {
                            gp.second_child = Some(sibling);
                        }
                    },
                    None => {},
                }
            },
            None => {
                self.root_pane = Some(sibling);
            },
        }
        self.panes.remove(&pid.0);
        proof {
            let v = self@;
            assert(v.panes =~= collapsed(o.panes, id.0));
            if let Some(g) = grandparent {
                assert(o.pane_wf(g.0));
            }
            assert forall|k: u64| #[trigger] v.panes.contains_key(k) implies v.pane_wf(k) by {
                assert(o.pane_wf(k));
                if let Some(c) = o.panes[k].first_child {
                    assert(o.pane_wf(c.0));
                }
                if let Some(c) = o.panes[k].second_child {
                    assert(o.pane_wf(c.0));
                }
                if let Some(q) = o.panes[k].parent {
                    assert(o.pane_wf(q.0));
                }
                if let Some(q) = v.panes[k].parent {
                    assert(o.pane_wf(q.0));
                }
            }
            if let Some(r) = o.root_pane {
                assert(o.pane_wf(r.0));
            }
        }
        Some(sibling)
    }

    /// Some leaf pane, if there is one.
    fn any_leaf(&self) -> (r: Option<PaneId>)
        ensures
            r is None <==> self@.leaf_keys() =~= Set::empty(),
            r matches Some(a) ==> self@.is_leaf_key(a.0),
    {
        let ghost all = vstd::std_specs::hash::spec_keys_iter(&self.panes).remaining();
        for k in it: self.panes.keys()
            invariant
                it.seq() == all,
                all.unref().to_set() == self@.panes.dom(),
                forall|j: int| 0 <= j < it.index() ==> !self@.is_leaf_key(*all[j]),
        {
            match self.panes.get(k) {
                Some(pane) => {
                    if pane.is_leaf() {
                        proof {
                            assert(self@.leaf_keys().contains(*k));
                        }
                        return Some(PaneId(*k));
                    }
                },
                None => {},
            }
        }
        proof {
            assert forall|k: u64| #[trigger] self@.leaf_keys().contains(k) implies false by {
                assert(all.unref().to_set().contains(k));
                let j = choose|j: int| 0 <= j < all.unref().len() && all.unref()[j] == k;
                assert(!self@.is_leaf_key(*all[j]));
            }
        }
        None
    }

    /// Get a reference to a pane.
    pub fn get(&self, id: PaneId) -> (r: Option<&Pane>)
        ensures
            r is Some <==> self@.panes.contains_key(id.0),
            r is Some ==> *r.unwrap() == self@.panes[id.0],
    {
        self.panes.get(&id.0)
    }

    /// Get a mutable reference to a pane.
    pub fn get_mut(&mut self, id: PaneId) -> (r: Option<&mut Pane>)
        ensures
            r is Some <==> old(self)@.panes.contains_key(id.0),
            r is Some ==> *r.unwrap() == old(self)@.panes[id.0],
            r is Some ==> final(self)@ == (PaneManagerView {
                panes: old(self)@.panes.insert(id.0, *final(r.unwrap())),
                ..old(self)@
            }),
            r is None ==> final(self)@ == old(self)@,
    {
        hash_map_get_mut(&mut self.panes, id.0)
    }

    /// Get the active pane ID.
    pub fn active_pane(&self) -> (r: Option<PaneId>)
        ensures
            r == self@.active_pane,
    {
        self.active_pane
    }

    /// Get a reference to the active pane.
    pub fn active(&self) -> (r: Option<&Pane>)
        ensures
            r is Some <==> (self@.active_pane matches Some(a) && self@.panes.contains_key(a.0)),
            r is Some ==> *r.unwrap() == self@.panes[self@.active_pane->Some_0.0],
    {
        match self.active_pane {
            Some(id) => self.panes.get(&id.0),
            None => None,
        }
    }

    /// Get a mutable reference to the active pane.
    pub fn active_mut(&mut self) -> (r: Option<&mut Pane>)
        ensures
            r is Some <==> (old(self)@.active_pane matches Some(a) && old(self)@.panes.contains_key(
                a.0,
            )),
            r is Some ==> *r.unwrap() == old(self)@.panes[old(self)@.active_pane->Some_0.0],
            r is Some ==> final(self)@ == (PaneManagerView {
                panes: old(self)@.panes.insert(
                    old(self)@.active_pane->Some_0.0,
                    *final(r.unwrap()),
                ),
                ..old(self)@
            }),
            r is None ==> final(self)@ == old(self)@,
    {
        match self.active_pane {
            Some(id) => hash_map_get_mut(&mut self.panes, id.0),
            None => None,
        }
    }

    /// Set the active pane: the previous active pane is marked inactive and
    /// `id` active. An unknown id is refused.
    pub fn set_active(&mut self, id: PaneId) -> (r: bool)
        ensures
            old(self)@.set_active_post(final(self)@, id, r),
            old(self)@.wf() ==> final(self)@.wf(),
    {
        if !self.panes.contains_key(&id.0) {
            return false;
        }
        match self.active_pane {
            Some(active) => {
                match hash_map_get_mut(&mut self.panes, active.0) {
                    Some(pane) => pane.is_active = false,
                    None => {},
                }
            },
            None => {},
        }
        match hash_map_get_mut(&mut self.panes, id.0) {
            Some(pane) => pane.is_active = true,
            None => {},
        }
        self.active_pane = Some(id);
        true
    }

    /// Resize a pane. Resizing is not implemented: nothing changes.
    pub fn resize_pane(&mut self, _id: PaneId, _direction: Direction, _amount_bits: u32)
        ensures
            final(self)@ == old(self)@,
    {
    }

    /// Get the root pane ID.
    pub fn root_pane(&self) -> (r: Option<PaneId>)
        ensures
            r == self@.root_pane,
    {
        self.root_pane
    }
}

impl PaneManagerView {
    /// The panes tile their split panes: every child covers its half of
    /// its parent, as the split made it.
    pub open spec fn tiled(self) -> bool {
        forall|k: u64| #[trigger] self.panes.contains_key(k) ==> (self.panes[k].parent matches Some(q)
            ==> self.panes[k].layout == slot_layout(self.panes[q.0], k))
    }

    /// Exactly the active pane is marked active.
    pub open spec fn flags_match_active(self) -> bool {
        forall|k: u64| #[trigger] self.panes.contains_key(k) ==> (self.panes[k].is_active
            <==> self.active_pane == Some(PaneId(k)))
    }
}

/// One pane of the tiling after a close.
#[verifier::rlimit(60)]
proof fn lemma_close_keeps_tiling_at(v: PaneManagerView, v2: PaneManagerView, id: PaneId, k: u64)
    requires
        v.wf(),
        v.tiled(),
        v.close_pane_post(v2, id, true),
        v2.wf(),
        v2.panes.contains_key(k),
    ensures
        v2.panes[k].parent matches Some(q) ==> v2.panes[k].layout == slot_layout(v2.panes[q.0], k),
{
    let mid = collapsed(v.panes, id.0);
    let sib = sibling_of(v.panes, id.0);
    assert(mid.contains_key(k));
    assert(v.pane_wf(id.0));
    assert(v2.pane_wf(k));
    match v.panes[id.0].parent {
        None => {
            assert(v.panes.contains_key(k));
            assert(v.pane_wf(k));
            if let Some(q) = v.panes[k].parent {
                assert(v.pane_wf(q.0));
                assert(mid.contains_key(q.0));
            }
        },
        Some(p) => {
            let pp = v.panes[p.0];
            assert(v.pane_wf(p.0));
            let s = sib->Some_0.0;
            assert(v.pane_wf(s));
            if let Some(g) = pp.parent {
                assert(v.pane_wf(g.0));
            }
            if k == s {
                match pp.parent {
                    None => {},
                    Some(g) => {
                        assert(mid.contains_key(g.0));
                        // The grandparent lies above the sibling, outside its subtree.
                        if is_desc(mid, s, g.0) {
                            lemma_desc_ge(mid, s, g.0);
                        }
                    },
                }
            } else if is_desc(mid, s, k) {
            } else {
                assert(v.panes.contains_key(k));
                assert(v.pane_wf(k));
                if let Some(q) = mid[k].parent {
                    assert(mid.contains_key(q.0));
                    assert(v2.pane_wf(q.0));
                    if q.0 != s && is_desc(mid, s, q.0) {
                        assert(q.0 < k);
                        assert(is_desc(mid, s, k));
                    }
                    if q.0 == s {
                        assert(is_desc(mid, s, s));
                        assert(is_desc(mid, s, k));
                    }
                    assert(v.pane_wf(q.0));
                }
            }
        },
    }
}

/// Closing a pane keeps the panes tiling their split panes: the promoted sibling
/// takes its removed parent's area and the subtree below it is laid out
/// again within it.
pub proof fn lemma_close_keeps_tiling(v: PaneManagerView, v2: PaneManagerView, id: PaneId)
    requires
        v.wf(),
        v.tiled(),
        v.close_pane_post(v2, id, true),
        v2.wf(),
    ensures
        v2.tiled(),
{
    assert forall|k: u64| #[trigger] v2.panes.contains_key(k) implies (v2.panes[k].parent matches Some(q)
        ==> v2.panes[k].layout == slot_layout(v2.panes[q.0], k)) by {
        lemma_close_keeps_tiling_at(v, v2, id, k);
    }
}

/// Splitting keeps the panes tiling their split panes.
pub proof fn lemma_split_keeps_tiling(v: PaneManagerView, v2: PaneManagerView, pane_id: PaneId, d: SplitDirection, new_terminal: u64, r: Option<PaneId>)
    requires
        v.wf(),
        v.tiled(),
        v.split_pane_post(v2, pane_id, d, new_terminal, r),
    ensures
        v2.tiled(),
{
    if r is Some {
        assert forall|k: u64| #[trigger] v2.panes.contains_key(k) implies (v2.panes[k].parent matches Some(q)
            ==> v2.panes[k].layout == slot_layout(v2.panes[q.0], k)) by {
            if k != v.next_id && k != v.next_id + 1 {
                assert(v.panes.contains_key(k));
                assert(v.pane_wf(k));
                if let Some(q) = v.panes[k].parent {
                    assert(v.panes.contains_key(q.0));
                    assert(v.pane_wf(q.0));
                }
            }
        }
    }
}

/// Splitting keeps exactly the active pane marked active: the new second
/// half is the active pane and the only one marked so.
pub proof fn lemma_split_keeps_one_active(v: PaneManagerView, v2: PaneManagerView, pane_id: PaneId, d: SplitDirection, new_terminal: u64, r: Option<PaneId>)
    requires
        v.wf(),
        v.flags_match_active(),
        v.split_pane_post(v2, pane_id, d, new_terminal, r),
    ensures
        v2.flags_match_active(),
{
    if r is Some {
        assert forall|k: u64| #[trigger] v2.panes.contains_key(k) implies (v2.panes[k].is_active
            <==> v2.active_pane == Some(PaneId(k))) by {
            if k != v.next_id && k != v.next_id + 1 && k != pane_id.0 {
                assert(v.panes.contains_key(k));
            }
        }
    }
}

/// Closing a pane keeps exactly the active pane marked active.
pub proof fn lemma_close_keeps_one_active(v: PaneManagerView, v2: PaneManagerView, id: PaneId, r: bool)
    requires
        v.wf(),
        v.flags_match_active(),
        v.close_pane_post(v2, id, r),
    ensures
        v2.flags_match_active(),
{
    if r {
        let mid = collapsed(v.panes, id.0);
        assert(v.pane_wf(id.0));
        assert forall|k: u64| #[trigger] v2.panes.contains_key(k) implies (v2.panes[k].is_active
            <==> v2.active_pane == Some(PaneId(k))) by {
            assert(mid.contains_key(k));
            if let Some(p) = v.panes[id.0].parent {
                assert(v.pane_wf(p.0));
                let s = sibling_of(v.panes, id.0)->Some_0.0;
                assert(v.pane_wf(s));
            }
            assert(v.panes.contains_key(k));
        }
    }
}

/// Making a pane active, or navigating to one, keeps exactly the active
/// pane marked active.
pub proof fn lemma_set_active_keeps_one_active(v: PaneManagerView, id: u64)
    requires
        v.flags_match_active(),
        v.panes.contains_key(id),
    ensures
        v.after_set_active(id).flags_match_active(),
{
}

/// Navigation moves the focus in the direction asked: a pane it moves to
/// is a leaf other than the active pane whose center lies strictly above
/// (Up), below (Down), left of (Left) or right of (Right) the active pane's
/// center, no such leaf is nearer, and it moves whenever such a leaf
/// exists. Centers are compared at twice their value, `2 * x + width` and
/// `2 * y + height`.
pub proof fn lemma_navigate_direction(v: PaneManagerView, post: PaneManagerView, d: Direction, r: Option<PaneId>, c: u64)
    requires
        v.wf(),
        v.navigate_post(post, d, r),
        v.active_pane == Some(PaneId(c)),
        v.panes.contains_key(c),
    ensures
        ({
            let cur = v.panes[c].layout;
            let lies = |q: PaneLayout| match d {
                Direction::Up => q.y * 2 + q.height < cur.y * 2 + cur.height,
                Direction::Down => cur.y * 2 + cur.height < q.y * 2 + q.height,
                Direction::Left => q.x * 2 + q.width < cur.x * 2 + cur.width,
                Direction::Right => cur.x * 2 + cur.width < q.x * 2 + q.width,
            };
            let dist = |l: PaneLayout| (2 * l.x + l.width - 2 * cur.x - cur.width) * (2 * l.x + l.width - 2
                * cur.x - cur.width) + (2 * l.y + l.height - 2 * cur.y - cur.height) * (2 * l.y + l.height
                - 2 * cur.y - cur.height);
            &&& r matches Some(b) ==> {
                &&& b.0 != c
                &&& v.panes.contains_key(b.0)
                &&& v.panes[b.0].first_child is None
                &&& v.panes[b.0].second_child is None
                &&& lies(v.panes[b.0].layout)
                &&& post.active_pane == Some(b)
                &&& forall|k: u64| #![trigger v.panes[k]] k != c && v.panes.contains_key(k)
                    && v.panes[k].first_child is None && v.panes[k].second_child is None
                    && lies(v.panes[k].layout) ==> dist(v.panes[b.0].layout) <= dist(
                    v.panes[k].layout,
                )
            }
            &&& (exists|k: u64| #![trigger v.panes[k]] k != c && v.panes.contains_key(k)
                && v.panes[k].first_child is None && v.panes[k].second_child is None
                && lies(v.panes[k].layout)) ==> r is Some
        }),
{
    let cur = v.panes[c].layout;
    let lies = |q: PaneLayout| match d {
        Direction::Up => q.y * 2 + q.height < cur.y * 2 + cur.height,
        Direction::Down => cur.y * 2 + cur.height < q.y * 2 + q.height,
        Direction::Left => q.x * 2 + q.width < cur.x * 2 + cur.width,
        Direction::Right => cur.x * 2 + cur.width < q.x * 2 + q.width,
    };
    assert forall|k: u64| v.panes.contains_key(k) implies (v.is_candidate(c, d, k) <==> (k != c
        && v.panes[k].first_child is None && v.panes[k].second_child is None && lies(
        v.panes[k].layout,
    ))) by {}
    if exists|k: u64| #![trigger v.panes[k]] k != c && v.panes.contains_key(k) && v.panes[k].first_child is None
        && v.panes[k].second_child is None && lies(v.panes[k].layout) {
        let k = choose|k: u64| #![trigger v.panes[k]] k != c && v.panes.contains_key(k)
            && v.panes[k].first_child is None && v.panes[k].second_child is None && lies(v.panes[k].layout);
        assert(v.is_candidate(c, d, k));
    }
    if let Some(b) = r {
        assert(v.is_candidate(c, d, b.0));
    }
}

/// Closing the pane that a split has just created undoes the split: the
/// close succeeds, the other half takes the split pane's place in the tree
/// with its whole area and terminal, as a leaf, and the number of leaves is
/// as before.
pub proof fn lemma_close_undoes_split(
    v: PaneManagerView,
    v1: PaneManagerView,
    v2: PaneManagerView,
    pane_id: PaneId,
    direction: SplitDirection,
    new_terminal: u64,
    new_pane: PaneId,
    r: bool,
)
    requires
        v.wf(),
        v.split_pane_post(v1, pane_id, direction, new_terminal, Some(new_pane)),
        v1.close_pane_post(v2, new_pane, r),
    ensures
        r,
        v2.leaf_keys().len() == v.leaf_keys().len(),
        ({
            let f = v.next_id;
            &&& v2.panes.contains_key(f)
            &&& v2.panes[f].spec_is_leaf()
            &&& v2.panes[f].layout == v.panes[pane_id.0].layout
            &&& v2.panes[f].parent == v.panes[pane_id.0].parent
            &&& v2.panes[f].window_id == v.panes[pane_id.0].window_id
            &&& v2.panes[f].terminal == v.panes[pane_id.0].terminal
            &&& !v2.panes.contains_key(pane_id.0)
            &&& !v2.panes.contains_key(new_pane.0)
            &&& v2.root_pane == if v.panes[pane_id.0].parent is None {
                Some(PaneId(f))
            } else {
                v.root_pane
            }
        }),
{
    let f = v.next_id;
    let sc = new_pane.0;
    let p = pane_id.0;
    assert(v.pane_wf(p));
    assert(v1.is_leaf_key(sc));
    assert(sibling_of(v1.panes, sc) == Some(PaneId(f)));
    assert(collapsed(v1.panes, sc).contains_key(f));
}

/// The states of the pane managers in `m`.
pub open spec fn manager_views(m: Map<u64, PaneManager>) -> Map<u64, PaneManagerView> {
    m.map_values(|pm: PaneManager| pm@)
}

/// The states of the pane managers have the same keys as the managers, and
/// follow their inserts and removals.
pub broadcast proof fn lemma_manager_views(m: Map<u64, PaneManager>)
    ensures
        #[trigger] manager_views(m).dom() == m.dom(),
        forall|k: u64| #[trigger] m.contains_key(k) ==> manager_views(m)[k] == m[k]@,
        forall|k: u64, v: PaneManager| #[trigger] manager_views(m.insert(k, v)) == manager_views(m).insert(k, v@),
        forall|k: u64| #[trigger] manager_views(m.remove(k)) == manager_views(m).remove(k),
{
    assert(manager_views(m).dom() =~= m.dom());
    assert forall|k: u64, v: PaneManager| #[trigger] manager_views(m.insert(k, v)) == manager_views(m).insert(k, v@) by {
        assert(manager_views(m.insert(k, v)) =~= manager_views(m).insert(k, v@));
    }
    assert forall|k: u64| #[trigger] manager_views(m.remove(k)) == manager_views(m).remove(k) by {
        assert(manager_views(m.remove(k)) =~= manager_views(m).remove(k));
    }
}


} // verus!
