//! Binary pane tree of a tab: split in four directions, collapse on close,
//! resize by ratio, and move focus by geometry.
//!
//! Split ratios are held in per-mille (share of the first child, out of
//! 1000) and frames in fixed-point units of `FRAME_UNIT` per tab extent.

use vstd::prelude::*;

use crate::ids;

verus! {

/// Side-by-side vs stacked children.
#[derive(Clone, Copy, Debug, PartialEq, Eq, Structural)]
pub enum SplitAxis {
    /// Left | Right
    Horizontal,
    /// Top / Bottom
    Vertical,
}

/// Where the new pane is placed relative to the focused leaf.
#[derive(Clone, Copy, Debug, PartialEq, Eq, Structural)]
pub enum SplitDirection {
    Left,
    Right,
    Up,
    Down,
}

impl SplitDirection {
    pub open spec fn spec_axis(self) -> SplitAxis {
        match self {
            SplitDirection::Left | SplitDirection::Right => SplitAxis::Horizontal,
            SplitDirection::Up | SplitDirection::Down => SplitAxis::Vertical,
        }
    }

    /// Left/Right split side by side; Up/Down stack.
    #[verifier::when_used_as_spec(spec_axis)]
    pub fn axis(self) -> (axis: SplitAxis)
        ensures
            axis == self.spec_axis(),
    {
        match self {
            SplitDirection::Left | SplitDirection::Right => SplitAxis::Horizontal,
            SplitDirection::Up | SplitDirection::Down => SplitAxis::Vertical,
        }
    }

    pub open spec fn spec_new_is_first(self) -> bool {
        self == SplitDirection::Left || self == SplitDirection::Up
    }

    /// If true, the new pane is the `first` child of the split.
    #[verifier::when_used_as_spec(spec_new_is_first)]
    pub fn new_is_first(self) -> (first: bool)
        ensures
            first == self.spec_new_is_first(),
    {
        match self {
            SplitDirection::Left | SplitDirection::Up => true,
            _ => false,
        }
    }
}

/// Per-mille denominator of a split ratio.
pub const RATIO_SCALE: u32 = 1000;

/// Smallest share of the first child (15%).
pub const RATIO_MIN: u32 = 150;

/// Largest share of the first child (85%).
pub const RATIO_MAX: u32 = 850;

/// Share given to each child of a fresh split (50%).
pub const RATIO_HALF: u32 = 500;

pub open spec fn spec_clamp_ratio(ratio: u32) -> u32 {
    if ratio < RATIO_MIN {
        RATIO_MIN
    } else if ratio > RATIO_MAX {
        RATIO_MAX
    } else {
        ratio
    }
}


/// Fixed-point units per tab extent (the whole tab is `FRAME_UNIT` wide and
/// high). Fine enough that every pane of a tree nested up to
/// `FRAME_SAFE_DEPTH` splits deep keeps a positive size.
pub const FRAME_UNIT: u128 = 1_000_000_000_000_000_000_000_000_000_000_000_000;

/// Nesting depth up to which no frame collapses (`7^42 <= FRAME_UNIT`).
pub const FRAME_SAFE_DEPTH: u32 = 42;

/// Minimum offset between doubled centers for a pane to count as lying in a
/// direction (a thousandth of the tab, doubled).
pub const DIRECTION_SLACK: u128 = 2_000_000_000_000_000_000_000_000_000_000_000;

/// Doubled-center units per step in which distances between panes are
/// measured (so that squared distances stay within 128 bits): a step is
/// half of 10^-18 of the tab.
pub const DISTANCE_STEP: u128 = 1_000_000_000_000_000_000;

/// Frame of a pane inside the tab content, in `FRAME_UNIT` units.
#[derive(Clone, Copy, Debug, PartialEq, Eq, Structural)]
pub struct PaneFrame {
    pub x: u128,
    pub y: u128,
    pub w: u128,
    pub h: u128,
}

impl PaneFrame {
    pub open spec fn valid(self) -> bool {
        self.x + self.w <= FRAME_UNIT && self.y + self.h <= FRAME_UNIT
    }

    /// The whole tab content.
    pub open spec fn full() -> PaneFrame {
        PaneFrame { x: 0, y: 0, w: FRAME_UNIT, h: FRAME_UNIT }
    }

    pub open spec fn center2(self) -> (int, int) {
        (2 * self.x + self.w, 2 * self.y + self.h)
    }

    /// Center of the frame in doubled units (`2x + w`, `2y + h`), so that it
    /// stays an integer.
    pub fn center(self) -> (c: (u128, u128))
        requires
            self.valid(),
        ensures
            c.0 == self.center2().0,
            c.1 == self.center2().1,
    {
        (2 * self.x + self.w, 2 * self.y + self.h)
    }
}

/// `other` lies in `direction` from `focus`: its center is past the focus
/// center by more than the slack along that direction's axis.
pub open spec fn in_direction(focus: PaneFrame, other: PaneFrame, direction: SplitDirection) -> bool {
    let (fx, fy) = focus.center2();
    let (cx, cy) = other.center2();
    match direction {
        SplitDirection::Left => cx + DIRECTION_SLACK < fx,
        SplitDirection::Right => cx > fx + DIRECTION_SLACK,
        SplitDirection::Up => cy + DIRECTION_SLACK < fy,
        SplitDirection::Down => cy > fy + DIRECTION_SLACK,
    }
}

/// Squared distance between the doubled centers, measured in whole
/// `DISTANCE_STEP`s (each coordinate rounded down to its step).
pub open spec fn dist2(a: PaneFrame, b: PaneFrame) -> int {
    let (ax, ay) = a.center2();
    let (bx, by) = b.center2();
    let (ax, ay, bx, by) = (
        ax / DISTANCE_STEP as int,
        ay / DISTANCE_STEP as int,
        bx / DISTANCE_STEP as int,
        by / DISTANCE_STEP as int,
    );
    (ax - bx) * (ax - bx) + (ay - by) * (ay - by)
}

/// `fi` is the first position of `id` among the frames.
pub open spec fn first_position(frames: Seq<(u128, PaneFrame)>, id: u128, fi: int) -> bool {
    &&& 0 <= fi < frames.len()
    &&& frames[fi].0 == id
    &&& forall|m: int| 0 <= m < fi ==> frames[m].0 != id
}

/// Frame `k` is another pane that lies in `direction` from frame `fi`.
pub open spec fn is_candidate(
    frames: Seq<(u128, PaneFrame)>,
    fi: int,
    k: int,
    focused: u128,
    direction: SplitDirection,
) -> bool {
    &&& 0 <= k < frames.len()
    &&& frames[k].0 != focused
    &&& in_direction(frames[fi].1, frames[k].1, direction)
}


/// Some first position of `id` exists when `id` occurs at `i`.
pub proof fn first_index_of(fr: Seq<(u128, PaneFrame)>, id: u128, i: int) -> (fi: int)
    requires
        0 <= i < fr.len(),
        fr[i].0 == id,
    ensures
        first_position(fr, id, fi),
    decreases i,
{
    if exists|m: int| 0 <= m < i && fr[m].0 == id {
        let m = choose|m: int| 0 <= m < i && fr[m].0 == id;
        first_index_of(fr, id, m)
    } else {
        i
    }
}

/// `w * r / 1000`, rounded down, computed without overflow.
fn split_share(w: u128, r: u128) -> (s: u128)
    requires
        w <= FRAME_UNIT,
        r <= 1000,
    ensures
        s == w * r / 1000,
{
    proof {
        lemma_split_share(w as int, r as int);
    }
    let q = w / 1000;
    let m = w % 1000;
    assert(q * r <= 1_000_000_000_000_000_000_000_000_000_000_000_000) by (nonlinear_arith)
        requires
            q <= 1_000_000_000_000_000_000_000_000_000_000_000,
            r <= 1000,
    ;
    assert(m * r < 1_000_000) by (nonlinear_arith)
        requires
            m < 1000,
            r <= 1000,
    ;
    q * r + m * r / 1000
}

proof fn lemma_split_share(w: int, r: int)
    requires
        0 <= w,
        0 <= r,
    ensures
        w * r / 1000 == (w / 1000) * r + (w % 1000) * r / 1000,
{
    let q = w / 1000;
    let m = w % 1000;
    vstd::arithmetic::div_mod::lemma_fundamental_div_mod(w, 1000);
    let mr = m * r;
    let q2 = mr / 1000;
    let m2 = mr % 1000;
    vstd::arithmetic::div_mod::lemma_fundamental_div_mod(mr, 1000);
    assert(w * r == (q * r + q2) * 1000 + m2) by (nonlinear_arith)
        requires
            w == 1000 * q + m,
            mr == m * r,
            mr == 1000 * q2 + m2,
    ;
    vstd::arithmetic::div_mod::lemma_fundamental_div_mod_converse_div(w * r, 1000, q * r + q2, m2);
}

#[derive(Debug)]
pub enum PaneLayout {
    Leaf(u128),
    Split {
        id: u128,
        axis: SplitAxis,
        /// Share of space for `first`, per mille (clamped on write).
        ratio: u32,
        first: Box<PaneLayout>,
        second: Box<PaneLayout>,
    },
}

impl Clone for PaneLayout {
    /// A copy of the whole tree.
    fn clone(&self) -> (c: Self)
        ensures
            c == *self,
        decreases self,
    {
        match self {
            PaneLayout::Leaf(id) => PaneLayout::Leaf(*id),
            PaneLayout::Split { id, axis, ratio, first, second } => {
                let f = (**first).clone();
                let s = (**second).clone();
                PaneLayout::Split { id: *id, axis: *axis, ratio: *ratio, first: Box::new(f), second: Box::new(s) }
            },
        }
    }
}

#[derive(Debug, PartialEq, Eq, Structural)]
pub enum RemoveResult {
    NotFound,
    RemovedRoot,
    Collapsed { focus: u128 },
}

impl PaneLayout {
    /// The pane ids of the leaves, left to right (first child before second).
    pub open spec fn leaves(self) -> Seq<u128>
        decreases self,
    {
        match self {
            PaneLayout::Leaf(id) => seq![id],
            PaneLayout::Split { first, second, .. } => first.leaves() + second.leaves(),
        }
    }

    /// How many splits deep the tree goes (0 for a single pane).
    pub open spec fn depth(self) -> nat
        decreases self,
    {
        match self {
            PaneLayout::Leaf(_) => 0,
            PaneLayout::Split { first, second, .. } => 1 + if first.depth() >= second.depth() {
                first.depth()
            } else {
                second.depth()
            },
        }
    }

    /// The ids of the split nodes, in pre-order.
    pub open spec fn split_ids(self) -> Seq<u128>
        decreases self,
    {
        match self {
            PaneLayout::Leaf(_) => Seq::empty(),
            PaneLayout::Split { id, first, second, .. } => seq![id] + first.split_ids()
                + second.split_ids(),
        }
    }

    pub proof fn lemma_leaves_nonempty(self)
        ensures
            self.leaves().len() >= 1,
        decreases self,
    {
        match self {
            PaneLayout::Leaf(_) => {},
            PaneLayout::Split { first, second, .. } => {
                first.lemma_leaves_nonempty();
            },
        }
    }

    pub fn leaf(id: u128) -> (layout: Self)
        ensures
            layout == PaneLayout::Leaf(id),
    {
        PaneLayout::Leaf(id)
    }

    /// Clamp a split ratio to 15%..85%.
    pub fn clamp_ratio(ratio: u32) -> (clamped: u32)
        ensures
            clamped == spec_clamp_ratio(ratio),
    {
        if ratio < RATIO_MIN {
            RATIO_MIN
        } else if ratio > RATIO_MAX {
            RATIO_MAX
        } else {
            ratio
        }
    }

    pub fn contains(&self, pane_id: u128) -> (found: bool)
        ensures
            found == self.leaves().contains(pane_id),
        decreases self,
    {
        match self {
            PaneLayout::Leaf(id) => {
                assert(self.leaves() =~= seq![*id]);
                if *id == pane_id {
                    assert(self.leaves()[0] == pane_id);
                    true
                } else {
                    false
                }
            },
            PaneLayout::Split { first, second, .. } => {
                let a = first.contains(pane_id);
                let b = second.contains(pane_id);
                proof {
                    let l = first.leaves();
                    let r = second.leaves();
                    if a {
                        let i = choose|i: int| 0 <= i < l.len() && l[i] == pane_id;
                        assert((l + r)[i] == pane_id);
                    }
                    if b {
                        let i = choose|i: int| 0 <= i < r.len() && r[i] == pane_id;
                        assert((l + r)[l.len() + i] == pane_id);
                    }
                    if (l + r).contains(pane_id) {
                        let i = choose|i: int| 0 <= i < (l + r).len() && (l + r)[i] == pane_id;
                        if i < l.len() {
                            assert(l[i] == pane_id);
                        } else {
                            assert(r[i - l.len()] == pane_id);
                        }
                    }
                }
                a || b
            },
        }
    }

    pub fn leaf_count(&self) -> (count: usize)
        requires
            self.leaves().len() <= usize::MAX,
        ensures
            count == self.leaves().len(),
        decreases self,
    {
        match self {
            PaneLayout::Leaf(_) => 1,
            PaneLayout::Split { first, second, .. } => {
                first.leaf_count() + second.leaf_count()
            },
        }
    }

    pub fn first_leaf(&self) -> (id: u128)
        ensures
            self.leaves().len() >= 1,
            id == self.leaves()[0],
        decreases self,
    {
        proof {
            self.lemma_leaves_nonempty();
        }
        match self {
            PaneLayout::Leaf(id) => *id,
            PaneLayout::Split { first, second, .. } => {
                let id = first.first_leaf();
                assert((first.leaves() + second.leaves())[0] == first.leaves()[0]);
                id
            },
        }
    }

    /// The tree after replacing the first leaf `target` (left to right) by a
    /// split `sid` holding `target` and `new_id`; unchanged when there is no
    /// such leaf.
    pub open spec fn split_spec(
        self,
        target: u128,
        direction: SplitDirection,
        new_id: u128,
        sid: u128,
    ) -> PaneLayout
        decreases self,
    {
        match self {
            PaneLayout::Leaf(id) => if id == target {
                let old = PaneLayout::Leaf(target);
                let fresh = PaneLayout::Leaf(new_id);
                if direction.spec_new_is_first() {
                    PaneLayout::Split {
                        id: sid,
                        axis: direction.spec_axis(),
                        ratio: RATIO_HALF,
                        first: Box::new(fresh),
                        second: Box::new(old),
                    }
                } else {
                    PaneLayout::Split {
                        id: sid,
                        axis: direction.spec_axis(),
                        ratio: RATIO_HALF,
                        first: Box::new(old),
                        second: Box::new(fresh),
                    }
                }
            } else {
                self
            },
            PaneLayout::Split { id, axis, ratio, first, second } => {
                if first.leaves().contains(target) {
                    PaneLayout::Split {
                        id,
                        axis,
                        ratio,
                        first: Box::new(first.split_spec(target, direction, new_id, sid)),
                        second,
                    }
                } else {
                    PaneLayout::Split {
                        id,
                        axis,
                        ratio,
                        first,
                        second: Box::new(second.split_spec(target, direction, new_id, sid)),
                    }
                }
            },
        }
    }

    /// Replace the first `target` leaf with a split (id `sid`, ratio 50%)
    /// holding `target` and `new_id`, the new pane first for Left/Up.
    /// Returns whether `target` was found.
    pub fn split_with_id(
        &mut self,
        target: u128,
        direction: SplitDirection,
        new_id: u128,
        sid: u128,
    ) -> (found: bool)
        ensures
            found == old(self).leaves().contains(target),
            *final(self) == old(self).split_spec(target, direction, new_id, sid),
        decreases *old(self),
    {
        let found = self.contains(target);
        if !found {
            proof {
                old(self).lemma_split_absent(target, direction, new_id, sid);
            }
            return false;
        }
        let mut taken = PaneLayout::Leaf(ids::NIL_ID);
        std::mem::swap(&mut taken, self);
        match taken {
            PaneLayout::Leaf(id) => {
                let old_leaf = PaneLayout::Leaf(target);
                let fresh = PaneLayout::Leaf(new_id);
                assert(taken.leaves()[0] == target);
                if direction.new_is_first() {
                    *self = PaneLayout::Split {
                        id: sid,
                        axis: direction.axis(),
                        ratio: RATIO_HALF,
                        first: Box::new(fresh),
                        second: Box::new(old_leaf),
                    };
                } else {
                    *self = PaneLayout::Split {
                        id: sid,
                        axis: direction.axis(),
                        ratio: RATIO_HALF,
                        first: Box::new(old_leaf),
                        second: Box::new(fresh),
                    };
                }
            },
            PaneLayout::Split { id, axis, ratio, first, second } => {
                let mut f = *first;
                let mut s = *second;
                if f.contains(target) {
                    f.split_with_id(target, direction, new_id, sid);
                } else {
                    s.split_with_id(target, direction, new_id, sid);
                }
                *self = PaneLayout::Split { id, axis, ratio, first: Box::new(f), second: Box::new(s) };
            },
        }
        true
    }

    /// Splitting at a pane that is not a leaf changes nothing.
    pub proof fn lemma_split_absent(
        self,
        target: u128,
        direction: SplitDirection,
        new_id: u128,
        sid: u128,
    )
        requires
            !self.leaves().contains(target),
        ensures
            self.split_spec(target, direction, new_id, sid) == self,
        decreases self,
    {
        match self {
            PaneLayout::Leaf(id) => {
                assert(self.leaves()[0] == id);
            },
            PaneLayout::Split { first, second, .. } => {
                lemma_concat_contains(first.leaves(), second.leaves(), target);
                second.lemma_split_absent(target, direction, new_id, sid);
            },
        }
    }


    pub open spec fn is_leaf_of(self, pane_id: u128) -> bool {
        self matches PaneLayout::Leaf(id) && id == pane_id
    }

    /// The tree and result after removing leaf `pane_id`: a split whose
    /// child is that leaf collapses into its other child, and the first leaf
    /// of that other child is the one to focus.
    pub open spec fn remove_spec(self, pane_id: u128) -> (PaneLayout, RemoveResult)
        decreases self,
    {
        match self {
            PaneLayout::Leaf(id) => if id == pane_id {
                (self, RemoveResult::RemovedRoot)
            } else {
                (self, RemoveResult::NotFound)
            },
            PaneLayout::Split { id, axis, ratio, first, second } => {
                if first.is_leaf_of(pane_id) {
                    (*second, RemoveResult::Collapsed { focus: second.leaves()[0] })
                } else if second.is_leaf_of(pane_id) {
                    (*first, RemoveResult::Collapsed { focus: first.leaves()[0] })
                } else {
                    let (f2, r1) = first.remove_spec(pane_id);
                    if r1 is NotFound {
                        let (s2, r2) = second.remove_spec(pane_id);
                        (PaneLayout::Split { id, axis, ratio, first, second: Box::new(s2) }, r2)
                    } else {
                        (PaneLayout::Split { id, axis, ratio, first: Box::new(f2), second }, r1)
                    }
                }
            },
        }
    }

    /// A removal that finds nothing leaves the tree as it was.
    pub proof fn lemma_remove_not_found_unchanged(self, pane_id: u128)
        ensures
            self.remove_spec(pane_id).1 is NotFound ==> self.remove_spec(pane_id).0 == self,
        decreases self,
    {
        match self {
            PaneLayout::Leaf(_) => {},
            PaneLayout::Split { first, second, .. } => {
                first.lemma_remove_not_found_unchanged(pane_id);
                second.lemma_remove_not_found_unchanged(pane_id);
            },
        }
    }

    /// Remove a leaf; collapses the parent split. Returns a sibling to focus,
    /// `RemovedRoot` when the whole tree is that leaf, `NotFound` otherwise.
    pub fn remove_leaf(&mut self, pane_id: u128) -> (result: RemoveResult)
        ensures
            (*final(self), result) == old(self).remove_spec(pane_id),
        decreases *old(self),
    {
        let mut taken = PaneLayout::Leaf(ids::NIL_ID);
        std::mem::swap(&mut taken, self);
        match taken {
            PaneLayout::Leaf(id) => {
                *self = PaneLayout::Leaf(id);
                if id == pane_id {
                    RemoveResult::RemovedRoot
                } else {
                    RemoveResult::NotFound
                }
            },
            PaneLayout::Split { id, axis, ratio, first, second } => {
                let mut f = *first;
                let mut s = *second;
                let first_is = match &f {
                    PaneLayout::Leaf(x) => *x == pane_id,
                    _ => false,
                };
                if first_is {
                    let focus = s.first_leaf();
                    *self = s;
                    return RemoveResult::Collapsed { focus };
                }
                let second_is = match &s {
                    PaneLayout::Leaf(x) => *x == pane_id,
                    _ => false,
                };
                if second_is {
                    let focus = f.first_leaf();
                    *self = f;
                    return RemoveResult::Collapsed { focus };
                }
                proof {
                    f.lemma_remove_not_found_unchanged(pane_id);
                }
                let r1 = f.remove_leaf(pane_id);
                match r1 {
                    RemoveResult::NotFound => {
                        let r2 = s.remove_leaf(pane_id);
                        *self = PaneLayout::Split {
                            id,
                            axis,
                            ratio,
                            first: Box::new(f),
                            second: Box::new(s),
                        };
                        r2
                    },
                    other => {
                        *self = PaneLayout::Split {
                            id,
                            axis,
                            ratio,
                            first: Box::new(f),
                            second: Box::new(s),
                        };
                        other
                    },
                }
            },
        }
    }

    /// The tree after setting the ratio of the first split `split_id`
    /// (pre-order) to the clamped `ratio`; unchanged when there is none.
    pub open spec fn set_ratio_spec(self, split_id: u128, ratio: u32) -> PaneLayout
        decreases self,
    {
        match self {
            PaneLayout::Leaf(_) => self,
            PaneLayout::Split { id, axis, ratio: r, first, second } => {
                if id == split_id {
                    PaneLayout::Split { id, axis, ratio: spec_clamp_ratio(ratio), first, second }
                } else if first.split_ids().contains(split_id) {
                    PaneLayout::Split {
                        id,
                        axis,
                        ratio: r,
                        first: Box::new(first.set_ratio_spec(split_id, ratio)),
                        second,
                    }
                } else {
                    PaneLayout::Split {
                        id,
                        axis,
                        ratio: r,
                        first,
                        second: Box::new(second.set_ratio_spec(split_id, ratio)),
                    }
                }
            },
        }
    }

    pub proof fn lemma_set_ratio_absent(self, split_id: u128, ratio: u32)
        requires
            !self.split_ids().contains(split_id),
        ensures
            self.set_ratio_spec(split_id, ratio) == self,
        decreases self,
    {
        match self {
            PaneLayout::Leaf(_) => {},
            PaneLayout::Split { id, first, second, .. } => {
                lemma_concat_contains(seq![id], first.split_ids(), split_id);
                lemma_concat_contains(seq![id] + first.split_ids(), second.split_ids(), split_id);
                assert(seq![id][0] == id);
                second.lemma_set_ratio_absent(split_id, ratio);
            },
        }
    }

    pub fn has_split(&self, split_id: u128) -> (found: bool)
        ensures
            found == self.split_ids().contains(split_id),
        decreases self,
    {
        match self {
            PaneLayout::Leaf(_) => false,
            PaneLayout::Split { id, first, second, .. } => {
                let a = first.has_split(split_id);
                let b = second.has_split(split_id);
                proof {
                    lemma_concat_contains(seq![*id], first.split_ids(), split_id);
                    lemma_concat_contains(seq![*id] + first.split_ids(), second.split_ids(), split_id);
                    assert(seq![*id][0] == *id);
                    assert(seq![*id].contains(split_id) ==> *id == split_id);
                }
                *id == split_id || a || b
            },
        }
    }

    /// Set the share of the split `split_id` (clamped to 15%..85%).
    /// Returns whether such a split exists.
    pub fn set_ratio(&mut self, split_id: u128, ratio: u32) -> (found: bool)
        ensures
            found == old(self).split_ids().contains(split_id),
            *final(self) == old(self).set_ratio_spec(split_id, ratio),
        decreases *old(self),
    {
        let found = self.has_split(split_id);
        if !found {
            proof {
                old(self).lemma_set_ratio_absent(split_id, ratio);
            }
            return false;
        }
        let mut taken = PaneLayout::Leaf(ids::NIL_ID);
        std::mem::swap(&mut taken, self);
        match taken {
            PaneLayout::Leaf(id) => {
                *self = PaneLayout::Leaf(id);
            },
            PaneLayout::Split { id, axis, ratio: r, first, second } => {
                if id == split_id {
                    *self = PaneLayout::Split {
                        id,
                        axis,
                        ratio: Self::clamp_ratio(ratio),
                        first,
                        second,
                    };
                } else {
                    let mut f = *first;
                    let mut s = *second;
                    if f.has_split(split_id) {
                        f.set_ratio(split_id, ratio);
                    } else {
                        s.set_ratio(split_id, ratio);
                    }
                    *self = PaneLayout::Split {
                        id,
                        axis,
                        ratio: r,
                        first: Box::new(f),
                        second: Box::new(s),
                    };
                }
            },
        }
        true
    }


    /// Frames of the leaves (left to right) when the tree fills `frame`:
    /// a horizontal split gives `first` the clamped share of the width, a
    /// vertical one of the height; `second` takes the rest.
    pub open spec fn frames_spec(self, frame: PaneFrame) -> Seq<(u128, PaneFrame)>
        decreases self,
    {
        match self {
            PaneLayout::Leaf(id) => seq![(id, frame)],
            PaneLayout::Split { axis, ratio, first, second, .. } => {
                let r = spec_clamp_ratio(ratio);
                match axis {
                    SplitAxis::Horizontal => {
                        let w1 = (frame.w * r / RATIO_SCALE as int) as u128;
                        first.frames_spec(PaneFrame { w: w1, ..frame }) + second.frames_spec(
                            PaneFrame { x: (frame.x + w1) as u128, w: (frame.w - w1) as u128, ..frame },
                        )
                    },
                    SplitAxis::Vertical => {
                        let h1 = (frame.h * r / RATIO_SCALE as int) as u128;
                        first.frames_spec(PaneFrame { h: h1, ..frame }) + second.frames_spec(
                            PaneFrame { y: (frame.y + h1) as u128, h: (frame.h - h1) as u128, ..frame },
                        )
                    },
                }
            },
        }
    }

    fn collect_frames_into(&self, frame: PaneFrame, out: &mut Vec<(u128, PaneFrame)>)
        requires
            frame.valid(),
        ensures
            final(out)@ == old(out)@ + self.frames_spec(frame),
        decreases self,
    {
        match self {
            PaneLayout::Leaf(id) => {
                out.push((*id, frame));
            },
            PaneLayout::Split { axis, ratio, first, second, .. } => {
                let r = Self::clamp_ratio(*ratio);
                match axis {
                    SplitAxis::Horizontal => {
                        assert(frame.w * r / 1000 <= frame.w) by (nonlinear_arith)
                            requires
                                r <= 1000,
                        ;
                        let w1 = split_share(frame.w, r as u128);
                        first.collect_frames_into(PaneFrame { w: w1, ..frame }, out);
                        second.collect_frames_into(
                            PaneFrame { x: frame.x + w1, w: frame.w - w1, ..frame },
                            out,
                        );
                    },
                    SplitAxis::Vertical => {
                        assert(frame.h * r / 1000 <= frame.h) by (nonlinear_arith)
                            requires
                                r <= 1000,
                        ;
                        let h1 = split_share(frame.h, r as u128);
                        first.collect_frames_into(PaneFrame { h: h1, ..frame }, out);
                        second.collect_frames_into(
                            PaneFrame { y: frame.y + h1, h: frame.h - h1, ..frame },
                            out,
                        );
                    },
                }
                assert(final(out)@ =~= old(out)@ + self.frames_spec(frame));
            },
        }
    }

    /// Frames of all leaves when the tree fills the whole tab.
    pub fn collect_frames(&self) -> (frames: Vec<(u128, PaneFrame)>)
        ensures
            frames@ == self.frames_spec(PaneFrame::full()),
    {
        let mut out = Vec::new();
        self.collect_frames_into(PaneFrame { x: 0, y: 0, w: FRAME_UNIT, h: FRAME_UNIT }, &mut out);
        assert(out@ =~= self.frames_spec(PaneFrame::full()));
        out
    }

    /// `next` is the nearest leaf whose center lies in `direction` from the
    /// focused leaf (the first such leaf among equals), or `None` when the
    /// focused pane has no frame or nothing lies that way.
    pub open spec fn is_adjacent_result(self, focused: u128, direction: SplitDirection, next: Option<u128>) -> bool {
        ({
            let fr = self.frames_spec(PaneFrame::full());
            &&& (forall|i: int| 0 <= i < fr.len() ==> fr[i].0 != focused) ==> next is None
            &&& forall|fi: int|
                #![trigger first_position(fr, focused, fi)]
                first_position(fr, focused, fi) ==> {
                    &&& (next is None <==> forall|k: int|
                        !is_candidate(fr, fi, k, focused, direction))
                    &&& (next matches Some(id) ==> exists|j: int|
                        #![trigger fr[j]]
                        {
                            &&& is_candidate(fr, fi, j, focused, direction)
                            &&& fr[j].0 == id
                            &&& forall|k: int|
                                is_candidate(fr, fi, k, focused, direction) ==> dist2(
                                    fr[fi].1,
                                    fr[j].1,
                                ) <= dist2(fr[fi].1, fr[k].1)
                            &&& forall|k: int|
                                0 <= k < j && is_candidate(fr, fi, k, focused, direction)
                                    ==> dist2(fr[fi].1, fr[j].1) < dist2(fr[fi].1, fr[k].1)
                        })
                }
        })
    }

    /// Nearest leaf whose center lies in `direction` from the focused leaf
    /// (first such leaf among equals).
    pub fn adjacent_leaf(&self, focused: u128, direction: SplitDirection) -> (next: Option<u128>)
        ensures
            self.is_adjacent_result(focused, direction, next),
    {
        let frames = self.collect_frames();
        let ghost fr = frames@;
        proof {
            self.lemma_frames_valid(PaneFrame::full());
        }
        let mut fi: usize = 0;
        while fi < frames.len() && frames[fi].0 != focused
            invariant
                fr == frames@,
                0 <= fi <= frames.len(),
                forall|m: int| 0 <= m < fi ==> fr[m].0 != focused,
            decreases frames.len() - fi,
        {
            fi += 1;
        }
        if fi == frames.len() {
            return None;
        }
        assert(first_position(fr, focused, fi as int));
        let focus_frame = frames[fi].1;
        let (fx, fy) = focus_frame.center();
        let mut best: Option<(u128, u128)> = None;
        let ghost mut bj: int = 0;
        let mut i: usize = 0;
        while i < frames.len()
            invariant
                fr == frames@,
                first_position(fr, focused, fi as int),
                focus_frame == fr[fi as int].1,
                fx == focus_frame.center2().0,
                fy == focus_frame.center2().1,
                forall|k: int| 0 <= k < fr.len() ==> (#[trigger] fr[k]).1.valid(),
                0 <= i <= frames.len(),
                best is None <==> forall|k: int|
                    0 <= k < i ==> !is_candidate(fr, fi as int, k, focused, direction),
                best matches Some((id, d)) ==> {
                    &&& 0 <= bj < i
                    &&& is_candidate(fr, fi as int, bj, focused, direction)
                    &&& fr[bj].0 == id
                    &&& d == dist2(focus_frame, fr[bj].1)
                    &&& forall|k: int|
                        0 <= k < i && is_candidate(fr, fi as int, k, focused, direction) ==> d
                            <= dist2(focus_frame, fr[k].1)
                    &&& forall|k: int|
                        0 <= k < bj && is_candidate(fr, fi as int, k, focused, direction) ==> d
                            < dist2(focus_frame, fr[k].1)
                },
            decreases frames.len() - i,
        {
            let (id, frame) = frames[i];
            assert(fr[i as int].1.valid());
            assert(focus_frame.valid());
            if id != focused {
                let (cx, cy) = frame.center();
                let ok = match direction {
                    SplitDirection::Left => cx + DIRECTION_SLACK < fx,
                    SplitDirection::Right => cx > fx + DIRECTION_SLACK,
                    SplitDirection::Up => cy + DIRECTION_SLACK < fy,
                    SplitDirection::Down => cy > fy + DIRECTION_SLACK,
                };
                assert(ok == in_direction(focus_frame, frame, direction));
                assert(ok == is_candidate(fr, fi as int, i as int, focused, direction));
                if ok {
                    let (gx, gy, hx, hy) = (
                        fx / DISTANCE_STEP,
                        fy / DISTANCE_STEP,
                        cx / DISTANCE_STEP,
                        cy / DISTANCE_STEP,
                    );
                    let dx: u128 = if hx >= gx { hx - gx } else { gx - hx };
                    let dy: u128 = if hy >= gy { hy - gy } else { gy - hy };
                    assert(dx * dx <= 4_000_000_000_000_000_000_000_000_000_000_000_000
                        && dy * dy <= 4_000_000_000_000_000_000_000_000_000_000_000_000)
                        by (nonlinear_arith)
                        requires
                            dx <= 2_000_000_000_000_000_000,
                            dy <= 2_000_000_000_000_000_000,
                    ;
                    let d = dx * dx + dy * dy;
                    assert(d == dist2(focus_frame, frame)) by (nonlinear_arith)
                        requires
                            d == dx * dx + dy * dy,
                            dx == if hx >= gx { hx - gx } else { gx - hx },
                            dy == if hy >= gy { hy - gy } else { gy - hy },
                            hx == frame.center2().0 / DISTANCE_STEP as int,
                            hy == frame.center2().1 / DISTANCE_STEP as int,
                            gx == focus_frame.center2().0 / DISTANCE_STEP as int,
                            gy == focus_frame.center2().1 / DISTANCE_STEP as int,
                    ;
                    let better = match best {
                        None => true,
                        Some((_, bd)) => d < bd,
                    };
                    if better {
                        best = Some((id, d));
                        proof {
                            bj = i as int;
                        }
                    }
                }
            } else {
                assert(!is_candidate(fr, fi as int, i as int, focused, direction));
            }
            proof {
                if best is Some {
                    assert(is_candidate(fr, fi as int, bj, focused, direction));
                }
            }
            i += 1;
        }
        match best {
            Some((id, _)) => Some(id),
            None => None,
        }
    }


    /// The leaf found in a direction is one of the tree's leaves.
    pub proof fn lemma_adjacent_is_leaf(self, focused: u128, direction: SplitDirection, next: Option<u128>)
        requires
            self.is_adjacent_result(focused, direction, next),
        ensures
            next matches Some(n) ==> self.leaves().contains(n) && n != focused,
    {
        let fr = self.frames_spec(PaneFrame::full());
        law_frames_follow_leaves(self, PaneFrame::full());
        if let Some(n) = next {
            if exists|i: int| 0 <= i < fr.len() && fr[i].0 == focused {
                let i0 = choose|i: int| 0 <= i < fr.len() && fr[i].0 == focused;
                let fi = first_index_of(fr, focused, i0);
                assert(first_position(fr, focused, fi));
                let j = choose|j: int|
                    #![trigger fr[j]]
                    {
                        &&& is_candidate(fr, fi, j, focused, direction)
                        &&& fr[j].0 == n
                        &&& forall|k: int|
                            is_candidate(fr, fi, k, focused, direction) ==> dist2(fr[fi].1, fr[j].1)
                                <= dist2(fr[fi].1, fr[k].1)
                        &&& forall|k: int|
                            0 <= k < j && is_candidate(fr, fi, k, focused, direction) ==> dist2(
                                fr[fi].1,
                                fr[j].1,
                            ) < dist2(fr[fi].1, fr[k].1)
                    };
                assert(self.leaves()[j] == n);
            }
        }
    }

    /// Every frame of a tree laid out in a valid frame is valid.
    pub proof fn lemma_frames_valid(self, frame: PaneFrame)
        requires
            frame.valid(),
        ensures
            forall|k: int|
                0 <= k < self.frames_spec(frame).len() ==> (#[trigger] self.frames_spec(
                    frame,
                )[k]).1.valid(),
        decreases self,
    {
        match self {
            PaneLayout::Leaf(_) => {},
            PaneLayout::Split { axis, ratio, first, second, .. } => {
                let r = spec_clamp_ratio(ratio);
                match axis {
                    SplitAxis::Horizontal => {
                        assert(frame.w * r / 1000 <= frame.w) by (nonlinear_arith)
                            requires
                                r <= 1000,
                        ;
                        let w1 = (frame.w * r / RATIO_SCALE as int) as u128;
                        let f1 = PaneFrame { w: w1, ..frame };
                        let f2 = PaneFrame { x: (frame.x + w1) as u128, w: (frame.w - w1) as u128, ..frame };
                        first.lemma_frames_valid(f1);
                        second.lemma_frames_valid(f2);
                        let a = first.frames_spec(f1);
                        let b = second.frames_spec(f2);
                        assert forall|k: int| 0 <= k < (a + b).len() implies (#[trigger] (a
                            + b)[k]).1.valid() by {
                            if k < a.len() {
                                assert((a + b)[k] == a[k]);
                            } else {
                                assert((a + b)[k] == b[k - a.len()]);
                            }
                        }
                    },
                    SplitAxis::Vertical => {
                        assert(frame.h * r / 1000 <= frame.h) by (nonlinear_arith)
                            requires
                                r <= 1000,
                        ;
                        let h1 = (frame.h * r / RATIO_SCALE as int) as u128;
                        let f1 = PaneFrame { h: h1, ..frame };
                        let f2 = PaneFrame { y: (frame.y + h1) as u128, h: (frame.h - h1) as u128, ..frame };
                        first.lemma_frames_valid(f1);
                        second.lemma_frames_valid(f2);
                        let a = first.frames_spec(f1);
                        let b = second.frames_spec(f2);
                        assert forall|k: int| 0 <= k < (a + b).len() implies (#[trigger] (a
                            + b)[k]).1.valid() by {
                            if k < a.len() {
                                assert((a + b)[k] == a[k]);
                            } else {
                                assert((a + b)[k] == b[k - a.len()]);
                            }
                        }
                    },
                }
            },
        }
    }

    /// Replace the `target` leaf with a split holding `target` and `new_id`
    /// (fresh split id). Returns whether `target` was found.
    pub fn split(&mut self, target: u128, direction: SplitDirection, new_id: u128) -> (found:
        bool)
        ensures
            found == old(self).leaves().contains(target),
            exists|sid: u128|
                sid != ids::NIL_ID && *final(self) == old(self).split_spec(
                    target,
                    direction,
                    new_id,
                    sid,
                ),
    {
        let sid = ids::new_id();
        proof {
            ids::lemma_marked_id_not_nil(sid);
        }
        self.split_with_id(target, direction, new_id, sid)
    }
}


/// `s` with its first `x` replaced by the sequence `r` (unchanged without `x`).
pub open spec fn replace_first(s: Seq<u128>, x: u128, r: Seq<u128>) -> Seq<u128>
    decreases s.len(),
{
    if s.len() == 0 {
        s
    } else if s[0] == x {
        r + s.drop_first()
    } else {
        seq![s[0]] + replace_first(s.drop_first(), x, r)
    }
}

proof fn lemma_replace_first_concat(a: Seq<u128>, b: Seq<u128>, x: u128, r: Seq<u128>)
    ensures
        replace_first(a + b, x, r) == if a.contains(x) {
            replace_first(a, x, r) + b
        } else {
            a + replace_first(b, x, r)
        },
    decreases a.len(),
{
    if a.len() == 0 {
        assert(a + b =~= b);
    } else {
        assert((a + b)[0] == a[0]);
        assert((a + b).drop_first() =~= a.drop_first() + b);
        lemma_replace_first_concat(a.drop_first(), b, x, r);
        if a[0] == x {
            assert(a.contains(x));
            assert(r + (a + b).drop_first() =~= r + a.drop_first() + b);
        } else {
            assert(a.contains(x) == a.drop_first().contains(x)) by {
                if a.contains(x) {
                    let i = choose|i: int| 0 <= i < a.len() && a[i] == x;
                    assert(a.drop_first()[i - 1] == x);
                }
                if a.drop_first().contains(x) {
                    let i = choose|i: int|
                        0 <= i < a.drop_first().len() && a.drop_first()[i] == x;
                    assert(a[i + 1] == x);
                }
            }
            if a.contains(x) {
                assert(seq![a[0]] + (replace_first(a.drop_first(), x, r) + b) =~= seq![a[0]]
                    + replace_first(a.drop_first(), x, r) + b);
            } else {
                assert(seq![a[0]] + (a.drop_first() + replace_first(b, x, r)) =~= a
                    + replace_first(b, x, r));
            }
        }
    }
}

/// Splitting a pane puts the pair of panes where the target leaf stood:
/// the leaves after `split` are the old leaves with the first `target`
/// replaced by `[new_id, target]` (Left/Up) or `[target, new_id]`
/// (Right/Down); without `target` the tree is unchanged.
pub proof fn law_split_leaves(
    t: PaneLayout,
    target: u128,
    direction: SplitDirection,
    new_id: u128,
    sid: u128,
)
    ensures
        t.split_spec(target, direction, new_id, sid).leaves() == replace_first(
            t.leaves(),
            target,
            if direction.spec_new_is_first() {
                seq![new_id, target]
            } else {
                seq![target, new_id]
            },
        ),
        !t.leaves().contains(target) ==> t.split_spec(target, direction, new_id, sid) == t,
    decreases t,
{
    let pair = if direction.spec_new_is_first() {
        seq![new_id, target]
    } else {
        seq![target, new_id]
    };
    if !t.leaves().contains(target) {
        t.lemma_split_absent(target, direction, new_id, sid);
        lemma_replace_first_absent(t.leaves(), target, pair);
    }
    match t {
        PaneLayout::Leaf(id) => {
            assert(t.leaves().drop_first() =~= Seq::<u128>::empty());
            if id == target {
                assert(pair + Seq::<u128>::empty() =~= pair);
                let l = if direction.spec_new_is_first() {
                    seq![new_id]
                } else {
                    seq![target]
                };
                let r = if direction.spec_new_is_first() {
                    seq![target]
                } else {
                    seq![new_id]
                };
                assert(l + r =~= pair);
                assert(t.leaves()[0] == target);
                assert(replace_first(t.leaves(), target, pair) == pair + t.leaves().drop_first());
                assert(PaneLayout::Leaf(new_id).leaves() =~= seq![new_id]);
                assert(PaneLayout::Leaf(target).leaves() =~= seq![target]);
                assert(t.split_spec(target, direction, new_id, sid).leaves() =~= l + r);
            } else {
                assert(replace_first(seq![id], target, pair) =~= seq![id] + replace_first(
                    Seq::<u128>::empty(),
                    target,
                    pair,
                ));
            }
        },
        PaneLayout::Split { first, second, .. } => {
            law_split_leaves(*first, target, direction, new_id, sid);
            law_split_leaves(*second, target, direction, new_id, sid);
            lemma_replace_first_concat(first.leaves(), second.leaves(), target, pair);
        },
    }
}


/// `replace_first` at the first occurrence `i` of `x`.
pub proof fn lemma_replace_first_at(s: Seq<u128>, x: u128, r: Seq<u128>, i: int)
    requires
        0 <= i < s.len(),
        s[i] == x,
        forall|k: int| 0 <= k < i ==> s[k] != x,
    ensures
        replace_first(s, x, r) == s.subrange(0, i) + r + s.subrange(i + 1, s.len() as int),
    decreases s.len(),
{
    if i == 0 {
        assert(s.drop_first() =~= s.subrange(1, s.len() as int));
        assert(s.subrange(0, 0) + r =~= r);
    } else {
        assert(s[0] != x);
        assert forall|k: int| 0 <= k < i - 1 implies s.drop_first()[k] != x by {
            assert(s.drop_first()[k] == s[k + 1]);
        }
        lemma_replace_first_at(s.drop_first(), x, r, i - 1);
        assert(seq![s[0]] + (s.drop_first().subrange(0, i - 1) + r + s.drop_first().subrange(
            i,
            s.drop_first().len() as int,
        )) =~= s.subrange(0, i) + r + s.subrange(i + 1, s.len() as int));
    }
}

/// Putting a new pane next to a leaf of distinct leaves keeps them distinct
/// and adds exactly the new pane.
pub proof fn lemma_replace_first_pair(s: Seq<u128>, x: u128, y: u128, y_first: bool)
    requires
        s.no_duplicates(),
        s.contains(x),
        !s.contains(y),
    ensures
        ({
            let r = replace_first(s, x, if y_first { seq![y, x] } else { seq![x, y] });
            &&& r.no_duplicates()
            &&& forall|z: u128| r.contains(z) <==> (s.contains(z) || z == y)
            &&& r.len() == s.len() + 1
        }),
{
    let i = choose|i: int| 0 <= i < s.len() && s[i] == x;
    assert forall|k: int| 0 <= k < i implies s[k] != x by {}
    let pair = if y_first { seq![y, x] } else { seq![x, y] };
    lemma_replace_first_at(s, x, pair, i);
    let a = s.subrange(0, i);
    let b = s.subrange(i + 1, s.len() as int);
    let r = a + pair + b;
    assert(r.len() == s.len() + 1);
    assert forall|z: u128| r.contains(z) <==> (s.contains(z) || z == y) by {
        if r.contains(z) {
            let k = choose|k: int| 0 <= k < r.len() && r[k] == z;
            if k < i {
                assert(s[k] == z);
            } else if k < i + 2 {
                if z != y {
                    assert(z == x);
                }
            } else {
                assert(r[k] == s[k - 1]);
            }
        }
        if s.contains(z) {
            let k = choose|k: int| 0 <= k < s.len() && s[k] == z;
            if k < i {
                assert(r[k] == z);
            } else if k == i {
                if y_first {
                    assert(r[i + 1] == z);
                } else {
                    assert(r[i] == z);
                }
            } else {
                assert(r[k + 1] == z);
            }
        }
        if z == y {
            if y_first {
                assert(r[i] == z);
            } else {
                assert(r[i + 1] == z);
            }
        }
    }
    // Map positions of r back to s (the new pane maps to none).
    assert forall|p: int, q: int| 0 <= p < r.len() && 0 <= q < r.len() && p != q implies r[p]
        != r[q] by {
        let sp = if p < i { p } else if p < i + 2 { i } else { p - 1 };
        let sq = if q < i { q } else if q < i + 2 { i } else { q - 1 };
        let p_new = (p == i && y_first) || (p == i + 1 && !y_first);
        let q_new = (q == i && y_first) || (q == i + 1 && !y_first);
        if p_new {
            assert(r[p] == y);
            if !q_new {
                assert(r[q] == s[sq]);
            }
        } else if q_new {
            assert(r[q] == y);
            assert(r[p] == s[sp]);
        } else {
            assert(r[p] == s[sp]);
            assert(r[q] == s[sq]);
            assert(sp != sq);
        }
    }
}

proof fn lemma_replace_first_absent(s: Seq<u128>, x: u128, r: Seq<u128>)
    requires
        !s.contains(x),
    ensures
        replace_first(s, x, r) == s,
    decreases s.len(),
{
    if s.len() > 0 {
        assert(s[0] != x) by {
            if s[0] == x {
                assert(s.contains(x));
            }
        }
        assert(!s.drop_first().contains(x)) by {
            if s.drop_first().contains(x) {
                let i = choose|i: int| 0 <= i < s.drop_first().len() && s.drop_first()[i] == x;
                assert(s[i + 1] == x);
            }
        }
        lemma_replace_first_absent(s.drop_first(), x, r);
        assert(seq![s[0]] + s.drop_first() =~= s);
    }
}

/// Removing a pane that is not in the tree finds nothing and changes nothing.
pub proof fn law_remove_absent(t: PaneLayout, pane_id: u128)
    requires
        !t.leaves().contains(pane_id),
    ensures
        t.remove_spec(pane_id) == (t, RemoveResult::NotFound),
    decreases t,
{
    match t {
        PaneLayout::Leaf(id) => {
            assert(t.leaves()[0] == id);
        },
        PaneLayout::Split { first, second, .. } => {
            lemma_concat_contains(first.leaves(), second.leaves(), pane_id);
            assert(first.leaves()[0] == first.leaves()[0]);
            if first.is_leaf_of(pane_id) {
                assert(first.leaves()[0] == pane_id);
                assert(first.leaves().contains(pane_id));
            }
            if second.is_leaf_of(pane_id) {
                assert(second.leaves()[0] == pane_id);
                assert(second.leaves().contains(pane_id));
            }
            law_remove_absent(*first, pane_id);
            law_remove_absent(*second, pane_id);
        },
    }
}

proof fn lemma_split_is_split(t: PaneLayout, target: u128, direction: SplitDirection, new_id: u128, sid: u128)
    requires
        t.leaves().contains(target),
    ensures
        t.split_spec(target, direction, new_id, sid) is Split,
{
}

/// Closing the pane that a split just created gives back the tree as it
/// was, and focus returns to the pane that was split.
pub proof fn law_split_then_remove(
    t: PaneLayout,
    target: u128,
    direction: SplitDirection,
    new_id: u128,
    sid: u128,
)
    requires
        t.leaves().contains(target),
        !t.leaves().contains(new_id),
    ensures
        t.split_spec(target, direction, new_id, sid).remove_spec(new_id) == (
            t,
            RemoveResult::Collapsed { focus: target },
        ),
    decreases t,
{
    match t {
        PaneLayout::Leaf(id) => {
            assert(t.leaves()[0] == id);
            assert(id == target);
            assert(target != new_id);
            assert(PaneLayout::Leaf(target).leaves()[0] == target);
        },
        PaneLayout::Split { id, axis, ratio, first, second } => {
            lemma_concat_contains(first.leaves(), second.leaves(), target);
            lemma_concat_contains(first.leaves(), second.leaves(), new_id);
            if second.is_leaf_of(new_id) {
                assert(second.leaves()[0] == new_id);
                assert(second.leaves().contains(new_id));
            }
            if first.is_leaf_of(new_id) {
                assert(first.leaves()[0] == new_id);
                assert(first.leaves().contains(new_id));
            }
            if first.leaves().contains(target) {
                lemma_split_is_split(*first, target, direction, new_id, sid);
                law_split_then_remove(*first, target, direction, new_id, sid);
            } else {
                lemma_split_is_split(*second, target, direction, new_id, sid);
                law_remove_absent(*first, new_id);
                law_split_then_remove(*second, target, direction, new_id, sid);
            }
        },
    }
}

/// With distinct leaves, removing a pane of a tree of two or more panes
/// collapses its split: the leaves are the old ones without that pane, and
/// the pane to focus is one of them. A tree that is that single pane
/// reports `RemovedRoot` and stays as it was.
pub proof fn law_remove_leaves(t: PaneLayout, pane_id: u128, i: int)
    requires
        t.leaves().no_duplicates(),
        0 <= i < t.leaves().len(),
        t.leaves()[i] == pane_id,
    ensures
        t.leaves().len() == 1 ==> t.remove_spec(pane_id) == (t, RemoveResult::RemovedRoot),
        t.leaves().len() > 1 ==> ({
            let (t2, r) = t.remove_spec(pane_id);
            &&& r matches RemoveResult::Collapsed { focus } && t2.leaves().contains(focus)
            &&& t2.leaves() == t.leaves().remove(i)
        }),
    decreases t,
{
    match t {
        PaneLayout::Leaf(id) => {},
        PaneLayout::Split { id, axis, ratio, first, second } => {
            let a = first.leaves();
            let b = second.leaves();
            first.lemma_leaves_nonempty();
            second.lemma_leaves_nonempty();
            assert(t.leaves() == a + b);
            if first.is_leaf_of(pane_id) {
                assert(a =~= seq![pane_id]);
                assert((a + b)[0] == pane_id);
                assert(i == 0);
                assert((a + b).remove(0) =~= b);
                assert(b.contains(b[0]));
            } else if second.is_leaf_of(pane_id) {
                assert(b =~= seq![pane_id]);
                assert((a + b)[a.len() as int] == pane_id);
                assert(i == a.len());
                assert((a + b).remove(i) =~= a);
                assert(a.contains(a[0]));
            } else if i < a.len() {
                assert((a + b)[i] == a[i]);
                assert(a.no_duplicates()) by {
                    assert forall|p: int, q: int| 0 <= p < a.len() && 0 <= q < a.len() && p != q
                        implies a[p] != a[q] by {
                        assert((a + b)[p] == a[p] && (a + b)[q] == a[q]);
                    }
                }
                assert(!b.contains(pane_id)) by {
                    if b.contains(pane_id) {
                        let k = choose|k: int| 0 <= k < b.len() && b[k] == pane_id;
                        assert((a + b)[a.len() + k] == pane_id);
                    }
                }
                assert(a.len() > 1) by {
                    if a.len() == 1 {
                        match *first {
                            PaneLayout::Leaf(x) => {
                                assert(a[0] == x);
                            },
                            PaneLayout::Split { first: f1, second: s1, .. } => {
                                f1.lemma_leaves_nonempty();
                                s1.lemma_leaves_nonempty();
                            },
                        }
                    }
                }
                law_remove_leaves(*first, pane_id, i);
                let (f2, r1) = first.remove_spec(pane_id);
                assert(f2.leaves() + b =~= (a + b).remove(i));
                lemma_concat_contains(f2.leaves(), b, f2.leaves()[0]);
                if let RemoveResult::Collapsed { focus } = r1 {
                    lemma_concat_contains(f2.leaves(), b, focus);
                }
            } else {
                let j = i - a.len();
                assert((a + b)[i] == b[j]);
                assert(b.no_duplicates()) by {
                    assert forall|p: int, q: int| 0 <= p < b.len() && 0 <= q < b.len() && p != q
                        implies b[p] != b[q] by {
                        assert((a + b)[a.len() + p] == b[p] && (a + b)[a.len() + q] == b[q]);
                    }
                }
                assert(!a.contains(pane_id)) by {
                    if a.contains(pane_id) {
                        let k = choose|k: int| 0 <= k < a.len() && a[k] == pane_id;
                        assert((a + b)[k] == pane_id);
                    }
                }
                assert(b.len() > 1) by {
                    if b.len() == 1 {
                        match *second {
                            PaneLayout::Leaf(x) => {
                                assert(b[0] == x);
                            },
                            PaneLayout::Split { first: f1, second: s1, .. } => {
                                f1.lemma_leaves_nonempty();
                                s1.lemma_leaves_nonempty();
                            },
                        }
                    }
                }
                law_remove_absent(*first, pane_id);
                law_remove_leaves(*second, pane_id, j);
                let (s2, r2) = second.remove_spec(pane_id);
                assert(a + s2.leaves() =~= (a + b).remove(i));
                if let RemoveResult::Collapsed { focus } = r2 {
                    lemma_concat_contains(a, s2.leaves(), focus);
                }
            }
        },
    }
}

/// Setting a ratio never changes which panes or splits the tree holds.
pub proof fn law_set_ratio_keeps_shape(t: PaneLayout, split_id: u128, ratio: u32)
    ensures
        t.set_ratio_spec(split_id, ratio).leaves() == t.leaves(),
        t.set_ratio_spec(split_id, ratio).split_ids() == t.split_ids(),
    decreases t,
{
    match t {
        PaneLayout::Leaf(_) => {},
        PaneLayout::Split { first, second, .. } => {
            law_set_ratio_keeps_shape(*first, split_id, ratio);
            law_set_ratio_keeps_shape(*second, split_id, ratio);
        },
    }
}

/// The layout gives every leaf exactly one frame, in leaf order.
pub proof fn law_frames_follow_leaves(t: PaneLayout, frame: PaneFrame)
    ensures
        t.frames_spec(frame).len() == t.leaves().len(),
        forall|k: int|
            0 <= k < t.leaves().len() ==> (#[trigger] t.frames_spec(frame)[k]).0 == t.leaves()[k],
    decreases t,
{
    match t {
        PaneLayout::Leaf(_) => {},
        PaneLayout::Split { axis, ratio, first, second, .. } => {
            let r = spec_clamp_ratio(ratio);
            let (f1, f2) = match axis {
                SplitAxis::Horizontal => {
                    let w1 = (frame.w * r / RATIO_SCALE as int) as u128;
                    (
                        PaneFrame { w: w1, ..frame },
                        PaneFrame { x: (frame.x + w1) as u128, w: (frame.w - w1) as u128, ..frame },
                    )
                },
                SplitAxis::Vertical => {
                    let h1 = (frame.h * r / RATIO_SCALE as int) as u128;
                    (
                        PaneFrame { h: h1, ..frame },
                        PaneFrame { y: (frame.y + h1) as u128, h: (frame.h - h1) as u128, ..frame },
                    )
                },
            };
            law_frames_follow_leaves(*first, f1);
            law_frames_follow_leaves(*second, f2);
            let a = first.frames_spec(f1);
            let b = second.frames_spec(f2);
            assert(t.frames_spec(frame) == a + b);
            assert forall|k: int| 0 <= k < t.leaves().len() implies (#[trigger] t.frames_spec(
                frame,
            )[k]).0 == t.leaves()[k] by {
                if k < a.len() {
                    assert((a + b)[k] == a[k]);
                    assert((first.leaves() + second.leaves())[k] == first.leaves()[k]);
                } else {
                    assert((a + b)[k] == b[k - a.len()]);
                    assert((first.leaves() + second.leaves())[k] == second.leaves()[k
                        - first.leaves().len()]);
                }
            }
        },
    }
}

/// An element is in a concatenation iff it is in one of the parts.
pub proof fn lemma_concat_contains<T>(a: Seq<T>, b: Seq<T>, x: T)
    ensures
        (a + b).contains(x) == (a.contains(x) || b.contains(x)),
{
    if a.contains(x) {
        let i = choose|i: int| 0 <= i < a.len() && a[i] == x;
        assert((a + b)[i] == x);
    }
    if b.contains(x) {
        let i = choose|i: int| 0 <= i < b.len() && b[i] == x;
        assert((a + b)[a.len() + i] == x);
    }
    if (a + b).contains(x) {
        let i = choose|i: int| 0 <= i < (a + b).len() && (a + b)[i] == x;
        if i < a.len() {
            assert(a[i] == x);
        } else {
            assert(b[i - a.len()] == x);
        }
    }
}

/// `7^d`.
pub open spec fn pow7(d: nat) -> nat
    decreases d,
{
    if d == 0 {
        1
    } else {
        7 * pow7((d - 1) as nat)
    }
}

proof fn lemma_pow7_mono(a: nat, b: nat)
    requires
        a <= b,
    ensures
        1 <= pow7(a) <= pow7(b),
    decreases b,
{
    if b > 0 {
        if a < b {
            lemma_pow7_mono(a, (b - 1) as nat);
        } else {
            lemma_pow7_mono((a - 1) as nat, (b - 1) as nat);
        }
    }
}

/// A split with a clamped ratio leaves both parts of an extent of at least
/// `7p` at least `p` long.
proof fn lemma_split_parts(w: int, r: int, p: int)
    requires
        150 <= r <= 850,
        p >= 0,
        w >= 7 * p,
    ensures
        w * r / 1000 >= p,
        w - w * r / 1000 >= p,
{
    assert(w * r >= 1050 * p) by (nonlinear_arith)
        requires
            r >= 150,
            w >= 7 * p,
            p >= 0,
    ;
    assert(w * r <= 850 * w) by (nonlinear_arith)
        requires
            r <= 850,
            w >= 0,
    ;
    assert(w * r / 1000 >= p) by (nonlinear_arith)
        requires
            w * r >= 1000 * p,
    ;
    assert(w * r / 1000 <= (850 * w) / 1000) by (nonlinear_arith)
        requires
            w * r <= 850 * w,
            w >= 0,
    ;
    assert(w - (850 * w) / 1000 >= p) by (nonlinear_arith)
        requires
            w >= 7 * p,
            p >= 0,
    ;
}

/// Laid out in a frame at least `7^depth` wide and high, every pane of the
/// tree gets a frame at least one unit wide and high.
pub proof fn lemma_frames_keep_size(t: PaneLayout, frame: PaneFrame)
    requires
        frame.valid(),
        frame.w >= pow7(t.depth()),
        frame.h >= pow7(t.depth()),
    ensures
        forall|k: int|
            0 <= k < t.frames_spec(frame).len() ==> (#[trigger] t.frames_spec(frame)[k]).1.w >= 1
                && t.frames_spec(frame)[k].1.h >= 1,
    decreases t,
{
    lemma_pow7_mono(0, t.depth());
    match t {
        PaneLayout::Leaf(_) => {},
        PaneLayout::Split { axis, ratio, first, second, .. } => {
            let r = spec_clamp_ratio(ratio);
            let d = t.depth();
            let p = pow7((d - 1) as nat);
            assert(pow7(d) == 7 * p);
            lemma_pow7_mono(first.depth(), (d - 1) as nat);
            lemma_pow7_mono(second.depth(), (d - 1) as nat);
            let (f1, f2) = match axis {
                SplitAxis::Horizontal => {
                    lemma_split_parts(frame.w as int, r as int, p as int);
                    assert(frame.w * r / 1000 <= frame.w) by (nonlinear_arith)
                        requires
                            r <= 1000,
                    ;
                    let w1 = (frame.w * r / RATIO_SCALE as int) as u128;
                    (
                        PaneFrame { w: w1, ..frame },
                        PaneFrame { x: (frame.x + w1) as u128, w: (frame.w - w1) as u128, ..frame },
                    )
                },
                SplitAxis::Vertical => {
                    lemma_split_parts(frame.h as int, r as int, p as int);
                    assert(frame.h * r / 1000 <= frame.h) by (nonlinear_arith)
                        requires
                            r <= 1000,
                    ;
                    let h1 = (frame.h * r / RATIO_SCALE as int) as u128;
                    (
                        PaneFrame { h: h1, ..frame },
                        PaneFrame { y: (frame.y + h1) as u128, h: (frame.h - h1) as u128, ..frame },
                    )
                },
            };
            lemma_frames_keep_size(*first, f1);
            lemma_frames_keep_size(*second, f2);
            let a = first.frames_spec(f1);
            let b = second.frames_spec(f2);
            assert(t.frames_spec(frame) == a + b);
            assert forall|k: int| 0 <= k < t.frames_spec(frame).len() implies (#[trigger] t.frames_spec(
                frame,
            )[k]).1.w >= 1 && t.frames_spec(frame)[k].1.h >= 1 by {
                if k < a.len() {
                    assert((a + b)[k] == a[k]);
                } else {
                    assert((a + b)[k] == b[k - a.len()]);
                }
            }
        },
    }
}

/// No pane of a tree nested at most `FRAME_SAFE_DEPTH` splits deep
/// collapses: every frame of the whole tab is at least one unit wide and
/// high, and lies inside the tab.
pub proof fn law_frames_keep_size(t: PaneLayout)
    requires
        t.depth() <= FRAME_SAFE_DEPTH,
    ensures
        forall|k: int|
            0 <= k < t.frames_spec(PaneFrame::full()).len() ==> {
                let f = (#[trigger] t.frames_spec(PaneFrame::full())[k]).1;
                &&& f.w >= 1
                &&& f.h >= 1
                &&& f.valid()
            },
{
    reveal_with_fuel(pow7, 43);
    assert(pow7(42) == 311973482284542371301330321821976049);
    lemma_pow7_mono(t.depth(), 42);
    lemma_frames_keep_size(t, PaneFrame::full());
    t.lemma_frames_valid(PaneFrame::full());
}

/// `f` lies within `outer`.
pub open spec fn inside(f: PaneFrame, outer: PaneFrame) -> bool {
    &&& outer.x <= f.x
    &&& f.x + f.w <= outer.x + outer.w
    &&& outer.y <= f.y
    &&& f.y + f.h <= outer.y + outer.h
}

/// `a` and `b` do not overlap: one lies wholly left of, right of, above or
/// below the other.
pub open spec fn apart(a: PaneFrame, b: PaneFrame) -> bool {
    a.x + a.w <= b.x || b.x + b.w <= a.x || a.y + a.h <= b.y || b.y + b.h <= a.y
}

/// Total area of the frames.
pub open spec fn area_sum(fs: Seq<(u128, PaneFrame)>) -> int
    decreases fs.len(),
{
    if fs.len() == 0 {
        0
    } else {
        area_sum(fs.drop_last()) + fs.last().1.w * fs.last().1.h
    }
}

proof fn lemma_area_sum_concat(a: Seq<(u128, PaneFrame)>, b: Seq<(u128, PaneFrame)>)
    ensures
        area_sum(a + b) == area_sum(a) + area_sum(b),
    decreases b.len(),
{
    if b.len() == 0 {
        assert(a + b =~= a);
    } else {
        lemma_area_sum_concat(a, b.drop_last());
        assert((a + b).drop_last() =~= a + b.drop_last());
    }
}

/// The frames of a tree laid out in `frame` tile it: each lies within it,
/// no two overlap, and their areas add up to its area.
pub proof fn lemma_frames_tile(t: PaneLayout, frame: PaneFrame)
    requires
        frame.valid(),
    ensures
        forall|k: int|
            0 <= k < t.frames_spec(frame).len() ==> inside(#[trigger] t.frames_spec(frame)[k].1, frame),
        forall|i: int, j: int|
            0 <= i < j < t.frames_spec(frame).len() ==> apart(
                #[trigger] t.frames_spec(frame)[i].1,
                #[trigger] t.frames_spec(frame)[j].1,
            ),
        area_sum(t.frames_spec(frame)) == frame.w * frame.h,
    decreases t,
{
    match t {
        PaneLayout::Leaf(id) => {
            let fs = t.frames_spec(frame);
            assert(fs.drop_last() =~= Seq::<(u128, PaneFrame)>::empty());
            assert(area_sum(fs.drop_last()) == 0);
            assert(fs.last().1 == frame);
        },
        PaneLayout::Split { axis, ratio, first, second, .. } => {
            let r = spec_clamp_ratio(ratio);
            let (f1, f2) = match axis {
                SplitAxis::Horizontal => {
                    assert(frame.w * r / 1000 <= frame.w) by (nonlinear_arith)
                        requires
                            r <= 1000,
                    ;
                    let w1 = (frame.w * r / RATIO_SCALE as int) as u128;
                    assert(w1 * frame.h + (frame.w - w1) * frame.h == frame.w * frame.h) by (nonlinear_arith);
                    (
                        PaneFrame { w: w1, ..frame },
                        PaneFrame { x: (frame.x + w1) as u128, w: (frame.w - w1) as u128, ..frame },
                    )
                },
                SplitAxis::Vertical => {
                    assert(frame.h * r / 1000 <= frame.h) by (nonlinear_arith)
                        requires
                            r <= 1000,
                    ;
                    let h1 = (frame.h * r / RATIO_SCALE as int) as u128;
                    assert(frame.w * h1 + frame.w * (frame.h - h1) == frame.w * frame.h) by (nonlinear_arith);
                    (
                        PaneFrame { h: h1, ..frame },
                        PaneFrame { y: (frame.y + h1) as u128, h: (frame.h - h1) as u128, ..frame },
                    )
                },
            };
            lemma_frames_tile(*first, f1);
            lemma_frames_tile(*second, f2);
            let a = first.frames_spec(f1);
            let b = second.frames_spec(f2);
            let fs = t.frames_spec(frame);
            assert(fs == a + b);
            lemma_area_sum_concat(a, b);
            assert forall|k: int| 0 <= k < fs.len() implies inside(#[trigger] fs[k].1, frame) by {
                if k < a.len() {
                    assert(fs[k] == a[k]);
                    assert(inside(a[k].1, f1));
                } else {
                    assert(fs[k] == b[k - a.len()]);
                    assert(inside(b[k - a.len()].1, f2));
                }
            }
            assert forall|i: int, j: int| 0 <= i < j < fs.len() implies apart(
                #[trigger] fs[i].1,
                #[trigger] fs[j].1,
            ) by {
                if j < a.len() {
                    assert(fs[i] == a[i] && fs[j] == a[j]);
                    assert(apart(a[i].1, a[j].1));
                } else if i >= a.len() {
                    assert(fs[i] == b[i - a.len()] && fs[j] == b[j - a.len()]);
                    assert(apart(b[i - a.len()].1, b[j - a.len()].1));
                } else {
                    assert(fs[i] == a[i] && fs[j] == b[j - a.len()]);
                    assert(inside(a[i].1, f1));
                    assert(inside(b[j - a.len()].1, f2));
                }
            }
        },
    }
}

/// The frames of the whole tab tile it: every pane's frame lies within the
/// tab, no two panes overlap, and their areas add up to the tab's area.
pub proof fn law_frames_tile(t: PaneLayout)
    ensures
        forall|k: int|
            0 <= k < t.frames_spec(PaneFrame::full()).len() ==> inside(
                #[trigger] t.frames_spec(PaneFrame::full())[k].1,
                PaneFrame::full(),
            ),
        forall|i: int, j: int|
            0 <= i < j < t.frames_spec(PaneFrame::full()).len() ==> apart(
                #[trigger] t.frames_spec(PaneFrame::full())[i].1,
                #[trigger] t.frames_spec(PaneFrame::full())[j].1,
            ),
        area_sum(t.frames_spec(PaneFrame::full())) == FRAME_UNIT * FRAME_UNIT,
{
    lemma_frames_tile(t, PaneFrame::full());
}

/// The ratio of the first split with id `sid` in the tree (pre-order).
pub open spec fn ratio_of(t: PaneLayout, sid: u128) -> Option<u32>
    decreases t,
{
    match t {
        PaneLayout::Leaf(_) => None,
        PaneLayout::Split { id, ratio, first, second, .. } => if id == sid {
            Some(ratio)
        } else {
            match ratio_of(*first, sid) {
                Some(r) => Some(r),
                None => ratio_of(*second, sid),
            }
        },
    }
}

proof fn lemma_ratio_of_absent(t: PaneLayout, sid: u128)
    requires
        !t.split_ids().contains(sid),
    ensures
        ratio_of(t, sid) is None,
    decreases t,
{
    if let PaneLayout::Split { id, first, second, .. } = t {
        assert(t.split_ids()[0] == id);
        assert forall|x: u128| first.split_ids().contains(x) implies t.split_ids().contains(x) by {
            let k = choose|k: int| 0 <= k < first.split_ids().len() && first.split_ids()[k] == x;
            assert(t.split_ids()[1 + k] == x);
        }
        assert forall|x: u128| second.split_ids().contains(x) implies t.split_ids().contains(x) by {
            let k = choose|k: int| 0 <= k < second.split_ids().len() && second.split_ids()[k] == x;
            assert(t.split_ids()[1 + first.split_ids().len() + k] == x);
        }
        lemma_ratio_of_absent(*first, sid);
        lemma_ratio_of_absent(*second, sid);
    }
}

/// Splitting a pane, in any direction, gives both panes half of the space:
/// the new split node's ratio is 500 per mille.
pub proof fn law_split_halves(t: PaneLayout, target: u128, direction: SplitDirection, new_id: u128, sid: u128)
    requires
        t.leaves().contains(target),
        !t.split_ids().contains(sid),
    ensures
        ratio_of(t.split_spec(target, direction, new_id, sid), sid) == Some(500u32),
    decreases t,
{
    if let PaneLayout::Split { id, axis, ratio, first, second } = t {
        assert(t.split_ids()[0] == id);
        assert forall|x: u128| first.split_ids().contains(x) implies t.split_ids().contains(x) by {
            let k = choose|k: int| 0 <= k < first.split_ids().len() && first.split_ids()[k] == x;
            assert(t.split_ids()[1 + k] == x);
        }
        assert forall|x: u128| second.split_ids().contains(x) implies t.split_ids().contains(x) by {
            let k = choose|k: int| 0 <= k < second.split_ids().len() && second.split_ids()[k] == x;
            assert(t.split_ids()[1 + first.split_ids().len() + k] == x);
        }
        if first.leaves().contains(target) {
            law_split_halves(*first, target, direction, new_id, sid);
        } else {
            let k = choose|k: int| 0 <= k < t.leaves().len() && t.leaves()[k] == target;
            assert(k >= first.leaves().len()) by {
                if k < first.leaves().len() {
                    assert(first.leaves()[k] == target);
                }
            }
            assert(second.leaves()[k - first.leaves().len()] == target);
            lemma_ratio_of_absent(*first, sid);
            law_split_halves(*second, target, direction, new_id, sid);
        }
    }
}

/// Splitting the only pane of a tab gives the two panes equal halves of
/// the tab: side by side for Left and Right, stacked for Up and Down.
pub proof fn law_split_single_pane_halves(target: u128, direction: SplitDirection, new_id: u128, sid: u128)
    ensures
        ({
            let fr = PaneLayout::Leaf(target).split_spec(target, direction, new_id, sid).frames_spec(
                PaneFrame::full(),
            );
            &&& fr.len() == 2
            &&& match direction {
                SplitDirection::Left | SplitDirection::Right => fr[0].1.w == FRAME_UNIT / 2 && fr[1].1.w
                    == FRAME_UNIT / 2 && fr[0].1.h == FRAME_UNIT && fr[1].1.h == FRAME_UNIT,
                SplitDirection::Up | SplitDirection::Down => fr[0].1.h == FRAME_UNIT / 2 && fr[1].1.h
                    == FRAME_UNIT / 2 && fr[0].1.w == FRAME_UNIT && fr[1].1.w == FRAME_UNIT,
            }
        }),
{
    let t2 = PaneLayout::Leaf(target).split_spec(target, direction, new_id, sid);
    let full = PaneFrame::full();
    let half: u128 = 500_000_000_000_000_000_000_000_000_000_000_000;
    assert(spec_clamp_ratio(500) == 500);
    assert(FRAME_UNIT * 500 / 1000 == half);
    let (a, b) = if direction.spec_new_is_first() {
        (new_id, target)
    } else {
        (target, new_id)
    };
    assert(t2 == PaneLayout::Split {
        id: sid,
        axis: direction.spec_axis(),
        ratio: 500,
        first: Box::new(PaneLayout::Leaf(a)),
        second: Box::new(PaneLayout::Leaf(b)),
    });
    let (f1, f2) = match direction.spec_axis() {
        SplitAxis::Horizontal => (PaneFrame { w: half, ..full }, PaneFrame { x: half, w: half, ..full }),
        SplitAxis::Vertical => (PaneFrame { h: half, ..full }, PaneFrame { y: half, h: half, ..full }),
    };
    assert(PaneLayout::Leaf(a).frames_spec(f1) == seq![(a, f1)]);
    assert(PaneLayout::Leaf(b).frames_spec(f2) == seq![(b, f2)]);
    assert(t2.frames_spec(full) == seq![(a, f1)] + seq![(b, f2)]);
    assert((seq![(a, f1)] + seq![(b, f2)])[0] == (a, f1));
    assert((seq![(a, f1)] + seq![(b, f2)])[1] == (b, f2));
}

/// Dragging the sash of split `sid` sets its share, kept between 15% and
/// 85%: the share asked for when it lies in that range, else the nearer
/// bound.
pub proof fn law_set_ratio_clamps(t: PaneLayout, sid: u128, ratio: u32)
    requires
        t.split_ids().contains(sid),
    ensures
        ratio_of(t.set_ratio_spec(sid, ratio), sid) == Some(
            if ratio < 150 {
                150u32
            } else if ratio > 850 {
                850u32
            } else {
                ratio
            },
        ),
    decreases t,
{
    if let PaneLayout::Split { id, first, second, .. } = t {
        if id != sid {
            let k = choose|k: int| 0 <= k < t.split_ids().len() && t.split_ids()[k] == sid;
            assert(k != 0);
            if first.split_ids().contains(sid) {
                law_set_ratio_clamps(*first, sid, ratio);
            } else {
                assert(k >= 1 + first.split_ids().len()) by {
                    if k < 1 + first.split_ids().len() {
                        assert(first.split_ids()[k - 1] == sid);
                    }
                }
                assert(second.split_ids()[k - 1 - first.split_ids().len()] == sid);
                lemma_ratio_of_absent(*first, sid);
                law_set_ratio_clamps(*second, sid, ratio);
            }
        }
    }
}

} // verus!
