use vstd::prelude::*;

verus! {

/// Bound on coordinate magnitudes. Keeping every rectangle edge within this
/// range lets all edge arithmetic (unions, intersections, output transforms,
/// placement offsets) stay inside `i32` without overflow.
pub const COORD_LIMIT: i32 = 0x2000_0000;

/// An axis-aligned rectangle in integer pixels: origin `(x, y)`, extent
/// `(w, h)`. It covers the half-open coordinate ranges `x .. x + w` and
/// `y .. y + h`; a rectangle with a zero extent covers nothing.
#[derive(Clone, Copy, PartialEq, Eq, Structural, Debug)]
pub struct Rect {
    pub x: i32,
    pub y: i32,
    pub w: i32,
    pub h: i32,
}

impl Rect {
    /// Well-formed: non-negative extent and every edge within `COORD_LIMIT`.
    pub open spec fn wf(self) -> bool {
        &&& 0 <= self.w
        &&& 0 <= self.h
        &&& -COORD_LIMIT <= self.x
        &&& -COORD_LIMIT <= self.y
        &&& self.x + self.w <= COORD_LIMIT
        &&& self.y + self.h <= COORD_LIMIT
    }

    pub open spec fn right(self) -> int {
        self.x + self.w
    }

    pub open spec fn bottom(self) -> int {
        self.y + self.h
    }

    /// The point `(px, py)` lies inside `self`.
    pub open spec fn covers(self, px: int, py: int) -> bool {
        self.x <= px < self.right() && self.y <= py < self.bottom()
    }

    /// The two point sets intersect. Touching edges do not count as overlap.
    pub open spec fn spec_overlaps(self, other: Rect) -> bool {
        &&& self.x < other.right()
        &&& other.x < self.right()
        &&& self.y < other.bottom()
        &&& other.y < self.bottom()
    }

    /// Every point of `inner` lies inside `self`; true for any empty `inner`
    /// whose origin and edges sit within `self`'s closed bounds.
    pub open spec fn spec_contains_rect(self, inner: Rect) -> bool {
        &&& inner.x >= self.x
        &&& inner.y >= self.y
        &&& inner.right() <= self.right()
        &&& inner.bottom() <= self.bottom()
    }

    /// The smallest rectangle containing both `self` and `other`
    /// (their bounding box).
    pub open spec fn spec_merge(self, other: Rect) -> Rect {
        let nx = if self.x <= other.x { self.x } else { other.x };
        let ny = if self.y <= other.y { self.y } else { other.y };
        let nr = if self.right() >= other.right() { self.right() } else { other.right() };
        let nb = if self.bottom() >= other.bottom() { self.bottom() } else { other.bottom() };
        Rect { x: nx, y: ny, w: (nr - nx) as i32, h: (nb - ny) as i32 }
    }

    /// The common part of `self` and `other`; meaningful only when they
    /// overlap.
    pub open spec fn spec_intersection(self, other: Rect) -> Rect {
        let nx = if self.x >= other.x { self.x } else { other.x };
        let ny = if self.y >= other.y { self.y } else { other.y };
        let nr = if self.right() <= other.right() { self.right() } else { other.right() };
        let nb = if self.bottom() <= other.bottom() { self.bottom() } else { other.bottom() };
        Rect { x: nx, y: ny, w: (nr - nx) as i32, h: (nb - ny) as i32 }
    }

    pub fn overlaps(&self, other: &Rect) -> (r: bool)
        requires
            self.wf(),
            other.wf(),
        ensures
            r == self.spec_overlaps(*other),
    {
        self.x < other.x + other.w && other.x < self.x + self.w && self.y < other.y + other.h
            && other.y < self.y + self.h
    }

    pub fn contains_rect(&self, inner: &Rect) -> (r: bool)
        requires
            self.wf(),
            inner.wf(),
        ensures
            r == self.spec_contains_rect(*inner),
    {
        inner.x >= self.x && inner.y >= self.y && inner.x + inner.w <= self.x + self.w && inner.y
            + inner.h <= self.y + self.h
    }

    /// Bounding box of `self` and `other`.
    pub fn merge(&self, other: &Rect) -> (r: Rect)
        requires
            self.wf(),
            other.wf(),
        ensures
            r == self.spec_merge(*other),
            r.wf(),
            r.spec_contains_rect(*self),
            r.spec_contains_rect(*other),
    {
        let nx: i32 = if self.x <= other.x { self.x } else { other.x };
        let ny: i32 = if self.y <= other.y { self.y } else { other.y };
        let sr: i32 = self.x + self.w;
        let ob: i32 = other.x + other.w;
        let nr: i32 = if sr >= ob { sr } else { ob };
        let sb: i32 = self.y + self.h;
        let obb: i32 = other.y + other.h;
        let nb: i32 = if sb >= obb { sb } else { obb };
        Rect { x: nx, y: ny, w: nr - nx, h: nb - ny }
    }

    /// The overlap of `self` and `other`, or `None` when the point sets are
    /// disjoint.
    pub fn intersection(&self, other: &Rect) -> (r: Option<Rect>)
        requires
            self.wf(),
            other.wf(),
        ensures
            match r {
                Some(i) => self.spec_overlaps(*other) && i == self.spec_intersection(*other)
                    && i.wf() && self.spec_contains_rect(i) && other.spec_contains_rect(i),
                None => !self.spec_overlaps(*other),
            },
    {
        if !self.overlaps(other) {
            return None;
        }
        let nx: i32 = if self.x >= other.x { self.x } else { other.x };
        let ny: i32 = if self.y >= other.y { self.y } else { other.y };
        let sr: i32 = self.x + self.w;
        let or: i32 = other.x + other.w;
        let nr: i32 = if sr <= or { sr } else { or };
        let sb: i32 = self.y + self.h;
        let ob: i32 = other.y + other.h;
        let nb: i32 = if sb <= ob { sb } else { ob };
        Some(Rect { x: nx, y: ny, w: nr - nx, h: nb - ny })
    }
}

/// Two rectangles of positive extent overlap exactly when some point lies
/// in both: the arithmetic overlap test agrees with the point-set reading.
pub proof fn lemma_overlaps_iff_common_point(a: Rect, b: Rect)
    requires
        a.wf(),
        b.wf(),
        a.w > 0,
        a.h > 0,
        b.w > 0,
        b.h > 0,
    ensures
        a.spec_overlaps(b) <==> exists|px: int, py: int| a.covers(px, py) && b.covers(px, py),
{
    if a.spec_overlaps(b) {
        let px = if a.x >= b.x { a.x as int } else { b.x as int };
        let py = if a.y >= b.y { a.y as int } else { b.y as int };
        assert(a.covers(px, py) && b.covers(px, py));
    }
}

/// The intersection of two overlapping rectangles covers exactly the
/// points both cover.
pub proof fn lemma_intersection_covers(a: Rect, b: Rect, px: int, py: int)
    requires
        a.wf(),
        b.wf(),
        a.spec_overlaps(b),
    ensures
        a.spec_intersection(b).covers(px, py) == (a.covers(px, py) && b.covers(px, py)),
{
}

/// Overlap is symmetric.
pub proof fn lemma_overlaps_sym(a: Rect, b: Rect)
    ensures
        a.spec_overlaps(b) == b.spec_overlaps(a),
{
}

/// Containment is transitive.
pub proof fn lemma_contains_trans(a: Rect, b: Rect, c: Rect)
    requires
        a.spec_contains_rect(b),
        b.spec_contains_rect(c),
    ensures
        a.spec_contains_rect(c),
{
}

/// Merging is monotone: the bounding box of two rectangles contained in
/// `outer` is still contained in `outer`.
pub proof fn lemma_merge_contained(outer: Rect, a: Rect, b: Rect)
    requires
        outer.spec_contains_rect(a),
        outer.spec_contains_rect(b),
    ensures
        outer.spec_contains_rect(a.spec_merge(b)),
{
}

/// The eight ways a rendering target can rotate or flip its contents.
#[derive(Clone, Copy, PartialEq, Eq, Structural, Debug)]
pub enum Transform {
    Normal,
    Rot90,
    Rot180,
    Rot270,
    Flipped,
    Flipped90,
    Flipped180,
    Flipped270,
}

impl Transform {
    /// Whether the transform swaps the two axes.
    pub open spec fn spec_swaps_axes(self) -> bool {
        self is Rot90 || self is Rot270 || self is Flipped90 || self is Flipped270
    }

    /// Where a rectangle lands when the plane it lies in, of size
    /// `(area_w, area_h)`, is rotated or flipped by `self`.
    pub open spec fn spec_transform_rect(self, rect: Rect, area_w: i32, area_h: i32) -> Rect {
        let w = if self.spec_swaps_axes() { rect.h } else { rect.w };
        let h = if self.spec_swaps_axes() { rect.w } else { rect.h };
        let x = match self {
            Transform::Normal => rect.x as int,
            Transform::Rot90 => area_h - rect.y - rect.h,
            Transform::Rot180 => area_w - rect.x - rect.w,
            Transform::Rot270 => rect.y as int,
            Transform::Flipped => area_w - rect.x - rect.w,
            Transform::Flipped90 => area_h - rect.y - rect.h,
            Transform::Flipped180 => rect.x as int,
            Transform::Flipped270 => rect.y as int,
        };
        let y = match self {
            Transform::Normal => rect.y as int,
            Transform::Rot90 => rect.x as int,
            Transform::Rot180 => area_h - rect.y - rect.h,
            Transform::Rot270 => area_w - rect.x - rect.w,
            Transform::Flipped => rect.y as int,
            Transform::Flipped90 => area_w - rect.x - rect.w,
            Transform::Flipped180 => area_h - rect.y - rect.h,
            Transform::Flipped270 => rect.x as int,
        };
        Rect { x: x as i32, y: y as i32, w: w, h: h }
    }

    /// Transforms a rectangle lying inside an area of size
    /// `(area_w, area_h)`. The result lies inside the transformed area.
    pub fn transform_rect_in(&self, rect: &Rect, area_w: i32, area_h: i32) -> (r: Rect)
        requires
            rect.wf(),
            0 <= area_w <= COORD_LIMIT,
            0 <= area_h <= COORD_LIMIT,
            rect.right() <= area_w,
            rect.bottom() <= area_h,
            rect.x >= 0,
            rect.y >= 0,
        ensures
            r == self.spec_transform_rect(*rect, area_w, area_h),
            r.wf(),
            r.x >= 0,
            r.y >= 0,
            r.right() <= if self.spec_swaps_axes() { area_h as int } else { area_w as int },
            r.bottom() <= if self.spec_swaps_axes() { area_w as int } else { area_h as int },
    {
        let (w, h): (i32, i32) = match self {
            Transform::Rot90 | Transform::Rot270 | Transform::Flipped90 | Transform::Flipped270 => (
                rect.h,
                rect.w,
            ),
            _ => (rect.w, rect.h),
        };
        let x: i32 = match self {
            Transform::Normal => rect.x,
            Transform::Rot90 => area_h - rect.y - rect.h,
            Transform::Rot180 => area_w - rect.x - rect.w,
            Transform::Rot270 => rect.y,
            Transform::Flipped => area_w - rect.x - rect.w,
            Transform::Flipped90 => area_h - rect.y - rect.h,
            Transform::Flipped180 => rect.x,
            Transform::Flipped270 => rect.y,
        };
        let y: i32 = match self {
            Transform::Normal => rect.y,
            Transform::Rot90 => rect.x,
            Transform::Rot180 => area_h - rect.y - rect.h,
            Transform::Rot270 => area_w - rect.x - rect.w,
            Transform::Flipped => rect.y,
            Transform::Flipped90 => area_w - rect.x - rect.w,
            Transform::Flipped180 => area_h - rect.y - rect.h,
            Transform::Flipped270 => rect.x,
        };
        Rect { x, y, w, h }
    }
}

} // verus!
