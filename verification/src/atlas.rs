//! Texture atlas allocator: packs variable-sized texture rectangles into a
//! bounded number of fixed-size layers, with a one-pixel separation border
//! between neighbouring allocations so that filtering never bleeds.
//!
//! The allocator carves free rectangles guillotine-style: an allocation
//! splits a free rectangle into the allocated part, a remainder to its right
//! and a remainder below it. Live allocations within one layer are pairwise
//! disjoint and lie inside the layer bounds; that invariant is part of
//! [`Atlas::wf`] and is restated by [`lemma_atlas_allocations_disjoint`].

use vstd::prelude::*;
use vstd::pervasive::VecAdditionalExecFns;
use crate::ATLAS_SIZE;

verus! {

/// Upper bound on the number of atlas layers the allocator may grow to.
pub const MAX_ATLAS_LAYERS: u32 = 16;

/// An axis-aligned rectangle in atlas pixel space. `min` is inclusive and
/// `max` is exclusive: the rectangle covers the pixels with
/// `min_x <= x < max_x` and `min_y <= y < max_y`.
#[derive(Debug, Clone, Copy, PartialEq, Eq, Structural)]
pub struct Rect {
    pub min_x: u32,
    pub min_y: u32,
    pub max_x: u32,
    pub max_y: u32,
}

impl Rect {
    pub open spec fn spec_width(self) -> int {
        self.max_x - self.min_x
    }

    pub open spec fn spec_height(self) -> int {
        self.max_y - self.min_y
    }

    /// Width of the rectangle in pixels.
    pub fn width(&self) -> (r: u32)
        requires
            self.min_x <= self.max_x,
        ensures
            r == self.spec_width(),
    {
        self.max_x - self.min_x
    }

    /// Height of the rectangle in pixels.
    pub fn height(&self) -> (r: u32)
        requires
            self.min_y <= self.max_y,
        ensures
            r == self.spec_height(),
    {
        self.max_y - self.min_y
    }
}

/// The rectangle lies inside the atlas layer bounds and its corners are
/// ordered.
pub open spec fn rect_valid(r: Rect) -> bool {
    r.min_x <= r.max_x <= ATLAS_SIZE && r.min_y <= r.max_y <= ATLAS_SIZE
}

/// The rectangle covers at least one pixel.
pub open spec fn rect_nonempty(r: Rect) -> bool {
    r.min_x < r.max_x && r.min_y < r.max_y
}

/// The pixel (x, y) lies inside the rectangle.
pub open spec fn rect_contains_point(r: Rect, x: int, y: int) -> bool {
    r.min_x <= x < r.max_x && r.min_y <= y < r.max_y
}

/// The two rectangles share no pixel: they are separated along one axis, or
/// one of them is empty.
pub open spec fn rects_disjoint(a: Rect, b: Rect) -> bool {
    ||| a.max_x <= b.min_x
    ||| b.max_x <= a.min_x
    ||| a.max_y <= b.min_y
    ||| b.max_y <= a.min_y
    ||| !rect_nonempty(a)
    ||| !rect_nonempty(b)
}

/// `inner` lies entirely inside `outer`.
pub open spec fn rect_within(inner: Rect, outer: Rect) -> bool {
    outer.min_x <= inner.min_x && inner.max_x <= outer.max_x && outer.min_y <= inner.min_y
        && inner.max_y <= outer.max_y
}

/// The padded footprint of a returned rectangle: one extra pixel on the far
/// edges keeps neighbouring allocations a pixel apart.
pub open spec fn rect_pad(r: Rect) -> Rect {
    Rect { min_x: r.min_x, min_y: r.min_y, max_x: (r.max_x + 1) as u32, max_y: (r.max_y + 1) as u32 }
}

/// A free rectangle can hold a `w` by `h` allocation.
pub open spec fn rect_fits(r: Rect, w: int, h: int) -> bool {
    r.max_x - r.min_x >= w && r.max_y - r.min_y >= h
}

/// The allocated part of a carve: `w` by `h` at the free rectangle's origin.
pub open spec fn carve_alloc(f: Rect, w: u32, h: u32) -> Rect {
    Rect { min_x: f.min_x, min_y: f.min_y, max_x: (f.min_x + w) as u32, max_y: (f.min_y + h) as u32 }
}

/// The free remainder to the right of the allocated part.
pub open spec fn carve_right(f: Rect, w: u32, h: u32) -> Rect {
    Rect { min_x: (f.min_x + w) as u32, min_y: f.min_y, max_x: f.max_x, max_y: (f.min_y + h) as u32 }
}

/// The free remainder below the allocated part, spanning the full width.
pub open spec fn carve_bottom(f: Rect, h: u32) -> Rect {
    Rect { min_x: f.min_x, min_y: (f.min_y + h) as u32, max_x: f.max_x, max_y: f.max_y }
}

/// Disjoint rectangles share no pixel.
pub proof fn lemma_disjoint_no_common_point(a: Rect, b: Rect, x: int, y: int)
    requires
        rects_disjoint(a, b),
        rect_contains_point(a, x, y),
    ensures
        !rect_contains_point(b, x, y),
{
}

/// A rectangle inside `outer` is disjoint from everything `outer` is
/// disjoint from.
pub proof fn lemma_within_disjoint(inner: Rect, outer: Rect, other: Rect)
    requires
        rect_within(inner, outer),
        rects_disjoint(outer, other),
    ensures
        rects_disjoint(inner, other),
{
}

/// The entry belongs to an existing layer and its rectangle is in bounds.
pub open spec fn entry_ok(e: (u32, Rect), num_layers: u32) -> bool {
    e.0 < num_layers && rect_valid(e.1)
}

/// The allocator's invariant, over the free list, the live allocations
/// (padded footprints) and the layer count: every entry names an existing
/// layer and lies inside the layer bounds, live allocations are nonempty,
/// and any two entries of the same layer are pairwise disjoint, whether
/// free or allocated.
pub open spec fn atlas_inv(free: Seq<(u32, Rect)>, taken: Seq<(u32, Rect)>, num_layers: u32) -> bool {
    &&& 1 <= num_layers <= MAX_ATLAS_LAYERS
    &&& forall|i: int| 0 <= i < free.len() ==> entry_ok(#[trigger] free[i], num_layers)
    &&& forall|i: int|
        0 <= i < taken.len() ==> entry_ok(#[trigger] taken[i], num_layers) && rect_nonempty(
            taken[i].1,
        )
    &&& forall|i: int, j: int|
        #![trigger free[i], free[j]]
        0 <= i < j < free.len() && free[i].0 == free[j].0 ==> rects_disjoint(free[i].1, free[j].1)
    &&& forall|i: int, j: int|
        #![trigger taken[i], taken[j]]
        0 <= i < j < taken.len() && taken[i].0 == taken[j].0 ==> rects_disjoint(
            taken[i].1,
            taken[j].1,
        )
    &&& forall|i: int, j: int|
        #![trigger free[i], taken[j]]
        0 <= i < free.len() && 0 <= j < taken.len() && free[i].0 == taken[j].0
            ==> rects_disjoint(free[i].1, taken[j].1)
}

/// Packs rectangles into up to [`MAX_ATLAS_LAYERS`] layers of
/// [`ATLAS_SIZE`] by [`ATLAS_SIZE`] pixels each.
pub struct Atlas {
    /// Free rectangles, each tagged with the layer it belongs to.
    pub free: Vec<(u32, Rect)>,
    /// Padded footprints of the live allocations, in allocation order,
    /// each tagged with its layer.
    pub taken: Vec<(u32, Rect)>,
    /// Number of layers in use so far.
    pub num_layers: u32,
}

impl Atlas {
    /// The allocator's invariant; see [`atlas_inv`].
    pub open spec fn wf(self) -> bool {
        atlas_inv(self.free@, self.taken@, self.num_layers)
    }

    /// Some allocation of `width` by `height` pixels can still succeed:
    /// the padded footprint fits in some free rectangle, or a fresh layer
    /// may still be added.
    pub open spec fn can_allocate(self, width: u32, height: u32) -> bool {
        &&& width < ATLAS_SIZE

        &&& height < ATLAS_SIZE

        &&& ((exists|i: int|
            0 <= i < self.free@.len() && rect_fits(
                #[trigger] self.free@[i].1,
                width + 1,
                height + 1,
            )) || self.num_layers < MAX_ATLAS_LAYERS)
    }

    /// A fresh allocator with a single empty layer.
    pub fn new() -> (r: Atlas)
        ensures
            r.wf(),
            r.taken@.len() == 0,
            r.num_layers == 1,
            r.can_allocate(0, 0),
    {
        let full = Rect { min_x: 0, min_y: 0, max_x: ATLAS_SIZE, max_y: ATLAS_SIZE };
        let mut free: Vec<(u32, Rect)> = Vec::new();
        free.push((0, full));
        let r = Atlas { free, taken: Vec::new(), num_layers: 1 };
        proof {
            assert(r.free@[0].1 == full);
            assert(rect_fits(r.free@[0].1, 1int, 1int));
        }
        r
    }

    /// First free rectangle that can hold a `w` by `h` footprint, if any.
    fn find_fit(&self, w: u32, h: u32) -> (r: Option<usize>)
        requires
            self.wf(),
        ensures
            match r {
                Some(i) => i < self.free@.len() && rect_fits(self.free@[i as int].1, w as int, h as int),
                None => forall|i: int|
                    0 <= i < self.free@.len() ==> !rect_fits(#[trigger] self.free@[i].1, w as int, h as int),
            },
    {
        let n = self.free.len();
        let mut i: usize = 0;
        while i < n
            invariant
                n == self.free@.len(),
                i <= n,
                self.wf(),
                forall|j: int| 0 <= j < i ==> !rect_fits(#[trigger] self.free@[j].1, w as int, h as int),
            decreases n - i,
        {
            let e = self.free[i];
            if e.1.max_x - e.1.min_x >= w && e.1.max_y - e.1.min_y >= h {
                return Some(i);
            }
            i = i + 1;
        }
        None
    }

    /// Allocates a `width` by `height` rectangle, trying every free
    /// rectangle of the existing layers first and growing by a fresh layer
    /// when none fits. Succeeds exactly when [`Atlas::can_allocate`] held;
    /// the returned rectangle lies inside its layer and its padded
    /// footprint is recorded and disjoint from every other live allocation
    /// of that layer.
    pub fn allocate(&mut self, width: u32, height: u32) -> (r: Option<(u32, Rect)>)
        requires
            old(self).wf(),
        ensures
            final(self).wf(),
            r is Some <==> old(self).can_allocate(width, height),
            r is None ==> *final(self) == *old(self),
            // a fresh layer is added only when no existing free rectangle fits
            final(self).num_layers != old(self).num_layers ==> {
                &&& final(self).num_layers == old(self).num_layers + 1
                &&& forall|i: int|
                    0 <= i < old(self).free@.len() ==> !rect_fits(
                        (#[trigger] old(self).free@[i]).1,
                        width + 1,
                        height + 1,
                    )
            },
            r matches Some((layer, rect)) ==> {
                &&& layer < final(self).num_layers
                &&& final(self).num_layers >= old(self).num_layers
                &&& final(self).free@.len() >= 1
                &&& final(self).taken@ == old(self).taken@.push((layer, rect_pad(rect)))
                &&& rect.max_x - rect.min_x == width
                &&& rect.max_y - rect.min_y == height
                &&& rect.max_x < ATLAS_SIZE
                &&& rect.max_y < ATLAS_SIZE
                &&& rect_valid(rect)
            },
    {
        if width >= ATLAS_SIZE || height >= ATLAS_SIZE {
            return None;
        }
        let w = width + 1;
        let h = height + 1;
        let i: usize = match self.find_fit(w, h) {
            Some(i) => i,
            None => {
                if self.num_layers < MAX_ATLAS_LAYERS {
                    let layer = self.num_layers;
                    let full = Rect { min_x: 0, min_y: 0, max_x: ATLAS_SIZE, max_y: ATLAS_SIZE };
                    self.num_layers = layer + 1;
                    self.free.push((layer, full));
                    proof {
                        lemma_fresh_layer_inv(old(self).free@, old(self).taken@, old(self).num_layers, full);
                    }
                    self.free.len() - 1
                } else {
                    return None;
                }
            },
        };
        let e = self.free[i];
        let layer = e.0;
        let f = e.1;
        let alloc = Rect { min_x: f.min_x, min_y: f.min_y, max_x: f.min_x + w, max_y: f.min_y + h };
        let right = Rect { min_x: f.min_x + w, min_y: f.min_y, max_x: f.max_x, max_y: f.min_y + h };
        let bottom = Rect { min_x: f.min_x, min_y: f.min_y + h, max_x: f.max_x, max_y: f.max_y };
        let ghost free0 = self.free@;
        let ghost taken0 = self.taken@;
        proof {
            lemma_carve_inv(free0, taken0, self.num_layers, i as int, layer, f, w, h);
        }
        self.free.set(i, (layer, bottom));
        self.free.push((layer, right));
        self.taken.push((layer, alloc));
        let rect = Rect { min_x: f.min_x, min_y: f.min_y, max_x: f.min_x + width, max_y: f.min_y + height };
        proof {
            assert(alloc == rect_pad(rect));
            assert(alloc == carve_alloc(f, w, h));
            assert(right == carve_right(f, w, h));
            assert(bottom == carve_bottom(f, h));
        }
        Some((layer, rect))
    }

    /// Returns a previously allocated rectangle (as handed out by
    /// [`Atlas::allocate`]) to its layer's free space. Succeeds exactly when
    /// the rectangle's padded footprint is live on that layer; an unknown
    /// rectangle leaves the allocator unchanged.
    pub fn free(&mut self, layer: u32, rect: Rect) -> (found: bool)
        requires
            old(self).wf(),
        ensures
            final(self).wf(),
            found <==> exists|j: int|
                0 <= j < old(self).taken@.len() && old(self).taken@[j] == (layer, rect_pad(rect)),
            !found ==> *final(self) == *old(self),
            found ==> exists|j: int|
                {
                    &&& 0 <= j < old(self).taken@.len()
                    &&& old(self).taken@[j] == (layer, rect_pad(rect))
                    &&& final(self).taken@ == old(self).taken@.remove(j)
                    &&& final(self).free@ == old(self).free@.push((layer, rect_pad(rect)))
                    &&& final(self).num_layers == old(self).num_layers
                },
    {
        if rect.max_x >= ATLAS_SIZE || rect.max_y >= ATLAS_SIZE {
            proof {
                // every live footprint is in bounds and nonempty, while this
                // padded footprint would stick out or wrap around
                assert forall|j: int|
                    0 <= j < self.taken@.len() implies self.taken@[j] != (layer, rect_pad(rect)) by {
                    let t = self.taken@[j];
                    assert(entry_ok(t, self.num_layers));
                    assert(rect_nonempty(t.1));
                    assert(0 < t.1.max_x <= ATLAS_SIZE && 0 < t.1.max_y <= ATLAS_SIZE);
                    if rect.max_x >= ATLAS_SIZE {
                        if rect.max_x == u32::MAX {
                            let mx: u32 = rect.max_x;
                            assert((mx + 1) as u32 == 0) by (bit_vector)
                                requires mx == u32::MAX;
                            assert(rect_pad(rect).max_x == (mx + 1) as u32);
                        } else {
                            assert(rect_pad(rect).max_x == rect.max_x + 1);
                        }
                    } else {
                        if rect.max_y == u32::MAX {
                            let my: u32 = rect.max_y;
                            assert((my + 1) as u32 == 0) by (bit_vector)
                                requires my == u32::MAX;
                            assert(rect_pad(rect).max_y == (my + 1) as u32);
                        } else {
                            assert(rect_pad(rect).max_y == rect.max_y + 1);
                        }
                    }
                }
            }
            return false;
        }
        let pad = Rect { min_x: rect.min_x, min_y: rect.min_y, max_x: rect.max_x + 1, max_y: rect.max_y + 1 };
        let n = self.taken.len();
        let mut j: usize = 0;
        while j < n
            invariant
                *self == *old(self),
                n == self.taken@.len(),
                j <= n,
                self.wf(),
                pad == rect_pad(rect),
                forall|k: int| 0 <= k < j ==> #[trigger] self.taken@[k] != (layer, pad),
            decreases n - j,
        {
            let t = self.taken[j];
            if t.0 == layer && t.1 == pad {
                let ghost free0 = self.free@;
                let ghost taken0 = self.taken@;
                proof {
                    assert(taken0[j as int] == (layer, pad));
                    lemma_release_inv(free0, taken0, self.num_layers, j as int);
                }
                let _removed = self.taken.remove(j);
                self.free.push((layer, pad));
                return true;
            }
            j = j + 1;
        }
        false
    }
}

/// Appending a full free rectangle for a fresh layer preserves the
/// invariant: the new layer shares no entries with the old ones.
proof fn lemma_fresh_layer_inv(free: Seq<(u32, Rect)>, taken: Seq<(u32, Rect)>, num_layers: u32, full: Rect)
    requires
        atlas_inv(free, taken, num_layers),
        num_layers < MAX_ATLAS_LAYERS,
        rect_valid(full),
    ensures
        atlas_inv(free.push((num_layers, full)), taken, (num_layers + 1) as u32),
{
    let free1 = free.push((num_layers, full));
    let num1 = (num_layers + 1) as u32;
    assert forall|i: int| 0 <= i < free1.len() implies entry_ok(#[trigger] free1[i], num1) by {
        if i < free.len() {
            assert(entry_ok(free[i], num_layers));
        }
    }
    assert forall|i: int, j: int|
        #![trigger free1[i], free1[j]]
        0 <= i < j < free1.len() && free1[i].0 == free1[j].0 implies rects_disjoint(
        free1[i].1,
        free1[j].1,
    ) by {
        if j < free.len() {
            assert(free1[i] == free[i] && free1[j] == free[j]);
        } else {
            assert(entry_ok(free[i], num_layers));
            assert(free1[j].0 == num_layers);
        }
    }
    assert forall|i: int, j: int|
        #![trigger free1[i], taken[j]]
        0 <= i < free1.len() && 0 <= j < taken.len() && free1[i].0 == taken[j].0
        implies rects_disjoint(free1[i].1, taken[j].1) by {
        if i == free.len() {
            assert(entry_ok(taken[j], num_layers));
        } else {
            assert(free1[i] == free[i]);
        }
    }
}

/// Carving a free rectangle into an allocated part and two remainders
/// preserves the invariant: the three parts stay inside the old free
/// rectangle, are pairwise disjoint, and the old rectangle was disjoint
/// from every other entry of its layer.
proof fn lemma_carve_inv(
    free: Seq<(u32, Rect)>,
    taken: Seq<(u32, Rect)>,
    num_layers: u32,
    i: int,
    layer: u32,
    f: Rect,
    w: u32,
    h: u32,
)
    requires
        atlas_inv(free, taken, num_layers),
        0 <= i < free.len(),
        free[i] == (layer, f),
        1 <= w,
        1 <= h,
        rect_fits(f, w as int, h as int),
    ensures
        atlas_inv(
            free.update(i, (layer, carve_bottom(f, h))).push((layer, carve_right(f, w, h))),
            taken.push((layer, carve_alloc(f, w, h))),
            num_layers,
        ),
        rect_nonempty(carve_alloc(f, w, h)),
        rect_valid(carve_alloc(f, w, h)),
{
    let a = carve_alloc(f, w, h);
    let r = carve_right(f, w, h);
    let b = carve_bottom(f, h);
    let free1 = free.update(i, (layer, b)).push((layer, r));
    let taken1 = taken.push((layer, a));
    assert(entry_ok(free[i], num_layers));
    assert(rect_within(a, f) && rect_within(r, f) && rect_within(b, f));
    assert(rects_disjoint(a, r) && rects_disjoint(a, b) && rects_disjoint(r, b));

    assert forall|x: int| 0 <= x < free1.len() implies entry_ok(#[trigger] free1[x], num_layers) by {
        if x < free.len() && x != i {
            assert(entry_ok(free[x], num_layers));
        }
    }
    assert forall|x: int, y: int|
        #![trigger free1[x], free1[y]]
        0 <= x < y < free1.len() && free1[x].0 == free1[y].0 implies rects_disjoint(
        free1[x].1,
        free1[y].1,
    ) by {
        let n = free.len() as int;
        if x < n && x != i && y < n && y != i {
            assert(free1[x] == free[x] && free1[y] == free[y]);
        } else if x == i && y == n {
            assert(free1[x].1 == b && free1[y].1 == r);
        } else if x == i {
            // y is an untouched old entry of the same layer
            lemma_within_disjoint(b, f, free[y].1);
        } else if y == i {
            lemma_within_disjoint(b, f, free[x].1);
        } else if y == n {
            // x is an untouched old entry, y is the right remainder
            lemma_within_disjoint(r, f, free[x].1);
        }
    }
    assert forall|x: int| 0 <= x < taken1.len() implies entry_ok(#[trigger] taken1[x], num_layers)
        && rect_nonempty(taken1[x].1) by {
        if x < taken.len() {
            assert(entry_ok(taken[x], num_layers) && rect_nonempty(taken[x].1));
        } else {
            assert(taken1[x].1 == a);
        }
    }
    assert forall|x: int, y: int|
        #![trigger taken1[x], taken1[y]]
        0 <= x < y < taken1.len() && taken1[x].0 == taken1[y].0 implies rects_disjoint(
        taken1[x].1,
        taken1[y].1,
    ) by {
        let m = taken.len() as int;
        if y == m {
            // x is an old allocation, y is the fresh one inside f
            lemma_within_disjoint(a, f, taken[x].1);
        } else {
            assert(taken1[x] == taken[x] && taken1[y] == taken[y]);
        }
    }
    assert forall|x: int, y: int|
        #![trigger free1[x], taken1[y]]
        0 <= x < free1.len() && 0 <= y < taken1.len() && free1[x].0 == taken1[y].0
        implies rects_disjoint(free1[x].1, taken1[y].1) by {
        let n = free.len() as int;
        let m = taken.len() as int;
        if y == m {
            if x == i {
                assert(free1[x].1 == b);
            } else if x == n {
                assert(free1[x].1 == r);
            } else {
                // old free entry of the same layer: it was disjoint from f,
                // and the fresh allocation lies inside f
                lemma_within_disjoint(a, f, free[x].1);
            }
        } else {
            if x == i {
                lemma_within_disjoint(b, f, taken[y].1);
            } else if x == n {
                lemma_within_disjoint(r, f, taken[y].1);
            } else {
                assert(free1[x] == free[x] && taken1[y] == taken[y]);
            }
        }
    }
}

/// Moving one live allocation back to the free list preserves the
/// invariant: the footprint was disjoint from every other entry of its
/// layer already.
proof fn lemma_release_inv(free: Seq<(u32, Rect)>, taken: Seq<(u32, Rect)>, num_layers: u32, j: int)
    requires
        atlas_inv(free, taken, num_layers),
        0 <= j < taken.len(),
    ensures
        atlas_inv(free.push(taken[j]), taken.remove(j), num_layers),
{
    let e = taken[j];
    let free1 = free.push(e);
    let taken1 = taken.remove(j);
    assert forall|x: int| 0 <= x < taken1.len() implies entry_ok(#[trigger] taken1[x], num_layers)
        && rect_nonempty(taken1[x].1) by {
        let x0 = if x < j { x } else { x + 1 };
        assert(taken1[x] == taken[x0]);
        assert(entry_ok(taken[x0], num_layers) && rect_nonempty(taken[x0].1));
    }
    assert forall|x: int| 0 <= x < free1.len() implies entry_ok(#[trigger] free1[x], num_layers) by {
        if x < free.len() {
            assert(entry_ok(free[x], num_layers));
        } else {
            assert(entry_ok(taken[j], num_layers));
        }
    }
    assert forall|x: int, y: int|
        #![trigger free1[x], free1[y]]
        0 <= x < y < free1.len() && free1[x].0 == free1[y].0 implies rects_disjoint(
        free1[x].1,
        free1[y].1,
    ) by {
        if y == free.len() {
            assert(free1[x] == free[x] && free1[y] == taken[j]);
        } else {
            assert(free1[x] == free[x] && free1[y] == free[y]);
        }
    }
    assert forall|x: int, y: int|
        #![trigger taken1[x], taken1[y]]
        0 <= x < y < taken1.len() && taken1[x].0 == taken1[y].0 implies rects_disjoint(
        taken1[x].1,
        taken1[y].1,
    ) by {
        let x0 = if x < j { x } else { x + 1 };
        let y0 = if y < j { y } else { y + 1 };
        assert(taken1[x] == taken[x0] && taken1[y] == taken[y0]);
    }
    assert forall|x: int, y: int|
        #![trigger free1[x], taken1[y]]
        0 <= x < free1.len() && 0 <= y < taken1.len() && free1[x].0 == taken1[y].0
        implies rects_disjoint(free1[x].1, taken1[y].1) by {
        let y0 = if y < j { y } else { y + 1 };
        assert(taken1[y] == taken[y0]);
        if x < free.len() {
            assert(free1[x] == free[x]);
        } else {
            // the released footprint against the remaining allocations:
            // both were live together, in some order
            assert(free1[x] == taken[j]);
            if y0 < j {
                assert(rects_disjoint(taken[y0].1, taken[j].1));
            } else {
                assert(rects_disjoint(taken[j].1, taken[y0].1));
            }
        }
    }
}

/// Any two distinct live allocations that share an atlas layer occupy
/// disjoint rectangles, and every returned rectangle lies inside the layer
/// bounds. The rectangles handed out by [`Atlas::allocate`] are the live
/// footprints shrunk by the one-pixel separation border.
pub proof fn lemma_atlas_allocations_disjoint(a: Atlas, i: int, j: int)
    requires
        a.wf(),
        0 <= i < a.taken@.len(),
        0 <= j < a.taken@.len(),
        i != j,
        a.taken@[i].0 == a.taken@[j].0,
    ensures
        rects_disjoint(a.taken@[i].1, a.taken@[j].1),
        rect_valid(a.taken@[i].1),
{
    if i < j {
        assert(rects_disjoint(a.taken@[i].1, a.taken@[j].1));
    } else {
        assert(rects_disjoint(a.taken@[j].1, a.taken@[i].1));
    }
    assert(entry_ok(a.taken@[i], a.num_layers));
}

} // verus!
