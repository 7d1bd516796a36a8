use vstd::prelude::*;
use std::collections::HashMap;
use crate::geometry::Rect;
use crate::geometry::Transform;

verus! {

broadcast use vstd::std_specs::hash::group_hash_axioms;

/// A texture referenced by a mesh: either managed by this painter's cache
/// (created and destroyed on the toolkit's instruction) or a raw GPU handle
/// supplied by the host, which the painter never owns or destroys.
#[derive(Clone, Copy, PartialEq, Eq, Structural, Debug)]
pub enum TextureId {
    Managed(u64),
    User(u64),
}

/// A live cache entry: the GPU texture name and its allocated extent.
#[derive(Clone, Copy, PartialEq, Eq, Structural, Debug)]
pub struct TextureEntry {
    pub tex: u32,
    pub width: u32,
    pub height: u32,
}

/// The target position of a partial texture delta.
#[derive(Clone, Copy, PartialEq, Eq, Structural, Debug)]
pub struct DeltaPos {
    pub x: u32,
    pub y: u32,
}

/// One upload instruction from the toolkit: new pixel data for the
/// sub-rectangle of `id` at `pos` (or the whole image, at the origin, when
/// `pos` is `None`), `width` by `height` pixels.
#[derive(Clone, Copy, PartialEq, Eq, Structural, Debug)]
pub struct TextureDelta {
    pub id: TextureId,
    pub pos: Option<DeltaPos>,
    pub width: u32,
    pub height: u32,
}

pub open spec fn spec_delta_x(d: TextureDelta) -> u32 {
    match d.pos {
        Some(p) => p.x,
        None => 0u32,
    }
}

pub open spec fn spec_delta_y(d: TextureDelta) -> u32 {
    match d.pos {
        Some(p) => p.y,
        None => 0u32,
    }
}

/// The delta's target region stays within `u32` arithmetic.
pub open spec fn spec_delta_wf(d: TextureDelta) -> bool {
    &&& spec_delta_x(d) + d.width <= u32::MAX
    &&& spec_delta_y(d) + d.height <= u32::MAX
}

/// One piece of GPU work the caller must perform, in list order, to realize
/// a batch of texture deltas.
#[derive(Clone, Copy, PartialEq, Eq, Structural, Debug)]
pub enum UploadOp {
    /// Copy the delta's sub-rectangle into the existing allocation `tex`.
    SubImage { tex: u32, x: u32, y: u32, width: u32, height: u32 },
    /// Allocate `tex` with the given extent, copy the delta's sub-rectangle
    /// into it, then destroy `delete_old` if present.
    Allocate {
        tex: u32,
        alloc_width: u32,
        alloc_height: u32,
        x: u32,
        y: u32,
        width: u32,
        height: u32,
        delete_old: Option<u32>,
    },
    /// The pre-generated texture name was not needed; destroy it.
    ReleaseName { tex: u32 },
}

/// How one delta changes the cache, and the GPU work it requires. A delta
/// whose target region fits the current allocation is a plain sub-image
/// copy; otherwise the entry is reallocated to the union of the old extent
/// and the target region, and that union becomes the recorded extent.
pub open spec fn spec_upload_step(
    cache: Map<u64, TextureEntry>,
    d: TextureDelta,
    fresh: u32,
) -> (Map<u64, TextureEntry>, Seq<UploadOp>) {
    match d.id {
        TextureId::User(_) => (cache, seq![UploadOp::ReleaseName { tex: fresh }]),
        TextureId::Managed(id) => {
            let px = spec_delta_x(d);
            let py = spec_delta_y(d);
            if cache.contains_key(id) && cache[id].width >= px + d.width && cache[id].height >= py
                + d.height {
                (
                    cache,
                    seq![
                        UploadOp::SubImage {
                            tex: cache[id].tex,
                            x: px,
                            y: py,
                            width: d.width,
                            height: d.height,
                        },
                        UploadOp::ReleaseName { tex: fresh },
                    ],
                )
            } else {
                let old_w = if cache.contains_key(id) {
                    cache[id].width
                } else {
                    0u32
                };
                let old_h = if cache.contains_key(id) {
                    cache[id].height
                } else {
                    0u32
                };
                let delete_old = if cache.contains_key(id) {
                    Some(cache[id].tex)
                } else {
                    None
                };
                let new_w = (if old_w >= px + d.width {
                    old_w as int
                } else {
                    px + d.width
                }) as u32;
                let new_h = (if old_h >= py + d.height {
                    old_h as int
                } else {
                    py + d.height
                }) as u32;
                (
                    cache.insert(id, TextureEntry { tex: fresh, width: new_w, height: new_h }),
                    seq![
                        UploadOp::Allocate {
                            tex: fresh,
                            alloc_width: new_w,
                            alloc_height: new_h,
                            x: px,
                            y: py,
                            width: d.width,
                            height: d.height,
                            delete_old,
                        },
                    ],
                )
            }
        },
    }
}

/// Folds `spec_upload_step` over a batch of deltas, pairing each with its
/// pre-generated texture name and concatenating the required GPU work.
pub open spec fn spec_upload_all(
    cache: Map<u64, TextureEntry>,
    deltas: Seq<TextureDelta>,
    fresh: Seq<u32>,
) -> (Map<u64, TextureEntry>, Seq<UploadOp>)
    decreases deltas.len(),
{
    if deltas.len() == 0 {
        (cache, Seq::empty())
    } else {
        let step = spec_upload_step(cache, deltas[0], fresh[0]);
        let rest = spec_upload_all(step.0, deltas.skip(1), fresh.skip(1));
        (rest.0, step.1 + rest.1)
    }
}

/// How one eviction notice changes the cache and which GPU texture dies:
/// a managed identifier present in the cache is dropped and its texture
/// name returned for destruction; anything else changes nothing.
pub open spec fn spec_free_step(cache: Map<u64, TextureEntry>, id: TextureId) -> (
    Map<u64, TextureEntry>,
    Seq<u32>,
) {
    match id {
        TextureId::User(_) => (cache, Seq::empty()),
        TextureId::Managed(m) => {
            if cache.contains_key(m) {
                (cache.remove(m), seq![cache[m].tex])
            } else {
                (cache, Seq::empty())
            }
        },
    }
}

pub open spec fn spec_free_all(cache: Map<u64, TextureEntry>, ids: Seq<TextureId>) -> (
    Map<u64, TextureEntry>,
    Seq<u32>,
)
    decreases ids.len(),
{
    if ids.len() == 0 {
        (cache, Seq::empty())
    } else {
        let step = spec_free_step(cache, ids[0]);
        let rest = spec_free_all(step.0, ids.skip(1));
        (rest.0, step.1 + rest.1)
    }
}

/// The bookkeeping half of the GPU mesh painter: the cache mapping managed
/// texture identifiers to their allocated GPU textures. The painter's GPU
/// objects themselves (shader program, buffers, vertex array) live with the
/// caller, which executes the operation lists this type plans.
pub struct GlState {
    pub egui_textures: HashMap<u64, TextureEntry>,
}

impl GlState {
    /// A painter state with an empty texture cache.
    pub fn new() -> (s: GlState)
        ensures
            s.egui_textures@ == Map::<u64, TextureEntry>::empty(),
    {
        GlState { egui_textures: HashMap::new() }
    }

    /// The live cache entry for a managed identifier, if any.
    pub fn lookup_texture(&self, id: u64) -> (r: Option<TextureEntry>)
        ensures
            r == if self.egui_textures@.contains_key(id) {
                Some(self.egui_textures@[id])
            } else {
                None::<TextureEntry>
            },
    {
        match self.egui_textures.get(&id) {
            Some(e) => Some(*e),
            None => None,
        }
    }

    /// Applies a batch of texture deltas to the cache, in order, and returns
    /// the GPU work the caller must perform, in order. `fresh` supplies one
    /// pre-generated texture name per delta; names that turn out unneeded
    /// come back as `ReleaseName` operations.
    pub fn upload_textures(&mut self, deltas: &Vec<TextureDelta>, fresh: &Vec<u32>) -> (ops: Vec<
        UploadOp,
    >)
        requires
            fresh@.len() == deltas@.len(),
            forall|i: int| 0 <= i < deltas@.len() ==> spec_delta_wf(#[trigger] deltas@[i]),
        ensures
            final(self).egui_textures@ == spec_upload_all(
                old(self).egui_textures@,
                deltas@,
                fresh@,
            ).0,
            ops@ == spec_upload_all(old(self).egui_textures@, deltas@, fresh@).1,
    {
        let n: usize = deltas.len();
        let mut ops: Vec<UploadOp> = Vec::new();
        let mut i: usize = 0;
        proof {
            assert(deltas@.skip(0) =~= deltas@);
            assert(fresh@.skip(0) =~= fresh@);
        }
        while i < n
            invariant
                0 <= i <= n,
                n == deltas@.len(),
                fresh@.len() == n,
                forall|j: int| 0 <= j < n ==> spec_delta_wf(#[trigger] deltas@[j]),
                spec_upload_all(old(self).egui_textures@, deltas@, fresh@).0 == spec_upload_all(
                    self.egui_textures@,
                    deltas@.skip(i as int),
                    fresh@.skip(i as int),
                ).0,
                spec_upload_all(old(self).egui_textures@, deltas@, fresh@).1 == ops@
                    + spec_upload_all(
                    self.egui_textures@,
                    deltas@.skip(i as int),
                    fresh@.skip(i as int),
                ).1,
            decreases n - i,
        {
            let ghost pre_cache = self.egui_textures@;
            let ghost pre_ops = ops@;
            let d: TextureDelta = deltas[i];
            let f: u32 = fresh[i];
            match d.id {
                TextureId::User(_) => {
                    ops.push(UploadOp::ReleaseName { tex: f });
                },
                TextureId::Managed(id) => {
                    let (px, py): (u32, u32) = match d.pos {
                        Some(p) => (p.x, p.y),
                        None => (0, 0),
                    };
                    let need_w: u32 = px + d.width;
                    let need_h: u32 = py + d.height;
                    let mut existing: Option<TextureEntry> = None;
                    match self.egui_textures.get(&id) {
                        Some(e) => {
                            existing = Some(*e);
                        },
                        None => {},
                    }
                    let mut fits = false;
                    let mut cur_tex: u32 = 0;
                    let mut old_w: u32 = 0;
                    let mut old_h: u32 = 0;
                    let mut delete_old: Option<u32> = None;
                    match existing {
                        Some(e) => {
                            cur_tex = e.tex;
                            old_w = e.width;
                            old_h = e.height;
                            delete_old = Some(e.tex);
                            fits = e.width >= need_w && e.height >= need_h;
                        },
                        None => {},
                    }
                    if fits {
                        ops.push(
                            UploadOp::SubImage {
                                tex: cur_tex,
                                x: px,
                                y: py,
                                width: d.width,
                                height: d.height,
                            },
                        );
                        ops.push(UploadOp::ReleaseName { tex: f });
                    } else {
                        let new_w: u32 = if old_w >= need_w {
                            old_w
                        } else {
                            need_w
                        };
                        let new_h: u32 = if old_h >= need_h {
                            old_h
                        } else {
                            need_h
                        };
                        self.egui_textures.insert(
                            id,
                            TextureEntry { tex: f, width: new_w, height: new_h },
                        );
                        ops.push(
                            UploadOp::Allocate {
                                tex: f,
                                alloc_width: new_w,
                                alloc_height: new_h,
                                x: px,
                                y: py,
                                width: d.width,
                                height: d.height,
                                delete_old,
                            },
                        );
                    }
                },
            }
            proof {
                let dd = deltas@.skip(i as int);
                let ff = fresh@.skip(i as int);
                assert(dd[0] == deltas@[i as int]);
                assert(ff[0] == fresh@[i as int]);
                assert(dd.skip(1) =~= deltas@.skip(i as int + 1));
                assert(ff.skip(1) =~= fresh@.skip(i as int + 1));
                let step = spec_upload_step(pre_cache, deltas@[i as int], fresh@[i as int]);
                assert(self.egui_textures@ == step.0);
                assert(ops@ =~= pre_ops + step.1);
                assert(spec_upload_all(old(self).egui_textures@, deltas@, fresh@).1 == ops@
                    + spec_upload_all(
                    self.egui_textures@,
                    deltas@.skip(i as int + 1),
                    fresh@.skip(i as int + 1),
                ).1);
            }
            i = i + 1;
        }
        proof {
            assert(deltas@.skip(n as int) =~= Seq::<TextureDelta>::empty());
            assert(fresh@.skip(n as int) =~= Seq::<u32>::empty());
        }
        ops
    }

    /// Applies a batch of eviction notices to the cache, in order, and
    /// returns the GPU texture names the caller must destroy, in order.
    pub fn free_textures(&mut self, ids: &Vec<TextureId>) -> (dead: Vec<u32>)
        ensures
            final(self).egui_textures@ == spec_free_all(old(self).egui_textures@, ids@).0,
            dead@ == spec_free_all(old(self).egui_textures@, ids@).1,
    {
        let n: usize = ids.len();
        let mut dead: Vec<u32> = Vec::new();
        let mut i: usize = 0;
        proof {
            assert(ids@.skip(0) =~= ids@);
        }
        while i < n
            invariant
                0 <= i <= n,
                n == ids@.len(),
                spec_free_all(old(self).egui_textures@, ids@).0 == spec_free_all(
                    self.egui_textures@,
                    ids@.skip(i as int),
                ).0,
                spec_free_all(old(self).egui_textures@, ids@).1 == dead@ + spec_free_all(
                    self.egui_textures@,
                    ids@.skip(i as int),
                ).1,
            decreases n - i,
        {
            let ghost pre_cache = self.egui_textures@;
            let ghost pre_dead = dead@;
            let id: TextureId = ids[i];
            match id {
                TextureId::User(_) => {},
                TextureId::Managed(m) => {
                    match self.egui_textures.remove(&m) {
                        Some(e) => {
                            dead.push(e.tex);
                        },
                        None => {},
                    }
                },
            }
            proof {
                let ss = ids@.skip(i as int);
                assert(ss[0] == ids@[i as int]);
                assert(ss.skip(1) =~= ids@.skip(i as int + 1));
                let step = spec_free_step(pre_cache, ids@[i as int]);
                assert(self.egui_textures@ == step.0);
                assert(dead@ =~= pre_dead + step.1);
                assert(spec_free_all(old(self).egui_textures@, ids@).1 == dead@ + spec_free_all(
                    self.egui_textures@,
                    ids@.skip(i as int + 1),
                ).1);
            }
            i = i + 1;
        }
        proof {
            assert(ids@.skip(n as int) =~= Seq::<TextureId>::empty());
        }
        dead
    }
}

/// Growing upload: a delta for a cached identifier whose target region
/// exceeds the current allocation causes exactly one reallocation, sized to
/// the union of the old extent and the target region, and that union is the
/// recorded extent afterwards.
pub proof fn lemma_texture_growth(cache: Map<u64, TextureEntry>, d: TextureDelta, fresh: u32)
    requires
        spec_delta_wf(d),
        d.id is Managed,
        cache.contains_key(spec_managed_id(d.id)),
        !(cache[spec_managed_id(d.id)].width >= spec_delta_x(d) + d.width && cache[spec_managed_id(
            d.id,
        )].height >= spec_delta_y(d) + d.height),
    ensures
        spec_upload_step(cache, d, fresh).1.len() == 1,
        spec_upload_step(cache, d, fresh).1[0] is Allocate,
        spec_upload_step(cache, d, fresh).0.contains_key(spec_managed_id(d.id)),
        spec_upload_step(cache, d, fresh).0[spec_managed_id(d.id)].width == spec_max_u32(
            cache[spec_managed_id(d.id)].width as int,
            spec_delta_x(d) + d.width,
        ),
        spec_upload_step(cache, d, fresh).0[spec_managed_id(d.id)].height == spec_max_u32(
            cache[spec_managed_id(d.id)].height as int,
            spec_delta_y(d) + d.height,
        ),
{
}

/// In-place upload: a delta whose target region fits the current allocation
/// performs no reallocation and leaves the cache entry unchanged.
pub proof fn lemma_texture_upload_in_place(cache: Map<u64, TextureEntry>, d: TextureDelta, fresh: u32)
    requires
        spec_delta_wf(d),
        d.id is Managed,
        cache.contains_key(spec_managed_id(d.id)),
        cache[spec_managed_id(d.id)].width >= spec_delta_x(d) + d.width,
        cache[spec_managed_id(d.id)].height >= spec_delta_y(d) + d.height,
    ensures
        spec_upload_step(cache, d, fresh).0 == cache,
        forall|k: int|
            0 <= k < spec_upload_step(cache, d, fresh).1.len() ==> !(#[trigger] spec_upload_step(
                cache,
                d,
                fresh,
            ).1[k] is Allocate),
{
}

/// The managed identifier a texture id carries; zero for raw host handles,
/// which the cache never stores.
pub open spec fn spec_managed_id(t: TextureId) -> u64 {
    match t {
        TextureId::Managed(m) => m,
        TextureId::User(_) => 0u64,
    }
}

/// The larger of two extents, as the cache records it.
pub open spec fn spec_max_u32(a: int, b: int) -> int {
    if a >= b {
        a
    } else {
        b
    }
}

/// All rectangles in the sequence are well-formed.
pub open spec fn spec_all_wf(s: Seq<Rect>) -> bool {
    forall|i: int| 0 <= i < s.len() ==> (#[trigger] s[i]).wf()
}

/// No two distinct rectangles of the sequence overlap.
pub open spec fn spec_pairwise_disjoint(s: Seq<Rect>) -> bool {
    forall|i: int, j: int|
        #![trigger s[i], s[j]]
        0 <= i < s.len() && 0 <= j < s.len() && i != j ==> !s[i].spec_overlaps(s[j])
}

/// Some rectangle of `out` contains `r`.
pub open spec fn spec_covered_by(r: Rect, out: Seq<Rect>) -> bool {
    exists|j: int| 0 <= j < out.len() && (#[trigger] out[j]).spec_contains_rect(r)
}

/// Every rectangle of `inp` lies inside some rectangle of `out`.
pub open spec fn spec_each_contained(inp: Seq<Rect>, out: Seq<Rect>) -> bool {
    forall|i: int| 0 <= i < inp.len() ==> spec_covered_by(#[trigger] inp[i], out)
}

/// Every rectangle of `s` lies inside `outer`.
pub open spec fn spec_all_contained(s: Seq<Rect>, outer: Rect) -> bool {
    forall|i: int| 0 <= i < s.len() ==> outer.spec_contains_rect(#[trigger] s[i])
}

/// Coverage composes through an intermediate set of rectangles.
pub proof fn lemma_covered_trans(r: Rect, mid: Seq<Rect>, out: Seq<Rect>)
    requires
        spec_covered_by(r, mid),
        forall|i: int| 0 <= i < mid.len() ==> spec_covered_by(#[trigger] mid[i], out),
    ensures
        spec_covered_by(r, out),
{
    let j = choose|j: int| 0 <= j < mid.len() && (#[trigger] mid[j]).spec_contains_rect(r);
    assert(spec_covered_by(mid[j], out));
    let k = choose|k: int| 0 <= k < out.len() && (#[trigger] out[k]).spec_contains_rect(mid[j]);
    crate::geometry::lemma_contains_trans(out[k], mid[j], r);
    assert(0 <= k < out.len() && out[k].spec_contains_rect(r));
}

/// The properties the painter relies on after merging a damage list: the
/// result is well-formed, pairwise disjoint, no longer than the input,
/// covers every input rectangle, stays inside any region the input stayed
/// in, and an already-disjoint input comes back unchanged.
pub open spec fn spec_merged_props(inp: Seq<Rect>, out: Seq<Rect>) -> bool {
    &&& spec_all_wf(out)
    &&& spec_pairwise_disjoint(out)
    &&& spec_each_contained(inp, out)
    &&& out.len() <= inp.len()
    &&& (spec_pairwise_disjoint(inp) ==> out == inp)
    &&& (forall|outer: Rect|
        #![trigger spec_all_contained(inp, outer)]
        spec_all_contained(inp, outer) ==> spec_all_contained(out, outer))
}

/// `x` is one of the first `bound` rectangles of `src` and does not overlap
/// `rj`; the folding pass keeps exactly such rectangles unmerged.
pub open spec fn spec_kept_from(x: Rect, src: Seq<Rect>, bound: int, rj: Rect) -> bool {
    exists|i0: int| 0 <= i0 < bound && (#[trigger] src[i0]) == x && !src[i0].spec_overlaps(rj)
}

/// One folding pass: each rectangle in turn absorbs, into their bounding
/// box, every earlier surviving rectangle that overlaps it. Returns the
/// folded list and whether anything was absorbed.
#[verifier::rlimit(100)]
#[verifier::spinoff_prover]
fn merge_pass(v: &Vec<Rect>) -> (r: (Vec<Rect>, bool))
    requires
        spec_all_wf(v@),
    ensures
        spec_all_wf(r.0@),
        r.0@.len() <= v@.len(),
        spec_each_contained(v@, r.0@),
        !r.1 ==> r.0@ == v@ && spec_pairwise_disjoint(v@),
        r.1 ==> r.0@.len() < v@.len(),
        spec_pairwise_disjoint(v@) ==> !r.1,
        forall|outer: Rect|
            #![trigger spec_all_contained(v@, outer)]
            spec_all_contained(v@, outer) ==> spec_all_contained(r.0@, outer),
{
    let n: usize = v.len();
    let mut acc: Vec<Rect> = Vec::new();
    let mut changed: bool = false;
    let mut j: usize = 0;
    while j < n
        invariant
            0 <= j <= n,
            n == v@.len(),
            spec_all_wf(v@),
            spec_all_wf(acc@),
            acc@.len() <= j,
            changed ==> acc@.len() < j,
            !changed ==> acc@ =~= v@.subrange(0, j as int) && spec_pairwise_disjoint(acc@),
            spec_pairwise_disjoint(v@) ==> !changed,
            spec_each_contained(v@.subrange(0, j as int), acc@),
            forall|outer: Rect|
                #![trigger spec_all_contained(v@, outer)]
                spec_all_contained(v@, outer) ==> spec_all_contained(acc@, outer),
        decreases n - j,
    {
        let ghost pre_acc = acc@;
        let ghost pre_changed = changed;
        let rj: Rect = v[j];
        let mut merged: Rect = rj;
        let mut kept: Vec<Rect> = Vec::new();
        let mut absorbed: bool = false;
        let m: usize = acc.len();
        let mut k: usize = 0;
        while k < m
            invariant
                0 <= k <= m,
                m == pre_acc.len(),
                acc@ == pre_acc,
                rj == v@[j as int],
                0 <= (j as int) < v@.len(),
                spec_all_wf(v@),
                spec_all_wf(pre_acc),
                spec_pairwise_disjoint(v@) ==> !pre_changed,
                !pre_changed ==> pre_acc =~= v@.subrange(0, j as int),
                merged.wf(),
                merged.spec_contains_rect(rj),
                kept@.len() <= k,
                !absorbed ==> kept@ =~= pre_acc.subrange(0, k as int) && merged == rj,
                absorbed ==> kept@.len() < k,
                spec_pairwise_disjoint(v@) ==> !absorbed,
                forall|i: int|
                    0 <= i < k ==> spec_covered_by(#[trigger] pre_acc[i], kept@)
                        || merged.spec_contains_rect(pre_acc[i]),
                forall|i: int|
                    0 <= i < kept@.len() ==> spec_kept_from(
                        #[trigger] kept@[i],
                        pre_acc,
                        k as int,
                        rj,
                    ),
                forall|outer: Rect|
                    #![trigger spec_all_contained(v@, outer)]
                    spec_all_contained(v@, outer) && spec_all_contained(pre_acc, outer)
                        ==> outer.spec_contains_rect(merged) && spec_all_contained(kept@, outer),
            decreases m - k,
        {
            let ghost pre_kept = kept@;
            let ghost pre_merged = merged;
            let a: Rect = acc[k];
            proof {
                assert(a == pre_acc[k as int]);
            }
            if a.overlaps(&rj) {
                merged = merged.merge(&a);
                absorbed = true;
                proof {
                    assert forall|i: int| 0 <= i < k + 1 implies spec_covered_by(
                        #[trigger] pre_acc[i],
                        kept@,
                    ) || merged.spec_contains_rect(pre_acc[i]) by {
                        if i < k {
                            if pre_merged.spec_contains_rect(pre_acc[i]) {
                                crate::geometry::lemma_contains_trans(
                                    merged,
                                    pre_merged,
                                    pre_acc[i],
                                );
                            }
                        } else {
                            assert(merged.spec_contains_rect(a));
                        }
                    }
                    assert forall|i: int| 0 <= i < kept@.len() implies spec_kept_from(
                        #[trigger] kept@[i],
                        pre_acc,
                        k as int + 1,
                        rj,
                    ) by {
                        let w = choose|i0: int|
                            0 <= i0 < k && (#[trigger] pre_acc[i0]) == kept@[i] && !pre_acc[
                                i0
                            ].spec_overlaps(rj);
                        assert(0 <= w < k + 1 && pre_acc[w] == kept@[i] && !pre_acc[
                            w
                        ].spec_overlaps(rj));
                    }
                    assert forall|outer: Rect|
                        spec_all_contained(v@, outer) && spec_all_contained(
                            pre_acc,
                            outer,
                        ) implies outer.spec_contains_rect(merged) && spec_all_contained(
                        kept@,
                        outer,
                    ) by {
                        assert(outer.spec_contains_rect(pre_merged));
                        assert(outer.spec_contains_rect(a));
                        crate::geometry::lemma_merge_contained(outer, pre_merged, a);
                    }
                    if spec_pairwise_disjoint(v@) {
                        assert(pre_acc =~= v@.subrange(0, j as int));
                        assert(pre_acc[k as int] == v@[k as int]);
                        assert(!v@[k as int].spec_overlaps(v@[j as int]));
                        assert(false);
                    }
                }
            } else {
                kept.push(a);
                proof {
                    assert forall|i: int| 0 <= i < k + 1 implies spec_covered_by(
                        #[trigger] pre_acc[i],
                        kept@,
                    ) || merged.spec_contains_rect(pre_acc[i]) by {
                        if i < k {
                            if spec_covered_by(pre_acc[i], pre_kept) {
                                let w = choose|w: int|
                                    0 <= w < pre_kept.len() && (#[trigger] pre_kept[
                                        w
                                    ]).spec_contains_rect(pre_acc[i]);
                                assert(kept@[w] == pre_kept[w]);
                                assert(spec_covered_by(pre_acc[i], kept@));
                            }
                        } else {
                            let w = kept@.len() - 1;
                            assert(kept@[w] == a);
                            assert(kept@[w].spec_contains_rect(pre_acc[i]));
                            assert(spec_covered_by(pre_acc[i], kept@));
                        }
                    }
                    assert forall|i: int| 0 <= i < kept@.len() implies spec_kept_from(
                        #[trigger] kept@[i],
                        pre_acc,
                        k as int + 1,
                        rj,
                    ) by {
                        if i < pre_kept.len() {
                            assert(kept@[i] == pre_kept[i]);
                            assert(spec_kept_from(pre_kept[i], pre_acc, k as int, rj));
                            let w = choose|i0: int|
                                0 <= i0 < k && (#[trigger] pre_acc[i0]) == pre_kept[i] && !pre_acc[
                                    i0
                                ].spec_overlaps(rj);
                            assert(0 <= w < k + 1 && pre_acc[w] == kept@[i] && !pre_acc[
                                w
                            ].spec_overlaps(rj));
                        } else {
                            assert(kept@[i] == a);
                            assert(0 <= k < k + 1 && pre_acc[k as int] == kept@[i] && !pre_acc[
                                k as int
                            ].spec_overlaps(rj));
                        }
                    }
                    if !absorbed {
                        assert(kept@ =~= pre_acc.subrange(0, k as int + 1));
                    }
                    assert forall|outer: Rect|
                        spec_all_contained(v@, outer) && spec_all_contained(
                            pre_acc,
                            outer,
                        ) implies outer.spec_contains_rect(merged) && spec_all_contained(
                        kept@,
                        outer,
                    ) by {
                        assert(outer.spec_contains_rect(pre_merged));
                        assert forall|i: int| 0 <= i < kept@.len() implies outer.spec_contains_rect(
                            #[trigger] kept@[i],
                        ) by {
                            if i < pre_kept.len() {
                                assert(kept@[i] == pre_kept[i]);
                                assert(spec_all_contained(pre_kept, outer));
                            } else {
                                assert(kept@[i] == a);
                            }
                        }
                    }
                }
            }
            k = k + 1;
        }
        let ghost folded = kept@;
        kept.push(merged);
        acc = kept;
        if absorbed {
            changed = true;
        }
        proof {
            let cur = acc@;
            let lastidx = cur.len() - 1;
            assert(cur =~= folded.push(merged));
            assert(cur[lastidx] == merged);
            assert(cur.subrange(0, lastidx) =~= folded);
            // every old accumulator entry is covered by the new accumulator
            assert forall|i: int| 0 <= i < pre_acc.len() implies spec_covered_by(
                #[trigger] pre_acc[i],
                cur,
            ) by {
                if spec_covered_by(pre_acc[i], folded) {
                    let w = choose|w: int|
                        0 <= w < folded.len() && (#[trigger] folded[w]).spec_contains_rect(
                            pre_acc[i],
                        );
                    assert(cur[w] == folded[w]);
                    assert(spec_covered_by(pre_acc[i], cur));
                } else {
                    assert(merged.spec_contains_rect(pre_acc[i]));
                    assert(cur[lastidx].spec_contains_rect(pre_acc[i]));
                    assert(spec_covered_by(pre_acc[i], cur));
                }
            }
            // coverage of the processed prefix of v
            assert forall|i: int| 0 <= i < j + 1 implies spec_covered_by(
                #[trigger] v@.subrange(0, j as int + 1)[i],
                cur,
            ) by {
                assert(v@.subrange(0, j as int + 1)[i] == v@[i]);
                if i < j {
                    assert(v@.subrange(0, j as int)[i] == v@[i]);
                    assert(spec_covered_by(v@[i], pre_acc));
                    lemma_covered_trans(v@[i], pre_acc, cur);
                } else {
                    assert(merged.spec_contains_rect(v@[j as int]));
                    assert(cur[lastidx].spec_contains_rect(v@[i]));
                    assert(spec_covered_by(v@[i], cur));
                }
            }
            // the outer containment bound survives
            assert forall|outer: Rect|
                spec_all_contained(v@, outer) implies spec_all_contained(acc@, outer) by {
                assert(spec_all_contained(pre_acc, outer));
                assert(outer.spec_contains_rect(merged));
                assert(spec_all_contained(folded, outer));
                assert forall|i: int| 0 <= i < cur.len() implies outer.spec_contains_rect(
                    #[trigger] cur[i],
                ) by {
                    if i < lastidx {
                        assert(cur[i] == folded[i]);
                    } else {
                        assert(cur[i] == merged);
                    }
                }
            }
            // the no-change case keeps the prefix intact and disjoint
            if !changed {
                assert(!absorbed && !pre_changed);
                assert(merged == rj);
                assert(pre_acc =~= v@.subrange(0, j as int));
                assert(acc@ =~= v@.subrange(0, j as int + 1));
                assert forall|x: int, y: int|
                    0 <= x < acc@.len() && 0 <= y < acc@.len() && x != y implies !(
                #[trigger] acc@[x]).spec_overlaps(#[trigger] acc@[y]) by {
                    if x < acc@.len() - 1 && y < acc@.len() - 1 {
                        assert(acc@[x] == pre_acc[x] && acc@[y] == pre_acc[y]);
                        assert(!pre_acc[x].spec_overlaps(pre_acc[y]));
                    } else if x == acc@.len() - 1 {
                        assert(acc@[x] == merged);
                        assert(acc@[y] == folded[y]);
                        assert(spec_kept_from(folded[y], pre_acc, m as int, rj));
                        let w = choose|i0: int|
                            0 <= i0 < m && (#[trigger] pre_acc[i0]) == folded[y] && !pre_acc[
                                i0
                            ].spec_overlaps(rj);
                        assert(!acc@[y].spec_overlaps(rj));
                        crate::geometry::lemma_overlaps_sym(acc@[x], acc@[y]);
                    } else {
                        assert(acc@[y] == merged);
                        assert(acc@[x] == folded[x]);
                        assert(spec_kept_from(folded[x], pre_acc, m as int, rj));
                        let w = choose|i0: int|
                            0 <= i0 < m && (#[trigger] pre_acc[i0]) == folded[x] && !pre_acc[
                                i0
                            ].spec_overlaps(rj);
                        assert(!acc@[x].spec_overlaps(rj));
                    }
                }
            }
        }
        j = j + 1;
    }
    proof {
        assert(v@.subrange(0, n as int) =~= v@);
    }
    (acc, changed)
}

/// Merges a damage list until no two rectangles overlap: overlapping
/// rectangles are repeatedly replaced by their bounding box. An already
/// disjoint list comes back unchanged; the result never has more
/// rectangles than the input, covers every input rectangle, and stays
/// inside any region the input stayed in.
pub fn merge_damage(damage: &Vec<Rect>) -> (out: Vec<Rect>)
    requires
        spec_all_wf(damage@),
    ensures
        spec_merged_props(damage@, out@),
{
    let mut cur: Vec<Rect> = Vec::new();
    let n: usize = damage.len();
    let mut i: usize = 0;
    while i < n
        invariant
            0 <= i <= n,
            n == damage@.len(),
            cur@ =~= damage@.subrange(0, i as int),
        decreases n - i,
    {
        cur.push(damage[i]);
        i = i + 1;
    }
    proof {
        assert(cur@ =~= damage@);
    }
    let mut done: bool = false;
    while !done
        invariant
            spec_all_wf(damage@),
            spec_all_wf(cur@),
            cur@.len() <= damage@.len(),
            spec_each_contained(damage@, cur@),
            done ==> spec_pairwise_disjoint(cur@),
            spec_pairwise_disjoint(damage@) ==> cur@ == damage@,
            forall|outer: Rect|
                #![trigger spec_all_contained(damage@, outer)]
                spec_all_contained(damage@, outer) ==> spec_all_contained(cur@, outer),
        decreases (if done {
            0int
        } else {
            cur@.len() as int + 1
        }),
    {
        let ghost pre = cur@;
        let (next, chg) = merge_pass(&cur);
        proof {
            assert forall|i2: int| 0 <= i2 < damage@.len() implies spec_covered_by(
                #[trigger] damage@[i2],
                next@,
            ) by {
                lemma_covered_trans(damage@[i2], pre, next@);
            }
            assert forall|outer: Rect|
                spec_all_contained(damage@, outer) implies spec_all_contained(next@, outer) by {
                assert(spec_all_contained(pre, outer));
            }
        }
        cur = next;
        if !chg {
            done = true;
        }
    }
    cur
}


/// A named GPU capability the painter cannot work without.
#[derive(Clone, Copy, PartialEq, Eq, Structural, Debug)]
pub enum GlExtension {
    Srgb,
    VertexArrayObject,
}

/// The painter's typed failures: all fatal at initialization, per-frame
/// painting itself never fails.
#[derive(Clone, Copy, PartialEq, Eq, Structural, Debug)]
pub enum GlError {
    ShaderCompile,
    ProgramLink,
    ExtensionNotSupported(GlExtension),
    FunctionLoader,
}

/// The capability gate of painter initialization: sRGB-correct blending
/// needs GL-ES 3+ or the sRGB texture extension, and the simplified buffer
/// setup needs vertex-array objects. Absence of either is fatal, naming the
/// missing extension.
pub open spec fn spec_check_gl_support(
    major_version: i32,
    has_srgb_extension: bool,
    has_vao_extension: bool,
) -> Result<(), GlError> {
    if major_version < 3 && !has_srgb_extension {
        Err(GlError::ExtensionNotSupported(GlExtension::Srgb))
    } else if !has_vao_extension {
        Err(GlError::ExtensionNotSupported(GlExtension::VertexArrayObject))
    } else {
        Ok(())
    }
}

/// Decides whether the GPU context can host the painter; see
/// `spec_check_gl_support` for the rule.
pub fn check_gl_support(major_version: i32, has_srgb_extension: bool, has_vao_extension: bool) -> (r:
    Result<(), GlError>)
    ensures
        r == spec_check_gl_support(major_version, has_srgb_extension, has_vao_extension),
{
    if major_version < 3 && !has_srgb_extension {
        Err(GlError::ExtensionNotSupported(GlExtension::Srgb))
    } else if !has_vao_extension {
        Err(GlError::ExtensionNotSupported(GlExtension::VertexArrayObject))
    } else {
        Ok(())
    }
}

/// `name` stands as a whole space-separated token of `list` at offset `i`.
pub open spec fn spec_token_at(list: Seq<u8>, name: Seq<u8>, i: int) -> bool {
    &&& 0 <= i
    &&& i + name.len() <= list.len()
    &&& list.subrange(i, i + name.len() as int) == name
    &&& (i == 0 || list[i - 1] == 32u8)
    &&& (i + name.len() == list.len() || list[i + name.len() as int] == 32u8)
}

/// `name` occurs somewhere in `list` as a whole space-separated token.
pub open spec fn spec_has_token(list: Seq<u8>, name: Seq<u8>) -> bool {
    exists|i: int| spec_token_at(list, name, i)
}

/// Searches a raw space-separated capability list, as the GPU reports it,
/// for one extension name: a whole token must match, a substring of a
/// longer token does not count.
pub fn has_gl_extension(list: &Vec<u8>, name: &Vec<u8>) -> (r: bool)
    requires
        list@.len() < usize::MAX,
    ensures
        r == spec_has_token(list@, name@),
{
    let n: usize = list.len();
    let m: usize = name.len();
    if m > n {
        proof {
            assert forall|i: int| !spec_token_at(list@, name@, i) by {}
        }
        return false;
    }
    let mut i: usize = 0;
    loop
        invariant
            0 <= i <= n - m + 1,
            m <= n,
            n < usize::MAX,
            n == list@.len(),
            m == name@.len(),
            forall|j: int| 0 <= j < i ==> !spec_token_at(list@, name@, j),
        ensures
            spec_has_token(list@, name@) == false,
        decreases n - m + 1 - i,
    {
        if i > n - m {
            proof {
                assert forall|j: int| !spec_token_at(list@, name@, j) by {
                    if 0 <= j < i {
                    } else if j >= i {
                        assert(j + name@.len() > list@.len());
                    }
                }
            }
            break;
        }
        let left_ok: bool = i == 0 || list[i - 1] == 32;
        let right_ok: bool = i + m == n || list[i + m] == 32;
        if left_ok && right_ok {
            let mut matched: bool = true;
            let mut k: usize = 0;
            while k < m
                invariant
                    0 <= k <= m,
                    m <= n - i,
                    n == list@.len(),
                    m == name@.len(),
                    matched == (forall|t: int|
                        0 <= t < k ==> list@[i as int + t] == name@[t]),
                decreases m - k,
            {
                if list[i + k] != name[k] {
                    matched = false;
                }
                k = k + 1;
            }
            if matched {
                proof {
                    assert(list@.subrange(i as int, i as int + m as int) =~= name@);
                    assert(spec_token_at(list@, name@, i as int));
                }
                return true;
            }
            proof {
                let t = choose|t: int| 0 <= t < m && list@[i as int + t] != name@[t];
                assert forall|j: int| 0 <= j < i + 1 implies !spec_token_at(
                    list@,
                    name@,
                    j,
                ) by {
                    if j == i {
                        if spec_token_at(list@, name@, i as int) {
                            assert(list@.subrange(i as int, i as int + m as int)[t] == name@[t]);
                        }
                    }
                }
            }
        } else {
            proof {
                assert(!spec_token_at(list@, name@, i as int));
            }
        }
        i = i + 1;
    }
    false
}

/// The mesh data the planner needs: which texture the mesh samples.
#[derive(Clone, Copy, PartialEq, Eq, Structural, Debug)]
pub struct MeshInfo {
    pub texture_id: TextureId,
}

/// A draw primitive of the toolkit: a textured triangle mesh, or a custom
/// paint callback. Callbacks are an extension point this painter does not
/// execute.
#[derive(Clone, Copy, PartialEq, Eq, Structural, Debug)]
pub enum Primitive {
    Mesh(MeshInfo),
    Callback,
}

/// A primitive together with the rectangle outside which it must not draw.
#[derive(Clone, Copy, PartialEq, Eq, Structural, Debug)]
pub struct ClippedPrimitive {
    pub clip_rect: Rect,
    pub primitive: Primitive,
}

/// One scissored draw the caller must issue: bind `texture`, set the
/// scissor box, and draw the mesh at `mesh_index` of the frame's primitive
/// list.
#[derive(Clone, Copy, PartialEq, Eq, Structural, Debug)]
pub struct DrawCall {
    pub mesh_index: usize,
    pub scissor: Rect,
    pub texture: u32,
}

/// How the painter is aimed at its target: the placement offset of the
/// drawn area, the target's size, and the target's output transform.
#[derive(Clone, Copy, PartialEq, Eq, Structural, Debug)]
pub struct PaintParams {
    pub loc_x: i32,
    pub loc_y: i32,
    pub area_w: i32,
    pub area_h: i32,
    pub transform: Transform,
}

impl PaintParams {
    /// Bounds that keep all scissor arithmetic inside `i32`.
    pub open spec fn wf(self) -> bool {
        &&& 0 <= self.area_w <= crate::geometry::COORD_LIMIT
        &&& 0 <= self.area_h <= crate::geometry::COORD_LIMIT
        &&& -crate::geometry::COORD_LIMIT <= self.loc_x <= crate::geometry::COORD_LIMIT
        &&& -crate::geometry::COORD_LIMIT <= self.loc_y <= crate::geometry::COORD_LIMIT
    }

    /// The target as a rectangle at the origin.
    pub open spec fn area_rect(self) -> Rect {
        Rect { x: 0, y: 0, w: self.area_w, h: self.area_h }
    }
}

/// The GPU texture a primitive samples: a managed identifier is resolved
/// through the cache, a raw host handle is used directly.
pub open spec fn spec_prim_tex(cache: Map<u64, TextureEntry>, p: Primitive) -> u32 {
    match p {
        Primitive::Mesh(m) => match m.texture_id {
            TextureId::Managed(id) => cache[id].tex,
            TextureId::User(u) => u as u32,
        },
        Primitive::Callback => 0u32,
    }
}

/// The scissor box for drawing the part of `clip` that lies in the damage
/// rectangle `d`: their intersection, carried through the target's output
/// transform, offset by the placement location, with the origin clamped to
/// the target (the extent is left as is, exactly as handed to the GPU).
pub open spec fn spec_scissor(clip: Rect, d: Rect, params: PaintParams) -> Rect {
    let inter = clip.spec_intersection(d);
    let tr = params.transform.spec_transform_rect(inter, params.area_w, params.area_h);
    let sx = tr.x + params.loc_x;
    let sy = tr.y + params.loc_y;
    Rect {
        x: (if sx >= 0 {
            sx
        } else {
            0
        }) as i32,
        y: (if sy >= 0 {
            sy
        } else {
            0
        }) as i32,
        w: tr.w,
        h: tr.h,
    }
}

/// The draw calls one primitive produces: one scissored draw per merged
/// damage rectangle its clip rectangle overlaps, in damage order; none for
/// a primitive overlapping no damage.
pub open spec fn spec_mesh_calls(
    cache: Map<u64, TextureEntry>,
    prim: ClippedPrimitive,
    idx: usize,
    merged: Seq<Rect>,
    params: PaintParams,
) -> Seq<DrawCall>
    decreases merged.len(),
{
    if merged.len() == 0 {
        Seq::empty()
    } else {
        let rest = spec_mesh_calls(cache, prim, idx, merged.skip(1), params);
        if prim.clip_rect.spec_overlaps(merged[0]) {
            seq![
                DrawCall {
                    mesh_index: idx,
                    scissor: spec_scissor(prim.clip_rect, merged[0], params),
                    texture: spec_prim_tex(cache, prim.primitive),
                },
            ] + rest
        } else {
            rest
        }
    }
}

/// The draw calls of the whole frame from primitive `i` on, in the
/// toolkit's draw order.
pub open spec fn spec_paint_plan_from(
    cache: Map<u64, TextureEntry>,
    prims: Seq<ClippedPrimitive>,
    i: int,
    merged: Seq<Rect>,
    params: PaintParams,
) -> Seq<DrawCall>
    decreases prims.len() - i,
{
    if 0 <= i < prims.len() {
        spec_mesh_calls(cache, prims[i], i as usize, merged, params) + spec_paint_plan_from(
            cache,
            prims,
            i + 1,
            merged,
            params,
        )
    } else {
        Seq::empty()
    }
}

/// What the planner demands of a frame's primitive list: well-formed clip
/// rectangles inside the target, no callback primitives (out of scope for
/// this painter), and a live cache entry for every managed texture — a
/// missing entry is an integration fault, not a runtime condition.
pub open spec fn spec_prims_ok(
    cache: Map<u64, TextureEntry>,
    prims: Seq<ClippedPrimitive>,
    area: Rect,
) -> bool {
    forall|i: int|
        0 <= i < prims.len() ==> {
            let p = #[trigger] prims[i];
            &&& p.clip_rect.wf()
            &&& area.spec_contains_rect(p.clip_rect)
            &&& match p.primitive {
                Primitive::Mesh(m) => match m.texture_id {
                    TextureId::Managed(id) => cache.contains_key(id),
                    TextureId::User(_) => true,
                },
                Primitive::Callback => false,
            }
        }
}

impl GlState {
    /// Whether a frame's primitive list meets `paint_meshes`' demands on
    /// this cache: callers check this before painting and treat a failure
    /// as an integration fault.
    pub fn can_paint(&self, prims: &Vec<ClippedPrimitive>, area_w: i32, area_h: i32) -> (b: bool)
        requires
            0 <= area_w <= crate::geometry::COORD_LIMIT,
            0 <= area_h <= crate::geometry::COORD_LIMIT,
        ensures
            b == spec_prims_ok(
                self.egui_textures@,
                prims@,
                Rect { x: 0, y: 0, w: area_w, h: area_h },
            ),
    {
        let area = Rect { x: 0, y: 0, w: area_w, h: area_h };
        let n: usize = prims.len();
        let mut i: usize = 0;
        while i < n
            invariant
                0 <= i <= n,
                n == prims@.len(),
                area == (Rect { x: 0, y: 0, w: area_w, h: area_h }),
                0 <= area_w <= crate::geometry::COORD_LIMIT,
                0 <= area_h <= crate::geometry::COORD_LIMIT,
                forall|j: int|
                    0 <= j < i ==> {
                        let p = #[trigger] prims@[j];
                        &&& p.clip_rect.wf()
                        &&& area.spec_contains_rect(p.clip_rect)
                        &&& match p.primitive {
                            Primitive::Mesh(m) => match m.texture_id {
                                TextureId::Managed(id) => self.egui_textures@.contains_key(id),
                                TextureId::User(_) => true,
                            },
                            Primitive::Callback => false,
                        }
                    },
            decreases n - i,
        {
            let p: ClippedPrimitive = prims[i];
            let c: Rect = p.clip_rect;
            let wf_ok: bool = 0 <= c.w && 0 <= c.h && -crate::geometry::COORD_LIMIT <= c.x
                && -crate::geometry::COORD_LIMIT <= c.y && c.x <= crate::geometry::COORD_LIMIT
                - c.w && c.y <= crate::geometry::COORD_LIMIT - c.h;
            if !wf_ok {
                return false;
            }
            if !(c.x >= 0 && c.y >= 0 && c.x + c.w <= area_w && c.y + c.h <= area_h) {
                return false;
            }
            match p.primitive {
                Primitive::Mesh(m) => {
                    match m.texture_id {
                        TextureId::Managed(id) => {
                            if !self.egui_textures.contains_key(&id) {
                                return false;
                            }
                        },
                        TextureId::User(_) => {},
                    }
                },
                Primitive::Callback => {
                    return false;
                },
            }
            i = i + 1;
        }
        true
    }

    /// Plans the scissored draw calls for one frame: merges the damage
    /// list, then, for each primitive in draw order, emits one draw per
    /// merged damage rectangle its clip rectangle overlaps, with the
    /// scissor box of `spec_scissor`. A primitive overlapping no damage is
    /// skipped entirely. When the supplied damage list is already pairwise
    /// disjoint the plan is stated directly over it.
    pub fn paint_meshes(
        &self,
        prims: &Vec<ClippedPrimitive>,
        damage: &Vec<Rect>,
        params: PaintParams,
    ) -> (plan: Vec<DrawCall>)
        requires
            params.wf(),
            spec_all_wf(damage@),
            spec_all_contained(damage@, params.area_rect()),
            spec_prims_ok(self.egui_textures@, prims@, params.area_rect()),
        ensures
            exists|merged: Seq<Rect>|
                #[trigger] spec_merged_props(damage@, merged) && plan@ == spec_paint_plan_from(
                    self.egui_textures@,
                    prims@,
                    0,
                    merged,
                    params,
                ),
            spec_pairwise_disjoint(damage@) ==> plan@ == spec_paint_plan_from(
                self.egui_textures@,
                prims@,
                0,
                damage@,
                params,
            ),
    {
        let merged: Vec<Rect> = merge_damage(damage);
        let ghost mseq = merged@;
        let ghost cache = self.egui_textures@;
        proof {
            assert(spec_all_contained(damage@, params.area_rect()));
            assert(spec_all_contained(mseq, params.area_rect()));
        }
        let mut plan: Vec<DrawCall> = Vec::new();
        let np: usize = prims.len();
        let nd: usize = merged.len();
        let mut i: usize = 0;
        while i < np
            invariant
                0 <= i <= np,
                np == prims@.len(),
                nd == merged@.len(),
                merged@ == mseq,
                cache == self.egui_textures@,
                params.wf(),
                spec_all_wf(mseq),
                spec_all_contained(mseq, params.area_rect()),
                spec_prims_ok(cache, prims@, params.area_rect()),
                spec_paint_plan_from(cache, prims@, 0, mseq, params) == plan@
                    + spec_paint_plan_from(cache, prims@, i as int, mseq, params),
            decreases np - i,
        {
            let ghost plan_at_prim = plan@;
            let p: ClippedPrimitive = prims[i];
            let tex: u32 = match p.primitive {
                Primitive::Mesh(m) => {
                    match m.texture_id {
                        TextureId::Managed(id) => {
                            match self.egui_textures.get(&id) {
                                Some(e) => e.tex,
                                None => {
                                    proof {
                                        assert(false);
                                    }
                                    0
                                },
                            }
                        },
                        TextureId::User(u) => {
                            #[verifier::truncate]
                            (u as u32)
                        },
                    }
                },
                Primitive::Callback => {
                    proof {
                        assert(false);
                    }
                    0
                },
            };
            proof {
                assert(tex == spec_prim_tex(cache, p.primitive));
                assert(mseq.skip(0) =~= mseq);
                assert(plan@.skip(plan_at_prim.len() as int) =~= Seq::<DrawCall>::empty());
            }
            let mut k: usize = 0;
            while k < nd
                invariant
                    0 <= k <= nd,
                    nd == merged@.len(),
                    merged@ == mseq,
                    cache == self.egui_textures@,
                    params.wf(),
                    spec_all_wf(mseq),
                    spec_all_contained(mseq, params.area_rect()),
                    0 <= (i as int) < prims@.len(),
                    p == prims@[i as int],
                    spec_prims_ok(cache, prims@, params.area_rect()),
                    tex == spec_prim_tex(cache, p.primitive),
                    plan_at_prim.len() <= plan@.len(),
                    plan@.take(plan_at_prim.len() as int) =~= plan_at_prim,
                    spec_mesh_calls(cache, p, i as usize, mseq, params) == plan@.skip(
                        plan_at_prim.len() as int,
                    ) + spec_mesh_calls(cache, p, i as usize, mseq.skip(k as int), params),
                decreases nd - k,
            {
                let ghost pre_plan = plan@;
                let dk: Rect = merged[k];
                proof {
                    assert(mseq[k as int].wf());
                    assert(p.clip_rect.wf());
                }
                if p.clip_rect.overlaps(&dk) {
                    let inter: Rect = match p.clip_rect.intersection(&dk) {
                        Some(r) => r,
                        None => {
                            proof {
                                assert(false);
                            }
                            Rect { x: 0, y: 0, w: 0, h: 0 }
                        },
                    };
                    proof {
                        assert(params.area_rect().spec_contains_rect(p.clip_rect));
                        crate::geometry::lemma_contains_trans(
                            params.area_rect(),
                            p.clip_rect,
                            inter,
                        );
                    }
                    let tr: Rect = params.transform.transform_rect_in(
                        &inter,
                        params.area_w,
                        params.area_h,
                    );
                    let sx: i32 = tr.x + params.loc_x;
                    let sy: i32 = tr.y + params.loc_y;
                    let scissor = Rect {
                        x: if sx >= 0 {
                            sx
                        } else {
                            0
                        },
                        y: if sy >= 0 {
                            sy
                        } else {
                            0
                        },
                        w: tr.w,
                        h: tr.h,
                    };
                    plan.push(DrawCall { mesh_index: i, scissor, texture: tex });
                    proof {
                        assert(scissor == spec_scissor(p.clip_rect, mseq[k as int], params));
                        let len0 = plan_at_prim.len() as int;
                        assert(plan@.take(len0) =~= pre_plan.take(len0));
                        assert(plan@.skip(len0) =~= pre_plan.skip(len0) + seq![
                            DrawCall {
                                mesh_index: i as usize,
                                scissor: spec_scissor(p.clip_rect, mseq[k as int], params),
                                texture: spec_prim_tex(cache, p.primitive),
                            },
                        ]);
                    }
                }
                proof {
                    let suffix = mseq.skip(k as int);
                    assert(suffix[0] == mseq[k as int]);
                    assert(suffix.skip(1) =~= mseq.skip(k as int + 1));
                }
                k = k + 1;
            }
            proof {
                assert(mseq.skip(nd as int) =~= Seq::<Rect>::empty());
                assert(spec_mesh_calls(cache, p, i as usize, mseq.skip(nd as int), params)
                    =~= Seq::<DrawCall>::empty());
                assert(spec_mesh_calls(cache, p, i as usize, mseq, params) == plan@.skip(
                    plan_at_prim.len() as int,
                ));
                assert(plan@ =~= plan@.take(plan_at_prim.len() as int) + plan@.skip(
                    plan_at_prim.len() as int,
                ));
                assert(plan@ =~= plan_at_prim + spec_mesh_calls(cache, p, i as usize, mseq, params));
                assert(spec_paint_plan_from(cache, prims@, i as int, mseq, params)
                    == spec_mesh_calls(cache, prims@[i as int], i as usize, mseq, params)
                    + spec_paint_plan_from(cache, prims@, i as int + 1, mseq, params));
            }
            i = i + 1;
        }
        proof {
            assert(spec_paint_plan_from(cache, prims@, np as int, mseq, params)
                =~= Seq::<DrawCall>::empty());
            if spec_pairwise_disjoint(damage@) {
                assert(mseq == damage@);
            }
        }
        plan
    }
}


/// Every draw call one primitive produces carries that primitive's index.
proof fn lemma_mesh_calls_index(
    cache: Map<u64, TextureEntry>,
    prim: ClippedPrimitive,
    idx: usize,
    merged: Seq<Rect>,
    params: PaintParams,
)
    ensures
        forall|k: int|
            0 <= k < spec_mesh_calls(cache, prim, idx, merged, params).len() ==> (
            #[trigger] spec_mesh_calls(cache, prim, idx, merged, params)[k]).mesh_index == idx,
    decreases merged.len(),
{
    if merged.len() > 0 {
        lemma_mesh_calls_index(cache, prim, idx, merged.skip(1), params);
        let calls = spec_mesh_calls(cache, prim, idx, merged, params);
        let rest = spec_mesh_calls(cache, prim, idx, merged.skip(1), params);
        assert forall|k: int| 0 <= k < calls.len() implies (#[trigger] calls[k]).mesh_index
            == idx by {
            if prim.clip_rect.spec_overlaps(merged[0]) {
                if k > 0 {
                    assert(calls[k] == rest[k - 1]);
                }
            } else {
                assert(calls[k] == rest[k]);
            }
        }
    }
}

/// A primitive whose clip rectangle overlaps no merged damage rectangle
/// produces no draw call at all.
proof fn lemma_mesh_calls_empty(
    cache: Map<u64, TextureEntry>,
    prim: ClippedPrimitive,
    idx: usize,
    merged: Seq<Rect>,
    params: PaintParams,
)
    requires
        forall|j: int|
            0 <= j < merged.len() ==> !prim.clip_rect.spec_overlaps(#[trigger] merged[j]),
    ensures
        spec_mesh_calls(cache, prim, idx, merged, params).len() == 0,
    decreases merged.len(),
{
    if merged.len() > 0 {
        assert forall|j: int|
            0 <= j < merged.skip(1).len() implies !prim.clip_rect.spec_overlaps(
            #[trigger] merged.skip(1)[j],
        ) by {
            assert(merged.skip(1)[j] == merged[j + 1]);
        }
        lemma_mesh_calls_empty(cache, prim, idx, merged.skip(1), params);
    }
}

/// All draw calls from primitive `i` onward target primitives at or after
/// `i`, and the plan lists them in non-decreasing primitive order.
proof fn lemma_plan_from_ordered(
    cache: Map<u64, TextureEntry>,
    prims: Seq<ClippedPrimitive>,
    i: int,
    merged: Seq<Rect>,
    params: PaintParams,
)
    requires
        prims.len() <= usize::MAX,
    ensures
        forall|k: int|
            0 <= k < spec_paint_plan_from(cache, prims, i, merged, params).len() ==> i <= (
            #[trigger] spec_paint_plan_from(cache, prims, i, merged, params)[k]).mesh_index
                < prims.len(),
        forall|k1: int, k2: int|
            #![trigger spec_paint_plan_from(cache, prims, i, merged, params)[k1],
                spec_paint_plan_from(cache, prims, i, merged, params)[k2]]
            0 <= k1 < k2 < spec_paint_plan_from(cache, prims, i, merged, params).len()
                ==> spec_paint_plan_from(cache, prims, i, merged, params)[k1].mesh_index
                <= spec_paint_plan_from(cache, prims, i, merged, params)[k2].mesh_index,
    decreases prims.len() - i,
{
    if 0 <= i < prims.len() {
        lemma_mesh_calls_index(cache, prims[i], i as usize, merged, params);
        lemma_plan_from_ordered(cache, prims, i + 1, merged, params);
        let plan = spec_paint_plan_from(cache, prims, i, merged, params);
        let head = spec_mesh_calls(cache, prims[i], i as usize, merged, params);
        let tail = spec_paint_plan_from(cache, prims, i + 1, merged, params);
        assert forall|k: int| 0 <= k < plan.len() implies i <= (#[trigger] plan[k]).mesh_index
            < prims.len() by {
            if k < head.len() {
                assert(plan[k] == head[k]);
            } else {
                assert(plan[k] == tail[k - head.len()]);
            }
        }
        assert forall|k1: int, k2: int|
            #![trigger plan[k1], plan[k2]]
            0 <= k1 < k2 < plan.len() implies plan[k1].mesh_index <= plan[k2].mesh_index by {
            if k1 < head.len() {
                assert(plan[k1] == head[k1]);
                if k2 < head.len() {
                    assert(plan[k2] == head[k2]);
                } else {
                    assert(plan[k2] == tail[k2 - head.len()]);
                }
            } else {
                assert(plan[k1] == tail[k1 - head.len()]);
                assert(plan[k2] == tail[k2 - head.len()]);
            }
        }
    }
}

/// The plan never draws a primitive whose clip rectangle overlaps none of
/// the merged damage rectangles: undamaged screen regions cost no GPU work.
pub proof fn lemma_undamaged_mesh_skipped(
    cache: Map<u64, TextureEntry>,
    prims: Seq<ClippedPrimitive>,
    mi: usize,
    merged: Seq<Rect>,
    params: PaintParams,
)
    requires
        prims.len() <= usize::MAX,
        0 <= (mi as int) < prims.len(),
        forall|j: int|
            0 <= j < merged.len() ==> !prims[mi as int].clip_rect.spec_overlaps(
                #[trigger] merged[j],
            ),
    ensures
        forall|k: int|
            0 <= k < spec_paint_plan_from(cache, prims, 0, merged, params).len() ==> (
            #[trigger] spec_paint_plan_from(cache, prims, 0, merged, params)[k]).mesh_index != mi,
{
    lemma_undamaged_from(cache, prims, 0, mi, merged, params);
}

proof fn lemma_undamaged_from(
    cache: Map<u64, TextureEntry>,
    prims: Seq<ClippedPrimitive>,
    i: int,
    mi: usize,
    merged: Seq<Rect>,
    params: PaintParams,
)
    requires
        prims.len() <= usize::MAX,
        0 <= (mi as int) < prims.len(),
        forall|j: int|
            0 <= j < merged.len() ==> !prims[mi as int].clip_rect.spec_overlaps(
                #[trigger] merged[j],
            ),
    ensures
        forall|k: int|
            0 <= k < spec_paint_plan_from(cache, prims, i, merged, params).len() ==> (
            #[trigger] spec_paint_plan_from(cache, prims, i, merged, params)[k]).mesh_index != mi,
    decreases prims.len() - i,
{
    if 0 <= i < prims.len() {
        if i == mi as int {
            lemma_mesh_calls_empty(cache, prims[i], i as usize, merged, params);
        } else {
            lemma_mesh_calls_index(cache, prims[i], i as usize, merged, params);
        }
        lemma_undamaged_from(cache, prims, i + 1, mi, merged, params);
        let plan = spec_paint_plan_from(cache, prims, i, merged, params);
        let head = spec_mesh_calls(cache, prims[i], i as usize, merged, params);
        let tail = spec_paint_plan_from(cache, prims, i + 1, merged, params);
        assert forall|k: int| 0 <= k < plan.len() implies (#[trigger] plan[k]).mesh_index
            != mi by {
            if k < head.len() {
                assert(plan[k] == head[k]);
            } else {
                assert(plan[k] == tail[k - head.len()]);
            }
        }
    }
}

/// The plan preserves the toolkit's painter-order: draw calls appear in
/// non-decreasing primitive order, so back-to-front compositing is kept.
pub proof fn lemma_paint_plan_ordered(
    cache: Map<u64, TextureEntry>,
    prims: Seq<ClippedPrimitive>,
    merged: Seq<Rect>,
    params: PaintParams,
)
    requires
        prims.len() <= usize::MAX,
    ensures
        forall|k1: int, k2: int|
            #![trigger spec_paint_plan_from(cache, prims, 0, merged, params)[k1],
                spec_paint_plan_from(cache, prims, 0, merged, params)[k2]]
            0 <= k1 < k2 < spec_paint_plan_from(cache, prims, 0, merged, params).len()
                ==> spec_paint_plan_from(cache, prims, 0, merged, params)[k1].mesh_index
                <= spec_paint_plan_from(cache, prims, 0, merged, params)[k2].mesh_index,
{
    lemma_plan_from_ordered(cache, prims, 0, merged, params);
}

} // verus!
