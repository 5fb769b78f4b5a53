//! Per-frame instance batching: translates viewport-space draw calls into
//! instance records with exact normalized-device-coordinate transforms and
//! UV rectangles (with quarter-turn rotation), then hands a texture-sorted,
//! grouped instance stream to the GPU edge.
//!
//! All coordinates are kept as exact integer fractions; the embedding
//! application performs the floating-point division only when uploading.

use vstd::prelude::*;
use crate::Rect;
use crate::Texture;

verus! {

/// A quarter-turn rotation selector for a drawn texture region.
#[derive(PartialEq, Eq, Structural, Debug, Clone, Copy)]
pub enum Rotate {
    R0,
    R90,
    R180,
    R270,
}

/// An exact fraction `num / den`. The GPU edge divides in floating point;
/// inside the library the two parts stay exact.
#[derive(PartialEq, Eq, Structural, Debug, Clone, Copy)]
pub struct Frac {
    pub num: i64,
    pub den: i64,
}

impl Frac {
    /// A denominator is always positive.
    pub open spec fn wf(&self) -> bool {
        self.den > 0
    }
}

/// One GPU-batched draw record: position and half-size in normalized device
/// coordinates, UV origin and basis vectors, tint color and the texture it
/// samples. Created per `draw` call, it lives only for the current frame.
#[derive(PartialEq, Eq, Structural, Debug, Clone, Copy)]
pub struct DrawInstance {
    pub tex: Texture,
    pub pos_x: Frac,
    pub pos_y: Frac,
    pub size_w: Frac,
    pub size_h: Frac,
    pub uv_origin_x: Frac,
    pub uv_origin_y: Frac,
    pub uv_x_x: Frac,
    pub uv_x_y: Frac,
    pub uv_y_x: Frac,
    pub uv_y_y: Frac,
    pub tint_r: u8,
    pub tint_g: u8,
    pub tint_b: u8,
}

impl DrawInstance {
    pub open spec fn wf(&self) -> bool {
        &&& self.pos_x.wf()
        &&& self.pos_y.wf()
        &&& self.size_w.wf()
        &&& self.size_h.wf()
        &&& self.uv_origin_x.wf()
        &&& self.uv_origin_y.wf()
        &&& self.uv_x_x.wf()
        &&& self.uv_x_y.wf()
        &&& self.uv_y_x.wf()
        &&& self.uv_y_y.wf()
    }
}

/// Every instance of the sequence holds well-formed fractions.
pub open spec fn insts_wf(insts: Seq<DrawInstance>) -> bool {
    forall|i: int| 0 <= i < insts.len() ==> (#[trigger] insts[i]).wf()
}

/// Every instance of the sequence references a texture index inside a
/// table of `n` entries.
pub open spec fn insts_in_table(insts: Seq<DrawInstance>, n: int) -> bool {
    forall|i: int| 0 <= i < insts.len() ==> (#[trigger] insts[i]).tex.index < n
}

/// Appending a well-formed instance keeps a sequence of instances
/// well-formed.
proof fn lemma_insts_wf_push(insts: Seq<DrawInstance>, inst: DrawInstance)
    requires
        insts_wf(insts),
        inst.wf(),
    ensures
        insts_wf(insts.push(inst)),
{
    assert forall|i: int| 0 <= i < insts.push(inst).len() implies (#[trigger] insts.push(
        inst,
    )[i]).wf() by {
        if i < insts.len() {
            assert(insts.push(inst)[i] == insts[i]);
        }
    }
}

/// Replacing an instance by a well-formed one keeps the sequence
/// well-formed.
proof fn lemma_insts_wf_update(insts: Seq<DrawInstance>, k: int, inst: DrawInstance)
    requires
        insts_wf(insts),
        inst.wf(),
        0 <= k < insts.len(),
    ensures
        insts_wf(insts.update(k, inst)),
{
    assert forall|i: int| 0 <= i < insts.update(k, inst).len() implies (#[trigger] insts.update(
        k,
        inst,
    )[i]).wf() by {
        if i != k {
            assert(insts.update(k, inst)[i] == insts[i]);
        }
    }
}

/// The destination mapping of a draw call: the instance's position is
/// `(d - view origin) / view extent * 2 - 1` and its size `d extent / view
/// extent * 2`, each kept as an exact fraction over the view extent.
pub open spec fn matches_dest(inst: DrawInstance, dest: Rect, view: Rect) -> bool {
    &&& inst.pos_x.num == 2 * (dest.x - view.x) - view.w
    &&& inst.pos_x.den == view.w
    &&& inst.pos_y.num == 2 * (dest.y - view.y) - view.h
    &&& inst.pos_y.den == view.h
    &&& inst.size_w.num == 2 * dest.w
    &&& inst.size_w.den == view.w
    &&& inst.size_h.num == 2 * dest.h
    &&& inst.size_h.den == view.h
}

/// The UV corner and basis table for a source rectangle under a quarter-turn
/// rotation, in texture pixel units: the origin, the x-basis vector and the
/// y-basis vector. The four cases permute which corner is the origin and
/// flip the sign and order of the basis vectors.
pub open spec fn uv_table(src: Rect, rot: Rotate) -> ((int, int), (int, int), (int, int)) {
    match rot {
        Rotate::R0 => ((src.x as int, src.y as int), (src.w as int, 0int), (0int, src.h as int)),
        Rotate::R90 => (
            (src.x as int, src.y + src.h),
            (0int, -src.h as int),
            (src.w as int, 0int),
        ),
        Rotate::R180 => (
            (src.x + src.w, src.y + src.h),
            (-src.w as int, 0int),
            (0int, -src.h as int),
        ),
        Rotate::R270 => (
            (src.x + src.w, src.y as int),
            (0int, src.h as int),
            (-src.w as int, 0int),
        ),
    }
}

/// The UV mapping of an instance: the pixel-space table entries, each
/// x-component over the texture width and each y-component over the texture
/// height.
pub open spec fn matches_uv(
    inst: DrawInstance,
    src: Rect,
    rot: Rotate,
    tex_w: u32,
    tex_h: u32,
) -> bool {
    let table = uv_table(src, rot);
    &&& inst.uv_origin_x.num == table.0.0
    &&& inst.uv_origin_x.den == tex_w
    &&& inst.uv_origin_y.num == table.0.1
    &&& inst.uv_origin_y.den == tex_h
    &&& inst.uv_x_x.num == table.1.0
    &&& inst.uv_x_x.den == tex_w
    &&& inst.uv_x_y.num == table.1.1
    &&& inst.uv_x_y.den == tex_h
    &&& inst.uv_y_x.num == table.2.0
    &&& inst.uv_y_x.den == tex_w
    &&& inst.uv_y_y.num == table.2.1
    &&& inst.uv_y_y.den == tex_h
}

/// The source rectangle a builder stands for: the one it was given, or the
/// whole texture.
pub open spec fn src_or_full(src: Option<Rect>, tex_w: u32, tex_h: u32) -> Rect {
    match src {
        Some(rect) => rect,
        None => (Rect { x: 0, y: 0, w: tex_w as i32, h: tex_h as i32 }),
    }
}

/// Per-frame builder that accumulates draw instances. It owns a snapshot of
/// the texture dimension table and the active view rectangle; `draw` appends
/// one instance per call.
pub struct Renderer {
    screen_size: (u32, u32),
    view: Rect,
    instances: Vec<DrawInstance>,
    dims: Vec<(u32, u32)>,
}

impl Renderer {
    pub closed spec fn spec_view(&self) -> Rect {
        self.view
    }

    pub closed spec fn spec_screen_size(&self) -> (u32, u32) {
        self.screen_size
    }

    pub closed spec fn instances_seq(&self) -> Seq<DrawInstance> {
        self.instances@
    }

    pub closed spec fn dims_seq(&self) -> Seq<(u32, u32)> {
        self.dims@
    }

    /// The view rectangle has positive extent and every accumulated
    /// instance holds well-formed fractions and references a texture that
    /// was valid at its draw call: an index into the dimension table.
    pub open spec fn wf(&self) -> bool {
        &&& self.spec_view().w > 0
        &&& self.spec_view().h > 0
        &&& insts_wf(self.instances_seq())
        &&& insts_in_table(self.instances_seq(), self.dims_seq().len() as int)
    }

    /// A draw call on `texture` is valid when the handle points into the
    /// dimension table and the texture is not empty (its extent is a
    /// positive number of pixels on each axis, within the coordinate range).
    pub open spec fn valid_texture(&self, texture: Texture) -> bool {
        &&& texture.index < self.dims_seq().len()
        &&& 0 < self.dims_seq()[texture.index as int].0 <= i32::MAX
        &&& 0 < self.dims_seq()[texture.index as int].1 <= i32::MAX
    }

    /// Begin a frame: an empty instance list, the screen size captured, and
    /// the view rectangle reset to the full screen.
    pub fn new(screen_w: u32, screen_h: u32, dims: Vec<(u32, u32)>) -> (r: Renderer)
        requires
            0 < screen_w <= i32::MAX,
            0 < screen_h <= i32::MAX,
        ensures
            r.wf(),
            r.spec_screen_size() == (screen_w, screen_h),
            r.spec_view() == (Rect { x: 0, y: 0, w: screen_w as i32, h: screen_h as i32 }),
            r.instances_seq() == Seq::<DrawInstance>::empty(),
            r.dims_seq() == dims@,
    {
        Renderer {
            screen_size: (screen_w, screen_h),
            view: Rect { x: 0, y: 0, w: screen_w as i32, h: screen_h as i32 },
            instances: Vec::new(),
            dims,
        }
    }

    pub fn screen_size(&self) -> (size: (u32, u32))
        ensures
            size == self.spec_screen_size(),
    {
        self.screen_size
    }

    /// Change the view rectangle for subsequent draw calls; instances already
    /// pushed are not affected.
    pub fn set_view(&mut self, view: Rect)
        requires
            old(self).wf(),
            view.w > 0,
            view.h > 0,
        ensures
            final(self).wf(),
            final(self).spec_view() == view,
            final(self).spec_screen_size() == old(self).spec_screen_size(),
            final(self).instances_seq() == old(self).instances_seq(),
            final(self).dims_seq() == old(self).dims_seq(),
    {
        self.view = view;
    }

    /// The accumulated instances of this frame, in push order.
    pub fn instances(&self) -> (insts: &Vec<DrawInstance>)
        ensures
            insts@ == self.instances_seq(),
    {
        &self.instances
    }

    /// Give up the frame's instances, in push order.
    pub fn into_instances(self) -> (insts: Vec<DrawInstance>)
        ensures
            insts@ == self.instances_seq(),
    {
        self.instances
    }

    /// Push one instance mapping `dest` through the current view rectangle,
    /// sampling the whole of `texture` without rotation and with an opaque
    /// white tint; the returned builder can reconfigure the source
    /// rectangle, rotation and tint of that instance before `finish`.
    pub fn draw(&mut self, texture: Texture, dest: Rect) -> (b: DrawBuilder)
        requires
            old(self).wf(),
            old(self).valid_texture(texture),
        ensures
            final(self).wf(),
            final(self).spec_view() == old(self).spec_view(),
            final(self).spec_screen_size() == old(self).spec_screen_size(),
            final(self).dims_seq() == old(self).dims_seq(),
            final(self).instances_seq().len() == old(self).instances_seq().len() + 1,
            final(self).instances_seq() == old(self).instances_seq().push(
                final(self).instances_seq().last(),
            ),
            ({
                let inst = final(self).instances_seq().last();
                let tex_w = old(self).dims_seq()[texture.index as int].0;
                let tex_h = old(self).dims_seq()[texture.index as int].1;
                &&& inst.tex == texture
                &&& matches_dest(inst, dest, old(self).spec_view())
                &&& matches_uv(
                    inst,
                    src_or_full(None, tex_w, tex_h),
                    Rotate::R0,
                    tex_w,
                    tex_h,
                )
                &&& inst.tint_r == 255 && inst.tint_g == 255 && inst.tint_b == 255
            }),
            b.index == old(self).instances_seq().len(),
            b.texture == texture,
            b.src is None,
            b.rotate == Rotate::R0,
            b.tint == (255u8, 255u8, 255u8),
    {
        let (tex_w, tex_h) = self.dims[texture.index];
        let view = self.view;
        let inst = DrawInstance {
            tex: texture,
            pos_x: Frac {
                num: 2 * ((dest.x as i64) - (view.x as i64)) - (view.w as i64),
                den: view.w as i64,
            },
            pos_y: Frac {
                num: 2 * ((dest.y as i64) - (view.y as i64)) - (view.h as i64),
                den: view.h as i64,
            },
            size_w: Frac { num: 2 * (dest.w as i64), den: view.w as i64 },
            size_h: Frac { num: 2 * (dest.h as i64), den: view.h as i64 },
            uv_origin_x: Frac { num: 0, den: tex_w as i64 },
            uv_origin_y: Frac { num: 0, den: tex_h as i64 },
            uv_x_x: Frac { num: tex_w as i64, den: tex_w as i64 },
            uv_x_y: Frac { num: 0, den: tex_h as i64 },
            uv_y_x: Frac { num: 0, den: tex_w as i64 },
            uv_y_y: Frac { num: tex_h as i64, den: tex_h as i64 },
            tint_r: 255,
            tint_g: 255,
            tint_b: 255,
        };
        let index = self.instances.len();
        proof {
            lemma_insts_wf_push(self.instances@, inst);
            assert forall|i: int|
                0 <= i < self.instances@.push(inst).len() implies (#[trigger] self.instances@.push(
                inst,
            )[i]).tex.index < self.dims@.len() by {
                if i < self.instances@.len() {
                    assert(self.instances@.push(inst)[i] == self.instances@[i]);
                }
            }
        }
        self.instances.push(inst);
        DrawBuilder { index, texture, src: None, rotate: Rotate::R0, tint: (255, 255, 255) }
    }

    /// Apply a configured builder to its instance: derive the UV origin and
    /// basis vectors from the source rectangle and rotation, normalized by
    /// the texture dimensions, and set the tint. This runs exactly once per
    /// instance, after all configuration calls and before submission.
    pub fn finish(&mut self, b: DrawBuilder)
        requires
            old(self).wf(),
            old(self).valid_texture(b.texture),
            b.index < old(self).instances_seq().len(),
        ensures
            final(self).wf(),
            final(self).spec_view() == old(self).spec_view(),
            final(self).spec_screen_size() == old(self).spec_screen_size(),
            final(self).dims_seq() == old(self).dims_seq(),
            final(self).instances_seq() == old(self).instances_seq().update(
                b.index as int,
                final(self).instances_seq()[b.index as int],
            ),
            ({
                let before = old(self).instances_seq()[b.index as int];
                let inst = final(self).instances_seq()[b.index as int];
                let tex_w = old(self).dims_seq()[b.texture.index as int].0;
                let tex_h = old(self).dims_seq()[b.texture.index as int].1;
                &&& inst.tex == before.tex
                &&& inst.pos_x == before.pos_x
                &&& inst.pos_y == before.pos_y
                &&& inst.size_w == before.size_w
                &&& inst.size_h == before.size_h
                &&& matches_uv(
                    inst,
                    src_or_full(b.src, tex_w, tex_h),
                    b.rotate,
                    tex_w,
                    tex_h,
                )
                &&& inst.tint_r == b.tint.0
                &&& inst.tint_g == b.tint.1
                &&& inst.tint_b == b.tint.2
            }),
    {
        let (tex_w, tex_h) = self.dims[b.texture.index];
        let src = match b.src {
            Some(rect) => rect,
            None => Rect { x: 0, y: 0, w: tex_w as i32, h: tex_h as i32 },
        };
        let sx = src.x as i64;
        let sy = src.y as i64;
        let sw = src.w as i64;
        let sh = src.h as i64;
        let (origin, basis_x, basis_y): ((i64, i64), (i64, i64), (i64, i64)) = match b.rotate {
            Rotate::R0 => ((sx, sy), (sw, 0), (0, sh)),
            Rotate::R90 => ((sx, sy + sh), (0, -sh), (sw, 0)),
            Rotate::R180 => ((sx + sw, sy + sh), (-sw, 0), (0, -sh)),
            Rotate::R270 => ((sx + sw, sy), (0, sh), (-sw, 0)),
        };
        let before = self.instances[b.index];
        let inst = DrawInstance {
            uv_origin_x: Frac { num: origin.0, den: tex_w as i64 },
            uv_origin_y: Frac { num: origin.1, den: tex_h as i64 },
            uv_x_x: Frac { num: basis_x.0, den: tex_w as i64 },
            uv_x_y: Frac { num: basis_x.1, den: tex_h as i64 },
            uv_y_x: Frac { num: basis_y.0, den: tex_w as i64 },
            uv_y_y: Frac { num: basis_y.1, den: tex_h as i64 },
            tint_r: b.tint.0,
            tint_g: b.tint.1,
            tint_b: b.tint.2,
            ..before
        };
        proof {
            lemma_insts_wf_update(self.instances@, b.index as int, inst);
            let updated = self.instances@.update(b.index as int, inst);
            assert forall|i: int|
                0 <= i < updated.len() implies (#[trigger] updated[i]).tex.index
                < self.dims@.len() by {
                if i != b.index as int {
                    assert(updated[i] == self.instances@[i]);
                }
            }
        }
        self.instances.set(b.index, inst);
    }
}

/// Chained configuration for the instance a `draw` call pushed: a source
/// sub-rectangle in texture pixel units, a quarter-turn rotation and an RGB
/// tint. The configuration takes effect when `Renderer::finish` applies it.
pub struct DrawBuilder {
    pub index: usize,
    pub texture: Texture,
    pub src: Option<Rect>,
    pub rotate: Rotate,
    pub tint: (u8, u8, u8),
}

impl DrawBuilder {
    /// Select a source sub-rectangle, in texture pixel units.
    pub fn src(self, src: Rect) -> (b: DrawBuilder)
        ensures
            b == (DrawBuilder { src: Some(src), ..self }),
    {
        DrawBuilder { src: Some(src), ..self }
    }

    /// Select a quarter-turn rotation.
    pub fn rotate(self, rotate: Rotate) -> (b: DrawBuilder)
        ensures
            b == (DrawBuilder { rotate, ..self }),
    {
        DrawBuilder { rotate, ..self }
    }

    /// Select an RGB tint multiplier, 0-255 per channel.
    pub fn color(self, r: u8, g: u8, bl: u8) -> (b: DrawBuilder)
        ensures
            b == (DrawBuilder { tint: (r, g, bl), ..self }),
    {
        DrawBuilder { tint: (r, g, bl), ..self }
    }
}

/// The instances are ordered by texture index.
pub open spec fn sorted_by_texture(s: Seq<DrawInstance>) -> bool {
    forall|i: int, j: int| 0 <= i < j < s.len() ==> s[i].tex.index <= s[j].tex.index
}

/// The subsequence of instances that sample texture index `k`, in order.
pub open spec fn tex_filter(s: Seq<DrawInstance>, k: int) -> Seq<DrawInstance> {
    s.filter(|inst: DrawInstance| inst.tex.index == k)
}

/// Inserting an instance at the boundary between its texture's run and the
/// strictly greater ones keeps the stream sorted, appends it to its own
/// texture's subsequence and leaves every other texture's subsequence
/// unchanged.
proof fn lemma_sorted_insert(s: Seq<DrawInstance>, p: int, x: DrawInstance)
    requires
        sorted_by_texture(s),
        0 <= p <= s.len(),
        forall|m: int| 0 <= m < p ==> s[m].tex.index <= x.tex.index,
        forall|m: int| p <= m < s.len() ==> s[m].tex.index > x.tex.index,
    ensures
        sorted_by_texture(s.insert(p, x)),
        forall|k: int|
            #[trigger] tex_filter(s.insert(p, x), k) == if k == x.tex.index {
                tex_filter(s, k).push(x)
            } else {
                tex_filter(s, k)
            },
{
    let out = s.insert(p, x);
    let front = s.subrange(0, p);
    let back = s.subrange(p, s.len() as int);
    assert(out == front.push(x) + back);
    assert(s =~= front + back);
    assert forall|i: int, j: int|
        0 <= i < j < out.len() implies out[i].tex.index <= out[j].tex.index by {
        if i < p {
            assert(out[i] == s[i]);
        } else if i == p {
            assert(out[i] == x);
        } else {
            assert(out[i] == s[i - 1]);
        }
        if j < p {
            assert(out[j] == s[j]);
        } else if j == p {
            assert(out[j] == x);
        } else {
            assert(out[j] == s[j - 1]);
        }
    }
    assert forall|k: int|
        #[trigger] tex_filter(out, k) == if k == x.tex.index {
            tex_filter(s, k).push(x)
        } else {
            tex_filter(s, k)
        } by {
        let pred = |inst: DrawInstance| inst.tex.index == k;
        Seq::filter_distributes_over_add(front.push(x), back, pred);
        Seq::filter_distributes_over_add(front, back, pred);
        front.lemma_filter_push(x, pred);
        if k == x.tex.index {
            assert forall|m: int| 0 <= m < back.len() implies !pred(back[m]) by {
                assert(back[m] == s[p + m]);
            }
            back.lemma_all_neg_filter_empty(pred);
            assert(out.filter(pred) =~= s.filter(pred).push(x));
        } else {
            assert(out.filter(pred) =~= s.filter(pred));
        }
    }
}

/// Stable sort by texture index: the result is ordered by texture index,
/// has the same length, and for every texture index the subsequence of
/// instances that use it is exactly the input's, in the input's push order.
pub fn sort_by_texture(insts: &Vec<DrawInstance>) -> (sorted: Vec<DrawInstance>)
    ensures
        sorted@.len() == insts@.len(),
        sorted_by_texture(sorted@),
        forall|k: int| #[trigger] tex_filter(sorted@, k) == tex_filter(insts@, k),
{
    broadcast use vstd::prelude::Seq::lemma_filter_push;

    let mut out: Vec<DrawInstance> = Vec::new();
    let n = insts.len();
    let mut i: usize = 0;
    proof {
        assert forall|k: int|
            #[trigger] tex_filter(out@, k) == tex_filter(insts@.subrange(0, 0), k) by {
            reveal(Seq::filter);
            assert(insts@.subrange(0, 0) =~= Seq::<DrawInstance>::empty());
        }
    }
    while i < n
        invariant
            n == insts@.len(),
            i <= n,
            out@.len() == i,
            sorted_by_texture(out@),
            forall|k: int| #[trigger] tex_filter(out@, k) == tex_filter(insts@.subrange(0, i as int), k),
        decreases n - i,
    {
        let x = insts[i];
        let ghost prev_out = out@;
        let ghost sub_i = insts@.subrange(0, i as int);
        let mut p: usize = out.len();
        while p > 0 && out[p - 1].tex.index > x.tex.index
            invariant
                p <= out@.len(),
                sorted_by_texture(out@),
                forall|m: int| p <= m < out@.len() ==> out@[m].tex.index > x.tex.index,
            decreases p,
        {
            p -= 1;
        }
        proof {
            assert forall|m: int| 0 <= m < p implies out@[m].tex.index <= x.tex.index by {
                assert(out@[m].tex.index <= out@[p - 1].tex.index);
            }
            lemma_sorted_insert(out@, p as int, x);
        }
        out.insert(p, x);
        i += 1;
        proof {
            let ghost sub_next = insts@.subrange(0, i as int);
            assert(sub_next =~= sub_i.push(x));
            assert forall|k: int|
                #[trigger] tex_filter(out@, k) == tex_filter(sub_next, k) by {
                let pred = |inst: DrawInstance| inst.tex.index == k;
                assert(out@ == prev_out.insert(p as int, x));
                assert(tex_filter(prev_out.insert(p as int, x), k) == if k == x.tex.index {
                    tex_filter(prev_out, k).push(x)
                } else {
                    tex_filter(prev_out, k)
                });
                sub_i.lemma_filter_push(x, pred);
                assert(tex_filter(prev_out, k) == tex_filter(sub_i, k));
            }
        }
    }
    proof {
        assert(insts@.subrange(0, n as int) =~= insts@);
    }
    out
}

/// One maximal run of equal-texture instances in a sorted stream: one draw
/// call binds `texture` and covers `count` instances starting at `start`.
#[derive(PartialEq, Eq, Structural, Debug, Clone, Copy)]
pub struct DrawRun {
    pub texture: Texture,
    pub start: usize,
    pub count: usize,
}

/// `runs` partitions the sorted stream `insts` into its maximal runs of
/// equal texture index: consecutive, non-empty, covering everything, each
/// uniform in its texture, with strictly increasing texture indices (so one
/// run per distinct texture).
pub open spec fn runs_partition(insts: Seq<DrawInstance>, runs: Seq<DrawRun>) -> bool {
    &&& (runs.len() == 0 <==> insts.len() == 0)
    &&& runs.len() > 0 ==> runs[0].start == 0
    &&& runs.len() > 0 ==> runs.last().start + runs.last().count == insts.len()
    &&& forall|r: int| 0 <= r < runs.len() ==> (#[trigger] runs[r]).count > 0
    &&& forall|r: int|
        0 <= r < runs.len() - 1 ==> (#[trigger] runs[r]).start + runs[r].count == runs[r
            + 1].start
    &&& forall|r: int|
        0 <= r < runs.len() ==> (#[trigger] runs[r]).start + runs[r].count <= insts.len()
    &&& forall|r: int, i: int|
        0 <= r < runs.len() && (#[trigger] runs[r]).start <= i < runs[r].start
            + runs[r].count ==> (#[trigger] insts[i]).tex == runs[r].texture
    &&& forall|r1: int, r2: int|
        0 <= r1 < r2 < runs.len() ==> (#[trigger] runs[r1]).texture.index
            < (#[trigger] runs[r2]).texture.index
}

/// Walk a texture-sorted instance stream and partition it into maximal runs
/// of equal texture index, one per distinct texture used this frame.
pub fn group_runs(insts: &Vec<DrawInstance>) -> (runs: Vec<DrawRun>)
    requires
        sorted_by_texture(insts@),
    ensures
        runs_partition(insts@, runs@),
{
    let mut runs: Vec<DrawRun> = Vec::new();
    let n = insts.len();
    let mut idx: usize = 0;
    while idx < n
        invariant
            n == insts@.len(),
            idx <= n,
            sorted_by_texture(insts@),
            (runs@.len() == 0 <==> idx == 0),
            runs@.len() > 0 ==> runs@[0].start == 0,
            runs@.len() > 0 ==> runs@.last().start + runs@.last().count == idx,
            forall|r: int| 0 <= r < runs@.len() ==> (#[trigger] runs@[r]).count > 0,
            forall|r: int|
                0 <= r < runs@.len() - 1 ==> (#[trigger] runs@[r]).start + runs@[r].count
                    == runs@[r + 1].start,
            forall|r: int|
                0 <= r < runs@.len() ==> (#[trigger] runs@[r]).start + runs@[r].count <= idx,
            forall|r: int, i: int|
                0 <= r < runs@.len() && (#[trigger] runs@[r]).start <= i < runs@[r].start
                    + runs@[r].count ==> (#[trigger] insts@[i]).tex == runs@[r].texture,
            forall|r1: int, r2: int|
                0 <= r1 < r2 < runs@.len() ==> (#[trigger] runs@[r1]).texture.index
                    < (#[trigger] runs@[r2]).texture.index,
            runs@.len() > 0 && idx < n ==> insts@[idx as int].tex.index
                > runs@.last().texture.index,
        decreases n - idx,
    {
        let tex = insts[idx].tex;
        let start = idx;
        idx += 1;
        while idx < n && insts[idx].tex.index == tex.index
            invariant
                n == insts@.len(),
                start < idx <= n,
                tex == insts@[start as int].tex,
                forall|m: int| start <= m < idx ==> (#[trigger] insts@[m]).tex.index == tex.index,
            decreases n - idx,
        {
            idx += 1;
        }
        proof {
            assert forall|m: int|
                start <= m < idx implies (#[trigger] insts@[m]).tex == tex by {
                assert(insts@[m].tex.index == tex.index);
            }
        }
        runs.push(DrawRun { texture: tex, start, count: idx - start });
    }
    runs
}

/// The set of texture indices an instance stream samples.
pub open spec fn texture_indices(insts: Seq<DrawInstance>) -> Set<int> {
    insts.map_values(|inst: DrawInstance| inst.tex.index as int).to_set()
}

/// Every position below the end of the run `k` lies in one of the first
/// `k + 1` runs.
proof fn lemma_runs_cover(insts: Seq<DrawInstance>, runs: Seq<DrawRun>, k: int, i: int)
    requires
        runs_partition(insts, runs),
        0 <= k < runs.len(),
        0 <= i < runs[k].start + runs[k].count,
    ensures
        exists|r: int|
            0 <= r <= k && (#[trigger] runs[r]).start <= i < runs[r].start + runs[r].count,
    decreases k,
{
    if i >= runs[k].start {
        assert(runs[k].start <= i < runs[k].start + runs[k].count);
    } else {
        assert(k > 0) by {
            assert(runs[0].start == 0);
        }
        assert(runs[k - 1].start + runs[k - 1].count == runs[k].start);
        lemma_runs_cover(insts, runs, k - 1, i);
    }
}

/// One draw call per distinct texture: a partitioned stream has exactly as
/// many runs as it has distinct texture indices.
pub proof fn lemma_one_run_per_distinct_texture(insts: Seq<DrawInstance>, runs: Seq<DrawRun>)
    requires
        runs_partition(insts, runs),
    ensures
        runs.len() == texture_indices(insts).len(),
{
    let run_keys = runs.map_values(|run: DrawRun| run.texture.index as int);
    let inst_keys = insts.map_values(|inst: DrawInstance| inst.tex.index as int);
    assert(run_keys.no_duplicates()) by {
        assert forall|i: int, j: int|
            0 <= i < j < run_keys.len() implies run_keys[i] != run_keys[j] by {
            assert(runs[i].texture.index < runs[j].texture.index);
        }
    }
    run_keys.unique_seq_to_set();
    assert(run_keys.to_set() =~= texture_indices(insts)) by {
        assert forall|x: int|
            run_keys.to_set().contains(x) implies texture_indices(insts).contains(x) by {
            let r = choose|r: int| 0 <= r < run_keys.len() && run_keys[r] == x;
            let i = runs[r].start as int;
            assert(runs[r].start <= i < runs[r].start + runs[r].count);
            assert(insts[i].tex == runs[r].texture);
            assert(inst_keys[i] == x);
            assert(inst_keys.contains(x));
        }
        assert forall|x: int|
            texture_indices(insts).contains(x) implies run_keys.to_set().contains(x) by {
            let i = choose|i: int| 0 <= i < inst_keys.len() && inst_keys[i] == x;
            assert(runs.len() > 0);
            let last = runs.len() - 1;
            assert(runs[last].start + runs[last].count == insts.len());
            lemma_runs_cover(insts, runs, last, i);
            let r = choose|r: int|
                0 <= r <= last && (#[trigger] runs[r]).start <= i < runs[r].start
                    + runs[r].count;
            assert(insts[i].tex == runs[r].texture);
            assert(run_keys[r] == x);
            assert(run_keys.contains(x));
        }
    }
}

/// Everything the GPU edge needs for one frame: the instance stream sorted
/// by texture index and its partition into maximal equal-texture runs.
pub struct DrawPlan {
    pub instances: Vec<DrawInstance>,
    pub runs: Vec<DrawRun>,
}

impl Renderer {
    /// Sort this frame's instances by texture index (stably, so push order
    /// is kept within each texture) and partition them into maximal runs,
    /// one indexed draw call per distinct texture.
    pub fn draw_plan(&self) -> (plan: DrawPlan)
        requires
            self.wf(),
        ensures
            plan.instances@.len() == self.instances_seq().len(),
            sorted_by_texture(plan.instances@),
            forall|k: int|
                #[trigger] tex_filter(plan.instances@, k) == tex_filter(self.instances_seq(), k),
            runs_partition(plan.instances@, plan.runs@),
            insts_wf(plan.instances@),
            insts_in_table(plan.instances@, self.dims_seq().len() as int),
            forall|r: int|
                0 <= r < plan.runs@.len() ==> (#[trigger] plan.runs@[r]).texture.index
                    < self.dims_seq().len(),
    {
        let instances = sort_by_texture(&self.instances);
        let runs = group_runs(&instances);
        proof {
            assert forall|i: int|
                0 <= i < instances@.len() implies (#[trigger] instances@[i]).wf()
                && instances@[i].tex.index < self.dims_seq().len() by {
                let k = instances@[i].tex.index as int;
                let pred = |inst: DrawInstance| inst.tex.index == k;
                instances@.lemma_filter_contains(pred, i);
                assert(tex_filter(instances@, k).contains(instances@[i]));
                let f = tex_filter(self.instances_seq(), k);
                let m = choose|m: int| 0 <= m < f.len() && f[m] == instances@[i];
                lemma_tex_filter_sub(self.instances_seq(), k, m);
                let w = choose|w: int|
                    0 <= w < self.instances_seq().len() && self.instances_seq()[w] == f[m];
            }
            assert forall|r: int|
                0 <= r < runs@.len() implies (#[trigger] runs@[r]).texture.index
                < self.dims_seq().len() by {
                assert(instances@[runs@[r].start as int].tex == runs@[r].texture);
            }
        }
        DrawPlan { instances, runs }
    }
}

/// Every element of a texture subsequence is an element of the stream.
proof fn lemma_tex_filter_sub(s: Seq<DrawInstance>, k: int, m: int)
    requires
        0 <= m < tex_filter(s, k).len(),
    ensures
        s.contains(tex_filter(s, k)[m]),
    decreases s.len(),
{
    broadcast use vstd::prelude::Seq::lemma_filter_push;

    if s.len() > 0 {
        let rest = s.drop_last();
        assert(s =~= rest.push(s.last()));
        let out = tex_filter(s, k);
        let out_rest = tex_filter(rest, k);
        if m < out_rest.len() {
            lemma_tex_filter_sub(rest, k, m);
            let w = choose|w: int| 0 <= w < rest.len() && rest[w] == out_rest[m];
            assert(s[w] == out[m]);
        } else {
            assert(out[m] == s[s.len() - 1]);
        }
    } else {
        reveal(Seq::filter);
    }
}

} // verus!
