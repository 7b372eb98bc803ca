//! Fractal generator: expands the pendulum state and link-length ratios into
//! a depth-bounded, self-similar tree of drawable line segments with
//! per-level decaying visual attributes, plus optional ball markers at the
//! three joint positions.
//!
//! The tree is processed level by level with an explicit worklist: level `k`
//! holds `2^k` nodes, each node spawns exactly two children (the parent's
//! offset composed with one of the two fixed transforms), and the segments
//! of all levels `0..=depth` number exactly `2^(depth+1) - 1`. Every segment
//! is clip-tested against the viewport before being emitted; clipping never
//! affects the recursion or the reported count. Primitives are emitted in
//! reverse-generation order: deepest, most decayed level first, brightest
//! last, ball markers on top.

use vstd::prelude::*;
use crate::fx;
use crate::fx::SCALE;
use crate::color;
use crate::color::Rgb;
use crate::state::PendulumState;

verus! {

/// A 2D point or offset vector in fixed-point coordinates. Multiplication
/// treats it as the complex number `x + i y`, which composes the scaling and
/// the rotation that relate one recursion level to the next.
#[derive(Clone, Copy, PartialEq, Eq, Structural, Debug)]
pub struct Vec2 {
    pub x: i64,
    pub y: i64,
}

impl Vec2 {
    pub open spec fn wf(self) -> bool {
        fx::in_range(self.x as int) && fx::in_range(self.y as int)
    }
}

/// Componentwise saturating sum.
pub open spec fn vadd(a: Vec2, b: Vec2) -> Vec2 {
    Vec2 {
        x: fx::fx_add(a.x as int, b.x as int) as i64,
        y: fx::fx_add(a.y as int, b.y as int) as i64,
    }
}

/// Saturating complex product `(a.x + i a.y) * (b.x + i b.y)`.
pub open spec fn vmul(a: Vec2, b: Vec2) -> Vec2 {
    Vec2 {
        x: fx::fx_sub(fx::fx_mul(a.x as int, b.x as int), fx::fx_mul(a.y as int, b.y as int))
            as i64,
        y: fx::fx_add(fx::fx_mul(a.x as int, b.y as int), fx::fx_mul(a.y as int, b.x as int))
            as i64,
    }
}

fn vec_add(a: &Vec2, b: &Vec2) -> (r: Vec2)
    requires
        a.wf(),
        b.wf(),
    ensures
        r == vadd(*a, *b),
        r.wf(),
{
    Vec2 { x: fx::add_sat(a.x, b.x), y: fx::add_sat(a.y, b.y) }
}

fn vec_mul(a: &Vec2, b: &Vec2) -> (r: Vec2)
    requires
        a.wf(),
        b.wf(),
    ensures
        r == vmul(*a, *b),
        r.wf(),
{
    let xx = fx::mul_sat(a.x, b.x);
    let yy = fx::mul_sat(a.y, b.y);
    let xy = fx::mul_sat(a.x, b.y);
    let yx = fx::mul_sat(a.y, b.x);
    Vec2 { x: fx::sub_sat(xx, yy), y: fx::add_sat(xy, yx) }
}

/// One branch of the tree: a segment from `start` along the offset `vec`.
#[derive(Clone, Copy, PartialEq, Eq, Structural, Debug)]
pub struct Node {
    pub start: Vec2,
    pub vec: Vec2,
}

impl Node {
    pub open spec fn wf(self) -> bool {
        self.start.wf() && self.vec.wf()
    }
}

/// A child starts at its parent's endpoint and carries the parent's offset
/// composed with a fixed transform.
pub open spec fn child_node(n: Node, t: Vec2) -> Node {
    Node { start: vadd(n.start, n.vec), vec: vmul(n.vec, t) }
}

fn apply(n: &Node, t: &Vec2) -> (r: Node)
    requires
        n.wf(),
        t.wf(),
    ensures
        r == child_node(*n, *t),
        r.wf(),
{
    Node { start: vec_add(&n.start, &n.vec), vec: vec_mul(&n.vec, t) }
}

/// Affine map from simulation coordinates to screen coordinates.
#[derive(Clone, Copy, PartialEq, Eq, Structural, Debug)]
pub struct ScreenMap {
    pub scale_x: i64,
    pub scale_y: i64,
    pub offset_x: i64,
    pub offset_y: i64,
}

impl ScreenMap {
    pub open spec fn wf(self) -> bool {
        &&& fx::in_range(self.scale_x as int)
        &&& fx::in_range(self.scale_y as int)
        &&& fx::in_range(self.offset_x as int)
        &&& fx::in_range(self.offset_y as int)
    }
}

pub open spec fn to_screen_spec(m: ScreenMap, p: Vec2) -> Vec2 {
    Vec2 {
        x: fx::fx_add(fx::fx_mul(p.x as int, m.scale_x as int), m.offset_x as int) as i64,
        y: fx::fx_add(fx::fx_mul(p.y as int, m.scale_y as int), m.offset_y as int) as i64,
    }
}

fn to_screen(m: &ScreenMap, p: &Vec2) -> (r: Vec2)
    requires
        m.wf(),
        p.wf(),
    ensures
        r == to_screen_spec(*m, *p),
        r.wf(),
{
    Vec2 {
        x: fx::add_sat(fx::mul_sat(p.x, m.scale_x), m.offset_x),
        y: fx::add_sat(fx::mul_sat(p.y, m.scale_y), m.offset_y),
    }
}

/// The screen rectangle a segment must touch to be drawn.
#[derive(Clone, Copy, PartialEq, Eq, Structural, Debug)]
pub struct Viewport {
    pub min_x: i64,
    pub min_y: i64,
    pub max_x: i64,
    pub max_y: i64,
}

impl Viewport {
    pub open spec fn wf(self) -> bool {
        &&& fx::in_range(self.min_x as int)
        &&& fx::in_range(self.min_y as int)
        &&& fx::in_range(self.max_x as int)
        &&& fx::in_range(self.max_y as int)
    }
}

/// Whether the axis-aligned bounding box of the segment `a`-`b` overlaps the
/// viewport.
pub open spec fn visible_spec(a: Vec2, b: Vec2, vp: Viewport) -> bool {
    let lo_x = if a.x <= b.x { a.x } else { b.x };
    let hi_x = if a.x <= b.x { b.x } else { a.x };
    let lo_y = if a.y <= b.y { a.y } else { b.y };
    let hi_y = if a.y <= b.y { b.y } else { a.y };
    lo_x <= vp.max_x && vp.min_x <= hi_x && lo_y <= vp.max_y && vp.min_y <= hi_y
}

fn visible(a: &Vec2, b: &Vec2, vp: &Viewport) -> (r: bool)
    ensures
        r == visible_spec(*a, *b, *vp),
{
    let lo_x = if a.x <= b.x { a.x } else { b.x };
    let hi_x = if a.x <= b.x { b.x } else { a.x };
    let lo_y = if a.y <= b.y { a.y } else { b.y };
    let hi_y = if a.y <= b.y { b.y } else { a.y };
    lo_x <= vp.max_x && vp.min_x <= hi_x && lo_y <= vp.max_y && vp.min_y <= hi_y
}

/// A drawable primitive, already in screen coordinates.
#[derive(Clone, Copy, PartialEq, Eq, Structural, Debug)]
pub enum Primitive {
    Segment { a: Vec2, b: Vec2, width: i64, color: Rgb },
    Ball { center: Vec2, radius: i64, color: Rgb },
}

/// Rendering configuration of one frame.
#[derive(Clone, Copy, PartialEq, Eq, Structural, Debug)]
pub struct FractalConfig {
    /// Recursion depth bound: levels `0..=depth` are generated.
    pub depth: usize,
    pub line_width: i64,
    pub width_decay: i64,
    pub saturation: i64,
    pub saturation_decay: i64,
    pub luminance: i64,
    pub luminance_decay: i64,
    pub show_balls: bool,
    pub ball_radius: i64,
    /// Square roots of the three masses, fixed point; ball `i` has radius
    /// `sqrt_m * ball_radius`.
    pub sqrt_m1: i64,
    pub sqrt_m2: i64,
    pub sqrt_m3: i64,
}

impl FractalConfig {
    pub open spec fn wf(self) -> bool {
        &&& self.depth <= 20
        &&& fx::in_range(self.line_width as int)
        &&& 0 <= self.width_decay <= SCALE
        &&& 0 <= self.saturation <= SCALE
        &&& 0 <= self.saturation_decay <= SCALE
        &&& 0 <= self.luminance <= SCALE
        &&& 0 <= self.luminance_decay <= SCALE
        &&& fx::in_range(self.ball_radius as int)
        &&& fx::in_range(self.sqrt_m1 as int)
        &&& fx::in_range(self.sqrt_m2 as int)
        &&& fx::in_range(self.sqrt_m3 as int)
    }
}

/// `2^k`.
pub open spec fn two_pow(k: nat) -> nat
    decreases k,
{
    if k == 0 {
        1
    } else {
        2 * two_pow((k - 1) as nat)
    }
}

/// A visual attribute at level `k`: the base value decayed `k` times.
pub open spec fn decayed(base: int, decay: int, k: nat) -> int
    decreases k,
{
    if k == 0 {
        base
    } else {
        fx::fx_mul(decayed(base, decay, (k - 1) as nat), decay)
    }
}

/// The nodes of level `k`: the root for `k == 0`; otherwise each node of the
/// previous level followed by its two children, first transform first.
pub open spec fn expand_nodes(ns: Seq<Node>, t1: Vec2, t2: Vec2) -> Seq<Node> {
    Seq::new(
        2 * ns.len(),
        |j: int|
            child_node(
                ns[j / 2],
                if j % 2 == 0 {
                    t1
                } else {
                    t2
                },
            ),
    )
}

pub open spec fn level_nodes(root: Node, t1: Vec2, t2: Vec2, k: nat) -> Seq<Node>
    decreases k,
{
    if k == 0 {
        seq![root]
    } else {
        expand_nodes(level_nodes(root, t1, t2, (k - 1) as nat), t1, t2)
    }
}

pub proof fn lemma_level_len(root: Node, t1: Vec2, t2: Vec2, k: nat)
    ensures
        level_nodes(root, t1, t2, k).len() == two_pow(k),
    decreases k,
{
    if k > 0 {
        lemma_level_len(root, t1, t2, (k - 1) as nat);
    }
}

/// The drawable segment of node `i` in a level of `len` nodes: endpoints
/// mapped to the screen, the level's attributes, hue interpolated by the
/// node's normalized position within its level, `i / len`.
pub open spec fn seg_of(
    n: Node,
    i: int,
    len: int,
    w: int,
    sv: int,
    lv: int,
    h1: int,
    h2: int,
    m: ScreenMap,
) -> Primitive {
    Primitive::Segment {
        a: to_screen_spec(m, n.start),
        b: to_screen_spec(m, vadd(n.start, n.vec)),
        width: w as i64,
        color: color::hsl_rgb_spec(color::lerp_hue_spec(h1, h2, i, len), sv, lv),
    }
}

/// The segments of one level that pass the clip test, in index order.
pub open spec fn level_prims(
    ns: Seq<Node>,
    len: int,
    w: int,
    sv: int,
    lv: int,
    h1: int,
    h2: int,
    vp: Viewport,
    m: ScreenMap,
) -> Seq<Primitive>
    decreases ns.len(),
{
    if ns.len() == 0 {
        Seq::empty()
    } else {
        let pre = level_prims(ns.drop_last(), len, w, sv, lv, h1, h2, vp, m);
        let n = ns.last();
        let i = ns.len() - 1;
        if visible_spec(to_screen_spec(m, n.start), to_screen_spec(m, vadd(n.start, n.vec)), vp) {
            pre.push(seg_of(n, i, len, w, sv, lv, h1, h2, m))
        } else {
            pre
        }
    }
}

/// The segments of levels `0..=k` in emission order: shallow levels first.
pub open spec fn levels_prims(
    root: Node,
    t1: Vec2,
    t2: Vec2,
    cfg: FractalConfig,
    h1: int,
    h2: int,
    vp: Viewport,
    m: ScreenMap,
    k: nat,
) -> Seq<Primitive>
    decreases k,
{
    let cur = level_prims(
        level_nodes(root, t1, t2, k),
        two_pow(k) as int,
        decayed(cfg.line_width as int, cfg.width_decay as int, k),
        decayed(cfg.saturation as int, cfg.saturation_decay as int, k),
        decayed(cfg.luminance as int, cfg.luminance_decay as int, k),
        h1,
        h2,
        vp,
        m,
    );
    if k == 0 {
        cur
    } else {
        levels_prims(root, t1, t2, cfg, h1, h2, vp, m, (k - 1) as nat) + cur
    }
}

/// Ball marker at the endpoint of `n`, colored at the hue midpoint with
/// saturation and luminance decayed `e` times; never clip-tested.
pub open spec fn ball_of(
    n: Node,
    sqrt_m: int,
    e: nat,
    cfg: FractalConfig,
    h1: int,
    h2: int,
    m: ScreenMap,
) -> Primitive {
    Primitive::Ball {
        center: to_screen_spec(m, vadd(n.start, n.vec)),
        radius: fx::fx_mul(sqrt_m, cfg.ball_radius as int) as i64,
        color: color::hsl_rgb_spec(
            color::hue_mid_spec(h1, h2),
            decayed(cfg.saturation as int, cfg.saturation_decay as int, e),
            decayed(cfg.luminance as int, cfg.luminance_decay as int, e),
        ),
    }
}

/// The three ball markers at the chained joint positions, if enabled.
pub open spec fn balls_prims(
    root: Node,
    t1: Vec2,
    t2: Vec2,
    cfg: FractalConfig,
    h1: int,
    h2: int,
    m: ScreenMap,
) -> Seq<Primitive> {
    if cfg.show_balls {
        let b1 = child_node(root, t1);
        let b2 = child_node(b1, t2);
        seq![
            ball_of(root, cfg.sqrt_m1 as int, 1, cfg, h1, h2, m),
            ball_of(b1, cfg.sqrt_m2 as int, 2, cfg, h1, h2, m),
            ball_of(b2, cfg.sqrt_m3 as int, 3, cfg, h1, h2, m),
        ]
    } else {
        Seq::empty()
    }
}

/// Every primitive of one frame, in drawing order: the reverse of the
/// emission order, so the deepest, most decayed segments come first, the
/// root segment last among segments, and the ball markers on top.
pub open spec fn frame_prims(
    root: Node,
    t1: Vec2,
    t2: Vec2,
    cfg: FractalConfig,
    h1: int,
    h2: int,
    vp: Viewport,
    m: ScreenMap,
) -> Seq<Primitive> {
    (balls_prims(root, t1, t2, cfg, h1, h2, m) + levels_prims(
        root,
        t1,
        t2,
        cfg,
        h1,
        h2,
        vp,
        m,
        cfg.depth as nat,
    )).reverse()
}

proof fn lemma_two_pow_values()
    ensures
        two_pow(0) == 1,
        two_pow(1) == 2,
        two_pow(19) == 0x80000,
        two_pow(20) == 0x100000,
        two_pow(21) == 0x200000,
{
    assert(two_pow(0) == 1);
    assert(two_pow(1) == 2);
    assert(two_pow(2) == 4);
    assert(two_pow(3) == 8);
    assert(two_pow(4) == 16);
    assert(two_pow(5) == 32);
    assert(two_pow(6) == 64);
    assert(two_pow(7) == 128);
    assert(two_pow(8) == 256);
    assert(two_pow(9) == 512);
    assert(two_pow(10) == 1024);
    assert(two_pow(11) == 2048);
    assert(two_pow(12) == 4096);
    assert(two_pow(13) == 8192);
    assert(two_pow(14) == 16384);
    assert(two_pow(15) == 32768);
    assert(two_pow(16) == 65536);
    assert(two_pow(17) == 131072);
    assert(two_pow(18) == 262144);
    assert(two_pow(19) == 524288);
    assert(two_pow(20) == 1048576);
    assert(two_pow(21) == 2097152);
}

proof fn lemma_two_pow_le(k: nat, j: nat)
    requires
        k <= j,
    ensures
        two_pow(k) <= two_pow(j),
        1 <= two_pow(k),
    decreases j,
{
    if k < j {
        lemma_two_pow_le(k, (j - 1) as nat);
    } else {
        if k > 0 {
            lemma_two_pow_le((k - 1) as nat, (k - 1) as nat);
        }
    }
}

/// A viewport that covers the whole representable plane: no segment can be
/// clipped away, since screen coordinates saturate at `fx::BOUND`.
pub open spec fn covers_all(vp: Viewport) -> bool {
    &&& vp.min_x <= -(fx::BOUND as int)
    &&& vp.min_y <= -(fx::BOUND as int)
    &&& vp.max_x >= fx::BOUND as int
    &&& vp.max_y >= fx::BOUND as int
}

proof fn lemma_level_prims_full(
    ns: Seq<Node>,
    len: int,
    w: int,
    sv: int,
    lv: int,
    h1: int,
    h2: int,
    vp: Viewport,
    m: ScreenMap,
)
    requires
        covers_all(vp),
    ensures
        level_prims(ns, len, w, sv, lv, h1, h2, vp, m).len() == ns.len(),
    decreases ns.len(),
{
    if ns.len() > 0 {
        lemma_level_prims_full(ns.drop_last(), len, w, sv, lv, h1, h2, vp, m);
        let n = ns.last();
        assert(visible_spec(
            to_screen_spec(m, n.start),
            to_screen_spec(m, vadd(n.start, n.vec)),
            vp,
        ));
    }
}

proof fn lemma_levels_prims_full(
    root: Node,
    t1: Vec2,
    t2: Vec2,
    cfg: FractalConfig,
    h1: int,
    h2: int,
    vp: Viewport,
    m: ScreenMap,
    k: nat,
)
    requires
        covers_all(vp),
    ensures
        levels_prims(root, t1, t2, cfg, h1, h2, vp, m, k).len() == two_pow((k + 1) as nat) - 1,
    decreases k,
{
    lemma_level_len(root, t1, t2, k);
    lemma_level_prims_full(
        level_nodes(root, t1, t2, k),
        two_pow(k) as int,
        decayed(cfg.line_width as int, cfg.width_decay as int, k),
        decayed(cfg.saturation as int, cfg.saturation_decay as int, k),
        decayed(cfg.luminance as int, cfg.luminance_decay as int, k),
        h1,
        h2,
        vp,
        m,
    );
    if k > 0 {
        lemma_levels_prims_full(root, t1, t2, cfg, h1, h2, vp, m, (k - 1) as nat);
    }
}

/// With a viewport that covers the whole representable plane, a frame holds
/// exactly `2^(depth+1) - 1` segment primitives, plus the 3 ball markers if
/// they are enabled -- independent of the state, the hues and the remaining
/// configuration.
pub proof fn lemma_frame_count_full_viewport(
    root: Node,
    t1: Vec2,
    t2: Vec2,
    cfg: FractalConfig,
    h1: int,
    h2: int,
    vp: Viewport,
    m: ScreenMap,
)
    requires
        covers_all(vp),
    ensures
        frame_prims(root, t1, t2, cfg, h1, h2, vp, m).len() == two_pow((cfg.depth + 1) as nat) - 1
            + (if cfg.show_balls {
            3int
        } else {
            0int
        }),
{
    lemma_levels_prims_full(root, t1, t2, cfg, h1, h2, vp, m, cfg.depth as nat);
    lemma_two_pow_le(0, (cfg.depth + 1) as nat);
}

/// Append one level's visible segments to the emission list.
fn emit_level(
    fwd: Vec<Primitive>,
    nodes: &Vec<Node>,
    w: i64,
    sv: i64,
    lv: i64,
    h1: i64,
    h2: i64,
    vp: &Viewport,
    m: &ScreenMap,
) -> (r: Vec<Primitive>)
    requires
        forall|i: int| 0 <= i < nodes@.len() ==> (#[trigger] nodes@[i]).wf(),
        fx::in_range(w as int),
        0 <= sv <= SCALE,
        0 <= lv <= SCALE,
        fx::in_range(h1 as int),
        fx::in_range(h2 as int),
        vp.wf(),
        m.wf(),
        1 <= nodes@.len() <= 0x100000,
    ensures
        r@ == fwd@ + level_prims(
            nodes@,
            nodes@.len() as int,
            w as int,
            sv as int,
            lv as int,
            h1 as int,
            h2 as int,
            *vp,
            *m,
        ),
{
    let mut out = fwd;
    let ghost base = out@;
    let len = nodes.len();
    let mut i: usize = 0;
    while i < len
        invariant
            i <= len,
            len == nodes@.len(),
            1 <= len <= 0x100000,
            forall|k: int| 0 <= k < nodes@.len() ==> (#[trigger] nodes@[k]).wf(),
            fx::in_range(w as int),
            0 <= sv <= SCALE,
            0 <= lv <= SCALE,
            fx::in_range(h1 as int),
            fx::in_range(h2 as int),
            vp.wf(),
            m.wf(),
            out@ == base + level_prims(
                nodes@.take(i as int),
                len as int,
                w as int,
                sv as int,
                lv as int,
                h1 as int,
                h2 as int,
                *vp,
                *m,
            ),
        decreases len - i,
    {
        let n = nodes[i];
        let a = to_screen(m, &n.start);
        let e = vec_add(&n.start, &n.vec);
        let b = to_screen(m, &e);
        if visible(&a, &b, vp) {
            let hue = color::lerp_hue(h1, h2, i, len);
            let col = color::hsl_to_rgb(hue, sv, lv);
            out.push(Primitive::Segment { a, b, width: w, color: col });
        }
        proof {
            let tt = nodes@.take(i as int + 1);
            assert(tt.drop_last() =~= nodes@.take(i as int));
            assert(tt.last() == nodes@[i as int]);
            let pre = level_prims(
                nodes@.take(i as int),
                len as int,
                w as int,
                sv as int,
                lv as int,
                h1 as int,
                h2 as int,
                *vp,
                *m,
            );
            let sp = seg_of(
                nodes@[i as int],
                i as int,
                len as int,
                w as int,
                sv as int,
                lv as int,
                h1 as int,
                h2 as int,
                *m,
            );
            assert((base + pre).push(sp) =~= base + pre.push(sp));
        }
        i = i + 1;
    }
    proof {
        assert(nodes@.take(len as int) =~= nodes@);
    }
    out
}

/// Spawn the two children of every node of a level, in order.
fn expand_level(nodes: &Vec<Node>, t1: &Vec2, t2: &Vec2) -> (next: Vec<Node>)
    requires
        forall|i: int| 0 <= i < nodes@.len() ==> (#[trigger] nodes@[i]).wf(),
        t1.wf(),
        t2.wf(),
        nodes@.len() <= 0x100000,
    ensures
        next@ == expand_nodes(nodes@, *t1, *t2),
        forall|i: int| 0 <= i < next@.len() ==> (#[trigger] next@[i]).wf(),
        next@.len() == 2 * nodes@.len(),
{
    let mut next: Vec<Node> = Vec::new();
    let len = nodes.len();
    let mut i: usize = 0;
    while i < len
        invariant
            i <= len,
            len == nodes@.len(),
            len <= 0x100000,
            forall|k: int| 0 <= k < nodes@.len() ==> (#[trigger] nodes@[k]).wf(),
            t1.wf(),
            t2.wf(),
            next@ == expand_nodes(nodes@, *t1, *t2).take(2 * i as int),
            forall|k: int| 0 <= k < next@.len() ==> (#[trigger] next@[k]).wf(),
        decreases len - i,
    {
        let c1 = apply(&nodes[i], t1);
        let c2 = apply(&nodes[i], t2);
        next.push(c1);
        next.push(c2);
        proof {
            let ex = expand_nodes(nodes@, *t1, *t2);
            assert(ex[2 * i as int] == child_node(nodes@[i as int], *t1));
            assert(ex[2 * i as int + 1] == child_node(nodes@[i as int], *t2));
            assert(ex.take(2 * (i as int) + 2) =~= ex.take(2 * (i as int)).push(
                ex[2 * i as int],
            ).push(ex[2 * i as int + 1]));
        }
        i = i + 1;
    }
    proof {
        assert(expand_nodes(nodes@, *t1, *t2).take(2 * len as int) =~= expand_nodes(
            nodes@,
            *t1,
            *t2,
        ));
    }
    next
}

/// Generate one frame of primitives.
///
/// `root` is the trunk: it starts at the configured offset and its vector
/// has the first link's length and direction. `t1` and `t2` are the two
/// fixed transforms relating a level to the next, `(l2/l1, theta2)` and
/// `(l3/l1, theta3)` as complex numbers. Returns the primitives in drawing
/// order together with the number of generated segments, which is exactly
/// `2^(depth+1) - 1`, whatever the state, the viewport and the rest of the
/// configuration.
pub fn generate_fractal(
    cfg: &FractalConfig,
    hue_lo: i64,
    hue_hi: i64,
    root: Node,
    t1: Vec2,
    t2: Vec2,
    vp: &Viewport,
    m: &ScreenMap,
) -> (r: (Vec<Primitive>, usize))
    requires
        cfg.wf(),
        fx::in_range(hue_lo as int),
        fx::in_range(hue_hi as int),
        root.wf(),
        t1.wf(),
        t2.wf(),
        vp.wf(),
        m.wf(),
    ensures
        r.0@ == frame_prims(root, t1, t2, *cfg, hue_lo as int, hue_hi as int, *vp, *m),
        r.1 as int == two_pow((cfg.depth + 1) as nat) - 1,
{
    let mut fwd: Vec<Primitive> = Vec::new();
    proof {
        lemma_two_pow_values();
    }

    // Ball markers first in emission order, so they are drawn last, on top.
    if cfg.show_balls {
        let b1 = apply(&root, &t1);
        let b2 = apply(&b1, &t2);
        let mid = color::hue_midpoint(hue_lo, hue_hi);
        let s1 = fx::mul_sat(cfg.saturation, cfg.saturation_decay);
        let s2 = fx::mul_sat(s1, cfg.saturation_decay);
        let s3 = fx::mul_sat(s2, cfg.saturation_decay);
        let l1 = fx::mul_sat(cfg.luminance, cfg.luminance_decay);
        let l2 = fx::mul_sat(l1, cfg.luminance_decay);
        let l3 = fx::mul_sat(l2, cfg.luminance_decay);
        proof {
            fx::lemma_mul_unit(cfg.saturation as int, cfg.saturation_decay as int);
            fx::lemma_mul_unit(s1 as int, cfg.saturation_decay as int);
            fx::lemma_mul_unit(s2 as int, cfg.saturation_decay as int);
            fx::lemma_mul_unit(cfg.luminance as int, cfg.luminance_decay as int);
            fx::lemma_mul_unit(l1 as int, cfg.luminance_decay as int);
            fx::lemma_mul_unit(l2 as int, cfg.luminance_decay as int);
            assert(decayed(cfg.saturation as int, cfg.saturation_decay as int, 0)
                == cfg.saturation as int);
            assert(decayed(cfg.saturation as int, cfg.saturation_decay as int, 1) == s1 as int);
            assert(decayed(cfg.saturation as int, cfg.saturation_decay as int, 2) == s2 as int);
            assert(decayed(cfg.saturation as int, cfg.saturation_decay as int, 3) == s3 as int);
            assert(decayed(cfg.luminance as int, cfg.luminance_decay as int, 0)
                == cfg.luminance as int);
            assert(decayed(cfg.luminance as int, cfg.luminance_decay as int, 1) == l1 as int);
            assert(decayed(cfg.luminance as int, cfg.luminance_decay as int, 2) == l2 as int);
            assert(decayed(cfg.luminance as int, cfg.luminance_decay as int, 3) == l3 as int);
        }
        let e0 = vec_add(&root.start, &root.vec);
        let c0 = to_screen(m, &e0);
        let r0 = fx::mul_sat(cfg.sqrt_m1, cfg.ball_radius);
        fwd.push(Primitive::Ball { center: c0, radius: r0, color: color::hsl_to_rgb(mid, s1, l1) });
        let e1 = vec_add(&b1.start, &b1.vec);
        let c1 = to_screen(m, &e1);
        let r1 = fx::mul_sat(cfg.sqrt_m2, cfg.ball_radius);
        fwd.push(Primitive::Ball { center: c1, radius: r1, color: color::hsl_to_rgb(mid, s2, l2) });
        let e2 = vec_add(&b2.start, &b2.vec);
        let c2 = to_screen(m, &e2);
        let r2 = fx::mul_sat(cfg.sqrt_m3, cfg.ball_radius);
        fwd.push(Primitive::Ball { center: c2, radius: r2, color: color::hsl_to_rgb(mid, s3, l3) });
        proof {
            assert(fwd@ =~= balls_prims(root, t1, t2, *cfg, hue_lo as int, hue_hi as int, *m));
        }
    }
    let ghost balls_seq = balls_prims(root, t1, t2, *cfg, hue_lo as int, hue_hi as int, *m);
    proof {
        assert(fwd@ == balls_seq);
    }

    // Level 0: the trunk alone.
    let mut nodes: Vec<Node> = Vec::new();
    nodes.push(root);
    proof {
        assert(nodes@ =~= level_nodes(root, t1, t2, 0));
        assert(decayed(cfg.line_width as int, cfg.width_decay as int, 0) == cfg.line_width as int);
        assert(decayed(cfg.saturation as int, cfg.saturation_decay as int, 0)
            == cfg.saturation as int);
        assert(decayed(cfg.luminance as int, cfg.luminance_decay as int, 0)
            == cfg.luminance as int);
    }
    let mut w = cfg.line_width;
    let mut sv = cfg.saturation;
    let mut lv = cfg.luminance;
    fwd = emit_level(fwd, &nodes, w, sv, lv, hue_lo, hue_hi, vp, m);
    let mut count: usize = 1;
    let mut level: usize = 0;

    while level < cfg.depth
        invariant
            level <= cfg.depth,
            cfg.wf(),
            root.wf(),
            t1.wf(),
            t2.wf(),
            vp.wf(),
            m.wf(),
            fx::in_range(hue_lo as int),
            fx::in_range(hue_hi as int),
            nodes@ == level_nodes(root, t1, t2, level as nat),
            nodes@.len() == two_pow(level as nat),
            forall|k: int| 0 <= k < nodes@.len() ==> (#[trigger] nodes@[k]).wf(),
            w as int == decayed(cfg.line_width as int, cfg.width_decay as int, level as nat),
            sv as int == decayed(cfg.saturation as int, cfg.saturation_decay as int, level as nat),
            lv as int == decayed(cfg.luminance as int, cfg.luminance_decay as int, level as nat),
            fx::in_range(w as int),
            0 <= sv <= SCALE,
            0 <= lv <= SCALE,
            count as int == two_pow((level + 1) as nat) - 1,
            fwd@ == balls_seq + levels_prims(
                root,
                t1,
                t2,
                *cfg,
                hue_lo as int,
                hue_hi as int,
                *vp,
                *m,
                level as nat,
            ),
            balls_seq == balls_prims(root, t1, t2, *cfg, hue_lo as int, hue_hi as int, *m),
        decreases cfg.depth - level,
    {
        proof {
            lemma_two_pow_values();
            lemma_two_pow_le(level as nat, 19);
            lemma_two_pow_le((level + 1) as nat, 20);
        }
        let next = expand_level(&nodes, &t1, &t2);
        nodes = next;
        w = fx::mul_sat(w, cfg.width_decay);
        let sv2 = fx::mul_sat(sv, cfg.saturation_decay);
        let lv2 = fx::mul_sat(lv, cfg.luminance_decay);
        proof {
            fx::lemma_mul_unit(sv as int, cfg.saturation_decay as int);
            fx::lemma_mul_unit(lv as int, cfg.luminance_decay as int);
        }
        sv = sv2;
        lv = lv2;
        level = level + 1;
        proof {
            assert(nodes@ == level_nodes(root, t1, t2, level as nat));
            lemma_level_len(root, t1, t2, level as nat);
        }
        let ghost before = fwd@;
        fwd = emit_level(fwd, &nodes, w, sv, lv, hue_lo, hue_hi, vp, m);
        count = count + nodes.len();
        proof {
            let cur = level_prims(
                nodes@,
                nodes@.len() as int,
                w as int,
                sv as int,
                lv as int,
                hue_lo as int,
                hue_hi as int,
                *vp,
                *m,
            );
            let prev_levels = levels_prims(
                root,
                t1,
                t2,
                *cfg,
                hue_lo as int,
                hue_hi as int,
                *vp,
                *m,
                (level - 1) as nat,
            );
            assert(levels_prims(
                root,
                t1,
                t2,
                *cfg,
                hue_lo as int,
                hue_hi as int,
                *vp,
                *m,
                level as nat,
            ) == prev_levels + cur);
            assert((balls_seq + prev_levels) + cur =~= balls_seq + (prev_levels + cur));
        }
    }

    // Draw in reverse-generation order.
    let total = fwd.len();
    let mut out: Vec<Primitive> = Vec::new();
    let mut j: usize = 0;
    while j < total
        invariant
            j <= total,
            total == fwd@.len(),
            out@.len() == j as int,
            forall|k: int| 0 <= k < j as int ==> out@[k] == fwd@[total as int - 1 - k],
        decreases total - j,
    {
        let p = fwd[total - 1 - j];
        out.push(p);
        j = j + 1;
    }
    proof {
        assert(out@ =~= fwd@.reverse());
    }
    (out, count)
}

/// One whole frame: resolve the hue pair from the configuration and the
/// live state, then generate the fractal with it. The primitives are the
/// frame of [`frame_prims`] at exactly the resolved hue endpoints, and the
/// segment count is `2^(depth+1) - 1` whatever the state.
pub fn render_frame(
    hue_cfg: &color::HueConfig,
    st: &PendulumState,
    cfg: &FractalConfig,
    root: Node,
    t1: Vec2,
    t2: Vec2,
    vp: &Viewport,
    m: &ScreenMap,
) -> (r: (Vec<Primitive>, usize))
    requires
        hue_cfg.wf(),
        st.wf(),
        cfg.wf(),
        root.wf(),
        t1.wf(),
        t2.wf(),
        vp.wf(),
        m.wf(),
    ensures
        r.0@ == frame_prims(
            root,
            t1,
            t2,
            *cfg,
            color::resolve_low_spec(*hue_cfg, *st),
            color::resolve_high_spec(*hue_cfg, *st),
            *vp,
            *m,
        ),
        r.1 as int == two_pow((cfg.depth + 1) as nat) - 1,
{
    let (hue_lo, hue_hi) = color::resolve_hue_pair(hue_cfg, st);
    generate_fractal(cfg, hue_lo, hue_hi, root, t1, t2, vp, m)
}

} // verus!
