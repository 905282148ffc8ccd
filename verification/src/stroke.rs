use vstd::prelude::*;
use crate::brush::{BrushKind, Tool};

verus! {

/// How a stroke combines with the pixels already on the layer.
#[derive(Clone, Copy, PartialEq, Eq, Structural, Debug)]
pub enum Compositing {
    /// Paint over the existing pixels.
    Over,
    /// Reset the touched pixels to full transparency.
    Clear,
}

/// The shape given to the ends of a stroked line.
#[derive(Clone, Copy, PartialEq, Eq, Structural, Debug)]
pub enum LineCap {
    Butt,
    Round,
    Square,
}

/// The dash pattern of a line, as two lengths in hundredths of the brush size.
#[derive(Clone, Copy, PartialEq, Eq, Structural, Debug)]
pub struct Dash {
    pub on_pct: u32,
    pub off_pct: u32,
}

/// What a brush leaves behind between two pointer positions.
#[derive(Clone, Copy, PartialEq, Eq, Structural, Debug)]
pub enum Mark {
    /// A straight line whose width is `width_pct` hundredths of the brush size.
    Line { width_pct: u32, cap: LineCap, dash: Option<Dash> },
    /// A trail of small discs; `spray` scatters more, smaller discs further out.
    SoftDots { spray: bool },
}

/// Everything a stroke on the active layer is made of, besides the pointer
/// positions and the brush's own size and colour.
#[derive(Clone, Copy, PartialEq, Eq, Structural, Debug)]
pub struct StrokePlan {
    pub compositing: Compositing,
    /// The source colour is the brush colour with its alpha scaled by this
    /// many hundredths; `None` leaves the source unset.
    pub source_alpha_pct: Option<u32>,
    pub mark: Mark,
}

/// The compositing a tool uses.
pub open spec fn tool_compositing(tool: Tool) -> Compositing {
    match tool {
        Tool::Brush => Compositing::Over,
        Tool::Eraser => Compositing::Clear,
    }
}

/// The alpha scale, in hundredths, that a brush puts on the colour, if it
/// puts one on it.
pub open spec fn brush_alpha_pct(kind: BrushKind) -> Option<u32> {
    match kind {
        BrushKind::Pencil => Some(65u32),
        BrushKind::Marker => Some(35u32),
        BrushKind::Chalk => Some(55u32),
        _ => None,
    }
}

/// The mark a brush leaves.
pub open spec fn brush_mark(kind: BrushKind) -> Mark {
    match kind {
        BrushKind::Round => Mark::Line { width_pct: 100, cap: LineCap::Round, dash: None },
        BrushKind::Pencil => Mark::Line { width_pct: 70, cap: LineCap::Round, dash: None },
        BrushKind::Ink => Mark::Line { width_pct: 125, cap: LineCap::Round, dash: None },
        BrushKind::Marker => Mark::Line { width_pct: 240, cap: LineCap::Square, dash: None },
        BrushKind::Calligraphy => Mark::Line { width_pct: 55, cap: LineCap::Butt, dash: None },
        BrushKind::Chalk => Mark::Line {
            width_pct: 130,
            cap: LineCap::Round,
            dash: Some(Dash { on_pct: 45, off_pct: 70 }),
        },
        BrushKind::Airbrush => Mark::SoftDots { spray: false },
        BrushKind::Spray => Mark::SoftDots { spray: true },
    }
}

/// The stroke a tool and a brush make together. The brush's own alpha scale
/// wins; otherwise the brush tool paints with the plain colour and the eraser
/// sets no source at all.
pub open spec fn plan_of(tool: Tool, kind: BrushKind) -> StrokePlan {
    StrokePlan {
        compositing: tool_compositing(tool),
        source_alpha_pct: match brush_alpha_pct(kind) {
            Some(p) => Some(p),
            None => if tool == Tool::Brush { Some(100u32) } else { None },
        },
        mark: brush_mark(kind),
    }
}

/// The compositing of a stroke depends on the tool alone: whatever the
/// brush, the brush tool paints over the layer and the eraser clears it.
pub proof fn lemma_compositing_follows_tool(kind: BrushKind)
    ensures
        plan_of(Tool::Brush, kind).compositing == Compositing::Over,
        plan_of(Tool::Eraser, kind).compositing == Compositing::Clear,
{
}

/// The tool never changes the shape a brush leaves: brush and eraser make
/// the same line (width, cap, dash) or the same soft dots.
pub proof fn lemma_tool_keeps_mark(kind: BrushKind)
    ensures
        plan_of(Tool::Brush, kind).mark == plan_of(Tool::Eraser, kind).mark,
{
}

/// The brush tool always paints with the brush colour, its alpha scaled by
/// at most one; the eraser sets a colour only where the brush itself scales
/// the alpha, and then the same one the brush tool would.
pub proof fn lemma_source_colour(kind: BrushKind)
    ensures
        plan_of(Tool::Brush, kind).source_alpha_pct matches Some(p) && 0 < p <= 100,
        plan_of(Tool::Eraser, kind).source_alpha_pct is Some ==> plan_of(
            Tool::Eraser,
            kind,
        ).source_alpha_pct == plan_of(Tool::Brush, kind).source_alpha_pct,
        plan_of(Tool::Eraser, kind).source_alpha_pct is None <==> plan_of(
            Tool::Brush,
            kind,
        ).source_alpha_pct == Some(100u32),
{
}

/// Only the airbrush and the spray lay soft dots, and only the spray
/// scatters; every other brush draws a line of positive width, and only
/// chalk draws it dashed.
pub proof fn lemma_mark_kinds(kind: BrushKind)
    ensures
        (plan_of(Tool::Brush, kind).mark is SoftDots) <==> (kind == BrushKind::Airbrush || kind
            == BrushKind::Spray),
        plan_of(Tool::Brush, kind).mark matches Mark::SoftDots { spray } ==> (spray <==> kind
            == BrushKind::Spray),
        plan_of(Tool::Brush, kind).mark matches Mark::Line { width_pct, dash, .. } ==> width_pct
            > 0 && (dash is Some <==> kind == BrushKind::Chalk),
{
}

/// The brush table: for each brush, its width and cap as a share of the
/// brush size, the alpha scale it puts on the colour, and its dash.
pub proof fn lemma_brush_table(tool: Tool)
    ensures
        plan_of(tool, BrushKind::Round).mark == (Mark::Line { width_pct: 100, cap: LineCap::Round, dash: None }),
        plan_of(tool, BrushKind::Pencil).mark == (Mark::Line { width_pct: 70, cap: LineCap::Round, dash: None }),
        plan_of(tool, BrushKind::Ink).mark == (Mark::Line { width_pct: 125, cap: LineCap::Round, dash: None }),
        plan_of(tool, BrushKind::Marker).mark == (Mark::Line { width_pct: 240, cap: LineCap::Square, dash: None }),
        plan_of(tool, BrushKind::Calligraphy).mark == (Mark::Line { width_pct: 55, cap: LineCap::Butt, dash: None }),
        plan_of(tool, BrushKind::Chalk).mark == (Mark::Line {
            width_pct: 130,
            cap: LineCap::Round,
            dash: Some(Dash { on_pct: 45, off_pct: 70 }),
        }),
        plan_of(tool, BrushKind::Airbrush).mark == (Mark::SoftDots { spray: false }),
        plan_of(tool, BrushKind::Spray).mark == (Mark::SoftDots { spray: true }),
        plan_of(tool, BrushKind::Pencil).source_alpha_pct == Some(65u32),
        plan_of(tool, BrushKind::Marker).source_alpha_pct == Some(35u32),
        plan_of(tool, BrushKind::Chalk).source_alpha_pct == Some(55u32),
        forall|k: BrushKind| k != BrushKind::Pencil && k != BrushKind::Marker && k != BrushKind::Chalk
            ==> #[trigger] plan_of(tool, k).source_alpha_pct == (if tool == Tool::Brush {
                Some(100u32)
            } else {
                None
            }),
{
}

/// The line brushes from thinnest to widest: calligraphy, pencil, round,
/// ink, chalk, marker; the round brush draws at exactly the brush size.
pub proof fn lemma_line_widths_ordered()
    ensures
        ({
            let w = |k: BrushKind|
                match plan_of(Tool::Brush, k).mark {
                    Mark::Line { width_pct, .. } => width_pct as int,
                    Mark::SoftDots { .. } => -1,
                };
            &&& 0 < w(BrushKind::Calligraphy) < w(BrushKind::Pencil)
            &&& w(BrushKind::Pencil) < w(BrushKind::Round)
            &&& w(BrushKind::Round) == 100
            &&& w(BrushKind::Round) < w(BrushKind::Ink)
            &&& w(BrushKind::Ink) < w(BrushKind::Chalk)
            &&& w(BrushKind::Chalk) < w(BrushKind::Marker)
        }),
{
}

/// The stroke that `tool` and `kind` make.
pub fn stroke_plan_for(tool: Tool, kind: BrushKind) -> (p: StrokePlan)
    ensures
        p == plan_of(tool, kind),
{
    let (compositing, mut source_alpha_pct) = match tool {
        Tool::Eraser => (Compositing::Clear, None),
        Tool::Brush => (Compositing::Over, Some(100u32)),
    };
    let mark = match kind {
        BrushKind::Round => Mark::Line { width_pct: 100, cap: LineCap::Round, dash: None },
        BrushKind::Pencil => {
            source_alpha_pct = Some(65);
            Mark::Line { width_pct: 70, cap: LineCap::Round, dash: None }
        },
        BrushKind::Ink => Mark::Line { width_pct: 125, cap: LineCap::Round, dash: None },
        BrushKind::Marker => {
            source_alpha_pct = Some(35);
            Mark::Line { width_pct: 240, cap: LineCap::Square, dash: None }
        },
        BrushKind::Calligraphy => Mark::Line { width_pct: 55, cap: LineCap::Butt, dash: None },
        BrushKind::Chalk => {
            source_alpha_pct = Some(55);
            Mark::Line {
                width_pct: 130,
                cap: LineCap::Round,
                dash: Some(Dash { on_pct: 45, off_pct: 70 }),
            }
        },
        BrushKind::Airbrush => Mark::SoftDots { spray: false },
        BrushKind::Spray => Mark::SoftDots { spray: true },
    };
    StrokePlan { compositing, source_alpha_pct, mark }
}

/// How many discs the soft brushes lay at each step along a stroke.
pub open spec fn dots_per_step(spray: bool) -> nat {
    if spray { 10 } else { 4 }
}

/// One disc of a soft-brush stroke: the step along the stroke it belongs to,
/// the index that fixes its angle around the step's centre, and the ring
/// (distance class) it falls on when spraying.
#[derive(Clone, Copy, PartialEq, Eq, Structural, Debug)]
pub struct SoftDot {
    pub step: usize,
    pub angle_index: usize,
    pub ring: usize,
}

/// The discs of a soft-brush stroke cut into `steps` segments, in drawing
/// order: for each of the `steps + 1` steps, `dots_per_step(spray)` discs.
pub fn soft_dot_schedule(steps: usize, spray: bool) -> (v: Vec<SoftDot>)
    requires
        (steps + 1) * dots_per_step(spray) <= usize::MAX,
    ensures
        v@.len() == (steps + 1) * dots_per_step(spray),
        forall|i: int| 0 <= i < v@.len() ==> #[trigger] v@[i] == (SoftDot {
            step: (i / dots_per_step(spray) as int) as usize,
            angle_index: i as usize,
            ring: ((i % dots_per_step(spray) as int) % 5) as usize,
        }),
        forall|st: int, k: int|
            0 <= st <= steps && 0 <= k < dots_per_step(spray) ==> #[trigger] v@[st
                * dots_per_step(spray) + k] == (SoftDot {
                step: st as usize,
                angle_index: (st * dots_per_step(spray) + k) as usize,
                ring: (k % 5) as usize,
            }),
{
    let dots: usize = if spray { 10 } else { 4 };
    let total: usize = (steps + 1) * dots;
    let mut v: Vec<SoftDot> = Vec::new();
    let mut i: usize = 0;
    while i < total
        invariant
            dots == dots_per_step(spray),
            total == (steps + 1) * dots_per_step(spray),
            i <= total,
            v@.len() == i,
            forall|j: int| 0 <= j < i ==> #[trigger] v@[j] == (SoftDot {
                step: (j / dots as int) as usize,
                angle_index: j as usize,
                ring: ((j % dots as int) % 5) as usize,
            }),
        decreases total - i,
    {
        v.push(SoftDot { step: i / dots, angle_index: i, ring: (i % dots) % 5 });
        i = i + 1;
    }
    proof {
        assert forall|st: int, k: int|
            0 <= st <= steps && 0 <= k < dots_per_step(spray) implies #[trigger] v@[st
                * dots_per_step(spray) + k] == (SoftDot {
                step: st as usize,
                angle_index: (st * dots_per_step(spray) + k) as usize,
                ring: (k % 5) as usize,
            }) by {
            let d = dots_per_step(spray) as int;
            let i = st * d + k;
            assert(i / d == st && i % d == k) by (nonlinear_arith)
                requires
                    d > 0,
                    0 <= k < d,
                    i == st * d + k,
                    0 <= st,
            ;
            assert(0 <= i < v@.len()) by (nonlinear_arith)
                requires
                    0 <= st <= steps,
                    0 <= k < d,
                    i == st * d + k,
                    v@.len() == (steps + 1) * d,
            ;
        }
    }
    v
}

} // verus!
