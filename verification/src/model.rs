//! The plot model: the viewport plus the list of formula entries, the
//! per-frame list normalization (drop emptied rows, keep exactly one
//! trailing blank row for input), and the routing of a frame's input
//! batch into viewport mutations.

use vstd::prelude::*;
use crate::viewport::{Viewport, CanvasRect, WorldPoint, COORD_LIMIT, WORLD_LIMIT};
use crate::zoom::{spec_apply_pinch, spec_apply_scroll, apply_pinch, apply_scroll};
use crate::sampler::{EvalOutcome, sample_xs, build_world_segments, segments_to_screen,
    spec_sample_points, spec_world_segments, spec_segments_in_range,
    lemma_segments_within_visible_range, lemma_world_segments_bounded};
use crate::viewport::ScreenVec;
use crate::{SCALE_MIN, SCALE_MAX};

verus! {

/// Default sample count of a fresh entry.
pub const DEFAULT_RESOLUTION: usize = 500;

/// Fewest samples an entry may ask for.
pub const RESOLUTION_MIN: usize = 10;

/// Most samples an entry may ask for.
pub const RESOLUTION_MAX: usize = 9999;

/// An entry's line color.
#[derive(Clone, Copy, PartialEq, Eq, Structural, Debug)]
pub struct Rgb {
    pub red: u8,
    pub green: u8,
    pub blue: u8,
}

/// Whether the expression engine could compile the entry's formula; the
/// compiled callable itself stays with the host.
#[derive(Clone, Copy, PartialEq, Eq, Structural, Debug)]
pub enum CompileStatus {
    Compiled,
    Failed,
}

/// One formula row: its text, whether it compiled, its color, and its
/// sample resolution.
#[derive(Clone, Debug)]
pub struct FunctionEntry {
    pub formula: String,
    pub compiled: CompileStatus,
    pub color: Rgb,
    pub resolution: usize,
}

impl FunctionEntry {
    /// An entry is well formed when its resolution is in range.
    pub open spec fn wf(self) -> bool {
        RESOLUTION_MIN <= self.resolution <= RESOLUTION_MAX
    }

    /// The fresh blank row appended for new input: empty text, nothing
    /// compiled, green, default resolution.
    pub fn empty() -> (r: FunctionEntry)
        ensures
            r.formula@ == Seq::<char>::empty(),
            r.compiled == CompileStatus::Failed,
            r.color == (Rgb { red: 0, green: 255, blue: 0 }),
            r.resolution == DEFAULT_RESOLUTION,
            r.wf(),
    {
        let s = String::new();
        proof {
            assert(s@ =~= Seq::<char>::empty());
        }
        FunctionEntry {
            formula: s,
            compiled: CompileStatus::Failed,
            color: Rgb { red: 0, green: 255, blue: 0 },
            resolution: DEFAULT_RESOLUTION,
        }
    }
}

/// The non-empty rows of the first `n` entries, in order.
pub open spec fn spec_retained(s: Seq<FunctionEntry>, n: int) -> Seq<FunctionEntry>
    decreases n,
{
    if n <= 0 {
        Seq::empty()
    } else {
        spec_retained(s, n - 1) + (if s[n - 1].formula@.len() > 0 {
            seq![s[n - 1]]
        } else {
            Seq::empty()
        })
    }
}

/// A frame's input batch, already abstracted from the toolkit: pinch
/// factors in hundredths in arrival order, one signed scroll delta (zero
/// when none), a drag delta in thousandths of a pixel, whether the
/// pointer hovered the plotting surface, and whether the view reset was
/// triggered.
#[derive(Clone, Debug)]
pub struct FrameInput {
    pub pinch_factors: Vec<i64>,
    pub scroll_delta: i64,
    pub drag_x: i64,
    pub drag_y: i64,
    pub hovered: bool,
    pub reset: bool,
}

/// The scale after the frame's pinch factors, in order.
pub open spec fn spec_apply_pinch_seq(scale: int, fs: Seq<i64>) -> int
    decreases fs.len(),
{
    if fs.len() == 0 {
        scale
    } else {
        spec_apply_pinch_seq(spec_apply_pinch(scale, fs[0] as int), fs.drop_first())
    }
}

impl FrameInput {
    /// An input batch is well formed when its pinch factors are
    /// positive, as multiplicative zoom gestures always are.
    pub open spec fn wf(self) -> bool {
        forall|i: int| 0 <= i < self.pinch_factors@.len() ==> 0 < #[trigger] self.pinch_factors@[i]
    }
}

/// The whole plotter state the core owns: one viewport and the entry
/// rows.
#[derive(Clone, Debug)]
pub struct PlotModel {
    pub viewport: Viewport,
    pub entries: Vec<FunctionEntry>,
}

impl PlotModel {
    /// A model is well formed when its viewport is and every entry is.
    pub open spec fn wf(self) -> bool {
        &&& self.viewport.wf()
        &&& forall|i: int| 0 <= i < self.entries@.len() ==> (#[trigger] self.entries@[i]).wf()
    }

    /// A fresh model: default view, no entries yet.
    pub fn new() -> (r: PlotModel)
        ensures
            r.wf(),
            r.viewport.scale == 100,
            r.viewport.offset.x == 0,
            r.viewport.offset.y == 0,
            r.entries@.len() == 0,
    {
        PlotModel { viewport: Viewport::new(), entries: Vec::new() }
    }

    /// Returns the view to its initial state, whatever it held.
    pub fn reset_view(&mut self)
        ensures
            final(self).viewport.scale == 100,
            final(self).viewport.offset.x == 0,
            final(self).viewport.offset.y == 0,
            final(self).entries == old(self).entries,
            old(self).wf() ==> final(self).wf(),
    {
        self.viewport.reset();
    }

    /// Drops every entry whose formula is empty and appends one fresh
    /// blank row, so exactly one trailing input row remains.
    pub fn normalize_entries(&mut self)
        requires
            old(self).wf(),
        ensures
            final(self).wf(),
            final(self).viewport == old(self).viewport,
            final(self).entries@.len() > 0,
            final(self).entries@.drop_last() == spec_retained(
                old(self).entries@,
                old(self).entries@.len() as int,
            ),
            final(self).entries@.last().formula@ == Seq::<char>::empty(),
            final(self).entries@.last().compiled == CompileStatus::Failed,
            final(self).entries@.last().resolution == DEFAULT_RESOLUTION,
    {
        let ghost orig = self.entries@;
        let mut kept: Vec<FunctionEntry> = Vec::new();
        let mut i: usize = 0;
        proof {
            assert(kept@ =~= spec_retained(orig, 0));
        }
        while i < self.entries.len()
            invariant
                orig == self.entries@,
                old(self).wf(),
                self.entries == old(self).entries,
                self.viewport == old(self).viewport,
                0 <= i <= orig.len(),
                kept@ == spec_retained(orig, i as int),
                forall|j: int| 0 <= j < kept@.len() ==> (#[trigger] kept@[j]).wf(),
            decreases orig.len() - i,
        {
            let e: &FunctionEntry = &self.entries[i];
            if !e.formula.as_str().is_empty() {
                let copy = FunctionEntry {
                    formula: e.formula.clone(),
                    compiled: e.compiled,
                    color: e.color,
                    resolution: e.resolution,
                };
                kept.push(copy);
            }
            proof {
                assert(kept@ =~= spec_retained(orig, i as int + 1));
            }
            i = i + 1;
        }
        kept.push(FunctionEntry::empty());
        self.entries = kept;
        proof {
            assert(self.entries@.drop_last() =~= spec_retained(orig, orig.len() as int));
        }
    }

    /// Routes one frame's input: pinch factors then the scroll step,
    /// only while the pointer hovers the surface; the drag pans; a reset
    /// returns the view to scale one and zero offset whatever went
    /// before.
    pub fn apply_frame_input(&mut self, input: &FrameInput)
        requires
            old(self).wf(),
            input.wf(),
            -COORD_LIMIT <= old(self).viewport.offset.x + input.drag_x <= COORD_LIMIT,
            -COORD_LIMIT <= old(self).viewport.offset.y + input.drag_y <= COORD_LIMIT,
        ensures
            final(self).wf(),
            final(self).entries == old(self).entries,
            input.reset ==> final(self).viewport.scale == 100 && final(self).viewport.offset.x == 0
                && final(self).viewport.offset.y == 0,
            !input.reset ==> final(self).viewport.scale == (if input.hovered {
                spec_apply_scroll(
                    spec_apply_pinch_seq(old(self).viewport.scale as int, input.pinch_factors@),
                    input.scroll_delta as int,
                )
            } else {
                old(self).viewport.scale as int
            }),
            !input.reset ==> final(self).viewport.offset.x == old(self).viewport.offset.x
                + input.drag_x && final(self).viewport.offset.y == old(self).viewport.offset.y
                + input.drag_y,
    {
        if input.hovered {
            let mut scale: i64 = self.viewport.scale;
            let mut i: usize = 0;
            proof {
                assert(input.pinch_factors@.skip(0) =~= input.pinch_factors@);
            }
            while i < input.pinch_factors.len()
                invariant
                    input.wf(),
                    0 <= i <= input.pinch_factors@.len(),
                    SCALE_MIN <= scale <= SCALE_MAX,
                    spec_apply_pinch_seq(scale as int, input.pinch_factors@.skip(i as int))
                        == spec_apply_pinch_seq(
                        old(self).viewport.scale as int,
                        input.pinch_factors@,
                    ),
                decreases input.pinch_factors@.len() - i,
            {
                proof {
                    assert(input.pinch_factors@.skip(i as int)[0] == input.pinch_factors@[i as int]);
                    assert(input.pinch_factors@.skip(i as int).drop_first()
                        =~= input.pinch_factors@.skip(i as int + 1));
                }
                scale = apply_pinch(scale, input.pinch_factors[i]);
                i = i + 1;
            }
            proof {
                assert(input.pinch_factors@.skip(input.pinch_factors@.len() as int)
                    =~= Seq::<i64>::empty());
            }
            scale = apply_scroll(scale, input.scroll_delta);
            self.viewport.scale = scale;
        }
        self.viewport.pan(input.drag_x, input.drag_y);
        if input.reset {
            self.viewport.reset();
        }
    }

    /// The sample grid an entry is evaluated on: one x per requested
    /// sample, evenly spaced across the visible x range.
    pub open spec fn spec_entry_xs(self, canvas: CanvasRect, idx: int) -> Seq<i64> {
        let b = self.viewport.spec_visible_world_bounds(canvas);
        spec_sample_points(
            b.x_min as int,
            b.x_max as int,
            self.entries[idx].resolution as int,
        )
    }

    /// The drawable world segments of an entry, given what each of its
    /// evaluations produced.
    pub open spec fn spec_entry_segments(
        self,
        canvas: CanvasRect,
        idx: int,
        ys: Seq<EvalOutcome>,
    ) -> Seq<Seq<WorldPoint>> {
        let b = self.viewport.spec_visible_world_bounds(canvas);
        spec_world_segments(self.spec_entry_xs(canvas, idx), ys, b.y_min as int, b.y_max as int)
    }

    /// Computes the x grid for one entry: exactly as many samples as the
    /// entry's resolution asks for, so each resolution yields exactly
    /// that many evaluation attempts by the host. Only a row whose
    /// formula compiled is ever sampled.
    pub fn entry_sample_xs(&self, idx: usize, canvas: &CanvasRect) -> (r: Vec<i64>)
        requires
            self.wf(),
            canvas.wf(),
            idx < self.entries@.len(),
            self.entries@[idx as int].compiled == CompileStatus::Compiled,
        ensures
            r@ == self.spec_entry_xs(*canvas, idx as int),
            r@.len() == self.entries@[idx as int].resolution,
    {
        let b = self.viewport.visible_world_bounds(canvas);
        sample_xs(b.x_min, b.x_max, self.entries[idx].resolution)
    }

    /// Partitions one entry's evaluation outcomes into drawable world
    /// segments: every segment holds at least one point, and no point
    /// lies outside the visible world range. Only a row whose formula
    /// compiled is ever sampled.
    pub fn entry_world_segments(
        &self,
        idx: usize,
        canvas: &CanvasRect,
        ys: &Vec<EvalOutcome>,
    ) -> (r: Vec<Vec<WorldPoint>>)
        requires
            self.wf(),
            canvas.wf(),
            idx < self.entries@.len(),
            self.entries@[idx as int].compiled == CompileStatus::Compiled,
            ys@.len() == self.entries@[idx as int].resolution,
        ensures
            r@.map_values(|v: Vec<WorldPoint>| v@) == self.spec_entry_segments(
                *canvas,
                idx as int,
                ys@,
            ),
            forall|j: int| 0 <= j < r@.len() ==> (#[trigger] r@[j])@.len() > 0,
            spec_segments_in_range(
                r@.map_values(|v: Vec<WorldPoint>| v@),
                self.viewport.spec_visible_world_bounds(*canvas).y_min as int,
                self.viewport.spec_visible_world_bounds(*canvas).y_max as int,
            ),
    {
        let b = self.viewport.visible_world_bounds(canvas);
        let xs = sample_xs(b.x_min, b.x_max, self.entries[idx].resolution);
        let r = build_world_segments(&xs, ys, b.y_min, b.y_max);
        proof {
            lemma_segments_within_visible_range(xs@, ys@, b.y_min as int, b.y_max as int);
        }
        r
    }

    /// Samples one entry all the way to the screen: segments the
    /// outcomes against the visible range and maps every kept point
    /// through the viewport. Only a row whose formula compiled is ever
    /// sampled; a row whose compilation failed yields no drawing at all.
    pub fn entry_screen_segments(
        &self,
        idx: usize,
        canvas: &CanvasRect,
        ys: &Vec<EvalOutcome>,
    ) -> (r: Vec<Vec<ScreenVec>>)
        requires
            self.wf(),
            canvas.wf(),
            idx < self.entries@.len(),
            self.entries@[idx as int].compiled == CompileStatus::Compiled,
            ys@.len() == self.entries@[idx as int].resolution,
        ensures
            r@.len() == self.spec_entry_segments(*canvas, idx as int, ys@).len(),
            forall|j: int|
                0 <= j < r@.len() ==> (#[trigger] r@[j])@.len() == self.spec_entry_segments(
                    *canvas,
                    idx as int,
                    ys@,
                )[j].len(),
            forall|j: int, k: int|
                0 <= j < r@.len() && 0 <= k < r@[j]@.len() ==> {
                    let p = self.spec_entry_segments(*canvas, idx as int, ys@)[j][k];
                    let q = (#[trigger] r@[j]@[k]);
                    q.x == self.viewport.spec_to_screen_x(*canvas, p.x as int) && q.y
                        == self.viewport.spec_to_screen_y(*canvas, p.y as int)
                },
    {
        let b = self.viewport.visible_world_bounds(canvas);
        let xs = sample_xs(b.x_min, b.x_max, self.entries[idx].resolution);
        let ws = build_world_segments(&xs, ys, b.y_min, b.y_max);
        proof {
            lemma_world_segments_bounded(
                xs@,
                ys@,
                b.y_min as int,
                b.y_max as int,
                b.x_min as int,
                b.x_max as int,
            );
            assert forall|j: int, k: int|
                0 <= j < ws@.len() && 0 <= k < ws@[j]@.len() implies {
                let p = #[trigger] ws@[j]@[k];
                -WORLD_LIMIT <= p.x <= WORLD_LIMIT && -WORLD_LIMIT <= p.y <= WORLD_LIMIT
            } by {
                let m = ws@.map_values(|v: Vec<WorldPoint>| v@);
                assert(m[j] == ws@[j]@);
                assert(crate::sampler::spec_run_bounded(
                    m[j],
                    b.x_min as int,
                    b.x_max as int,
                    b.y_min as int,
                    b.y_max as int,
                ));
                assert(m[j][k] == ws@[j]@[k]);
            };
        }
        segments_to_screen(&ws, &self.viewport, canvas)
    }

    /// Stores a row's new formula text together with the verdict the
    /// expression engine gave when recompiling it.
    pub fn set_entry_formula(&mut self, idx: usize, formula: String, compiled: CompileStatus)
        requires
            old(self).wf(),
            idx < old(self).entries@.len(),
        ensures
            final(self).wf(),
            final(self).viewport == old(self).viewport,
            final(self).entries@.len() == old(self).entries@.len(),
            final(self).entries@[idx as int].formula == formula,
            final(self).entries@[idx as int].compiled == compiled,
            final(self).entries@[idx as int].color == old(self).entries@[idx as int].color,
            final(self).entries@[idx as int].resolution == old(self).entries@[
                idx as int
            ].resolution,
            forall|j: int|
                0 <= j < old(self).entries@.len() && j != idx
                    ==> #[trigger] final(self).entries@[j] == old(self).entries@[j],
    {
        let e = &mut self.entries[idx];
        e.formula = formula;
        e.compiled = compiled;
    }

    /// Stores a row's new sample resolution, pulled into the allowed
    /// range as the input widget does.
    pub fn set_entry_resolution(&mut self, idx: usize, resolution: usize)
        requires
            old(self).wf(),
            idx < old(self).entries@.len(),
        ensures
            final(self).wf(),
            final(self).viewport == old(self).viewport,
            final(self).entries@.len() == old(self).entries@.len(),
            final(self).entries@[idx as int].resolution == crate::num::spec_clamp(
                resolution as int,
                RESOLUTION_MIN as int,
                RESOLUTION_MAX as int,
            ),
            final(self).entries@[idx as int].formula == old(self).entries@[idx as int].formula,
            final(self).entries@[idx as int].compiled == old(self).entries@[idx as int].compiled,
            final(self).entries@[idx as int].color == old(self).entries@[idx as int].color,
            forall|j: int|
                0 <= j < old(self).entries@.len() && j != idx
                    ==> #[trigger] final(self).entries@[j] == old(self).entries@[j],
    {
        let clamped: usize = if resolution < RESOLUTION_MIN {
            RESOLUTION_MIN
        } else if resolution > RESOLUTION_MAX {
            RESOLUTION_MAX
        } else {
            resolution
        };
        let e = &mut self.entries[idx];
        e.resolution = clamped;
    }

    /// Stores a row's new line color.
    pub fn set_entry_color(&mut self, idx: usize, color: Rgb)
        requires
            old(self).wf(),
            idx < old(self).entries@.len(),
        ensures
            final(self).wf(),
            final(self).viewport == old(self).viewport,
            final(self).entries@.len() == old(self).entries@.len(),
            final(self).entries@[idx as int].color == color,
            final(self).entries@[idx as int].formula == old(self).entries@[idx as int].formula,
            final(self).entries@[idx as int].compiled == old(self).entries@[idx as int].compiled,
            final(self).entries@[idx as int].resolution == old(self).entries@[
                idx as int
            ].resolution,
            forall|j: int|
                0 <= j < old(self).entries@.len() && j != idx
                    ==> #[trigger] final(self).entries@[j] == old(self).entries@[j],
    {
        let e = &mut self.entries[idx];
        e.color = color;
    }
}

} // verus!
