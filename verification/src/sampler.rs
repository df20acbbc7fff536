//! Function sampling: the evenly spaced sample grid across the visible
//! x range, and the partition of evaluation outcomes into maximal runs
//! of consecutive drawable points.
//!
//! Evaluating the compiled formula itself is the host's job; it hands
//! each outcome back as a plain value, and everything from there on —
//! range classification, segmentation, mapping to the screen — is
//! verified here.

use vstd::prelude::*;
use crate::num::{div_trunc, exec_div_trunc};
use crate::viewport::{Viewport, CanvasRect, WorldPoint, ScreenVec, WORLD_LIMIT};

verus! {

/// What one evaluation of the plotted function produced: a finite value
/// in thousandths of a world unit, or a failure (an evaluation error or
/// a value with no finite representation).
#[derive(Clone, Copy, PartialEq, Eq, Structural, Debug)]
pub enum EvalOutcome {
    Value(i64),
    Failed,
}

/// The x coordinate of sample `i` when `res` samples span
/// `[x_min, x_max]`: the range is divided proportionally, so the first
/// sample is `x_min`, the last is `x_max`, and consecutive samples are
/// evenly spaced to within one thousandth of a world unit.
pub open spec fn spec_sample_x(x_min: int, x_max: int, res: int, i: int) -> int {
    x_min + div_trunc(i * (x_max - x_min), res - 1)
}

/// The sample grid as a sequence: `res` values from `x_min` to `x_max`.
pub open spec fn spec_sample_points(x_min: int, x_max: int, res: int) -> Seq<i64> {
    Seq::new(res as nat, |i: int| spec_sample_x(x_min, x_max, res, i) as i64)
}

/// The x coordinates of the samples: `resolution` evenly spaced values
/// across `[x_min, x_max]`, endpoints included.
pub fn sample_xs(x_min: i64, x_max: i64, resolution: usize) -> (r: Vec<i64>)
    requires
        2 <= resolution <= 1_000_000,
        -WORLD_LIMIT <= x_min <= x_max <= WORLD_LIMIT,
    ensures
        r@.len() == resolution,
        forall|i: int|
            0 <= i < resolution ==> #[trigger] r@[i] == spec_sample_x(
                x_min as int,
                x_max as int,
                resolution as int,
                i,
            ),
        forall|i: int| 0 <= i < resolution ==> x_min <= #[trigger] r@[i] <= x_max,
        r@[0] == x_min,
        r@[resolution - 1] == x_max,
        forall|i: int| 0 < i < resolution ==> #[trigger] r@[i - 1] <= r@[i],
        r@ == spec_sample_points(x_min as int, x_max as int, resolution as int),
{
    let d: i64 = x_max - x_min;
    let m: i64 = (resolution - 1) as i64;
    let mut r: Vec<i64> = Vec::new();
    let mut i: usize = 0;
    while i < resolution
        invariant
            0 <= i <= resolution,
            2 <= resolution <= 1_000_000,
            -WORLD_LIMIT <= x_min <= x_max <= WORLD_LIMIT,
            d == x_max - x_min,
            m == resolution - 1,
            r@.len() == i,
            forall|j: int|
                0 <= j < i ==> #[trigger] r@[j] == spec_sample_x(
                    x_min as int,
                    x_max as int,
                    resolution as int,
                    j,
                ),
            forall|j: int| 0 <= j < i ==> x_min <= #[trigger] r@[j] <= x_max,
        decreases resolution - i,
    {
        proof {
            crate::num::lemma_mul_bounds_abs(
                i as int,
                d as int,
                1_000_000,
                2 * WORLD_LIMIT as int,
            );
            vstd::arithmetic::mul::lemma_mul_nonnegative(i as int, d as int);
            vstd::arithmetic::mul::lemma_mul_inequality(i as int, m as int, d as int);
            vstd::arithmetic::mul::lemma_mul_is_commutative(m as int, d as int);
            vstd::arithmetic::div_mod::lemma_div_by_multiple(d as int, m as int);
            crate::viewport::lemma_div_trunc_ordered(
                i as int * d as int,
                m as int * d as int,
                m as int,
            );
            vstd::arithmetic::div_mod::lemma_div_pos_is_pos(i as int * d as int, m as int);
        }
        let offset_num: i64 = (i as i64) * d;
        let x: i64 = x_min + exec_div_trunc(offset_num, m);
        r.push(x);
        i = i + 1;
    }
    proof {
        assert(r@[0] == x_min) by {
            vstd::arithmetic::div_mod::lemma_div_of0(m as int);
        };
        assert(r@[resolution - 1] == x_max) by {
            vstd::arithmetic::mul::lemma_mul_is_commutative(m as int, d as int);
            vstd::arithmetic::div_mod::lemma_div_by_multiple(d as int, m as int);
        };
        assert forall|i: int| 0 < i < resolution implies #[trigger] r@[i - 1] <= r@[i] by {
            vstd::arithmetic::mul::lemma_mul_inequality(i - 1, i, d as int);
            crate::viewport::lemma_div_trunc_ordered(
                (i - 1) * d as int,
                i * d as int,
                m as int,
            );
        };
        assert(r@ =~= spec_sample_points(x_min as int, x_max as int, resolution as int));
    }
    r
}

/// An outcome is drawable when it carries a value inside the visible
/// y range; a failure or an out-of-range value breaks continuity.
pub open spec fn spec_valid_point(o: EvalOutcome, y_min: int, y_max: int) -> bool {
    match o {
        EvalOutcome::Value(y) => y_min <= y <= y_max,
        EvalOutcome::Failed => false,
    }
}

/// The segmentation state after the first `n` samples: the finished
/// segments, and the run of drawable points still open.
pub open spec fn spec_segment_state(
    xs: Seq<i64>,
    ys: Seq<EvalOutcome>,
    y_min: int,
    y_max: int,
    n: int,
) -> (Seq<Seq<WorldPoint>>, Seq<WorldPoint>)
    decreases n,
{
    if n <= 0 {
        (Seq::empty(), Seq::empty())
    } else {
        let prev = spec_segment_state(xs, ys, y_min, y_max, n - 1);
        match ys[n - 1] {
            EvalOutcome::Value(y) => {
                if y_min <= y <= y_max {
                    (prev.0, prev.1.push(WorldPoint { x: xs[n - 1], y }))
                } else {
                    (if prev.1.len() > 0 { prev.0.push(prev.1) } else { prev.0 }, Seq::empty())
                }
            },
            EvalOutcome::Failed => {
                (if prev.1.len() > 0 { prev.0.push(prev.1) } else { prev.0 }, Seq::empty())
            },
        }
    }
}

/// The maximal runs of consecutive drawable samples, in order: the
/// partition of the outcomes into segments, an invalid outcome closing
/// the open run and never joining points across the break.
pub open spec fn spec_world_segments(
    xs: Seq<i64>,
    ys: Seq<EvalOutcome>,
    y_min: int,
    y_max: int,
) -> Seq<Seq<WorldPoint>> {
    let st = spec_segment_state(xs, ys, y_min, y_max, xs.len() as int);
    if st.1.len() > 0 {
        st.0.push(st.1)
    } else {
        st.0
    }
}

/// Classifies one outcome against the visible y range, returning the
/// drawable flag and the value (zero when there is none).
fn classify_outcome(o: EvalOutcome, y_min: i64, y_max: i64) -> (r: (bool, i64))
    ensures
        r.0 == spec_valid_point(o, y_min as int, y_max as int),
        r.0 ==> o == EvalOutcome::Value(r.1),
{
    match o {
        EvalOutcome::Value(y) => (y_min <= y && y <= y_max, y),
        EvalOutcome::Failed => (false, 0),
    }
}

/// Partitions the samples into maximal drawable runs of world points.
pub fn build_world_segments(
    xs: &Vec<i64>,
    ys: &Vec<EvalOutcome>,
    y_min: i64,
    y_max: i64,
) -> (r: Vec<Vec<WorldPoint>>)
    requires
        xs@.len() == ys@.len(),
    ensures
        r@.map_values(|v: Vec<WorldPoint>| v@) == spec_world_segments(
            xs@,
            ys@,
            y_min as int,
            y_max as int,
        ),
        forall|j: int| 0 <= j < r@.len() ==> (#[trigger] r@[j])@.len() > 0,
{
    let ghost ymi = y_min as int;
    let ghost yma = y_max as int;
    let mut segs: Vec<Vec<WorldPoint>> = Vec::new();
    let mut current: Vec<WorldPoint> = Vec::new();
    let mut i: usize = 0;
    proof {
        assert(segs@.map_values(|v: Vec<WorldPoint>| v@) =~= Seq::<Seq<WorldPoint>>::empty());
        assert(current@ =~= Seq::<WorldPoint>::empty());
    }
    while i < xs.len()
        invariant
            xs@.len() == ys@.len(),
            0 <= i <= xs@.len(),
            ymi == y_min as int,
            yma == y_max as int,
            segs@.map_values(|v: Vec<WorldPoint>| v@) == spec_segment_state(
                xs@,
                ys@,
                ymi,
                yma,
                i as int,
            ).0,
            current@ == spec_segment_state(xs@, ys@, ymi, yma, i as int).1,
            forall|j: int| 0 <= j < segs@.len() ==> (#[trigger] segs@[j])@.len() > 0,
        decreases xs@.len() - i,
    {
        let ghost prev = spec_segment_state(xs@, ys@, ymi, yma, i as int);
        let ghost next = spec_segment_state(xs@, ys@, ymi, yma, i as int + 1);
        proof {
            reveal_with_fuel(spec_segment_state, 2);
        }
        let o: EvalOutcome = ys[i];
        let pair: (bool, i64) = classify_outcome(o, y_min, y_max);
        let valid: bool = pair.0;
        let yv: i64 = pair.1;
        if valid {
            current.push(WorldPoint { x: xs[i], y: yv });
            proof {
                assert(next.0 == prev.0);
                assert(next.1 == prev.1.push(WorldPoint { x: xs@[i as int], y: yv as i64 }));
            }
        } else {
            proof {
                assert(next.1 =~= Seq::<WorldPoint>::empty());
            }
            if current.len() > 0 {
                let finished = current;
                current = Vec::new();
                segs.push(finished);
                proof {
                    assert(next.0 == prev.0.push(prev.1));
                    assert(segs@.map_values(|v: Vec<WorldPoint>| v@) =~= next.0);
                    assert(current@ =~= next.1);
                }
            } else {
                proof {
                    assert(prev.1.len() == 0);
                    assert(next.0 == prev.0);
                    assert(current@ =~= next.1);
                }
            }
        }
        i = i + 1;
    }
    if current.len() > 0 {
        let finished = current;
        segs.push(finished);
        proof {
            assert(segs@.map_values(|v: Vec<WorldPoint>| v@) =~= spec_world_segments(
                xs@,
                ys@,
                ymi,
                yma,
            ));
        }
    }
    segs
}

} // verus!

verus! {

/// All points of one run lie inside the y range.
pub open spec fn spec_run_in_range(run: Seq<WorldPoint>, y_min: int, y_max: int) -> bool {
    forall|k: int| 0 <= k < run.len() ==> y_min <= (#[trigger] run[k]).y <= y_max
}

/// All points of all segments lie inside the y range.
pub open spec fn spec_segments_in_range(segs: Seq<Seq<WorldPoint>>, y_min: int, y_max: int) -> bool {
    forall|j: int| 0 <= j < segs.len() ==> spec_run_in_range(#[trigger] segs[j], y_min, y_max)
}

/// Every point held by the segmentation state after `n` samples lies
/// inside the visible y range.
proof fn lemma_segment_state_points_in_range(
    xs: Seq<i64>,
    ys: Seq<EvalOutcome>,
    y_min: int,
    y_max: int,
    n: int,
)
    requires
        xs.len() == ys.len(),
        n <= xs.len(),
    ensures
        spec_segments_in_range(spec_segment_state(xs, ys, y_min, y_max, n).0, y_min, y_max),
        spec_run_in_range(spec_segment_state(xs, ys, y_min, y_max, n).1, y_min, y_max),
    decreases n,
{
    if n > 0 {
        lemma_segment_state_points_in_range(xs, ys, y_min, y_max, n - 1);
    }
}

/// No segment the sampler emits contains a point whose world y falls
/// outside the visible range: segmentation keeps only outcomes whose
/// value the range classification admitted.
pub proof fn lemma_segments_within_visible_range(
    xs: Seq<i64>,
    ys: Seq<EvalOutcome>,
    y_min: int,
    y_max: int,
)
    requires
        xs.len() == ys.len(),
    ensures
        spec_segments_in_range(spec_world_segments(xs, ys, y_min, y_max), y_min, y_max),
{
    lemma_segment_state_points_in_range(xs, ys, y_min, y_max, xs.len() as int);
}

/// All points of one run lie inside both coordinate ranges.
pub open spec fn spec_run_bounded(
    run: Seq<WorldPoint>,
    x_lo: int,
    x_hi: int,
    y_lo: int,
    y_hi: int,
) -> bool {
    forall|k: int|
        0 <= k < run.len() ==> x_lo <= (#[trigger] run[k]).x <= x_hi && y_lo <= run[k].y <= y_hi
}

/// All points of all segments lie inside both coordinate ranges.
pub open spec fn spec_segments_bounded(
    segs: Seq<Seq<WorldPoint>>,
    x_lo: int,
    x_hi: int,
    y_lo: int,
    y_hi: int,
) -> bool {
    forall|j: int| 0 <= j < segs.len() ==> spec_run_bounded(#[trigger] segs[j], x_lo, x_hi, y_lo, y_hi)
}

/// Every point the segmentation keeps carries an x from the sample grid
/// and a y the classification admitted, so both stay in their ranges.
pub proof fn lemma_segment_state_bounded(
    xs: Seq<i64>,
    ys: Seq<EvalOutcome>,
    y_min: int,
    y_max: int,
    x_lo: int,
    x_hi: int,
    n: int,
)
    requires
        xs.len() == ys.len(),
        n <= xs.len(),
        forall|i: int| 0 <= i < xs.len() ==> x_lo <= #[trigger] xs[i] <= x_hi,
    ensures
        spec_segments_bounded(
            spec_segment_state(xs, ys, y_min, y_max, n).0,
            x_lo,
            x_hi,
            y_min,
            y_max,
        ),
        spec_run_bounded(spec_segment_state(xs, ys, y_min, y_max, n).1, x_lo, x_hi, y_min, y_max),
    decreases n,
{
    if n > 0 {
        lemma_segment_state_bounded(xs, ys, y_min, y_max, x_lo, x_hi, n - 1);
    }
}

/// The bounds carry over to the finished segmentation.
pub proof fn lemma_world_segments_bounded(
    xs: Seq<i64>,
    ys: Seq<EvalOutcome>,
    y_min: int,
    y_max: int,
    x_lo: int,
    x_hi: int,
)
    requires
        xs.len() == ys.len(),
        forall|i: int| 0 <= i < xs.len() ==> x_lo <= #[trigger] xs[i] <= x_hi,
    ensures
        spec_segments_bounded(
            spec_world_segments(xs, ys, y_min, y_max),
            x_lo,
            x_hi,
            y_min,
            y_max,
        ),
{
    lemma_segment_state_bounded(xs, ys, y_min, y_max, x_lo, x_hi, xs.len() as int);
}

/// Maps every segment's world points onto the screen, segment by
/// segment and point by point.
pub fn segments_to_screen(
    segs: &Vec<Vec<WorldPoint>>,
    vp: &Viewport,
    canvas: &CanvasRect,
) -> (r: Vec<Vec<ScreenVec>>)
    requires
        vp.wf(),
        canvas.wf(),
        forall|j: int, k: int|
            0 <= j < segs@.len() && 0 <= k < segs@[j]@.len() ==> {
                let p = #[trigger] segs@[j]@[k];
                -WORLD_LIMIT <= p.x <= WORLD_LIMIT && -WORLD_LIMIT <= p.y <= WORLD_LIMIT
            },
    ensures
        r@.len() == segs@.len(),
        forall|j: int| 0 <= j < segs@.len() ==> (#[trigger] r@[j])@.len() == segs@[j]@.len(),
        forall|j: int, k: int|
            0 <= j < segs@.len() && 0 <= k < segs@[j]@.len() ==> {
                let p = segs@[j]@[k];
                let q = (#[trigger] r@[j]@[k]);
                q.x == vp.spec_to_screen_x(*canvas, p.x as int) && q.y == vp.spec_to_screen_y(
                    *canvas,
                    p.y as int,
                )
            },
{
    let mut r: Vec<Vec<ScreenVec>> = Vec::new();
    let mut j: usize = 0;
    while j < segs.len()
        invariant
            vp.wf(),
            canvas.wf(),
            0 <= j <= segs@.len(),
            r@.len() == j,
            forall|a: int, k: int|
                0 <= a < segs@.len() && 0 <= k < segs@[a]@.len() ==> {
                    let p = #[trigger] segs@[a]@[k];
                    -WORLD_LIMIT <= p.x <= WORLD_LIMIT && -WORLD_LIMIT <= p.y <= WORLD_LIMIT
                },
            forall|a: int| 0 <= a < j ==> (#[trigger] r@[a])@.len() == segs@[a]@.len(),
            forall|a: int, k: int|
                0 <= a < j && 0 <= k < segs@[a]@.len() ==> {
                    let p = segs@[a]@[k];
                    let q = (#[trigger] r@[a]@[k]);
                    q.x == vp.spec_to_screen_x(*canvas, p.x as int) && q.y == vp.spec_to_screen_y(
                        *canvas,
                        p.y as int,
                    )
                },
        decreases segs@.len() - j,
    {
        let seg: &Vec<WorldPoint> = &segs[j];
        let mut out: Vec<ScreenVec> = Vec::new();
        let mut k: usize = 0;
        while k < seg.len()
            invariant
                vp.wf(),
                canvas.wf(),
                0 <= j < segs@.len(),
                seg@ == segs@[j as int]@,
                0 <= k <= seg@.len(),
                out@.len() == k,
                forall|b: int|
                    0 <= b < seg@.len() ==> {
                        let p = #[trigger] seg@[b];
                        -WORLD_LIMIT <= p.x <= WORLD_LIMIT && -WORLD_LIMIT <= p.y <= WORLD_LIMIT
                    },
                forall|b: int|
                    0 <= b < k ==> {
                        let p = seg@[b];
                        let q = (#[trigger] out@[b]);
                        q.x == vp.spec_to_screen_x(*canvas, p.x as int) && q.y
                            == vp.spec_to_screen_y(*canvas, p.y as int)
                    },
            decreases seg@.len() - k,
        {
            let p: WorldPoint = seg[k];
            out.push(vp.to_screen(canvas, p));
            k = k + 1;
        }
        r.push(out);
        j = j + 1;
    }
    r
}

} // verus!

verus! {

/// The drawable points among the first `n` samples, in sample order.
pub open spec fn spec_valid_values(
    xs: Seq<i64>,
    ys: Seq<EvalOutcome>,
    y_min: int,
    y_max: int,
    n: int,
) -> Seq<WorldPoint>
    decreases n,
{
    if n <= 0 {
        Seq::empty()
    } else {
        spec_valid_values(xs, ys, y_min, y_max, n - 1) + (match ys[n - 1] {
            EvalOutcome::Value(y) => {
                if y_min <= y <= y_max {
                    seq![WorldPoint { x: xs[n - 1], y }]
                } else {
                    Seq::empty()
                }
            },
            EvalOutcome::Failed => Seq::empty(),
        })
    }
}

/// Flattening the segmentation state recovers the drawable points of the
/// processed prefix, in order.
proof fn lemma_segment_state_flattens(
    xs: Seq<i64>,
    ys: Seq<EvalOutcome>,
    y_min: int,
    y_max: int,
    n: int,
)
    requires
        xs.len() == ys.len(),
        n <= xs.len(),
    ensures
        spec_segment_state(xs, ys, y_min, y_max, n).0.flatten() + spec_segment_state(
            xs,
            ys,
            y_min,
            y_max,
            n,
        ).1 == spec_valid_values(xs, ys, y_min, y_max, n),
    decreases n,
{
    broadcast use Seq::lemma_flatten_push;

    if n > 0 {
        lemma_segment_state_flattens(xs, ys, y_min, y_max, n - 1);
        let prev = spec_segment_state(xs, ys, y_min, y_max, n - 1);
        let cur = spec_segment_state(xs, ys, y_min, y_max, n);
        assert(cur.0.flatten() + cur.1 =~= spec_valid_values(xs, ys, y_min, y_max, n));
    } else {
        assert(spec_segment_state(xs, ys, y_min, y_max, n).0.flatten() + spec_segment_state(
            xs,
            ys,
            y_min,
            y_max,
            n,
        ).1 =~= spec_valid_values(xs, ys, y_min, y_max, n));
    }
}

/// The segments hold exactly the drawable samples, in sample order:
/// flattening the segmentation gives the subsequence of outcomes that
/// were values inside the visible range, each paired with its sample x.
/// Nothing is dropped, added, or reordered — only split at the breaks.
pub proof fn lemma_segments_flatten_to_valid_points(
    xs: Seq<i64>,
    ys: Seq<EvalOutcome>,
    y_min: int,
    y_max: int,
)
    requires
        xs.len() == ys.len(),
    ensures
        spec_world_segments(xs, ys, y_min, y_max).flatten() == spec_valid_values(
            xs,
            ys,
            y_min,
            y_max,
            xs.len() as int,
        ),
{
    broadcast use Seq::lemma_flatten_push;

    lemma_segment_state_flattens(xs, ys, y_min, y_max, xs.len() as int);
    let st = spec_segment_state(xs, ys, y_min, y_max, xs.len() as int);
    if st.1.len() > 0 {
        assert(st.0.push(st.1).flatten() =~= st.0.flatten() + st.1);
    } else {
        assert(st.0.flatten() =~= st.0.flatten() + st.1);
    }
}

} // verus!
