//! Axis tick planning: screen positions of the fixed set of marks, the
//! world value each mark stands for, the formatted label text, and the
//! anchor flip that keeps labels inside the canvas.
//!
//! Label values are in ten-thousandths of a world unit, so every mark
//! value — an integer times a scale in hundredths — is exact.

use vstd::prelude::*;
use vstd::math::abs;
use vstd::string::StringExecFns;
use crate::num::{div_trunc, rem_trunc, round_to_multiple, exec_rem_trunc,
    exec_round_to_multiple, exec_clamp, spec_clamp, lemma_mul_bounds_abs};
use crate::viewport::{Viewport, CanvasRect, COORD_LIMIT};
use crate::num::exec_div_floor;

verus! {

/// Number of tick marks planned per axis.
pub const MARK_COUNT: usize = 21;

/// Screen distance between two marks, in thousandths of a pixel.
pub const MARK_SPACING: i64 = 25000;

/// Index shift that centers the marks on the canvas: marks are counted
/// from ten spacings left of (and above) the center.
pub const AXIS_INDEX_OFFSET: i64 = -10;

/// The decimal digit character for `d`.
pub open spec fn spec_digit_char(d: int) -> char {
    if d == 0 {
        '0'
    } else if d == 1 {
        '1'
    } else if d == 2 {
        '2'
    } else if d == 3 {
        '3'
    } else if d == 4 {
        '4'
    } else if d == 5 {
        '5'
    } else if d == 6 {
        '6'
    } else if d == 7 {
        '7'
    } else if d == 8 {
        '8'
    } else {
        '9'
    }
}

/// The decimal digits of `n`, most significant first, without sign and
/// without leading zeros (a single zero for `n == 0`).
pub open spec fn spec_nat_digits(n: nat) -> Seq<char>
    decreases n,
{
    if n < 10 {
        seq![spec_digit_char(n as int)]
    } else {
        spec_nat_digits(n / 10) + seq![spec_digit_char((n % 10) as int)]
    }
}

/// The lowest `k` decimal digits of `x`, zero padded to exactly `k`
/// characters.
pub open spec fn spec_padded_digits(x: nat, k: nat) -> Seq<char>
    decreases k,
{
    if k == 0 {
        Seq::empty()
    } else {
        spec_padded_digits(x / 10, (k - 1) as nat) + seq![spec_digit_char((x % 10) as int)]
    }
}

/// A leading minus sign for a negative value, nothing otherwise.
pub open spec fn spec_sign(v: int) -> Seq<char> {
    if v < 0 {
        seq!['-']
    } else {
        Seq::empty()
    }
}

/// Appends one decimal digit character.
fn push_digit(s: &mut String, d: u64)
    requires
        d < 10,
    ensures
        final(s)@ == old(s)@ + seq![spec_digit_char(d as int)],
{
    proof {
        reveal_strlit("0");
        reveal_strlit("1");
        reveal_strlit("2");
        reveal_strlit("3");
        reveal_strlit("4");
        reveal_strlit("5");
        reveal_strlit("6");
        reveal_strlit("7");
        reveal_strlit("8");
        reveal_strlit("9");
    }
    match d {
        0 => s.append("0"),
        1 => s.append("1"),
        2 => s.append("2"),
        3 => s.append("3"),
        4 => s.append("4"),
        5 => s.append("5"),
        6 => s.append("6"),
        7 => s.append("7"),
        8 => s.append("8"),
        _ => s.append("9"),
    }
    proof {
        assert(s@ =~= old(s)@ + seq![spec_digit_char(d as int)]);
    }
}

/// Appends the decimal digits of `n`, most significant first.
fn push_nat_digits(s: &mut String, n: u64)
    ensures
        final(s)@ == old(s)@ + spec_nat_digits(n as nat),
    decreases n,
{
    if n < 10 {
        push_digit(s, n);
    } else {
        push_nat_digits(s, n / 10);
        push_digit(s, n % 10);
        proof {
            assert(s@ =~= old(s)@ + spec_nat_digits(n as nat));
        }
    }
}

/// Appends the lowest `k` decimal digits of `x`, zero padded.
fn push_padded_digits(s: &mut String, x: u64, k: u64)
    ensures
        final(s)@ == old(s)@ + spec_padded_digits(x as nat, k as nat),
    decreases k,
{
    if k > 0 {
        push_padded_digits(s, x / 10, k - 1);
        push_digit(s, x % 10);
        proof {
            assert(s@ =~= old(s)@ + spec_padded_digits(x as nat, k as nat));
        }
    } else {
        proof {
            assert(s@ =~= old(s)@ + spec_padded_digits(x as nat, 0));
        }
    }
}

/// The signed decimal text of an integer.
pub open spec fn spec_int_string(w: int) -> Seq<char> {
    if w < 0 {
        seq!['-'] + spec_nat_digits((-w) as nat)
    } else {
        spec_nat_digits(w as nat)
    }
}

/// Bound on the values the label formatter accepts, in ten-thousandths.
pub const MARK_VALUE_LIMIT: i64 = 10_000_000_000_000_000;

/// The label text for a mark value `v` in ten-thousandths of a world
/// unit, by the first rule that applies:
/// integral values with no decimals; magnitudes under 0.01 with four
/// decimals; magnitudes under 100 with one decimal; anything else with
/// no decimals. Rounding to a decimal place sends halves away from zero,
/// and a negative value keeps its sign even when the shown digits are
/// all zero.
pub open spec fn spec_format_mark_value(v: int) -> Seq<char> {
    let a = abs(v);
    if a % 10000 == 0 {
        spec_int_string(div_trunc(v, 10000))
    } else if a < 100 {
        spec_sign(v) + spec_nat_digits(0) + seq!['.'] + spec_padded_digits(a as nat, 4)
    } else if a < 1000000 {
        let ar = abs(round_to_multiple(v, 1000));
        spec_sign(v) + spec_nat_digits((ar / 10000) as nat) + seq!['.'] + spec_padded_digits(
            ((ar % 10000) / 1000) as nat,
            1,
        )
    } else {
        let ar = abs(round_to_multiple(v, 10000));
        spec_sign(v) + spec_nat_digits((ar / 10000) as nat)
    }
}

/// Formats a mark value, in ten-thousandths of a world unit, as its
/// label text.
pub fn format_mark_value(v: i64) -> (r: String)
    requires
        -MARK_VALUE_LIMIT <= v <= MARK_VALUE_LIMIT,
    ensures
        r@ == spec_format_mark_value(v as int),
{
    let mut s = String::new();
    let a: i64 = if v < 0 {
        -v
    } else {
        v
    };
    proof {
        reveal_strlit("-");
        reveal_strlit(".");
        assert("-"@ =~= seq!['-']);
        assert("."@ =~= seq!['.']);
    }
    if a % 10000 == 0 {
        let ip: i64 = a / 10000;
        if v < 0 {
            s.append("-");
        }
        push_nat_digits(&mut s, ip as u64);
        proof {
            assert(s@ =~= spec_format_mark_value(v as int));
        }
    } else if a < 100 {
        if v < 0 {
            s.append("-");
        }
        push_nat_digits(&mut s, 0);
        s.append(".");
        push_padded_digits(&mut s, a as u64, 4);
        proof {
            assert(s@ =~= spec_format_mark_value(v as int));
        }
    } else if a < 1000000 {
        let r: i64 = exec_round_to_multiple(v, 1000);
        let ar: i64 = if r < 0 {
            -r
        } else {
            r
        };
        if v < 0 {
            s.append("-");
        }
        push_nat_digits(&mut s, (ar / 10000) as u64);
        s.append(".");
        push_padded_digits(&mut s, ((ar % 10000) / 1000) as u64, 1);
        proof {
            assert(s@ =~= spec_format_mark_value(v as int));
        }
    } else {
        let r: i64 = exec_round_to_multiple(v, 10000);
        let ar: i64 = if r < 0 {
            -r
        } else {
            r
        };
        if v < 0 {
            s.append("-");
        }
        push_nat_digits(&mut s, (ar / 10000) as u64);
        proof {
            assert(s@ =~= spec_format_mark_value(v as int));
        }
    }
    s
}

} // verus!

verus! {

/// Distance between an axis line and its labels, in thousandths of a
/// pixel.
pub const LABEL_INDENT: i64 = 10000;

/// The logical axis a mark belongs to.
#[derive(Clone, Copy, PartialEq, Eq, Structural, Debug)]
pub enum AxisKind {
    Horizontal,
    Vertical,
}

/// Which side of its screen position a label's box hangs from.
#[derive(Clone, Copy, PartialEq, Eq, Structural, Debug)]
pub enum LabelAnchor {
    CenterTop,
    CenterBottom,
    RightCenter,
    LeftCenter,
}

/// One planned tick mark: its screen coordinate along the axis, the
/// world value it stands for in ten-thousandths, and its label text —
/// absent at the origin, where the label would collide with the other
/// axis.
#[derive(Clone, Debug)]
pub struct TickMark {
    pub axis: AxisKind,
    pub screen_along: i64,
    pub value: i64,
    pub label: Option<String>,
}

/// Screen y of the horizontal axis line: the canvas center shifted by
/// the pan, kept on the canvas.
pub open spec fn spec_x_axis_screen_y(vp: Viewport, canvas: CanvasRect) -> int {
    spec_clamp(canvas.spec_center_y() + vp.offset.y, canvas.top as int, canvas.bottom as int)
}

/// Screen x of the vertical axis line: the canvas center shifted by the
/// pan, kept on the canvas.
pub open spec fn spec_y_axis_screen_x(vp: Viewport, canvas: CanvasRect) -> int {
    spec_clamp(canvas.spec_center_x() + vp.offset.x, canvas.left as int, canvas.right as int)
}

/// Computes the screen y of the horizontal axis line.
pub fn x_axis_screen_y(vp: &Viewport, canvas: &CanvasRect) -> (r: i64)
    requires
        vp.wf(),
        canvas.wf(),
    ensures
        r == spec_x_axis_screen_y(*vp, *canvas),
        canvas.top <= r <= canvas.bottom,
{
    let cy: i64 = canvas.center_y();
    exec_clamp(cy + vp.offset.y, canvas.top, canvas.bottom)
}

/// Computes the screen x of the vertical axis line.
pub fn y_axis_screen_x(vp: &Viewport, canvas: &CanvasRect) -> (r: i64)
    requires
        vp.wf(),
        canvas.wf(),
    ensures
        r == spec_y_axis_screen_x(*vp, *canvas),
        canvas.left <= r <= canvas.right,
{
    let cx: i64 = canvas.center_x();
    exec_clamp(cx + vp.offset.x, canvas.left, canvas.right)
}

/// Screen coordinate of mark `i` along its axis: the canvas edge, plus
/// the pan's remainder within one spacing, plus `i` spacings.
pub open spec fn spec_mark_screen_along(vp: Viewport, canvas: CanvasRect, axis: AxisKind, i: int) -> int {
    match axis {
        AxisKind::Horizontal => canvas.left + rem_trunc(vp.offset.x as int, MARK_SPACING as int) + i
            * MARK_SPACING,
        AxisKind::Vertical => canvas.top + rem_trunc(vp.offset.y as int, MARK_SPACING as int) + i
            * MARK_SPACING,
    }
}

/// World value of mark `i`, in ten-thousandths of a world unit: the
/// mark's whole-spacing index, shifted to center the marks and by the
/// whole spacings of pan, times the scale; negated on the vertical axis,
/// where screen down is world down.
pub open spec fn spec_mark_value(vp: Viewport, axis: AxisKind, i: int) -> int {
    match axis {
        AxisKind::Horizontal => (AXIS_INDEX_OFFSET + i - vp.offset.x as int / MARK_SPACING as int)
            * vp.scale * 100,
        AxisKind::Vertical => -((AXIS_INDEX_OFFSET + i - vp.offset.y as int / MARK_SPACING as int)
            * vp.scale * 100),
    }
}

/// A planned mark's label is its formatted value, absent exactly at
/// value zero.
pub open spec fn spec_label_ok(m: TickMark) -> bool {
    match m.label {
        Option::None => m.value == 0,
        Option::Some(s) => m.value != 0 && s@ == spec_format_mark_value(m.value as int),
    }
}

/// Plans the marks of one axis for the current view.
pub fn plan_axis_marks(vp: &Viewport, canvas: &CanvasRect, axis: AxisKind) -> (r: Vec<TickMark>)
    requires
        vp.wf(),
        canvas.wf(),
    ensures
        r@.len() == MARK_COUNT,
        forall|i: int|
            0 <= i < MARK_COUNT ==> {
                &&& (#[trigger] r@[i]).axis == axis
                &&& r@[i].screen_along == spec_mark_screen_along(*vp, *canvas, axis, i)
                &&& r@[i].value == spec_mark_value(*vp, axis, i)
                &&& spec_label_ok(r@[i])
            },
{
    let off: i64 = match axis {
        AxisKind::Horizontal => vp.offset.x,
        AxisKind::Vertical => vp.offset.y,
    };
    let edge: i64 = match axis {
        AxisKind::Horizontal => canvas.left,
        AxisKind::Vertical => canvas.top,
    };
    let base: i64 = edge + exec_rem_trunc(off, MARK_SPACING);
    let whole: i64 = exec_div_floor(off, MARK_SPACING);
    proof {
        vstd::arithmetic::div_mod::lemma_div_is_ordered(
            -COORD_LIMIT as int,
            off as int,
            MARK_SPACING as int,
        );
        vstd::arithmetic::div_mod::lemma_div_is_ordered(
            off as int,
            COORD_LIMIT as int,
            MARK_SPACING as int,
        );
        crate::num::lemma_fundamental_div_rem_trunc(off as int, MARK_SPACING as int);
    }
    let mut marks: Vec<TickMark> = Vec::new();
    let mut i: usize = 0;
    while i < MARK_COUNT
        invariant
            vp.wf(),
            canvas.wf(),
            0 <= i <= MARK_COUNT,
            marks@.len() == i,
            -COORD_LIMIT - MARK_SPACING <= base <= COORD_LIMIT + MARK_SPACING,
            -41_000_000 <= whole <= 41_000_000,
            base == (match axis {
                AxisKind::Horizontal => canvas.left + rem_trunc(
                    vp.offset.x as int,
                    MARK_SPACING as int,
                ),
                AxisKind::Vertical => canvas.top + rem_trunc(
                    vp.offset.y as int,
                    MARK_SPACING as int,
                ),
            }),
            whole == (match axis {
                AxisKind::Horizontal => vp.offset.x as int / MARK_SPACING as int,
                AxisKind::Vertical => vp.offset.y as int / MARK_SPACING as int,
            }),
            forall|j: int|
                0 <= j < i ==> {
                    &&& (#[trigger] marks@[j]).axis == axis
                    &&& marks@[j].screen_along == spec_mark_screen_along(*vp, *canvas, axis, j)
                    &&& marks@[j].value == spec_mark_value(*vp, axis, j)
                    &&& spec_label_ok(marks@[j])
                },
        decreases MARK_COUNT - i,
    {
        let n: i64 = AXIS_INDEX_OFFSET + (i as i64) - whole;
        proof {
            lemma_mul_bounds_abs(n as int, vp.scale as int, 50_000_000, 1000);
        }
        let scaled: i64 = n * vp.scale;
        let value: i64 = match axis {
            AxisKind::Horizontal => scaled * 100,
            AxisKind::Vertical => -(scaled * 100),
        };
        let label: Option<String> = if value != 0 {
            Some(format_mark_value(value))
        } else {
            None
        };
        let along: i64 = base + (i as i64) * MARK_SPACING;
        marks.push(TickMark { axis, screen_along: along, value, label });
        i = i + 1;
    }
    marks
}

/// Vertical placement of an x-axis label of the given rendered height:
/// below the axis line, flipped above it when the label's bottom edge
/// would leave the canvas.
pub fn x_label_placement(axis_y: i64, text_h: i64, canvas: &CanvasRect) -> (r: (i64, LabelAnchor))
    requires
        canvas.wf(),
        -COORD_LIMIT <= axis_y <= COORD_LIMIT,
        0 <= text_h <= COORD_LIMIT,
    ensures
        axis_y + LABEL_INDENT + text_h < canvas.bottom ==> r == (
            (axis_y + LABEL_INDENT) as i64,
            LabelAnchor::CenterTop,
        ),
        axis_y + LABEL_INDENT + text_h >= canvas.bottom ==> r == (
            (axis_y - LABEL_INDENT) as i64,
            LabelAnchor::CenterBottom,
        ),
{
    if axis_y + LABEL_INDENT + text_h < canvas.bottom {
        (axis_y + LABEL_INDENT, LabelAnchor::CenterTop)
    } else {
        (axis_y - LABEL_INDENT, LabelAnchor::CenterBottom)
    }
}

/// Horizontal placement of a y-axis label of the given rendered width:
/// left of the axis line, flipped to its right when the label's left
/// edge would leave the canvas.
pub fn y_label_placement(axis_x: i64, text_w: i64, canvas: &CanvasRect) -> (r: (i64, LabelAnchor))
    requires
        canvas.wf(),
        -COORD_LIMIT <= axis_x <= COORD_LIMIT,
        0 <= text_w <= COORD_LIMIT,
    ensures
        axis_x - LABEL_INDENT - text_w > canvas.left ==> r == (
            (axis_x - LABEL_INDENT) as i64,
            LabelAnchor::RightCenter,
        ),
        axis_x - LABEL_INDENT - text_w <= canvas.left ==> r == (
            (axis_x + LABEL_INDENT) as i64,
            LabelAnchor::LeftCenter,
        ),
{
    if axis_x - LABEL_INDENT - text_w > canvas.left {
        (axis_x - LABEL_INDENT, LabelAnchor::RightCenter)
    } else {
        (axis_x + LABEL_INDENT, LabelAnchor::LeftCenter)
    }
}

} // verus!
