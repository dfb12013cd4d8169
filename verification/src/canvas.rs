//! The layout of the image: how large the canvas is and where each line of
//! text starts.
//!
//! The caller measures each line with the font and the scale it will draw
//! with, hands the extents over, and draws each line at the place planned for
//! it.

use crate::error::RenderError;
use vstd::prelude::*;

verus! {

/// Width of a glyph cell in pixels: the horizontal scale of the font.
pub const GLYPH_WIDTH: u32 = 80;

/// Height of a glyph cell in pixels: the vertical scale of the font.
pub const GLYPH_HEIGHT: u32 = 40;

/// Red, green and blue of the text.
pub const TEXT_COLOR: [u8; 3] = [254, 254, 254];

/// Pixels that the canvas is wider than its widest line.
pub const HORIZONTAL_MARGIN: u32 = 8;

/// Pixels between the left edge of the canvas and the text.
pub const TEXT_LEFT: u32 = 4;

/// Pixels between one line of text and the next.
pub const LINE_GAP: u32 = 4;

/// Pixels that the canvas is higher than its lines with their gaps.
pub const VERTICAL_MARGIN: u32 = 4;

/// The measured size of one line of text, in pixels.
#[derive(Clone, Copy, Debug, PartialEq, Eq, Structural)]
pub struct TextExtent {
    pub width: u32,
    pub height: u32,
}

/// Where a line of text starts on the canvas: its top left corner.
#[derive(Clone, Copy, Debug, PartialEq, Eq, Structural)]
pub struct LinePlacement {
    pub x: u32,
    pub y: u32,
}

/// The size of the canvas and the place of each line on it.
#[derive(Debug, PartialEq, Eq)]
pub struct CanvasPlan {
    pub width: u32,
    pub height: u32,
    pub lines: Vec<LinePlacement>,
}

/// Index of the widest line; of the first of them where several are as wide.
pub open spec fn widest(extents: Seq<TextExtent>) -> int
    decreases extents.len(),
{
    if extents.len() <= 1 {
        0
    } else {
        let before = widest(extents.drop_last());
        if extents.last().width > extents[before].width {
            extents.len() - 1
        } else {
            before
        }
    }
}

/// Width of the canvas: the width of the widest line and the margin.
pub open spec fn canvas_width(extents: Seq<TextExtent>) -> int {
    extents[widest(extents)].width + HORIZONTAL_MARGIN
}

/// Distance from the top of one line to the top of the next: the height of
/// the widest line and the gap.
pub open spec fn line_pitch(extents: Seq<TextExtent>) -> int {
    extents[widest(extents)].height + LINE_GAP
}

/// Height of the canvas: one pitch per line and the margin.
pub open spec fn canvas_height(extents: Seq<TextExtent>) -> int {
    line_pitch(extents) * extents.len() + VERTICAL_MARGIN
}

/// Distance from the top of the canvas to the top of line `i`: one pitch per
/// line above it.
pub open spec fn line_top(extents: Seq<TextExtent>, i: int) -> int {
    i * line_pitch(extents)
}

/// Why no canvas can be planned, if none can.
pub open spec fn canvas_fault(extents: Seq<TextExtent>) -> Option<RenderError> {
    if extents.len() == 0 {
        Some(RenderError::EmptySelection)
    } else if canvas_width(extents) > u32::MAX || canvas_height(extents) > u32::MAX {
        Some(RenderError::CanvasTooLarge)
    } else {
        None
    }
}

/// The widest line is a line, no line is wider, and no earlier line is as
/// wide.
pub proof fn lemma_widest(extents: Seq<TextExtent>)
    requires
        extents.len() > 0,
    ensures
        0 <= widest(extents) < extents.len(),
        forall|i: int|
            0 <= i < extents.len() ==> (#[trigger] extents[i]).width <= extents[widest(
                extents,
            )].width,
        forall|i: int|
            0 <= i < widest(extents) ==> (#[trigger] extents[i]).width < extents[widest(
                extents,
            )].width,
    decreases extents.len(),
{
    if extents.len() > 1 {
        let shorter = extents.drop_last();
        lemma_widest(shorter);
        assert forall|i: int| 0 <= i < extents.len() implies (#[trigger] extents[i]).width
            <= extents[widest(extents)].width by {
            if i < shorter.len() {
                assert(extents[i] == shorter[i]);
            }
        }
        assert forall|i: int| 0 <= i < widest(extents) implies (#[trigger] extents[i]).width
            < extents[widest(extents)].width by {
            assert(extents[i] == shorter[i]);
        }
    }
}

/// The canvas is as wide as its widest line and the margin: no line with the
/// margin is wider than the canvas, and one line with the margin is exactly
/// as wide.
pub proof fn lemma_canvas_fits_every_line(extents: Seq<TextExtent>)
    requires
        extents.len() > 0,
    ensures
        forall|i: int|
            0 <= i < extents.len() ==> (#[trigger] extents[i]).width + HORIZONTAL_MARGIN
                <= canvas_width(extents),
        exists|i: int|
            0 <= i < extents.len() && (#[trigger] extents[i]).width + HORIZONTAL_MARGIN
                == canvas_width(extents),
{
    lemma_widest(extents);
    assert(extents[widest(extents)].width + HORIZONTAL_MARGIN == canvas_width(extents));
}

/// Index of the widest of `extents`, the first of them where several are as
/// wide; 0 where there is none.
pub fn widest_line(extents: &[TextExtent]) -> (index: usize)
    ensures
        index == widest(extents@),
        extents@.len() > 0 ==> index < extents@.len(),
{
    if extents.len() == 0 {
        return 0;
    }
    let mut index: usize = 0;
    let mut i: usize = 1;
    assert(extents@.take(1).drop_last() == extents@.take(0));
    while i < extents.len()
        invariant
            1 <= i <= extents@.len(),
            index == widest(extents@.take(i as int)),
            index < i,
        decreases extents@.len() - i,
    {
        proof {
            assert(extents@.take(i + 1).drop_last() == extents@.take(i as int));
        }
        if extents[i].width > extents[index].width {
            index = i;
        }
        i += 1;
    }
    assert(extents@.take(i as int) == extents@);
    index
}

/// Plans the canvas for lines of the given extents, in order from the top.
/// Refuses an empty list, and a canvas whose width or height does not fit a
/// `u32`.
pub fn plan_canvas(extents: &[TextExtent]) -> (planned: Result<CanvasPlan, RenderError>)
    ensures
        match planned {
            Ok(plan) => {
                &&& canvas_fault(extents@) is None
                &&& plan.width == canvas_width(extents@)
                &&& plan.height == canvas_height(extents@)
                &&& plan.lines@.len() == extents@.len()
                &&& forall|i: int|
                    0 <= i < extents@.len() ==> (#[trigger] plan.lines@[i]).x == TEXT_LEFT
                        && plan.lines@[i].y == line_top(extents@, i)
            },
            Err(e) => canvas_fault(extents@) == Some(e),
        },
{
    let count = extents.len();
    if count == 0 {
        return Err(RenderError::EmptySelection);
    }
    let at = widest_line(extents);
    let width: u64 = extents[at].width as u64 + HORIZONTAL_MARGIN as u64;
    let pitch: u64 = extents[at].height as u64 + LINE_GAP as u64;
    assert(pitch as u128 * count as u128 <= 0x1_0000_0004u128 * 0x1_0000_0000_0000_0000u128)
        by (nonlinear_arith)
        requires
            pitch <= 0x1_0000_0004u64,
            count <= 0x1_0000_0000_0000_0000u128,
    ;
    let height: u128 = pitch as u128 * count as u128 + VERTICAL_MARGIN as u128;
    if width > u32::MAX as u64 || height > u32::MAX as u128 {
        return Err(RenderError::CanvasTooLarge);
    }
    let mut lines: Vec<LinePlacement> = Vec::new();
    let mut i: usize = 0;
    while i < count
        invariant
            count == extents@.len(),
            pitch == line_pitch(extents@),
            pitch * count + VERTICAL_MARGIN <= u32::MAX,
            0 <= i <= count,
            lines@.len() == i,
            forall|k: int|
                0 <= k < i ==> (#[trigger] lines@[k]).x == TEXT_LEFT && lines@[k].y == line_top(
                    extents@,
                    k,
                ),
        decreases count - i,
    {
        assert(0 <= i * pitch <= pitch * count) by (nonlinear_arith)
            requires
                0 <= i < count,
                0 <= pitch,
        ;
        let y: u64 = i as u64 * pitch;
        lines.push(LinePlacement { x: TEXT_LEFT, y: y as u32 });
        i += 1;
    }
    Ok(CanvasPlan { width: width as u32, height: height as u32, lines })
}

} // verus!
