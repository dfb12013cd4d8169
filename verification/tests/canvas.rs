use chatlog::canvas::{
    plan_canvas, widest_line, CanvasPlan, LinePlacement, TextExtent, GLYPH_HEIGHT, GLYPH_WIDTH,
    HORIZONTAL_MARGIN, LINE_GAP, TEXT_COLOR, TEXT_LEFT, VERTICAL_MARGIN,
};
use chatlog::error::RenderError;

fn extent(width: u32, height: u32) -> TextExtent {
    TextExtent { width, height }
}

#[test]
fn canvas_is_as_wide_as_the_long_line_and_the_margin() {
    let extents = [extent(120, 30), extent(2400, 32), extent(80, 28), extent(95, 30)];
    let plan = plan_canvas(&extents).unwrap();
    assert_eq!(plan.width, 2400 + 8);
    assert_eq!(plan.width, 2400 + HORIZONTAL_MARGIN);
}

#[test]
fn canvas_height_is_one_pitch_per_line_and_the_margin() {
    let extents = [extent(100, 30), extent(300, 32), extent(50, 28)];
    let plan = plan_canvas(&extents).unwrap();
    assert_eq!(plan.height, (32 + 4) * 3 + 4);
    assert_eq!(plan.height, 112);
    assert_eq!(plan.height, (32 + LINE_GAP) * 3 + VERTICAL_MARGIN);
}

#[test]
fn lines_are_placed_from_the_top_one_pitch_apart() {
    let extents = [extent(100, 30), extent(300, 32), extent(50, 28)];
    let plan = plan_canvas(&extents).unwrap();
    assert_eq!(
        plan,
        CanvasPlan {
            width: 308,
            height: 112,
            lines: vec![
                LinePlacement { x: 4, y: 0 },
                LinePlacement { x: 4, y: 36 },
                LinePlacement { x: 4, y: 72 },
            ],
        }
    );
    assert!(plan.lines.iter().all(|line| line.x == TEXT_LEFT));
}

#[test]
fn a_single_line_gets_a_canvas_of_its_own_size_and_the_margins() {
    let plan = plan_canvas(&[extent(640, 40)]).unwrap();
    assert_eq!(plan.width, 648);
    assert_eq!(plan.height, 48);
    assert_eq!(plan.lines, vec![LinePlacement { x: 4, y: 0 }]);
}

#[test]
fn the_first_of_equally_wide_lines_sets_the_pitch() {
    let extents = [extent(10, 5), extent(70, 20), extent(70, 50), extent(3, 99)];
    assert_eq!(widest_line(&extents), 1);
    let plan = plan_canvas(&extents).unwrap();
    assert_eq!(plan.width, 78);
    assert_eq!(plan.height, 24 * 4 + 4);
    assert_eq!(plan.lines[3], LinePlacement { x: 4, y: 72 });
}

#[test]
fn widest_line_is_found_wherever_it_stands() {
    assert_eq!(widest_line(&[extent(9, 1)]), 0);
    assert_eq!(widest_line(&[extent(9, 1), extent(8, 1), extent(7, 1)]), 0);
    assert_eq!(widest_line(&[extent(7, 1), extent(8, 1), extent(9, 1)]), 2);
    assert_eq!(widest_line(&[extent(0, 0), extent(0, 0)]), 0);
    assert_eq!(widest_line(&[]), 0);
}

#[test]
fn no_lines_is_an_empty_selection() {
    assert_eq!(plan_canvas(&[]), Err(RenderError::EmptySelection));
}

#[test]
fn a_canvas_wider_than_u32_is_refused() {
    assert_eq!(plan_canvas(&[extent(u32::MAX - 7, 10)]), Err(RenderError::CanvasTooLarge));
    assert_eq!(plan_canvas(&[extent(u32::MAX, 10)]), Err(RenderError::CanvasTooLarge));
    let plan = plan_canvas(&[extent(u32::MAX - 8, 10)]).unwrap();
    assert_eq!(plan.width, u32::MAX);
}

#[test]
fn a_canvas_higher_than_u32_is_refused() {
    assert_eq!(plan_canvas(&[extent(10, u32::MAX - 7)]), Err(RenderError::CanvasTooLarge));
    assert_eq!(plan_canvas(&[extent(10, u32::MAX)]), Err(RenderError::CanvasTooLarge));
    let plan = plan_canvas(&[extent(10, u32::MAX - 8)]).unwrap();
    assert_eq!(plan.height, u32::MAX);
    let tall = [extent(10, 0x7fff_fffc), extent(5, 1)];
    assert_eq!(plan_canvas(&tall), Err(RenderError::CanvasTooLarge));
    let fits = [extent(10, 0x7fff_fff9), extent(5, 1)];
    let plan = plan_canvas(&fits).unwrap();
    assert_eq!(plan.height, 0xffff_fffe);
    assert_eq!(plan.lines[1].y, 0x7fff_fffd);
}

#[test]
fn the_scale_and_the_color_are_fixed() {
    assert_eq!(GLYPH_HEIGHT, 40);
    assert_eq!(GLYPH_WIDTH, 2 * GLYPH_HEIGHT);
    assert_eq!(TEXT_COLOR, [254, 254, 254]);
}
