use resume_tui::frame::{centered_panel, frame_chunks, skills_plan};
use resume_tui::gauge::{clamp_percent, gauge_filled};
use resume_tui::layout::{split, Direction, Rect, Size};

fn rect(x: u16, y: u16, width: u16, height: u16) -> Rect {
    Rect { x, y, width, height }
}

#[test]
fn percent_halves_of_eleven_cover_it_exactly() {
    let sizes = vec![Size::Percent(50), Size::Percent(50)];
    let r = split(rect(0, 0, 11, 5), Direction::Horizontal, &sizes, 0);
    assert_eq!(r.len(), 2);
    assert_eq!(r[0], rect(0, 0, 6, 5));
    assert_eq!(r[1], rect(6, 0, 5, 5));
    assert_eq!(r[0].width + r[1].width, 11);
}

#[test]
fn split_is_deterministic() {
    let area = rect(3, 7, 113, 41);
    let sizes = vec![
        Size::Fixed(9),
        Size::Percent(37),
        Size::Min(4),
        Size::Percent(21),
    ];
    let a = split(area, Direction::Vertical, &sizes, 2);
    let b = split(area, Direction::Vertical, &sizes, 2);
    assert_eq!(a, b);
}

#[test]
fn fixed_underspecified_split_is_contiguous_and_within() {
    let sizes = vec![Size::Fixed(3), Size::Fixed(5)];
    let r = split(rect(0, 0, 20, 5), Direction::Horizontal, &sizes, 0);
    assert_eq!(r[0], rect(0, 0, 3, 5));
    assert_eq!(r[1], rect(3, 0, 5, 5));
    assert!(r[0].width + r[1].width <= 20);
}

#[test]
fn min_absorbs_the_leftover() {
    let sizes = vec![Size::Fixed(3), Size::Min(2)];
    let r = split(rect(0, 0, 20, 5), Direction::Horizontal, &sizes, 0);
    assert_eq!(r[0], rect(0, 0, 3, 5));
    assert_eq!(r[1], rect(3, 0, 17, 5));
    assert_eq!(r[0].width + r[1].width, 20);
}

#[test]
fn earlier_min_keeps_its_floor_last_min_wins() {
    let sizes = vec![Size::Min(1), Size::Min(2)];
    let r = split(rect(0, 0, 10, 1), Direction::Horizontal, &sizes, 0);
    assert_eq!(r[0].width, 1);
    assert_eq!(r[1].width, 9);
}

#[test]
fn overflowing_constraints_are_clipped_never_fail() {
    let sizes = vec![Size::Fixed(8), Size::Fixed(8)];
    let r = split(rect(0, 0, 10, 1), Direction::Horizontal, &sizes, 0);
    assert_eq!(r[0].width, 8);
    assert_eq!(r[1].width, 2);
}

#[test]
fn percent_over_hundred_takes_the_whole_length() {
    let sizes = vec![Size::Percent(200), Size::Fixed(4)];
    let r = split(rect(0, 0, 10, 2), Direction::Horizontal, &sizes, 0);
    assert_eq!(r[0].width, 10);
    assert_eq!(r[1].width, 0);
}

#[test]
fn zero_area_yields_degenerate_rectangles() {
    let sizes = vec![Size::Fixed(2), Size::Percent(50)];
    let r = split(rect(5, 5, 0, 0), Direction::Horizontal, &sizes, 3);
    assert_eq!(r.len(), 2);
    assert_eq!(r[0].width, 0);
    assert_eq!(r[1].width, 0);
}

#[test]
fn margin_insets_all_four_sides() {
    let sizes = vec![Size::Percent(99)];
    let r = split(rect(0, 0, 10, 10), Direction::Vertical, &sizes, 1);
    assert_eq!(r[0], rect(1, 1, 8, 8));
}

#[test]
fn margin_larger_than_area_clamps_to_zero() {
    let sizes = vec![Size::Min(0)];
    let r = split(rect(0, 0, 4, 4), Direction::Vertical, &sizes, 9);
    assert_eq!(r[0].width, 0);
    assert_eq!(r[0].height, 0);
    // An odd extent keeps its single middle cell.
    let r = split(rect(0, 0, 4, 3), Direction::Vertical, &sizes, 9);
    assert_eq!(r[0].width, 0);
    assert_eq!(r[0].height, 1);
}

#[test]
fn nested_split_works_on_returned_rectangles() {
    let outer = split(
        rect(0, 0, 80, 24),
        Direction::Vertical,
        &vec![Size::Fixed(3), Size::Min(0)],
        0,
    );
    let inner = split(
        outer[1],
        Direction::Horizontal,
        &vec![Size::Percent(50), Size::Percent(50)],
        0,
    );
    assert_eq!(outer[1], rect(0, 3, 80, 21));
    assert_eq!(inner[0], rect(0, 3, 40, 21));
    assert_eq!(inner[1], rect(40, 3, 40, 21));
}

#[test]
fn frame_has_three_cell_tab_bar_and_body() {
    let r = frame_chunks(rect(0, 0, 80, 24));
    assert_eq!(r[0], rect(0, 0, 80, 3));
    assert_eq!(r[1], rect(0, 3, 80, 21));
}

#[test]
fn centered_panel_sits_in_the_middle() {
    let r = centered_panel(rect(0, 3, 80, 21));
    assert_eq!(r, rect(8, 5, 64, 17));
}

#[test]
fn skills_plan_has_all_panels() {
    let plan = skills_plan(rect(0, 3, 120, 40));
    assert_eq!(plan.gauge_rows.len(), 7);
    assert_eq!(plan.list_cols.len(), 10);
    assert_eq!(plan.languages_box.y, 3);
    assert!(plan.others_box.y > plan.languages_box.y);
}

#[test]
fn gauge_percent_clamps_at_both_ends() {
    assert_eq!(clamp_percent(150), clamp_percent(100));
    assert_eq!(clamp_percent(150), 100);
    assert_eq!(clamp_percent(-10), clamp_percent(0));
    assert_eq!(clamp_percent(-10), 0);
    assert_eq!(clamp_percent(70), 70);
}

#[test]
fn gauge_fill_is_the_floored_proportion() {
    assert_eq!(gauge_filled(10, 70), 7);
    assert_eq!(gauge_filled(11, 50), 5);
    assert_eq!(gauge_filled(33, 100), 33);
    assert_eq!(gauge_filled(33, 0), 0);
}
