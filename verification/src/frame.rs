//! Per-frame layout plans: the rectangle tree each section of the
//! screen is painted into.
//!
//! Every frame is recomputed from the current terminal size: a
//! three-cell tab bar across the top, and below it the body of the
//! selected tab, itself split into panels.  These functions only
//! compute rectangles; painting happens outside the library.

use crate::layout::{split, split_spec, Direction, Rect, Size};
use vstd::prelude::*;

verus! {

/// Rows of the top-level frame: the tab bar and the body.
pub open spec fn frame_sizes() -> Seq<Size> {
    seq![Size::Fixed(3), Size::Min(0)]
}

/// Rows or columns that centre one large panel: a tenth of margin on
/// each side and eight tenths in the middle.
pub open spec fn centered_sizes() -> Seq<Size> {
    seq![Size::Percent(10), Size::Percent(80), Size::Percent(10)]
}

/// Split the screen into the tab-bar row and the body below it.
pub fn frame_chunks(size: Rect) -> (r: Vec<Rect>)
    requires
        size.wf(),
    ensures
        r@ == split_spec(size, Direction::Vertical, frame_sizes(), 0),
        r@.len() == 2,
        forall|i: int| 0 <= i < r@.len() ==> (#[trigger] r@[i]).wf(),
{
    let sizes: Vec<Size> = vec![Size::Fixed(3), Size::Min(0)];
    proof {
        assert(sizes@ =~= frame_sizes());
    }
    split(size, Direction::Vertical, &sizes, 0)
}

/// The one panel of the home and objective tabs: the centre cell of a
/// 10/80/10 vertical split followed by a 10/80/10 horizontal split.
pub open spec fn centered_panel_spec(area: Rect) -> Rect {
    let rows = split_spec(area, Direction::Vertical, centered_sizes(), 0);
    let cols = split_spec(rows[1], Direction::Horizontal, centered_sizes(), 0);
    cols[1]
}

/// Compute the centred panel of the home and objective tabs.
pub fn centered_panel(area: Rect) -> (r: Rect)
    requires
        area.wf(),
    ensures
        r == centered_panel_spec(area),
        r.wf(),
{
    let sizes: Vec<Size> = vec![
        Size::Percent(10),
        Size::Percent(80),
        Size::Percent(10),
    ];
    proof {
        assert(sizes@ =~= centered_sizes());
    }
    let rows = split(area, Direction::Vertical, &sizes, 0);
    let cols = split(rows[1], Direction::Horizontal, &sizes, 0);
    cols[1]
}

/// Rows of the about tab: information and languages above, contact
/// and a short biography below.
pub open spec fn about_row_sizes() -> Seq<Size> {
    seq![Size::Percent(40), Size::Percent(60)]
}

/// Columns of each about row: two halves.
pub open spec fn half_sizes() -> Seq<Size> {
    seq![Size::Percent(50), Size::Percent(50)]
}

/// The four panels of the about tab, in paint order: information,
/// languages, contact, biography.
pub open spec fn about_panels_spec(area: Rect) -> Seq<Rect> {
    let rows = split_spec(area, Direction::Vertical, about_row_sizes(), 0);
    let top = split_spec(rows[0], Direction::Horizontal, half_sizes(), 0);
    let bottom = split_spec(rows[1], Direction::Horizontal, half_sizes(), 0);
    seq![top[0], top[1], bottom[0], bottom[1]]
}

/// Compute the four panels of the about tab.
pub fn about_panels(area: Rect) -> (r: Vec<Rect>)
    requires
        area.wf(),
    ensures
        r@ == about_panels_spec(area),
        r@.len() == 4,
        forall|i: int| 0 <= i < r@.len() ==> (#[trigger] r@[i]).wf(),
{
    let row_sizes: Vec<Size> = vec![Size::Percent(40), Size::Percent(60)];
    let col_sizes: Vec<Size> = vec![Size::Percent(50), Size::Percent(50)];
    proof {
        assert(row_sizes@ =~= about_row_sizes());
        assert(col_sizes@ =~= half_sizes());
    }
    let rows = split(area, Direction::Vertical, &row_sizes, 0);
    let top = split(rows[0], Direction::Horizontal, &col_sizes, 0);
    let bottom = split(rows[1], Direction::Horizontal, &col_sizes, 0);
    let r: Vec<Rect> = vec![top[0], top[1], bottom[0], bottom[1]];
    proof {
        assert(r@ =~= about_panels_spec(area));
    }
    r
}

/// Rows of the skills tab: programming languages above, everything
/// else below.
pub open spec fn skills_row_sizes() -> Seq<Size> {
    seq![Size::Percent(60), Size::Percent(40)]
}

/// Rows for the language gauges inside the languages box: two cells
/// per gauge.
pub open spec fn gauge_row_sizes() -> Seq<Size> {
    seq![
        Size::Fixed(2),
        Size::Fixed(2),
        Size::Fixed(2),
        Size::Fixed(2),
        Size::Fixed(2),
        Size::Fixed(2),
        Size::Fixed(2),
    ]
}

/// Columns for the skill lists inside the others box, alternating a
/// list with a two-cell gap.
pub open spec fn skill_list_sizes() -> Seq<Size> {
    seq![
        Size::Fixed(15),
        Size::Fixed(2),
        Size::Fixed(24),
        Size::Fixed(2),
        Size::Fixed(25),
        Size::Fixed(2),
        Size::Fixed(15),
        Size::Fixed(2),
        Size::Fixed(16),
        Size::Fixed(2),
    ]
}

/// The rectangles of the skills tab: the two bordered boxes, the
/// gauge rows inset one cell inside the first, and the list columns
/// inset one cell inside the second.
pub struct SkillsPlan {
    pub languages_box: Rect,
    pub others_box: Rect,
    pub gauge_rows: Vec<Rect>,
    pub list_cols: Vec<Rect>,
}

/// Compute the rectangles of the skills tab.
pub fn skills_plan(area: Rect) -> (r: SkillsPlan)
    requires
        area.wf(),
    ensures
        ({
            let rows = split_spec(area, Direction::Vertical, skills_row_sizes(), 0);
            &&& r.languages_box == rows[0]
            &&& r.others_box == rows[1]
            &&& r.gauge_rows@ == split_spec(rows[0], Direction::Vertical, gauge_row_sizes(), 1)
            &&& r.list_cols@ == split_spec(rows[1], Direction::Horizontal, skill_list_sizes(), 1)
            &&& r.gauge_rows@.len() == 7
            &&& r.list_cols@.len() == 10
        }),
{
    let row_sizes: Vec<Size> = vec![Size::Percent(60), Size::Percent(40)];
    let gauge_sizes: Vec<Size> = vec![
        Size::Fixed(2),
        Size::Fixed(2),
        Size::Fixed(2),
        Size::Fixed(2),
        Size::Fixed(2),
        Size::Fixed(2),
        Size::Fixed(2),
    ];
    let list_sizes: Vec<Size> = vec![
        Size::Fixed(15),
        Size::Fixed(2),
        Size::Fixed(24),
        Size::Fixed(2),
        Size::Fixed(25),
        Size::Fixed(2),
        Size::Fixed(15),
        Size::Fixed(2),
        Size::Fixed(16),
        Size::Fixed(2),
    ];
    proof {
        assert(row_sizes@ =~= skills_row_sizes());
        assert(gauge_sizes@ =~= gauge_row_sizes());
        assert(list_sizes@ =~= skill_list_sizes());
    }
    let rows = split(area, Direction::Vertical, &row_sizes, 0);
    let gauge_rows = split(rows[0], Direction::Vertical, &gauge_sizes, 1);
    let list_cols = split(rows[1], Direction::Horizontal, &list_sizes, 1);
    SkillsPlan { languages_box: rows[0], others_box: rows[1], gauge_rows, list_cols }
}

/// Rows of the experience tab: one per position, and a one-cell rest.
pub open spec fn experience_row_sizes() -> Seq<Size> {
    seq![
        Size::Percent(15),
        Size::Percent(15),
        Size::Percent(25),
        Size::Percent(25),
        Size::Percent(19),
        Size::Fixed(1),
    ]
}

/// Compute the rows of the experience tab.
pub fn experience_rows(area: Rect) -> (r: Vec<Rect>)
    requires
        area.wf(),
    ensures
        r@ == split_spec(area, Direction::Vertical, experience_row_sizes(), 0),
        r@.len() == 6,
        forall|i: int| 0 <= i < r@.len() ==> (#[trigger] r@[i]).wf(),
{
    let sizes: Vec<Size> = vec![
        Size::Percent(15),
        Size::Percent(15),
        Size::Percent(25),
        Size::Percent(25),
        Size::Percent(19),
        Size::Fixed(1),
    ];
    proof {
        assert(sizes@ =~= experience_row_sizes());
    }
    split(area, Direction::Vertical, &sizes, 0)
}

/// Rows of the education tab: schooling above, continuing education
/// below.
pub open spec fn education_row_sizes() -> Seq<Size> {
    seq![Size::Percent(45), Size::Percent(55)]
}

/// Rows for the three schools inside the education box.
pub open spec fn school_row_sizes() -> Seq<Size> {
    seq![Size::Percent(33), Size::Percent(33), Size::Percent(33)]
}

/// Rows for the four courses inside the continuing-education box.
pub open spec fn course_row_sizes() -> Seq<Size> {
    seq![Size::Percent(23), Size::Percent(23), Size::Percent(23), Size::Percent(31)]
}

/// The rectangles of the education tab: the two bordered boxes and
/// the panel rows inset one cell inside each.
pub struct EducationPlan {
    pub education_box: Rect,
    pub continuing_box: Rect,
    pub school_rows: Vec<Rect>,
    pub course_rows: Vec<Rect>,
}

/// Compute the rectangles of the education tab.
pub fn education_plan(area: Rect) -> (r: EducationPlan)
    requires
        area.wf(),
    ensures
        ({
            let rows = split_spec(area, Direction::Vertical, education_row_sizes(), 0);
            &&& r.education_box == rows[0]
            &&& r.continuing_box == rows[1]
            &&& r.school_rows@ == split_spec(rows[0], Direction::Vertical, school_row_sizes(), 1)
            &&& r.course_rows@ == split_spec(rows[1], Direction::Vertical, course_row_sizes(), 1)
            &&& r.school_rows@.len() == 3
            &&& r.course_rows@.len() == 4
        }),
{
    let row_sizes: Vec<Size> = vec![Size::Percent(45), Size::Percent(55)];
    let school_sizes: Vec<Size> = vec![Size::Percent(33), Size::Percent(33), Size::Percent(33)];
    let course_sizes: Vec<Size> = vec![
        Size::Percent(23),
        Size::Percent(23),
        Size::Percent(23),
        Size::Percent(31),
    ];
    proof {
        assert(row_sizes@ =~= education_row_sizes());
        assert(school_sizes@ =~= school_row_sizes());
        assert(course_sizes@ =~= course_row_sizes());
    }
    let rows = split(area, Direction::Vertical, &row_sizes, 0);
    let school_rows = split(rows[0], Direction::Vertical, &school_sizes, 1);
    let course_rows = split(rows[1], Direction::Vertical, &course_sizes, 1);
    EducationPlan { education_box: rows[0], continuing_box: rows[1], school_rows, course_rows }
}

/// Rows of the projects tab: personal projects, volunteer work, and
/// open-source contributions.
pub open spec fn projects_row_sizes() -> Seq<Size> {
    seq![Size::Percent(50), Size::Percent(25), Size::Percent(25)]
}

/// Rows for the three personal projects inside their box.
pub open spec fn personal_row_sizes() -> Seq<Size> {
    seq![Size::Percent(40), Size::Percent(40), Size::Percent(20)]
}

/// The single near-full row inside the volunteer and open-source
/// boxes.
pub open spec fn full_row_sizes() -> Seq<Size> {
    seq![Size::Percent(99)]
}

/// The rectangles of the projects tab: the three bordered boxes and
/// the panel rows inset one cell inside each.
pub struct ProjectsPlan {
    pub personal_box: Rect,
    pub volunteer_box: Rect,
    pub oss_box: Rect,
    pub personal_rows: Vec<Rect>,
    pub volunteer_rows: Vec<Rect>,
    pub oss_rows: Vec<Rect>,
}

/// Compute the rectangles of the projects tab.
pub fn projects_plan(area: Rect) -> (r: ProjectsPlan)
    requires
        area.wf(),
    ensures
        ({
            let rows = split_spec(area, Direction::Vertical, projects_row_sizes(), 0);
            &&& r.personal_box == rows[0]
            &&& r.volunteer_box == rows[1]
            &&& r.oss_box == rows[2]
            &&& r.personal_rows@ == split_spec(
                rows[0],
                Direction::Vertical,
                personal_row_sizes(),
                1,
            )
            &&& r.volunteer_rows@ == split_spec(rows[1], Direction::Vertical, full_row_sizes(), 1)
            &&& r.oss_rows@ == split_spec(rows[2], Direction::Vertical, full_row_sizes(), 1)
            &&& r.personal_rows@.len() == 3
            &&& r.volunteer_rows@.len() == 1
            &&& r.oss_rows@.len() == 1
        }),
{
    let row_sizes: Vec<Size> = vec![Size::Percent(50), Size::Percent(25), Size::Percent(25)];
    let personal_sizes: Vec<Size> = vec![
        Size::Percent(40),
        Size::Percent(40),
        Size::Percent(20),
    ];
    let full_sizes: Vec<Size> = vec![Size::Percent(99)];
    proof {
        assert(row_sizes@ =~= projects_row_sizes());
        assert(personal_sizes@ =~= personal_row_sizes());
        assert(full_sizes@ =~= full_row_sizes());
    }
    let rows = split(area, Direction::Vertical, &row_sizes, 0);
    let personal_rows = split(rows[0], Direction::Vertical, &personal_sizes, 1);
    let volunteer_rows = split(rows[1], Direction::Vertical, &full_sizes, 1);
    let oss_rows = split(rows[2], Direction::Vertical, &full_sizes, 1);
    ProjectsPlan {
        personal_box: rows[0],
        volunteer_box: rows[1],
        oss_box: rows[2],
        personal_rows,
        volunteer_rows,
        oss_rows,
    }
}

} // verus!
