//! Where the panels of the dashboard go on a terminal of a given size.

use ratatui::layout::Constraint as Wanted;
use ratatui::layout::{Direction, Layout, Rect};
use vstd::prelude::*;

verus! {

/// Fewest columns on which the panels are laid out.
pub const MIN_COLUMNS: u16 = 60;

/// Fewest rows on which the panels are laid out.
pub const MIN_ROWS: u16 = 16;

/// Share of the width, in percent, of the column with the processor and
/// memory panels.
pub const LEFT_PERCENT: u16 = 40;

/// Share of the width, in percent, of the column with the process table.
pub const RIGHT_PERCENT: u16 = 60;

/// Rows of the memory panel.
pub const MEMORY_ROWS: u16 = 6;

/// Rows of the search bar when it is shown.
pub const SEARCH_ROWS: u16 = 3;

/// Rows of the detail panel when it is shown.
pub const DETAIL_ROWS: u16 = 8;

/// Rows of the table panel that hold no process: two border rows and the
/// header.
pub const TABLE_FRAME_ROWS: u16 = 3;

/// Columns between the left edge of a panel and its gauges.
pub const GAUGE_LEFT: u16 = 14;

/// Columns of a panel that its gauges leave free.
pub const GAUGE_MARGIN: u16 = 16;

/// Gauges of the memory panel: total, used, available, free.
pub const MEMORY_GAUGES: usize = 4;

/// A rectangle of terminal cells.
#[derive(Clone, Copy, Debug, PartialEq, Eq, Structural)]
pub struct Region {
    pub x: u16,
    pub y: u16,
    pub width: u16,
    pub height: u16,
}

/// The direction in which an area is cut into parts.
#[derive(Clone, Copy, Debug, PartialEq, Eq, Structural)]
pub enum Axis {
    /// Parts side by side.
    Horizontal,
    /// Parts one below the other.
    Vertical,
}

/// What is asked of one part of an area that is cut up.
#[derive(Clone, Copy, Debug, PartialEq, Eq, Structural)]
pub enum Constraint {
    /// A share of the area, in percent.
    Percentage(u16),
    /// A fixed number of cells.
    Length(u16),
    /// A share of what the other parts leave, by weight.
    Fill(u16),
}

/// The panels of the dashboard. The search bar and the detail panel are
/// there only while they are shown.
#[derive(Clone, Copy, Debug, PartialEq, Eq, Structural)]
pub struct Panels {
    pub cpu: Region,
    pub memory: Region,
    pub search: Option<Region>,
    pub table: Region,
    pub detail: Option<Region>,
}

/// What is drawn: the panels, or on a terminal that is too small one
/// region for a message that says so.
#[derive(Clone, Copy, Debug, PartialEq, Eq, Structural)]
pub enum LayoutPlan {
    Placeholder(Region),
    Panels(Panels),
}

/// `part` lies inside `area`.
pub open spec fn within(area: Region, part: Region) -> bool {
    &&& area.x <= part.x
    &&& part.x + part.width <= area.x + area.width
    &&& area.y <= part.y
    &&& part.y + part.height <= area.y + area.height
}

/// `part` takes all of `area` across the axis of the cut: the full height
/// in a cut into columns, the full width in a cut into rows.
pub open spec fn spans(axis: Axis, area: Region, part: Region) -> bool {
    match axis {
        Axis::Horizontal => part.y == area.y && part.height == area.height,
        Axis::Vertical => part.x == area.x && part.width == area.width,
    }
}

/// Where a region starts along the axis of a cut.
pub open spec fn start_along(axis: Axis, region: Region) -> int {
    match axis {
        Axis::Horizontal => region.x as int,
        Axis::Vertical => region.y as int,
    }
}

/// How far a region reaches along the axis of a cut.
pub open spec fn extent_along(axis: Axis, region: Region) -> int {
    match axis {
        Axis::Horizontal => region.width as int,
        Axis::Vertical => region.height as int,
    }
}

/// The parts follow one another along the axis, from the start of the area
/// to its end, with no gap and no overlap.
pub open spec fn follow_on(axis: Axis, area: Region, parts: Seq<Region>) -> bool {
    &&& parts.len() > 0
    &&& start_along(axis, parts[0]) == start_along(axis, area)
    &&& forall|k: int|
        0 <= k < parts.len() - 1 ==> start_along(axis, #[trigger] parts[k]) + extent_along(
            axis,
            parts[k],
        ) == start_along(axis, parts[k + 1])
    &&& start_along(axis, parts.last()) + extent_along(axis, parts.last()) == start_along(
        axis,
        area,
    ) + extent_along(axis, area)
}

/// The cells that a constraint asks for as a fixed length; none for the
/// other kinds.
pub open spec fn asked_length(constraint: Constraint) -> int {
    match constraint {
        Constraint::Length(n) => n as int,
        _ => 0,
    }
}

/// The cells that the fixed lengths of a list ask for together.
pub open spec fn lengths_total(constraints: Seq<Constraint>) -> int
    decreases constraints.len(),
{
    if constraints.len() == 0 {
        0
    } else {
        lengths_total(constraints.drop_last()) + asked_length(constraints.last())
    }
}

/// The list asks for fixed lengths, but for the part at `at`, which fills
/// with a weight of one or more.
pub open spec fn fills_only_at(constraints: Seq<Constraint>, at: int) -> bool {
    &&& 0 <= at < constraints.len()
    &&& match constraints[at] {
        Constraint::Fill(weight) => weight >= 1,
        _ => false,
    }
    &&& forall|k: int|
        0 <= k < constraints.len() && k != at ==> #[trigger] constraints[k] is Length
}

/// The list asks for two shares that add up to the whole.
pub open spec fn two_shares(constraints: Seq<Constraint>) -> bool {
    &&& constraints.len() == 2
    &&& match (constraints[0], constraints[1]) {
        (Constraint::Percentage(p), Constraint::Percentage(q)) => p + q == 100,
        _ => false,
    }
}

/// The part has the size that goes with what was asked of it, as far as
/// that alone decides: a fixed length is met, and a share is met to the
/// nearest cell.
pub open spec fn meets(axis: Axis, constraint: Constraint, area: Region, part: Region) -> bool {
    match constraint {
        Constraint::Length(n) => extent_along(axis, part) == n,
        Constraint::Percentage(p) => -50 <= 100 * extent_along(axis, part) - p * extent_along(
            axis,
            area,
        ) <= 50,
        Constraint::Fill(_) => true,
    }
}

/// What is known of the parts into which an area was cut.
///
/// Of every cut: there is one part for each constraint; across the axis a
/// part has the position and size of the area; along the axis it starts
/// and ends inside the area.
///
/// Of a cut of an area that ends inside the coordinate range, in two
/// cases where everything that is asked can be had at once: fixed lengths
/// that fit into the area beside one filling part, and two shares that
/// add up to the whole. There the parts follow one another from the start
/// of the area to its end, each fixed length is met, and the border
/// between two shares lies at the cell nearest to the share.
pub open spec fn split_outcome(
    axis: Axis,
    constraints: Seq<Constraint>,
    area: Region,
    parts: Seq<Region>,
) -> bool {
    &&& parts.len() == constraints.len()
    &&& forall|k: int|
        0 <= k < parts.len() ==> spans(axis, area, #[trigger] parts[k]) && within(area, parts[k])
    &&& start_along(axis, area) + extent_along(axis, area) <= u16::MAX ==> {
        &&& (exists|at: int| fills_only_at(constraints, at)) && lengths_total(constraints)
            <= extent_along(axis, area) ==> {
            &&& follow_on(axis, area, parts)
            &&& forall|k: int|
                0 <= k < parts.len() ==> meets(axis, constraints[k], area, #[trigger] parts[k])
        }
        &&& two_shares(constraints) ==> {
            &&& follow_on(axis, area, parts)
            &&& meets(axis, constraints[0], area, parts[0])
        }
    }
}

/// Calls ratatui's `Layout::split` with the default layout settings for
/// the given direction and constraints, and claims `split_outcome` of what
/// comes back. The sizes come from a constraint solver, and for lists in
/// general nothing is said of them. The cross-axis fields are copied from
/// the area by the call, and the solver is held inside the area by
/// required constraints. In the two cases that `split_outcome` names, all
/// that is asked can be met together: the call asks for parts without
/// space between them that start at the start of the area, for each fixed
/// length and each share more strongly than for anything that a filling
/// part or the space behind the last part could gain, and it rounds each
/// border to the nearest cell.
#[verifier::external_body]
pub(crate) fn split(axis: Axis, constraints: &Vec<Constraint>, area: Region) -> (parts: Vec<
    Region,
>)
    ensures
        split_outcome(axis, constraints@, area, parts@),
{
    let direction = match axis {
        Axis::Horizontal => Direction::Horizontal,
        Axis::Vertical => Direction::Vertical,
    };
    let wanted = constraints.iter().map(|c| match *c {
        Constraint::Percentage(p) => Wanted::Percentage(p),
        Constraint::Length(n) => Wanted::Length(n),
        Constraint::Fill(w) => Wanted::Fill(w),
    });
    let Region { x, y, width, height } = area;
    let layout = Layout::default().direction(direction).constraints(wanted);
    let parts = layout.split(Rect { x, y, width, height });
    parts.iter().map(|&Rect { x, y, width, height }| Region { x, y, width, height }).collect()
}

/// The terminal is too small for the panels.
pub open spec fn too_small(width: u16, height: u16) -> bool {
    width < MIN_COLUMNS || height < MIN_ROWS
}

/// The whole terminal as a region.
pub open spec fn full_area(width: u16, height: u16) -> Region {
    Region { x: 0, y: 0, width, height }
}

/// What is asked of the two columns.
pub open spec fn column_constraints() -> Seq<Constraint> {
    seq![Constraint::Percentage(LEFT_PERCENT), Constraint::Percentage(RIGHT_PERCENT)]
}

/// What is asked of the parts of the left column: the processor panel
/// takes what the memory panel leaves; a third part of no height closes
/// the column.
pub open spec fn left_constraints() -> Seq<Constraint> {
    seq![Constraint::Fill(1), Constraint::Length(MEMORY_ROWS), Constraint::Length(0)]
}

/// What is asked of the parts of the right column: the search bar, the
/// process table, which takes what the others leave, and the detail
/// panel. A panel that is not shown is asked to have no height.
pub open spec fn right_constraints(filter_mode: bool, detail_visible: bool) -> Seq<Constraint> {
    seq![
        Constraint::Length(
            if filter_mode {
                SEARCH_ROWS
            } else {
                0
            },
        ),
        Constraint::Fill(1),
        Constraint::Length(
            if detail_visible {
                DETAIL_ROWS
            } else {
                0
            },
        ),
    ]
}

/// Builds `column_constraints`.
pub fn columns_wanted() -> (r: Vec<Constraint>)
    ensures
        r@ == column_constraints(),
{
    let mut r: Vec<Constraint> = Vec::new();
    r.push(Constraint::Percentage(LEFT_PERCENT));
    r.push(Constraint::Percentage(RIGHT_PERCENT));
    assert(r@ =~= column_constraints());
    r
}

/// Builds `left_constraints`.
pub fn left_wanted() -> (r: Vec<Constraint>)
    ensures
        r@ == left_constraints(),
{
    let mut r: Vec<Constraint> = Vec::new();
    r.push(Constraint::Fill(1));
    r.push(Constraint::Length(MEMORY_ROWS));
    r.push(Constraint::Length(0));
    assert(r@ =~= left_constraints());
    r
}

/// Builds `right_constraints`.
pub fn right_wanted(filter_mode: bool, detail_visible: bool) -> (r: Vec<Constraint>)
    ensures
        r@ == right_constraints(filter_mode, detail_visible),
{
    let search: u16 = if filter_mode {
        SEARCH_ROWS
    } else {
        0
    };
    let detail: u16 = if detail_visible {
        DETAIL_ROWS
    } else {
        0
    };
    let mut r: Vec<Constraint> = Vec::new();
    r.push(Constraint::Length(search));
    r.push(Constraint::Fill(1));
    r.push(Constraint::Length(detail));
    assert(r@ =~= right_constraints(filter_mode, detail_visible));
    r
}

/// The panels made of the parts of the two columns: the first two parts of
/// the left column, and of the right column the middle part, with the
/// first and the last only for a panel that is shown. With fewer parts
/// than that there are no panels.
pub open spec fn arranged(
    left: Seq<Region>,
    right: Seq<Region>,
    filter_mode: bool,
    detail_visible: bool,
) -> Option<Panels> {
    if left.len() < 2 || right.len() < 3 {
        None
    } else {
        Some(
            Panels {
                cpu: left[0],
                memory: left[1],
                search: if filter_mode {
                    Some(right[0])
                } else {
                    None
                },
                table: right[1],
                detail: if detail_visible {
                    Some(right[2])
                } else {
                    None
                },
            },
        )
    }
}

/// Makes the panels of the parts into which the two columns were cut.
pub fn arrange(
    left: &Vec<Region>,
    right: &Vec<Region>,
    filter_mode: bool,
    detail_visible: bool,
) -> (r: Option<Panels>)
    ensures
        r == arranged(left@, right@, filter_mode, detail_visible),
{
    if left.len() < 2 || right.len() < 3 {
        return None;
    }
    let search: Option<Region> = if filter_mode {
        Some(right[0])
    } else {
        None
    };
    let detail: Option<Region> = if detail_visible {
        Some(right[2])
    } else {
        None
    };
    Some(Panels { cpu: left[0], memory: left[1], search, table: right[1], detail })
}

/// Columns of the left column on a terminal of the given width: the
/// number nearest to forty hundredths of the width.
pub open spec fn left_columns(width: u16) -> u16 {
    ((LEFT_PERCENT * width + 50) / 100) as u16
}

/// Rows of the search bar: three while it is shown.
pub open spec fn search_rows(filter_mode: bool) -> u16 {
    if filter_mode {
        SEARCH_ROWS
    } else {
        0
    }
}

/// Rows of the detail panel: eight while it is shown.
pub open spec fn detail_rows(detail_visible: bool) -> u16 {
    if detail_visible {
        DETAIL_ROWS
    } else {
        0
    }
}

/// The panels on a terminal that is large enough. The left column takes
/// the columns nearest to 40% of the width and the right column the rest.
/// In the left column the memory panel takes the last 6 rows and the
/// processor panel the rows above. In the right column the search bar
/// takes the first 3 rows while it is shown, the detail panel the last 8
/// rows while it is shown, and the process table the rows between.
pub open spec fn panels_of(width: u16, height: u16, filter_mode: bool, detail_visible: bool) -> Panels
    recommends
        !too_small(width, height),
{
    let left = left_columns(width);
    let right = (width - left) as u16;
    let top = search_rows(filter_mode);
    let bottom = detail_rows(detail_visible);
    Panels {
        cpu: Region { x: 0, y: 0, width: left, height: (height - MEMORY_ROWS) as u16 },
        memory: Region {
            x: 0,
            y: (height - MEMORY_ROWS) as u16,
            width: left,
            height: MEMORY_ROWS,
        },
        search: if filter_mode {
            Some(Region { x: left, y: 0, width: right, height: top })
        } else {
            None
        },
        table: Region { x: left, y: top, width: right, height: (height - top - bottom) as u16 },
        detail: if detail_visible {
            Some(Region { x: left, y: (height - bottom) as u16, width: right, height: bottom })
        } else {
            None
        },
    }
}

/// The layout for a terminal of the given size: one placeholder over the
/// whole terminal below 60 columns or 16 rows, else the panels.
pub open spec fn layout_of(
    width: u16,
    height: u16,
    filter_mode: bool,
    detail_visible: bool,
) -> LayoutPlan {
    if too_small(width, height) {
        LayoutPlan::Placeholder(full_area(width, height))
    } else {
        LayoutPlan::Panels(panels_of(width, height, filter_mode, detail_visible))
    }
}

/// The fixed lengths of a list of three constraints add up.
proof fn lemma_lengths_total_of_three(a: Constraint, b: Constraint, c: Constraint)
    ensures
        lengths_total(seq![a, b, c]) == asked_length(a) + asked_length(b) + asked_length(c),
{
    let abc = seq![a, b, c];
    let ab = seq![a, b];
    let only_a = seq![a];
    assert(abc.drop_last() =~= ab);
    assert(ab.drop_last() =~= only_a);
    assert(only_a.drop_last() =~= Seq::<Constraint>::empty());
    assert(lengths_total(Seq::<Constraint>::empty()) == 0);
    assert(lengths_total(only_a) == asked_length(a));
    assert(lengths_total(ab) == asked_length(a) + asked_length(b));
}

/// Lays the dashboard out on a terminal of the given size. Below 60
/// columns or 16 rows the whole terminal is one placeholder region.
/// Otherwise the terminal is cut into a left and a right column, and these
/// into the panels that the view shows.
pub fn plan(width: u16, height: u16, filter_mode: bool, detail_visible: bool) -> (r: LayoutPlan)
    ensures
        r == layout_of(width, height, filter_mode, detail_visible),
{
    let area = Region { x: 0, y: 0, width, height };
    if width < MIN_COLUMNS || height < MIN_ROWS {
        return LayoutPlan::Placeholder(area);
    }
    let across = columns_wanted();
    let columns = split(Axis::Horizontal, &across, area);
    assert(two_shares(across@));
    let down_left = left_wanted();
    let left = split(Axis::Vertical, &down_left, columns[0]);
    let down_right = right_wanted(filter_mode, detail_visible);
    let right = split(Axis::Vertical, &down_right, columns[1]);
    proof {
        lemma_lengths_total_of_three(down_left@[0], down_left@[1], down_left@[2]);
        lemma_lengths_total_of_three(down_right@[0], down_right@[1], down_right@[2]);
        assert(down_left@ =~= seq![down_left@[0], down_left@[1], down_left@[2]]);
        assert(down_right@ =~= seq![down_right@[0], down_right@[1], down_right@[2]]);
        assert(fills_only_at(down_left@, 0));
        assert(fills_only_at(down_right@, 1));
        assert(meets(Axis::Horizontal, across@[0], area, columns@[0]));
        assert(columns@[0].width == left_columns(width)) by {
            let c = columns@[0].width as int;
            let w = width as int;
            assert(-50 <= 100 * c - 40 * w <= 50);
            assert((100 * c - 40 * w) % 20 == 0);
        }
    }
    match arrange(&left, &right, filter_mode, detail_visible) {
        Some(panels) => LayoutPlan::Panels(panels),
        None => LayoutPlan::Placeholder(area),
    }
}

/// Every panel lies inside `area`, and none reaches into another.
pub open spec fn panels_tile(panels: Panels, area: Region) -> bool {
    &&& within(area, panels.cpu)
    &&& within(area, panels.memory)
    &&& within(area, panels.table)
    &&& panels.cpu.y + panels.cpu.height <= panels.memory.y
    &&& panels.cpu.x + panels.cpu.width <= panels.table.x
    &&& match panels.search {
        Some(bar) => within(area, bar) && bar.x == panels.table.x && bar.y + bar.height
            <= panels.table.y,
        None => true,
    }
    &&& match panels.detail {
        Some(card) => within(area, card) && card.x == panels.table.x && panels.table.y
            + panels.table.height <= card.y,
        None => true,
    }
}

/// On every terminal that is large enough the panels lie inside the
/// terminal without reaching into one another, the search bar and the
/// detail panel are there exactly while they are shown, and the process
/// table keeps at least five rows.
pub proof fn lemma_panels_tile(width: u16, height: u16, filter_mode: bool, detail_visible: bool)
    requires
        !too_small(width, height),
    ensures
        panels_tile(
            panels_of(width, height, filter_mode, detail_visible),
            full_area(width, height),
        ),
        panels_of(width, height, filter_mode, detail_visible).search is Some <==> filter_mode,
        panels_of(width, height, filter_mode, detail_visible).detail is Some <==> detail_visible,
        panels_of(width, height, filter_mode, detail_visible).table.height >= 5,
{
}

/// Rows of the process table that are visible at a time: the rows of the
/// table panel without its frame, and none where there is no table panel.
pub open spec fn page_rows(plan: LayoutPlan) -> usize {
    match plan {
        LayoutPlan::Placeholder(_) => 0,
        LayoutPlan::Panels(panels) => if panels.table.height >= TABLE_FRAME_ROWS {
            (panels.table.height - TABLE_FRAME_ROWS) as usize
        } else {
            0
        },
    }
}

/// Computes `page_rows`.
pub fn page_size(plan: &LayoutPlan) -> (r: usize)
    ensures
        r == page_rows(*plan),
{
    match plan {
        LayoutPlan::Placeholder(_) => 0,
        LayoutPlan::Panels(panels) => if panels.table.height >= TABLE_FRAME_ROWS {
            (panels.table.height - TABLE_FRAME_ROWS) as usize
        } else {
            0
        },
    }
}

/// A coordinate that stops at the ends of the coordinate range.
pub open spec fn clipped(v: int) -> u16 {
    if v < 0 {
        0
    } else if v > u16::MAX {
        u16::MAX
    } else {
        v as u16
    }
}

/// The gauge in row `offset` of a panel: one row high, it starts 14
/// columns from the panel's left edge and leaves 16 of its columns free.
pub open spec fn gauge_row(panel: Region, offset: int) -> Region {
    Region {
        x: clipped(panel.x + GAUGE_LEFT),
        y: clipped(panel.y + offset),
        width: clipped(panel.width - GAUGE_MARGIN),
        height: 1,
    }
}

/// Computes `gauge_row`.
pub fn gauge_at(panel: Region, offset: u16) -> (r: Region)
    ensures
        r == gauge_row(panel, offset as int),
{
    let x: u16 = if panel.x > u16::MAX - GAUGE_LEFT {
        u16::MAX
    } else {
        panel.x + GAUGE_LEFT
    };
    let y: u16 = if panel.y > u16::MAX - offset {
        u16::MAX
    } else {
        panel.y + offset
    };
    let width: u16 = if panel.width < GAUGE_MARGIN {
        0
    } else {
        panel.width - GAUGE_MARGIN
    };
    Region { x, y, width, height: 1 }
}

/// How many processor gauges the panel shows: one for each core whose
/// number, counted from one, is below the height of the panel.
pub open spec fn cpu_gauge_count(panel: Region, cores: usize) -> nat {
    if panel.height == 0 {
        0
    } else if cores < panel.height {
        cores as nat
    } else {
        (panel.height - 1) as nat
    }
}

/// The processor gauges of the panel, the first in the second row below
/// the top: the rows above hold the border and the header.
pub open spec fn cpu_gauge_rows(panel: Region, cores: usize) -> Seq<Region> {
    Seq::new(cpu_gauge_count(panel, cores), |k: int| gauge_row(panel, k + 2))
}

/// The four gauges of the memory panel, the first in the row below the
/// top.
pub open spec fn memory_gauge_rows(panel: Region) -> Seq<Region> {
    Seq::new(MEMORY_GAUGES as nat, |k: int| gauge_row(panel, k + 1))
}

/// The gauges of the processor panel for a machine with `cores` cores.
pub fn cpu_gauges(panel: Region, cores: usize) -> (r: Vec<Region>)
    ensures
        r@ == cpu_gauge_rows(panel, cores),
{
    let mut r: Vec<Region> = Vec::new();
    let mut core: u16 = 1;
    while core < panel.height && (core as usize) <= cores
        invariant
            1 <= core,
            core <= panel.height || panel.height == 0,
            core - 1 <= cores,
            r@.len() == core - 1,
            r@.len() <= cpu_gauge_count(panel, cores),
            forall|k: int| 0 <= k < r@.len() ==> r@[k] == gauge_row(panel, k + 2),
        decreases panel.height - core,
    {
        r.push(gauge_at(panel, core + 1));
        core = core + 1;
    }
    assert(r@ =~= cpu_gauge_rows(panel, cores));
    r
}

/// The gauges of the memory panel.
pub fn memory_gauges(panel: Region) -> (r: Vec<Region>)
    ensures
        r@ == memory_gauge_rows(panel),
{
    let mut r: Vec<Region> = Vec::new();
    r.push(gauge_at(panel, 1));
    r.push(gauge_at(panel, 2));
    r.push(gauge_at(panel, 3));
    r.push(gauge_at(panel, 4));
    assert(r@ =~= memory_gauge_rows(panel));
    r
}

} // verus!
