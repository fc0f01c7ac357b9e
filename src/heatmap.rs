//! Geometry of the adherence heatmap: one row per day, one column per prayer,
//! a cell marked done or not done.

use crate::calendar::{CalendarView, DayEntry};
use crate::date::CivilDate;
use vstd::prelude::*;

verus! {

/// Side of a square cell.
pub const CELL_SIZE: u64 = 30;

/// Gap between neighbouring cells.
pub const CELL_GAP: u64 = 20;

/// Room left of the grid for the date labels.
pub const LEFT_MARGIN: u64 = 100;

/// Room above the grid for the title and the prayer labels.
pub const TOP_MARGIN: u64 = 100;

/// Width of the whole picture: five columns, the left margin and room for
/// the legend.
pub const HEATMAP_WIDTH: u64 = 650;

/// One cell of the grid.
#[derive(Clone, Copy, Debug, PartialEq, Eq, Structural)]
pub struct HeatCell {
    pub x: u64,
    pub y: u64,
    pub done: bool,
}

/// The label of one row.
#[derive(Clone, Copy, Debug, PartialEq, Eq, Structural)]
pub struct RowLabel {
    pub y: u64,
    pub date: CivilDate,
}

/// Where everything of the heatmap goes.
#[derive(Clone, Debug)]
pub struct HeatmapLayout {
    pub width: u64,
    pub height: u64,
    /// Cells row by row, five to a row in the fixed prayer order.
    pub cells: Vec<HeatCell>,
    pub rows: Vec<RowLabel>,
    pub legend_x: u64,
    pub legend_y: u64,
}

/// The flag of prayer `j` (0 to 4, in the fixed order) of an entry.
pub open spec fn flag_at(e: DayEntry, j: int) -> bool {
    if j == 0 {
        e.fajr
    } else if j == 1 {
        e.dhuhr
    } else if j == 2 {
        e.asr
    } else if j == 3 {
        e.maghrib
    } else {
        e.isha
    }
}

/// Distance from one row or column to the next.
pub open spec fn pitch() -> int {
    CELL_SIZE + CELL_GAP
}

/// Cell `k` of the grid, counted row by row.
pub open spec fn cell_at(days: Seq<DayEntry>, k: int) -> HeatCell {
    HeatCell {
        x: ((k % 5) * pitch() + LEFT_MARGIN) as u64,
        y: ((k / 5) * pitch() + TOP_MARGIN) as u64,
        done: flag_at(days[k / 5], k % 5),
    }
}

/// The heatmap of `days`.
pub open spec fn is_layout_of(days: Seq<DayEntry>, l: HeatmapLayout) -> bool {
    &&& l.width == HEATMAP_WIDTH
    &&& l.height == days.len() * pitch() + TOP_MARGIN + 10
    &&& l.legend_x == HEATMAP_WIDTH - 170
    &&& l.legend_y == l.height - 100
    &&& l.cells@.len() == 5 * days.len()
    &&& forall|k: int| 0 <= k < l.cells@.len() ==> l.cells@[k] == cell_at(days, k)
    &&& l.rows@.len() == days.len()
    &&& forall|i: int|
        0 <= i < days.len() ==> l.rows@[i] == (RowLabel {
            y: (i * pitch() + TOP_MARGIN + CELL_SIZE / 2) as u64,
            date: days[i].date,
        })
}

/// The flag of prayer `j` of an entry.
fn flag_of(e: &DayEntry, j: u64) -> (r: bool)
    ensures
        r == flag_at(*e, j as int),
{
    if j == 0 {
        e.fajr
    } else if j == 1 {
        e.dhuhr
    } else if j == 2 {
        e.asr
    } else if j == 3 {
        e.maghrib
    } else {
        e.isha
    }
}

/// Lays out the heatmap of a calendar view.
pub fn heatmap_layout(view: &CalendarView) -> (r: HeatmapLayout)
    requires
        view.days@.len() * 50 + 110 <= u64::MAX,
    ensures
        is_layout_of(view.days@, r),
{
    let len = view.days.len();
    let n = len as u64;
    let height = n * (CELL_SIZE + CELL_GAP) + TOP_MARGIN + 10;
    let mut cells: Vec<HeatCell> = Vec::new();
    let mut i: usize = 0;
    while i < len
        invariant
            len == view.days@.len(),
            n == len,
            n * 50 + 110 <= u64::MAX,
            i <= len,
            cells@.len() == 5 * i,
            forall|m: int| 0 <= m < 5 * i ==> cells@[m] == cell_at(view.days@, m),
        decreases len - i,
    {
        let e = &view.days[i];
        assert((i as int) * 50 <= n * 50) by (nonlinear_arith)
            requires
                i < n,
        ;
        let mut j: u64 = 0;
        while j < 5
            invariant
                len == view.days@.len(),
                n == len,
                n * 50 + 110 <= u64::MAX,
                i < len,
                (i as int) * 50 <= n * 50,
                *e == view.days@[i as int],
                j <= 5,
                cells@.len() == 5 * i + j,
                forall|m: int| 0 <= m < 5 * i + j ==> cells@[m] == cell_at(view.days@, m),
            decreases 5 - j,
        {
            assert(j * 50 <= 200) by (nonlinear_arith)
                requires
                    j < 5,
            ;
            let cell = HeatCell {
                x: j * (CELL_SIZE + CELL_GAP) + LEFT_MARGIN,
                y: (i as u64) * (CELL_SIZE + CELL_GAP) + TOP_MARGIN,
                done: flag_of(e, j),
            };
            assert(((5 * i + j) as int) / 5 == i && ((5 * i + j) as int) % 5 == j);
            cells.push(cell);
            j = j + 1;
        }
        i = i + 1;
    }
    let mut rows: Vec<RowLabel> = Vec::new();
    i = 0;
    while i < len
        invariant
            len == view.days@.len(),
            n == len,
            n * 50 + 110 <= u64::MAX,
            i <= len,
            rows@.len() == i,
            forall|m: int|
                0 <= m < i ==> rows@[m] == (RowLabel {
                    y: (m * pitch() + TOP_MARGIN + CELL_SIZE / 2) as u64,
                    date: view.days@[m].date,
                }),
        decreases n - i,
    {
        assert((i as int) * 50 <= n * 50) by (nonlinear_arith)
            requires
                i < n,
        ;
        rows.push(
            RowLabel {
                y: (i as u64) * (CELL_SIZE + CELL_GAP) + TOP_MARGIN + CELL_SIZE / 2,
                date: view.days[i].date,
            },
        );
        i = i + 1;
    }
    HeatmapLayout {
        width: HEATMAP_WIDTH,
        height,
        cells,
        rows,
        legend_x: HEATMAP_WIDTH - 170,
        legend_y: height - 100,
    }
}

} // verus!
