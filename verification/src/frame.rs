//! What is worked out anew before each drawing of the dashboard.

use crate::control::{selection_valid, synced, Session};
use crate::layout::{cpu_gauge_rows, cpu_gauges, layout_of, memory_gauge_rows, memory_gauges,
    page_rows, page_size, plan, LayoutPlan, Region};
use crate::snapshot::Snapshot;
use crate::table::{compute_rows, rows_within, table_rows};
use vstd::prelude::*;

verus! {

/// One drawing of the dashboard: the rows of the process table, the
/// layout, the number of table rows that are visible at a time, and the
/// places of the gauges in the processor and memory panels.
#[derive(Clone, Debug)]
pub struct Frame {
    pub rows: Vec<usize>,
    pub plan: LayoutPlan,
    pub page: usize,
    pub cpu_gauges: Vec<Region>,
    pub memory_gauges: Vec<Region>,
}

/// The gauges that go with a layout on a machine with `cores` cores: those
/// of the two panels of the left column, and none beside a placeholder.
pub open spec fn gauges_of(plan: LayoutPlan, cores: usize) -> (Seq<Region>, Seq<Region>) {
    match plan {
        LayoutPlan::Placeholder(_) => (Seq::empty(), Seq::empty()),
        LayoutPlan::Panels(panels) => (
            cpu_gauge_rows(panels.cpu, cores),
            memory_gauge_rows(panels.memory),
        ),
    }
}

/// Works out a frame for a fresh snapshot: computes the table for the
/// filter and sort order of the session, brings the selection in line
/// with it, which closes the detail panel of an empty table, lays the
/// panels out for the flags that the session then has, and places the
/// gauges in them.
pub fn prepare_frame(
    session: &mut Session,
    snapshot: &Snapshot,
    width: u16,
    height: u16,
) -> (frame: Frame)
    ensures
        frame.rows@ == table_rows(
            snapshot.processes@,
            old(session)@.view.filter_text,
            old(session)@.view.sort_key,
            old(session)@.view.sort_reverse,
        ),
        rows_within(frame.rows@, snapshot.processes@.len()),
        final(session)@ == synced(old(session)@, frame.rows@.len() as usize),
        selection_valid(final(session)@.selection, frame.rows@.len() as usize),
        final(session)@.selection is None ==> !final(session)@.view.detail_visible,
        frame.plan == layout_of(
            width,
            height,
            final(session)@.view.filter_mode,
            final(session)@.view.detail_visible,
        ),
        frame.page == page_rows(frame.plan),
        (frame.cpu_gauges@, frame.memory_gauges@) == gauges_of(
            frame.plan,
            snapshot.cpu_cores@.len() as usize,
        ),
{
    let rows = compute_rows(
        &snapshot.processes,
        session.view.filter_text.as_str(),
        session.view.sort_key,
        session.view.sort_reverse,
    );
    session.sync(rows.len());
    let plan = plan(width, height, session.view.filter_mode, session.view.detail_visible);
    let page = page_size(&plan);
    let (cpu, memory) = match plan {
        LayoutPlan::Placeholder(_) => (Vec::new(), Vec::new()),
        LayoutPlan::Panels(panels) => (
            cpu_gauges(panels.cpu, snapshot.cpu_cores.len()),
            memory_gauges(panels.memory),
        ),
    };
    Frame { rows, plan, page, cpu_gauges: cpu, memory_gauges: memory }
}

/// The process that the selection points at: the row of the snapshot that
/// stands at the selected place of the table, if a place is selected and
/// the table has it.
pub open spec fn selected_row(rows: Seq<usize>, selection: Option<usize>) -> Option<usize> {
    match selection {
        Some(i) => if i < rows.len() {
            Some(rows[i as int])
        } else {
            None
        },
        None => None,
    }
}

/// Computes `selected_row`.
pub fn selected_process(rows: &Vec<usize>, selection: Option<usize>) -> (r: Option<usize>)
    ensures
        r == selected_row(rows@, selection),
{
    match selection {
        Some(i) => if i < rows.len() {
            Some(rows[i])
        } else {
            None
        },
        None => None,
    }
}

} // verus!
