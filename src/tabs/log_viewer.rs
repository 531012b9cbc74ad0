use vstd::prelude::*;
use egui_tracing::EventCollector;
use crate::windows::log_viewer::new_collector;

verus! {

/// A pane that lists the events gathered by a log collector.
#[derive(Debug)]
pub struct LogViewer {
    event_collector: EventCollector,
}

impl LogViewer {
    /// The collector that this pane reads.
    pub closed spec fn collector(&self) -> EventCollector {
        self.event_collector
    }

    pub fn new(event_collector: EventCollector) -> (r: LogViewer)
        ensures
            r.collector() == event_collector,
    {
        LogViewer { event_collector }
    }

    /// A pane over a fresh collector, as after restoring saved state.
    pub fn detached() -> (r: LogViewer) {
        LogViewer { event_collector: new_collector() }
    }

    pub fn title(&self) -> (r: &'static str)
        ensures
            r@ == "Log Viewer"@,
    {
        "Log Viewer"
    }

    /// The collector, for the widget that lists its events.
    pub fn event_collector(&self) -> (r: &EventCollector)
        ensures
            *r == self.collector(),
    {
        &self.event_collector
    }
}

} // verus!
