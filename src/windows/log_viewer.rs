use vstd::prelude::*;
use egui_tracing::EventCollector;

verus! {

#[verifier::external_type_specification]
#[verifier::external_body]
pub struct ExEventCollector(egui_tracing::EventCollector);

/// Relies on `EventCollector::new`: a collector that gathers every event.
#[verifier::external_body]
pub(crate) fn new_collector() -> (r: EventCollector) {
    EventCollector::new()
}

/// A window that lists the events gathered by a log collector.
///
/// The collector is live state: it is not persisted, and is set again after
/// the registry is restored.
#[derive(Debug)]
pub struct LogViewer {
    event_collector: EventCollector,
}

impl LogViewer {
    /// The collector that this viewer reads.
    pub closed spec fn collector(&self) -> EventCollector {
        self.event_collector
    }

    pub fn new() -> (r: LogViewer) {
        LogViewer { event_collector: new_collector() }
    }

    pub fn set_collector(&mut self, event_collector: EventCollector)
        ensures
            final(self).collector() == event_collector,
    {
        self.event_collector = event_collector;
    }

    /// The collector, for the widget that lists its events.
    pub fn event_collector(&self) -> (r: &EventCollector)
        ensures
            *r == self.collector(),
    {
        &self.event_collector
    }
}

} // verus!
