use rivulet_core::telemetry::{
    platform_code, TelemetryBatch, TelemetryErrorKind, TelemetryEvent, TelemetryReporter,
    TelemetrySink, APP_VERSION,
};
use std::cell::RefCell;
use std::rc::Rc;

struct CollectingSink(Rc<RefCell<Vec<TelemetryBatch>>>);

impl TelemetrySink for CollectingSink {
    fn submit(&mut self, batch: &TelemetryBatch) {
        self.0.borrow_mut().push(batch.clone());
    }
}

fn collecting_sink(captured: Rc<RefCell<Vec<TelemetryBatch>>>) -> Box<dyn TelemetrySink> {
    Box::new(CollectingSink(captured))
}

fn taken_batches(captured: &Rc<RefCell<Vec<TelemetryBatch>>>) -> Vec<TelemetryBatch> {
    captured.borrow().clone()
}

#[test]
fn disabled_reporter_ignores_every_event() {
    let mut reporter = TelemetryReporter::new("linux");
    assert!(!reporter.enabled(), "telemetry must default to off");
    reporter.record(TelemetryEvent::Startup);
    reporter.record(TelemetryEvent::SceneSwitch);
    assert_eq!(reporter.pending_len(), 0, "disabled reporter must not capture");
    reporter.flush();
}

#[test]
fn enabled_reporter_delivers_batches_to_the_sink() {
    let captured = Rc::new(RefCell::new(Vec::new()));
    let mut reporter = TelemetryReporter::new("linux");
    reporter.set_enabled(true);
    reporter.set_sink(collecting_sink(captured.clone()));
    reporter.record(TelemetryEvent::Startup);
    reporter.record(TelemetryEvent::RecordingStop {
        duration_secs: 42,
        healthy: true,
    });
    assert_eq!(reporter.pending_len(), 2);
    reporter.flush();
    assert_eq!(reporter.pending_len(), 0, "flush must clear the queue");
    let batches = taken_batches(&captured);
    assert_eq!(batches.len(), 1);
    let batch = &batches[0];
    assert_eq!(
        batch.events,
        vec![
            TelemetryEvent::Startup,
            TelemetryEvent::RecordingStop {
                duration_secs: 42,
                healthy: true,
            },
        ]
    );
    assert_eq!(batch.platform, platform_code("linux"));
    assert!(!batch.app_version.is_empty());
}

#[test]
fn flush_skips_empty_batches() {
    let captured = Rc::new(RefCell::new(Vec::new()));
    let mut reporter = TelemetryReporter::new("linux");
    reporter.set_enabled(true);
    reporter.set_sink(collecting_sink(captured.clone()));
    reporter.flush();
    assert!(captured.borrow().is_empty(), "an empty queue must never reach the sink");
}

#[test]
fn auto_flush_caps_pending_memory() {
    let captured = Rc::new(RefCell::new(Vec::new()));
    let mut reporter = TelemetryReporter::new("linux");
    reporter.set_enabled(true);
    reporter.set_sink(collecting_sink(captured.clone()));
    reporter.set_auto_flush_at(3);
    reporter.record(TelemetryEvent::SceneSwitch);
    reporter.record(TelemetryEvent::SceneSwitch);
    assert_eq!(reporter.pending_len(), 2);
    reporter.record(TelemetryEvent::SceneSwitch);
    assert_eq!(reporter.pending_len(), 0, "reaching the threshold must flush automatically");
    let batches = captured.borrow();
    assert_eq!(batches.len(), 1);
    assert_eq!(batches[0].events.len(), 3);
    assert_eq!(batches[0].events, vec![TelemetryEvent::SceneSwitch; 3]);
    assert_eq!(batches[0].platform, "linux");
    assert_eq!(batches[0].app_version, APP_VERSION);
}

#[test]
fn disabling_clears_pending_events() {
    let captured = Rc::new(RefCell::new(Vec::new()));
    let mut reporter = TelemetryReporter::new("linux");
    reporter.set_enabled(true);
    reporter.set_sink(collecting_sink(captured.clone()));
    reporter.record(TelemetryEvent::SceneSwitch);
    assert_eq!(reporter.pending_len(), 1);
    reporter.set_enabled(false);
    assert_eq!(reporter.pending_len(), 0, "opting back out must drop everything collected so far");
    reporter.flush();
    assert!(captured.borrow().is_empty());
}

#[test]
fn event_kinds_copy_and_compare_deterministically() {
    let a = TelemetryEvent::ChatConnect { ok: false };
    let b = a;
    assert_eq!(a, b);
    assert_ne!(a, TelemetryEvent::ChatConnect { ok: true }, "event payloads must compare by value");
}

#[test]
fn platform_codes_and_batch_metadata() {
    assert_eq!(platform_code("windows"), "windows");
    assert_eq!(platform_code("macos"), "macos");
    assert_eq!(platform_code("freebsd"), "other");
    assert_eq!(TelemetryErrorKind::default(), TelemetryErrorKind::Unknown);
    let captured = Rc::new(RefCell::new(Vec::new()));
    let mut reporter = TelemetryReporter::new("macos");
    reporter.set_enabled(true);
    reporter.set_sink(collecting_sink(captured.clone()));
    reporter.record(TelemetryEvent::RecordingError {
        error: TelemetryErrorKind::Io,
    });
    reporter.flush();
    let batches = taken_batches(&captured);
    assert_eq!(batches[0].platform, "macos");
    assert_eq!(batches[0].app_version, APP_VERSION);
}
