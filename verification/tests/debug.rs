use sol_ui::debug::console::{DebugConsole, LogLevel};
use sol_ui::debug::metrics::{FrameMetrics, PerformanceMetrics, MAX_HISTORY};
use sol_ui::debug::state::{DebugPanel, DebugState};
use sol_ui::debug::DebugOverlay;
use sol_ui::layer::Key;

#[test]
fn metrics_start_empty() {
    let m = PerformanceMetrics::new();
    assert!(m.latest().is_none());
    assert_eq!(m.average_frame_time(), 0);
    assert_eq!(m.history_len(), 0);
    assert!(m.graph_visible());
    assert!(m.details_visible());
}

#[test]
fn metrics_record_a_frame() {
    let mut m = PerformanceMetrics::new();
    m.frame_start();
    m.record_layout_time(1_000);
    m.record_paint_time(2_000);
    m.record_culling_stats(3, 7);
    m.frame_end();
    let latest = *m.latest().unwrap();
    assert_eq!(latest.layout_time, 1_000);
    assert_eq!(latest.paint_time, 2_000);
    assert_eq!(latest.culled_count, 3);
    assert_eq!(latest.rendered_count, 7);
    assert_eq!(m.history_len(), 1);
    assert_eq!(m.average_frame_time(), latest.frame_time);
}

#[test]
fn metrics_frame_end_without_start_does_nothing() {
    let mut m = PerformanceMetrics::new();
    m.frame_end();
    assert_eq!(m.history_len(), 0);
    m.frame_start();
    m.frame_end();
    m.frame_end();
    assert_eq!(m.history_len(), 1);
}

#[test]
fn metrics_history_is_bounded() {
    let mut m = PerformanceMetrics::new();
    for i in 0..(MAX_HISTORY + 10) {
        m.frame_start();
        m.record_layout_time(i as u64);
        m.frame_end();
    }
    assert_eq!(m.history_len(), MAX_HISTORY);
    assert_eq!(m.latest().unwrap().layout_time, (MAX_HISTORY + 9) as u64);
}

#[test]
fn metrics_toggles() {
    let mut m = PerformanceMetrics::default();
    m.toggle_graph();
    assert!(!m.graph_visible());
    assert!(m.details_visible());
    m.toggle_details();
    assert!(!m.details_visible());
    m.toggle_graph();
    assert!(m.graph_visible());
}

#[test]
fn frame_metrics_default_is_zero() {
    let f = FrameMetrics::default();
    assert_eq!(f.frame_time, 0);
    assert_eq!(f.layout_time, 0);
    assert_eq!(f.paint_time, 0);
    assert_eq!(f.culled_count, 0);
    assert_eq!(f.rendered_count, 0);
}

#[test]
fn console_keeps_most_recent_messages() {
    let mut c = DebugConsole::new(2);
    c.info("one");
    c.warn("two");
    c.error("three");
    assert_eq!(c.len(), 2);
    let recent = c.recent_entries(5);
    let texts: Vec<&str> = recent.iter().map(|e| e.message.as_str()).collect();
    assert!(texts.contains(&"two"));
    assert!(texts.contains(&"three"));
    assert!(!texts.contains(&"one"));
}

#[test]
fn console_of_zero_capacity_keeps_latest() {
    let mut c = DebugConsole::new(0);
    c.info("a");
    c.info("b");
    assert_eq!(c.len(), 1);
}

#[test]
fn console_filters_by_level() {
    let mut c = DebugConsole::new(10);
    c.set_min_level(LogLevel::Warn);
    c.debug("quiet");
    c.info("quiet too");
    c.warn("loud");
    assert_eq!(c.len(), 1);
    c.clear();
    assert!(c.is_empty());
}

#[test]
fn debug_state_panels() {
    let mut s = DebugState::new();
    assert!(!s.is_enabled());
    assert!(s.is_panel_enabled(DebugPanel::Metrics));
    assert!(!s.is_panel_enabled(DebugPanel::Console));
    s.enable_panel(DebugPanel::Console);
    s.toggle_panel(DebugPanel::Metrics);
    assert_eq!(s.active_panels(), vec![DebugPanel::Console]);
    s.disable_panel(DebugPanel::Console);
    assert!(s.active_panels().is_empty());
    s.enable();
    assert!(s.is_enabled());
    s.toggle_enabled();
    assert!(!s.is_enabled());
    s.select_element(Some(9));
    assert_eq!(s.selected_element(), Some(9));
}

#[test]
fn overlay_keys() {
    let mut o = DebugOverlay::new();
    // function keys do nothing while debug mode is off
    assert!(!o.handle_key(Key::F1));
    assert!(!o.state().is_panel_enabled(DebugPanel::Bounds));
    assert!(o.handle_key(Key::F12));
    assert!(o.is_enabled());
    assert!(o.handle_key(Key::F1));
    assert!(o.state().is_panel_enabled(DebugPanel::Bounds));
    assert!(o.handle_key(Key::F4));
    assert!(!o.state().is_panel_enabled(DebugPanel::Metrics));
    assert!(!o.handle_key(Key::F7));
    assert!(o.handle_key(Key::F12));
    assert!(!o.is_enabled());
}

#[test]
fn overlay_logs_and_measures() {
    let mut o = DebugOverlay::default();
    o.info("hello");
    o.log(LogLevel::Error, "bad");
    assert_eq!(o.console().len(), 2);
    o.console_mut().clear();
    assert_eq!(o.console().len(), 0);
    o.frame_start();
    o.record_culling_stats(1, 2);
    o.frame_end();
    assert_eq!(o.metrics().latest().unwrap().rendered_count, 2);
    o.state_mut().enable();
    assert!(o.is_enabled());
}

#[test]
fn panel_names_and_shortcuts() {
    assert_eq!(DebugPanel::HitTest.name(), "Hit Test");
    assert_eq!(DebugPanel::Console.shortcut(), "F6");
}

#[test]
fn metrics_frame_history_in_order() {
    let mut m = PerformanceMetrics::new();
    for t in [5u64, 6, 7] {
        m.frame_start();
        m.record_paint_time(t);
        m.frame_end();
    }
    let paints: Vec<u64> = m.frame_history().iter().map(|f| f.paint_time).collect();
    assert_eq!(paints, vec![5, 6, 7]);
}

#[test]
fn metrics_frame_end_with_given_time() {
    let mut m = PerformanceMetrics::new();
    m.frame_end_with(5);
    assert_eq!(m.history_len(), 0);
    m.frame_start();
    m.record_layout_time(10);
    m.frame_end_with(1_500);
    let latest = *m.latest().unwrap();
    assert_eq!(latest.frame_time, 1_500);
    assert_eq!(latest.layout_time, 10);
    m.frame_end_with(9);
    assert_eq!(m.history_len(), 1);
    m.frame_start();
    m.frame_end_with(u128::MAX);
    assert_eq!(m.latest().unwrap().frame_time, u64::MAX);
    assert_eq!(m.history_len(), 2);
}
