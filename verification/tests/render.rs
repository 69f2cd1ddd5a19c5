use sol_ui::render::{CullingStats, DrawListPos};

#[test]
fn test_draw_list_pos() {
    let pos = DrawListPos(42);
    assert_eq!(pos.index(), 42);

    let copied_pos = pos;
    assert_eq!(copied_pos.index(), 42);
}

#[test]
fn culling_stats_default_is_empty() {
    let stats = CullingStats::default();
    assert_eq!(stats.culled_count, 0);
    assert_eq!(stats.rendered_count, 0);
    assert_eq!(stats.total_count(), 0);
}

#[test]
fn culling_stats_total_and_reset() {
    let mut stats = CullingStats { culled_count: 30, rendered_count: 70 };
    assert_eq!(stats.total_count(), 100);
    stats.reset();
    assert_eq!(stats.culled_count, 0);
    assert_eq!(stats.rendered_count, 0);
    assert_eq!(stats.total_count(), 0);
}
