use light_for_all_agent::status::Orientation;
use light_for_all_agent::window::{snap_position, widget_size, MonitorArea, SnapDebounce, SNAP_DISTANCE};

fn monitor() -> MonitorArea {
    MonitorArea { x: 0, y: 0, width: 1920, height: 1080 }
}

#[test]
fn widget_size_horizontal() {
    assert_eq!(widget_size(1920, 1080, Orientation::Horizontal), (192, 72));
    assert_eq!(widget_size(800, 600, Orientation::Horizontal), (120, 56));
    assert_eq!(widget_size(0, 0, Orientation::Horizontal), (120, 56));
}

#[test]
fn widget_size_vertical() {
    assert_eq!(widget_size(1920, 1080, Orientation::Vertical), (80, 196));
    assert_eq!(widget_size(800, 600, Orientation::Vertical), (44, 180));
    assert_eq!(widget_size(3840, 2160, Orientation::Vertical), (160, 392));
}

#[test]
fn widget_size_vertical_matches_float_division() {
    for h in [0u32, 1, 11, 989, 990, 1000, 1080, 1440, 2160, 65_535, 4_000_000, u32::MAX - 1, u32::MAX] {
        let expected = ((h as f64 / 5.5) as u32).max(180);
        assert_eq!(widget_size(1920, h, Orientation::Vertical).1, expected, "height {h}");
    }
}

#[test]
fn snap_keeps_interior_position() {
    assert_eq!(snap_position(monitor(), 192, 72, 500, 400), (500, 400));
}

#[test]
fn snap_pulls_onto_near_edges() {
    assert_eq!(snap_position(monitor(), 192, 72, 24, 10), (0, 0));
    assert_eq!(snap_position(monitor(), 192, 72, 25, 25), (25, 25));
    assert_eq!(snap_position(monitor(), 192, 72, 1920 - 192 - 24, 1080 - 72 - 3), (1728, 1008));
}

#[test]
fn snap_clamps_into_monitor() {
    assert_eq!(snap_position(monitor(), 192, 72, -500, 5000), (0, 1008));
    assert_eq!(snap_position(monitor(), 192, 72, 9000, -9000), (1728, 0));
}

#[test]
fn snap_on_offset_monitor() {
    let m = MonitorArea { x: -1920, y: 100, width: 1920, height: 1080 };
    assert_eq!(snap_position(m, 80, 196, -1000, 600), (-1000, 600));
    assert_eq!(snap_position(m, 80, 196, -1910, 110), (-1920, 100));
    assert_eq!(snap_position(m, 80, 196, 0, 2000), (-80, 984));
}

#[test]
fn snap_on_narrow_monitor_goes_to_far_edge() {
    let m = MonitorArea { x: 0, y: 0, width: 130, height: 1080 };
    assert_eq!(snap_position(m, 120, 56, 3, 500), (10, 500));
}

#[test]
fn snap_is_idempotent() {
    for (x, y) in [(-50, -50), (10, 10), (30, 30), (900, 500), (1700, 1000), (5000, 5000)] {
        let first = snap_position(monitor(), 192, 72, x, y);
        assert_eq!(snap_position(monitor(), 192, 72, first.0, first.1), first);
    }
}

#[test]
fn snapped_window_is_on_monitor() {
    for (x, y) in [(-50, -50), (10, 10), (900, 500), (5000, 5000)] {
        let (sx, sy) = snap_position(monitor(), 192, 72, x, y);
        assert!(0 <= sx && sx + 192 <= 1920);
        assert!(0 <= sy && sy + 72 <= 1080);
    }
    assert_eq!(SNAP_DISTANCE, 24);
}

#[test]
fn only_latest_move_snaps() {
    let mut d = SnapDebounce::new();
    let first = d.on_move();
    assert!(d.is_latest(first));
    let second = d.on_move();
    assert!(!d.is_latest(first));
    assert!(d.is_latest(second));
    assert_eq!(first, 1);
    assert_eq!(second, 2);
}
