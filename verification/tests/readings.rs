use analog_viewer::cell::SharedReadingsCell;
use analog_viewer::errors::channel_name;
use analog_viewer::values::AnalogValues;

#[test]
fn fresh_cell_holds_uncommitted_sentinel() {
    let cell = SharedReadingsCell::new();
    let snapshot = cell.snapshot();
    assert!(!snapshot.committed);
    let v = snapshot.values;
    assert_eq!((v.a0, v.a1, v.a2, v.a3), (0, 0, 0, 0));
}

#[test]
fn publish_commits_whole_reading() {
    let cell = SharedReadingsCell::new();
    cell.publish(AnalogValues { a0: 1, a1: 2, a2: 3, a3: 4 });
    let snapshot = cell.snapshot();
    assert!(snapshot.committed);
    let v = snapshot.values;
    assert_eq!((v.a0, v.a1, v.a2, v.a3), (1, 2, 3, 4));
}

#[test]
fn later_publish_replaces_earlier() {
    let cell = SharedReadingsCell::new();
    cell.publish(AnalogValues { a0: 1, a1: 2, a2: 3, a3: 4 });
    cell.publish(AnalogValues { a0: 5, a1: 6, a2: 7, a3: 8 });
    let v = cell.snapshot().values;
    assert_eq!((v.a0, v.a1, v.a2, v.a3), (5, 6, 7, 8));
}

#[test]
fn text_rendering_of_small_values() {
    let v = AnalogValues { a0: 1, a1: 2, a2: 3, a3: 4 };
    assert_eq!(v.to_text(), "(a0: 1, a1: 2, a2: 3, a3: 4)");
}

#[test]
fn text_rendering_of_extremes() {
    let v = AnalogValues { a0: 0, a1: 65535, a2: 4095, a3: 100 };
    assert_eq!(v.to_text(), "(a0: 0, a1: 65535, a2: 4095, a3: 100)");
}

#[test]
fn render_bytes_matches_text() {
    let v = AnalogValues { a0: 12, a1: 0, a2: 700, a3: 65000 };
    assert_eq!(v.render_bytes(), v.to_text().into_bytes());
}

#[test]
fn sentinel_is_all_zero() {
    let v = AnalogValues::sentinel();
    assert_eq!((v.a0, v.a1, v.a2, v.a3), (0, 0, 0, 0));
}

#[test]
fn channel_names() {
    assert_eq!(channel_name(0), "a0");
    assert_eq!(channel_name(1), "a1");
    assert_eq!(channel_name(2), "a2");
    assert_eq!(channel_name(3), "a3");
}
