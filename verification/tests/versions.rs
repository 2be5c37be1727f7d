use iced_plot::versions::{DataVersions, SyncPlan, VersionTracker};

#[test]
fn first_sync_uploads_data_but_not_highlight() {
    let v = DataVersions::new();
    assert_eq!((v.markers, v.images, v.lines, v.fills, v.highlight), (1, 1, 1, 1, 0));
    let mut t = VersionTracker::new();
    let plan = t.plan_sync(&v, false);
    assert_eq!(
        plan,
        SyncPlan {
            rebuild_images: true,
            rebuild_markers: true,
            rebuild_fills: true,
            rebuild_lines: true,
            rebuild_highlight: false,
        }
    );
    assert_eq!((t.images, t.markers, t.fills, t.lines, t.highlight), (1, 1, 1, 1, 0));
}

#[test]
fn second_sync_is_idle_until_something_changes() {
    let mut v = DataVersions::new();
    let mut t = VersionTracker::new();
    t.plan_sync(&v, false);
    let plan = t.plan_sync(&v, false);
    assert!(!plan.rebuild_images && !plan.rebuild_markers && !plan.rebuild_fills);
    assert!(!plan.rebuild_lines && !plan.rebuild_highlight);

    assert!(v.note_highlight_sync(true));
    let plan = t.plan_sync(&v, false);
    assert!(plan.rebuild_highlight);
    assert!(!plan.rebuild_images && !plan.rebuild_markers && !plan.rebuild_fills && !plan.rebuild_lines);

    assert!(!v.note_highlight_sync(false));
    assert_eq!(v.highlight, 1);

    v.bump_geometry();
    assert_eq!((v.markers, v.images, v.lines, v.fills, v.highlight), (2, 2, 2, 2, 1));
    let plan = t.plan_sync(&v, false);
    assert!(plan.rebuild_images && plan.rebuild_markers && plan.rebuild_fills && plan.rebuild_lines);
    assert!(!plan.rebuild_highlight);
}

#[test]
fn offset_change_rebuilds_everything() {
    let v = DataVersions::new();
    let mut t = VersionTracker::new();
    t.plan_sync(&v, false);
    let plan = t.plan_sync(&v, true);
    assert!(plan.rebuild_images && plan.rebuild_markers && plan.rebuild_fills);
    assert!(plan.rebuild_lines && plan.rebuild_highlight);
}

#[test]
fn versions_wrap_around() {
    let mut v = DataVersions { markers: u64::MAX, images: 5, lines: u64::MAX, fills: 0, highlight: u64::MAX };
    v.bump_geometry();
    assert_eq!((v.markers, v.images, v.lines, v.fills), (0, 6, 0, 1));
    v.note_highlight_sync(true);
    assert_eq!(v.highlight, 0);
}
