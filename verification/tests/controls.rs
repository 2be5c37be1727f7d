use iced_plot::controls::{PanControls, PickControls, PlotControls, ZoomControls};

#[test]
fn default_controls_enable_everything_but_y_only_autoscale() {
    let c = PlotControls::default();
    assert!(c.pan.scroll_to_pan);
    assert!(c.pan.drag_to_pan);
    assert!(c.zoom.box_zoom);
    assert!(c.zoom.scroll_with_ctrl);
    assert!(c.zoom.double_click_autoscale);
    assert!(!c.zoom.double_click_autoscale_y);
    assert!(c.pick.click_to_pick);
    assert!(c.pick.clear_on_escape);
    assert!(c.highlight_on_hover);
    assert!(c.show_controls_help);
}

#[test]
fn default_sub_controls_match_plot_controls_default() {
    let c = PlotControls::default();
    assert_eq!(c.pan, PanControls::default());
    assert_eq!(c.zoom, ZoomControls::default());
    assert_eq!(c.pick, PickControls::default());
}
