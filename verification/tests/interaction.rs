use iced_plot::controls::PlotControls;
use iced_plot::interaction::{
    hovered_point, upgrade_to_pick, AutoscaleKind, DragPhase, InteractionState, KeyboardEvent,
    PointerEvent, WheelAction, CTRL_MODIFIER, DOUBLE_CLICK_WINDOW_NS,
};
use iced_plot::message::{HoverPickEvent, PointId, ShapeId};

fn press(s: &mut InteractionState, c: &PlotControls, now_ns: u64) -> iced_plot::interaction::PointerEffects {
    s.handle_mouse_event(c, false, PointerEvent::LeftPressed { inside: true, now_ns })
}

#[test]
fn fresh_state_has_nothing_in_progress() {
    let s = InteractionState::new();
    assert!(!s.pan_active && !s.drag_active && !s.selection_active && !s.selection_moved);
    assert!(s.hover_enabled && s.pick_enabled);
    assert_eq!(s.last_click_ns, None);
    assert_eq!(s.modifiers, 0);
}

#[test]
fn single_click_starts_drag_pan_and_pick() {
    let c = PlotControls::default();
    let mut s = InteractionState::new();
    let fx = press(&mut s, &c, 1_000);
    assert_eq!(fx.publish_drag, Some(DragPhase::Start));
    assert!(fx.try_pick);
    assert!(fx.start_pan);
    assert!(!fx.needs_redraw);
    assert!(s.drag_active && s.pan_active);
    assert_eq!(s.last_click_ns, Some(1_000));

    let fx = s.handle_mouse_event(&c, false, PointerEvent::CursorMoved { inside: true });
    assert_eq!(fx.publish_drag, Some(DragPhase::Update));
    assert!(fx.pan_camera && fx.update_axis_links && fx.needs_redraw);

    let fx = s.handle_mouse_event(&c, false, PointerEvent::LeftReleased);
    assert_eq!(fx.publish_drag, Some(DragPhase::End));
    assert!(!s.drag_active && !s.pan_active);
    assert!(!fx.needs_redraw);
}

#[test]
fn drag_to_pan_disabled_drags_without_panning() {
    let mut c = PlotControls::default();
    c.pan.drag_to_pan = false;
    let mut s = InteractionState::new();
    let fx = press(&mut s, &c, 0);
    assert!(!fx.start_pan);
    assert!(s.drag_active && !s.pan_active);
}

#[test]
fn double_click_prefers_full_autoscale() {
    let mut c = PlotControls::default();
    c.zoom.double_click_autoscale_y = true;
    let mut s = InteractionState::new();
    press(&mut s, &c, 10_000_000);
    s.handle_mouse_event(&c, false, PointerEvent::LeftReleased);
    let fx = press(&mut s, &c, 10_000_000 + DOUBLE_CLICK_WINDOW_NS - 1);
    assert_eq!(fx.autoscale, Some(AutoscaleKind::Full));
    assert!(fx.needs_redraw);
    assert_eq!(fx.publish_drag, None);
    assert!(!s.drag_active);
}

#[test]
fn double_click_runs_y_only_autoscale_when_full_is_off() {
    let mut c = PlotControls::default();
    c.zoom.double_click_autoscale = false;
    c.zoom.double_click_autoscale_y = true;
    let mut s = InteractionState::new();
    press(&mut s, &c, 5);
    s.handle_mouse_event(&c, false, PointerEvent::LeftReleased);
    let fx = press(&mut s, &c, 100_000_005);
    assert_eq!(fx.autoscale, Some(AutoscaleKind::YOnly));
}

#[test]
fn clicks_at_the_window_edge_are_single_clicks() {
    let c = PlotControls::default();
    let mut s = InteractionState::new();
    press(&mut s, &c, 0);
    s.handle_mouse_event(&c, false, PointerEvent::LeftReleased);
    let fx = press(&mut s, &c, DOUBLE_CLICK_WINDOW_NS);
    assert_eq!(fx.autoscale, None);
    assert_eq!(fx.publish_drag, Some(DragPhase::Start));
}

#[test]
fn clock_going_backwards_counts_as_double_click() {
    let c = PlotControls::default();
    let mut s = InteractionState::new();
    press(&mut s, &c, 1_000_000_000);
    s.handle_mouse_event(&c, false, PointerEvent::LeftReleased);
    let fx = press(&mut s, &c, 10);
    assert_eq!(fx.autoscale, Some(AutoscaleKind::Full));
}

#[test]
fn press_outside_records_no_click() {
    let c = PlotControls::default();
    let mut s = InteractionState::new();
    let before = s;
    let fx = s.handle_mouse_event(&c, false, PointerEvent::LeftPressed { inside: false, now_ns: 7 });
    assert_eq!(s, before);
    assert_eq!(fx.publish_drag, None);
    assert!(!fx.needs_redraw);
}

#[test]
fn box_zoom_selection_lifecycle() {
    let c = PlotControls::default();
    let mut s = InteractionState::new();
    let fx = s.handle_mouse_event(&c, false, PointerEvent::RightPressed { inside: true });
    assert!(fx.start_selection && fx.needs_redraw);
    assert!(s.selection_active && !s.selection_moved);

    let fx = s.handle_mouse_event(&c, false, PointerEvent::CursorMoved { inside: true });
    assert!(fx.extend_selection && fx.needs_redraw);
    assert!(s.selection_moved);

    let fx = s.handle_mouse_event(&c, false, PointerEvent::RightReleased { dragged: true });
    assert!(fx.zoom_to_selection && fx.update_axis_links && fx.extend_selection);
    assert!(!s.selection_active && !s.selection_moved);
}

#[test]
fn small_box_selection_does_not_zoom() {
    let c = PlotControls::default();
    let mut s = InteractionState::new();
    s.handle_mouse_event(&c, false, PointerEvent::RightPressed { inside: true });
    let fx = s.handle_mouse_event(&c, false, PointerEvent::RightReleased { dragged: false });
    assert!(!fx.zoom_to_selection);
    assert!(fx.needs_redraw);
    assert!(!s.selection_active);
}

#[test]
fn box_zoom_disabled_ignores_right_press() {
    let mut c = PlotControls::default();
    c.zoom.box_zoom = false;
    let mut s = InteractionState::new();
    let fx = s.handle_mouse_event(&c, false, PointerEvent::RightPressed { inside: true });
    assert!(!fx.start_selection && !fx.needs_redraw);
    assert!(!s.selection_active);
}

#[test]
fn wheel_zooms_only_with_ctrl_held() {
    let c = PlotControls::default();
    let mut s = InteractionState::new();
    let fx = s.handle_mouse_event(&c, false, PointerEvent::WheelScrolled { inside: true, scroll_up: true });
    assert_eq!(fx.wheel, Some(WheelAction::Pan));

    let redraw = s.handle_keyboard_event(KeyboardEvent::ModifiersChanged(CTRL_MODIFIER));
    assert!(!redraw);
    assert_eq!(s.modifiers, CTRL_MODIFIER);
    let fx = s.handle_mouse_event(&c, false, PointerEvent::WheelScrolled { inside: true, scroll_up: true });
    assert_eq!(fx.wheel, Some(WheelAction::Zoom { zoom_in: true }));
    let fx = s.handle_mouse_event(&c, false, PointerEvent::WheelScrolled { inside: true, scroll_up: false });
    assert_eq!(fx.wheel, Some(WheelAction::Zoom { zoom_in: false }));
    assert!(fx.update_axis_links && fx.needs_redraw);
}

#[test]
fn shift_alone_does_not_zoom() {
    let c = PlotControls::default();
    let mut s = InteractionState::new();
    // shift (0b100) and alt (0b100 << 6), but no ctrl
    s.handle_keyboard_event(KeyboardEvent::ModifiersChanged(0b100 | (0b100 << 6)));
    let fx = s.handle_mouse_event(&c, false, PointerEvent::WheelScrolled { inside: true, scroll_up: true });
    assert_eq!(fx.wheel, Some(WheelAction::Pan));
    // ctrl together with other modifiers zooms
    s.handle_keyboard_event(KeyboardEvent::ModifiersChanged(0b100 | CTRL_MODIFIER));
    let fx = s.handle_mouse_event(&c, false, PointerEvent::WheelScrolled { inside: true, scroll_up: true });
    assert_eq!(fx.wheel, Some(WheelAction::Zoom { zoom_in: true }));
}

#[test]
fn wheel_with_scroll_pan_disabled_does_nothing_without_ctrl() {
    let mut c = PlotControls::default();
    c.pan.scroll_to_pan = false;
    let mut s = InteractionState::new();
    let fx = s.handle_mouse_event(&c, false, PointerEvent::WheelScrolled { inside: true, scroll_up: true });
    assert_eq!(fx.wheel, None);
    assert!(!fx.needs_redraw);
}

#[test]
fn wheel_outside_does_nothing() {
    let c = PlotControls::default();
    let mut s = InteractionState::new();
    s.handle_keyboard_event(KeyboardEvent::ModifiersChanged(CTRL_MODIFIER));
    let fx = s.handle_mouse_event(&c, false, PointerEvent::WheelScrolled { inside: false, scroll_up: true });
    assert_eq!(fx.wheel, None);
}

#[test]
fn other_keyboard_events_change_nothing() {
    let mut s = InteractionState::new();
    let before = s;
    assert!(!s.handle_keyboard_event(KeyboardEvent::Other));
    assert_eq!(s, before);
}

#[test]
fn leaving_the_plot_clears_the_hover() {
    let c = PlotControls::default();
    let mut s = InteractionState::new();
    s.hover_cached = true;
    let fx = s.handle_mouse_event(&c, false, PointerEvent::CursorMoved { inside: false });
    assert!(fx.needs_redraw);
    assert!(!s.hover_cached);
    let fx = s.handle_mouse_event(&c, false, PointerEvent::CursorMoved { inside: false });
    assert!(!fx.needs_redraw);

    s.hover_cached = true;
    let fx = s.handle_mouse_event(&c, false, PointerEvent::CursorLeft);
    assert!(fx.needs_redraw && !s.hover_cached);
}

#[test]
fn cursor_move_inside_requests_redraw_for_hover_and_crosshairs() {
    let c = PlotControls::default();
    let mut s = InteractionState::new();
    let fx = s.handle_mouse_event(&c, true, PointerEvent::CursorMoved { inside: true });
    assert!(fx.needs_redraw && fx.track_crosshairs);
    assert_eq!(fx.publish_drag, None);
    s.hover_enabled = false;
    let fx = s.handle_mouse_event(&c, false, PointerEvent::CursorMoved { inside: true });
    assert!(!fx.needs_redraw);
}

#[test]
fn pick_is_not_attempted_while_picking_is_off() {
    let mut c = PlotControls::default();
    let mut s = InteractionState::new();
    s.pick_enabled = false;
    assert!(!press(&mut s, &c, 0).try_pick);
    s.handle_mouse_event(&c, false, PointerEvent::LeftReleased);
    s.pick_enabled = true;
    c.pick.click_to_pick = false;
    assert!(!press(&mut s, &c, DOUBLE_CLICK_WINDOW_NS * 2).try_pick);
}

#[test]
fn hover_is_upgraded_to_pick() {
    let id = PointId { series_id: ShapeId(3), point_index: 9 };
    let other = PointId { series_id: ShapeId(4), point_index: 1 };
    assert_eq!(hovered_point(Some(HoverPickEvent::Hover(id))), Some(id));
    assert_eq!(hovered_point(Some(HoverPickEvent::Pick(id))), None);
    assert_eq!(hovered_point(Some(HoverPickEvent::ClearHover)), None);
    assert_eq!(hovered_point(None), None);
    assert_eq!(
        upgrade_to_pick(Some(HoverPickEvent::Hover(id)), Some(id)),
        Some(HoverPickEvent::Pick(id))
    );
    assert_eq!(upgrade_to_pick(None, Some(other)), Some(HoverPickEvent::Pick(other)));
    assert_eq!(
        upgrade_to_pick(Some(HoverPickEvent::ClearPick), None),
        Some(HoverPickEvent::ClearPick)
    );
}
