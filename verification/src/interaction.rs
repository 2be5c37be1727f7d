//! The plot's response to mouse and keyboard input.
//!
//! Every pointer event is reduced to a transition of [`InteractionState`] and a set
//! of [`PointerEffects`]: what the widget must then do to its camera, its overlays,
//! its picking state and the events it publishes. The camera arithmetic, the
//! hit-testing and the clock stay with the caller; which of them happen, and in
//! which state the widget is left, is decided here.

use vstd::prelude::*;

use crate::controls::PlotControls;
use crate::message::{HoverPickEvent, PointId};

verus! {

/// Two left clicks closer together than this many nanoseconds form a double click
/// (350 milliseconds).
pub const DOUBLE_CLICK_WINDOW_NS: u64 = 350_000_000;

/// The control key's flag in the keyboard modifier bits.
pub const CTRL_MODIFIER: u32 = 0x20;

/// The control key is among the held modifiers `bits`.
pub open spec fn ctrl_held(bits: u32) -> bool {
    bits & CTRL_MODIFIER == CTRL_MODIFIER
}

/// Tests the control flag of keyboard modifier bits through
/// `iced::keyboard::Modifiers::from_bits_truncate(bits).contains(Modifiers::CTRL)`.
///
/// Trusted: the contract claims that the call is true exactly when the `CTRL`
/// flag (`0b100 << 3` in iced's `Modifiers`) is set in `bits`;
/// `from_bits_truncate` keeps every known flag, `CTRL` among them, and
/// `contains` tests that all bits of its argument are set.
#[verifier::external_body]
fn modifiers_contain_ctrl(bits: u32) -> (res: bool)
    ensures
        res == ctrl_held(bits),
{
    iced::keyboard::Modifiers::from_bits_truncate(bits).contains(iced::keyboard::Modifiers::CTRL)
}

/// Interaction state of one plot widget.
#[derive(Debug, Clone, Copy, PartialEq, Eq, Structural)]
pub struct InteractionState {
    /// A right-button box selection is in progress.
    pub selection_active: bool,
    /// The cursor moved since the box selection started.
    pub selection_moved: bool,
    /// The left button is panning the camera.
    pub pan_active: bool,
    /// A left-button drag gesture is in progress.
    pub drag_active: bool,
    /// Time of the last left click inside the plot, in nanoseconds of a
    /// monotonic clock.
    pub last_click_ns: Option<u64>,
    /// A hovered point is cached by the picking state.
    pub hover_cached: bool,
    /// Hover picking is enabled.
    pub hover_enabled: bool,
    /// Click picking is enabled.
    pub pick_enabled: bool,
    /// Currently held keyboard modifiers, as iced's modifier bits.
    pub modifiers: u32,
}

/// A mouse event, with what the caller measured of it in screen space.
#[derive(Debug, Clone, Copy, PartialEq, Eq, Structural)]
pub enum PointerEvent {
    /// The cursor moved; `inside` tells whether the new position lies in the plot.
    CursorMoved { inside: bool },
    /// The cursor left the window.
    CursorLeft,
    /// The left button was pressed at time `now_ns`; `inside` tells whether the
    /// cursor is in the plot.
    LeftPressed { inside: bool, now_ns: u64 },
    /// The left button was released.
    LeftReleased,
    /// The right button was pressed; `inside` tells whether the cursor is in the plot.
    RightPressed { inside: bool },
    /// The right button was released; `dragged` tells whether the cursor lies
    /// more than the selection threshold away from where the selection started.
    RightReleased { dragged: bool },
    /// The wheel scrolled; `inside` tells whether the cursor is in the plot and
    /// `scroll_up` whether the vertical scroll amount is positive.
    WheelScrolled { inside: bool, scroll_up: bool },
    /// Any other mouse event.
    Other,
}

/// A keyboard event, as far as the plot reads it.
#[derive(Debug, Clone, Copy, PartialEq, Eq, Structural)]
pub enum KeyboardEvent {
    /// The held modifiers changed to these iced modifier bits.
    ModifiersChanged(u32),
    /// Any other keyboard event.
    Other,
}

/// Phase of a published drag event.
#[derive(Debug, Clone, Copy, PartialEq, Eq, Structural)]
pub enum DragPhase {
    /// A drag gesture started inside the plot.
    Start,
    /// The cursor moved while a drag is active.
    Update,
    /// The active drag gesture ended.
    End,
}

/// Kind of autoscale that a double click asks for.
#[derive(Debug, Clone, Copy, PartialEq, Eq, Structural)]
pub enum AutoscaleKind {
    /// Fit both axes to the data and update the axis links.
    Full,
    /// Fit the y axis to the data visible in the current x range and update the
    /// y axis link.
    YOnly,
}

/// What a wheel event does to the camera.
#[derive(Debug, Clone, Copy, PartialEq, Eq, Structural)]
pub enum WheelAction {
    /// Zoom around the cursor; in (half extents shrink) when `zoom_in`, else out.
    Zoom { zoom_in: bool },
    /// Pan the camera by the scroll amounts.
    Pan,
}

/// What the widget must do after a pointer event, in this order.
#[derive(Debug, Clone, Copy, PartialEq, Eq, Structural)]
pub struct PointerEffects {
    /// The plot must be redrawn.
    pub needs_redraw: bool,
    /// Move the crosshairs to the cursor.
    pub track_crosshairs: bool,
    /// Move the end of the box selection to the cursor.
    pub extend_selection: bool,
    /// Move the camera by the cursor's travel since the pan started.
    pub pan_camera: bool,
    /// Publish a drag event of this phase, when the cursor has data coordinates.
    pub publish_drag: Option<DragPhase>,
    /// Run this autoscale.
    pub autoscale: Option<AutoscaleKind>,
    /// Upgrade the hovered point, or failing that the point under the cursor,
    /// to a pick.
    pub try_pick: bool,
    /// Record the cursor and the camera center where the pan starts.
    pub start_pan: bool,
    /// Start the box selection at the cursor.
    pub start_selection: bool,
    /// Zoom the camera to the box selection.
    pub zoom_to_selection: bool,
    /// Apply this wheel action to the camera.
    pub wheel: Option<WheelAction>,
    /// Push the camera to the linked axes.
    pub update_axis_links: bool,
}

/// No effect at all.
pub open spec fn no_effects() -> PointerEffects {
    PointerEffects {
        needs_redraw: false,
        track_crosshairs: false,
        extend_selection: false,
        pan_camera: false,
        publish_drag: None,
        autoscale: None,
        try_pick: false,
        start_pan: false,
        start_selection: false,
        zoom_to_selection: false,
        wheel: None,
        update_axis_links: false,
    }
}

/// The state of a freshly created plot: nothing in progress, hover and pick
/// enabled, no modifier held.
pub open spec fn initial_interaction_state() -> InteractionState {
    InteractionState {
        selection_active: false,
        selection_moved: false,
        pan_active: false,
        drag_active: false,
        last_click_ns: None,
        hover_cached: false,
        hover_enabled: true,
        pick_enabled: true,
        modifiers: 0,
    }
}

/// A left press at `now_ns` follows the previous click by less than the
/// double-click window.
pub open spec fn is_double_click(s: InteractionState, now_ns: u64) -> bool {
    match s.last_click_ns {
        Some(prev) => (if now_ns >= prev { now_ns - prev } else { 0 }) < DOUBLE_CLICK_WINDOW_NS,
        None => false,
    }
}

/// Hover picking takes part in a cursor move: no pan or selection is running and
/// hovering is enabled.
pub open spec fn hover_tracking(s: InteractionState) -> bool {
    !s.pan_active && !s.selection_active && s.hover_enabled
}

/// Transition for a cursor move.
pub open spec fn on_cursor_moved(s: InteractionState, crosshairs_enabled: bool, inside: bool) -> (
    InteractionState,
    PointerEffects,
) {
    let left_plot = hover_tracking(s) && !inside;
    (
        InteractionState {
            selection_moved: s.selection_moved || s.selection_active,
            hover_cached: if left_plot { false } else { s.hover_cached },
            ..s
        },
        PointerEffects {
            needs_redraw: crosshairs_enabled || s.selection_active || s.pan_active || (
            hover_tracking(s) && (inside || s.hover_cached)),
            track_crosshairs: crosshairs_enabled,
            extend_selection: s.selection_active,
            pan_camera: s.pan_active,
            publish_drag: if s.drag_active { Some(DragPhase::Update) } else { None },
            update_axis_links: s.pan_active,
            ..no_effects()
        },
    )
}

/// Transition for the cursor leaving the window: the cached hover is dropped.
pub open spec fn on_cursor_left(s: InteractionState) -> (InteractionState, PointerEffects) {
    (
        InteractionState { hover_cached: false, ..s },
        PointerEffects { needs_redraw: s.hover_cached, ..no_effects() },
    )
}

/// Transition for a left press. Outside the plot it is ignored. A double click
/// asks for a full autoscale when that is enabled, else for a y-only autoscale
/// when that is enabled. A single click may pick, starts a drag, and starts a
/// pan when drag-to-pan is enabled.
pub open spec fn on_left_pressed(
    s: InteractionState,
    c: PlotControls,
    inside: bool,
    now_ns: u64,
) -> (InteractionState, PointerEffects) {
    if !inside {
        (s, no_effects())
    } else if is_double_click(s, now_ns) {
        let kind = if c.zoom.double_click_autoscale {
            Some(AutoscaleKind::Full)
        } else if c.zoom.double_click_autoscale_y {
            Some(AutoscaleKind::YOnly)
        } else {
            None
        };
        (
            InteractionState { last_click_ns: Some(now_ns), ..s },
            PointerEffects { needs_redraw: kind is Some, autoscale: kind, ..no_effects() },
        )
    } else {
        (
            InteractionState {
                last_click_ns: Some(now_ns),
                drag_active: true,
                pan_active: s.pan_active || c.pan.drag_to_pan,
                ..s
            },
            PointerEffects {
                try_pick: s.pick_enabled && c.pick.click_to_pick && !s.pan_active
                    && !s.selection_active,
                publish_drag: Some(DragPhase::Start),
                start_pan: c.pan.drag_to_pan,
                ..no_effects()
            },
        )
    }
}

/// Transition for a left release: the drag, if any, ends, and so does the pan.
pub open spec fn on_left_released(s: InteractionState) -> (InteractionState, PointerEffects) {
    (
        InteractionState { drag_active: false, pan_active: false, ..s },
        PointerEffects {
            publish_drag: if s.drag_active { Some(DragPhase::End) } else { None },
            ..no_effects()
        },
    )
}

/// Transition for a right press: with box zoom enabled and the cursor inside,
/// a box selection starts at the cursor.
pub open spec fn on_right_pressed(s: InteractionState, c: PlotControls, inside: bool) -> (
    InteractionState,
    PointerEffects,
) {
    if !c.zoom.box_zoom || !inside {
        (s, no_effects())
    } else {
        (
            InteractionState { selection_active: true, selection_moved: false, ..s },
            PointerEffects { start_selection: true, needs_redraw: true, ..no_effects() },
        )
    }
}

/// Transition for a right release: a running selection ends, zooming to the box
/// when it was dragged far enough.
pub open spec fn on_right_released(s: InteractionState, dragged: bool) -> (
    InteractionState,
    PointerEffects,
) {
    if !s.selection_active {
        (s, no_effects())
    } else {
        (
            InteractionState { selection_active: false, selection_moved: false, ..s },
            PointerEffects {
                extend_selection: true,
                zoom_to_selection: dragged,
                update_axis_links: dragged,
                needs_redraw: true,
                ..no_effects()
            },
        )
    }
}

/// Transition for a wheel event: inside the plot it zooms when Ctrl-scroll zoom is
/// enabled and Ctrl is held, else pans when scroll-to-pan is enabled.
pub open spec fn on_wheel(s: InteractionState, c: PlotControls, inside: bool, scroll_up: bool) -> (
    InteractionState,
    PointerEffects,
) {
    if !inside {
        (s, no_effects())
    } else if c.zoom.scroll_with_ctrl && ctrl_held(s.modifiers) {
        (
            s,
            PointerEffects {
                wheel: Some(WheelAction::Zoom { zoom_in: scroll_up }),
                update_axis_links: true,
                needs_redraw: true,
                ..no_effects()
            },
        )
    } else if c.pan.scroll_to_pan {
        (
            s,
            PointerEffects {
                wheel: Some(WheelAction::Pan),
                update_axis_links: true,
                needs_redraw: true,
                ..no_effects()
            },
        )
    } else {
        (s, no_effects())
    }
}

/// The transition of the interaction state machine for one pointer event.
pub open spec fn pointer_step(
    s: InteractionState,
    c: PlotControls,
    crosshairs_enabled: bool,
    event: PointerEvent,
) -> (InteractionState, PointerEffects) {
    match event {
        PointerEvent::CursorMoved { inside } => on_cursor_moved(s, crosshairs_enabled, inside),
        PointerEvent::CursorLeft => on_cursor_left(s),
        PointerEvent::LeftPressed { inside, now_ns } => on_left_pressed(s, c, inside, now_ns),
        PointerEvent::LeftReleased => on_left_released(s),
        PointerEvent::RightPressed { inside } => on_right_pressed(s, c, inside),
        PointerEvent::RightReleased { dragged } => on_right_released(s, dragged),
        PointerEvent::WheelScrolled { inside, scroll_up } => on_wheel(s, c, inside, scroll_up),
        PointerEvent::Other => (s, no_effects()),
    }
}

/// Builds the empty effect set.
fn nothing() -> (fx: PointerEffects)
    ensures
        fx == no_effects(),
{
    PointerEffects {
        needs_redraw: false,
        track_crosshairs: false,
        extend_selection: false,
        pan_camera: false,
        publish_drag: None,
        autoscale: None,
        try_pick: false,
        start_pan: false,
        start_selection: false,
        zoom_to_selection: false,
        wheel: None,
        update_axis_links: false,
    }
}

impl InteractionState {
    /// The state of a freshly created plot.
    pub fn new() -> (res: Self)
        ensures
            res == initial_interaction_state(),
    {
        InteractionState {
            selection_active: false,
            selection_moved: false,
            pan_active: false,
            drag_active: false,
            last_click_ns: None,
            hover_cached: false,
            hover_enabled: true,
            pick_enabled: true,
            modifiers: 0,
        }
    }

    /// Handles one mouse event and returns what the widget must do about it.
    pub fn handle_mouse_event(
        &mut self,
        controls: &PlotControls,
        crosshairs_enabled: bool,
        event: PointerEvent,
    ) -> (fx: PointerEffects)
        ensures
            (*final(self), fx) == pointer_step(*old(self), *controls, crosshairs_enabled, event),
            fx.wheel is Some ==> fx.needs_redraw && fx.update_axis_links,
            fx.update_axis_links ==> fx.needs_redraw,
            (fx.pan_camera || fx.zoom_to_selection || fx.autoscale is Some || fx.start_selection
                || fx.extend_selection || fx.track_crosshairs) ==> fx.needs_redraw,
    {
        let mut fx = nothing();
        match event {
            PointerEvent::CursorMoved { inside } => {
                if crosshairs_enabled {
                    fx.track_crosshairs = true;
                    fx.needs_redraw = true;
                }
                if self.selection_active {
                    fx.extend_selection = true;
                    self.selection_moved = true;
                    fx.needs_redraw = true;
                }
                if self.pan_active {
                    fx.pan_camera = true;
                    fx.update_axis_links = true;
                    fx.needs_redraw = true;
                }
                if self.drag_active {
                    fx.publish_drag = Some(DragPhase::Update);
                }
                if !self.pan_active && !self.selection_active && self.hover_enabled {
                    if !inside {
                        if self.hover_cached {
                            self.hover_cached = false;
                            fx.needs_redraw = true;
                        }
                        return fx;
                    } else {
                        fx.needs_redraw = true;
                    }
                }
            },
            PointerEvent::CursorLeft => {
                if self.hover_cached {
                    self.hover_cached = false;
                    fx.needs_redraw = true;
                }
            },
            PointerEvent::LeftPressed { inside, now_ns } => {
                if !inside {
                    return fx;
                }
                let double = match self.last_click_ns {
                    Some(prev) => now_ns.saturating_sub(prev) < DOUBLE_CLICK_WINDOW_NS,
                    None => false,
                };
                self.last_click_ns = Some(now_ns);
                if double {
                    if controls.zoom.double_click_autoscale {
                        fx.autoscale = Some(AutoscaleKind::Full);
                        fx.needs_redraw = true;
                    } else if controls.zoom.double_click_autoscale_y {
                        fx.autoscale = Some(AutoscaleKind::YOnly);
                        fx.needs_redraw = true;
                    }
                } else {
                    if self.pick_enabled && controls.pick.click_to_pick && !self.pan_active
                        && !self.selection_active {
                        fx.try_pick = true;
                    }
                    self.drag_active = true;
                    fx.publish_drag = Some(DragPhase::Start);
                    if controls.pan.drag_to_pan {
                        self.pan_active = true;
                        fx.start_pan = true;
                    }
                }
            },
            PointerEvent::LeftReleased => {
                if self.drag_active {
                    fx.publish_drag = Some(DragPhase::End);
                }
                self.drag_active = false;
                if self.pan_active {
                    self.pan_active = false;
                }
            },
            PointerEvent::RightPressed { inside } => {
                if !controls.zoom.box_zoom {
                    return fx;
                }
                if !inside {
                    return fx;
                }
                self.selection_active = true;
                fx.start_selection = true;
                self.selection_moved = false;
                fx.needs_redraw = true;
            },
            PointerEvent::RightReleased { dragged } => {
                if self.selection_active {
                    fx.extend_selection = true;
                    if dragged {
                        fx.zoom_to_selection = true;
                        fx.update_axis_links = true;
                    }
                    self.selection_active = false;
                    self.selection_moved = false;
                    fx.needs_redraw = true;
                }
            },
            PointerEvent::WheelScrolled { inside, scroll_up } => {
                if !inside {
                    return fx;
                }
                if controls.zoom.scroll_with_ctrl && modifiers_contain_ctrl(self.modifiers) {
                    fx.wheel = Some(WheelAction::Zoom { zoom_in: scroll_up });
                    fx.update_axis_links = true;
                    fx.needs_redraw = true;
                } else if controls.pan.scroll_to_pan {
                    fx.wheel = Some(WheelAction::Pan);
                    fx.update_axis_links = true;
                    fx.needs_redraw = true;
                }
            },
            PointerEvent::Other => {},
        }
        fx
    }

    /// Handles one keyboard event: a modifier change is recorded. Never asks for
    /// a redraw.
    pub fn handle_keyboard_event(&mut self, event: KeyboardEvent) -> (redraw: bool)
        ensures
            !redraw,
            *final(self) == (match event {
                KeyboardEvent::ModifiersChanged(bits) => InteractionState {
                    modifiers: bits,
                    ..*old(self)
                },
                KeyboardEvent::Other => *old(self),
            }),
    {
        if let KeyboardEvent::ModifiersChanged(bits) = event {
            self.modifiers = bits;
        }
        false
    }
}

/// The point that a published hover event names, if the published event is a hover.
pub fn hovered_point(published: Option<HoverPickEvent>) -> (res: Option<PointId>)
    ensures
        res == (match published {
            Some(HoverPickEvent::Hover(id)) => Some(id),
            _ => None,
        }),
{
    if let Some(HoverPickEvent::Hover(id)) = published {
        Some(id)
    } else {
        None
    }
}

/// The published hover/pick event after a click that picked `picked`: a pick of
/// that point, or the event unchanged when no point was picked.
pub fn upgrade_to_pick(published: Option<HoverPickEvent>, picked: Option<PointId>) -> (res: Option<
    HoverPickEvent,
>)
    ensures
        res == (match picked {
            Some(id) => Some(HoverPickEvent::Pick(id)),
            None => published,
        }),
{
    match picked {
        Some(id) => Some(HoverPickEvent::Pick(id)),
        None => published,
    }
}

/// With both double-click autoscale options enabled, a double click inside the
/// plot runs the full autoscale: full autoscale takes precedence over the y-only one.
pub proof fn lemma_double_click_full_autoscale_precedence(
    s: InteractionState,
    c: PlotControls,
    crosshairs_enabled: bool,
    now_ns: u64,
)
    requires
        c.zoom.double_click_autoscale,
        is_double_click(s, now_ns),
    ensures
        pointer_step(
            s,
            c,
            crosshairs_enabled,
            PointerEvent::LeftPressed { inside: true, now_ns },
        ).1.autoscale == Some(AutoscaleKind::Full),
{
}

/// Two left clicks inside the plot within the double-click window make a double
/// click: the second press starts no drag and runs the enabled autoscale, while
/// the first, when it follows no recent click, starts a drag.
pub proof fn lemma_two_quick_clicks_make_a_double_click(
    s: InteractionState,
    c: PlotControls,
    crosshairs_enabled: bool,
    t0: u64,
    t1: u64,
)
    requires
        t0 <= t1,
        t1 - t0 < DOUBLE_CLICK_WINDOW_NS,
    ensures
        ({
            let (s1, _) = pointer_step(
                s,
                c,
                crosshairs_enabled,
                PointerEvent::LeftPressed { inside: true, now_ns: t0 },
            );
            let (s2, _) = pointer_step(s1, c, crosshairs_enabled, PointerEvent::LeftReleased);
            let (_, fx) = pointer_step(
                s2,
                c,
                crosshairs_enabled,
                PointerEvent::LeftPressed { inside: true, now_ns: t1 },
            );
            &&& fx.publish_drag is None
            &&& fx.autoscale == (if c.zoom.double_click_autoscale {
                Some(AutoscaleKind::Full)
            } else if c.zoom.double_click_autoscale_y {
                Some(AutoscaleKind::YOnly)
            } else {
                None
            })
        }),
        !is_double_click(s, t0) ==> pointer_step(
            s,
            c,
            crosshairs_enabled,
            PointerEvent::LeftPressed { inside: true, now_ns: t0 },
        ).1.publish_drag == Some(DragPhase::Start),
{
}

/// A single click followed by cursor moves and a release publishes a drag
/// start, then updates, then an end, and leaves no drag or pan running.
pub proof fn lemma_drag_lifecycle(
    s: InteractionState,
    c: PlotControls,
    crosshairs_enabled: bool,
    now_ns: u64,
    inside_while_moving: bool,
)
    requires
        !is_double_click(s, now_ns),
    ensures
        ({
            let (s1, fx1) = pointer_step(
                s,
                c,
                crosshairs_enabled,
                PointerEvent::LeftPressed { inside: true, now_ns },
            );
            let (s2, fx2) = pointer_step(
                s1,
                c,
                crosshairs_enabled,
                PointerEvent::CursorMoved { inside: inside_while_moving },
            );
            let (s3, fx3) = pointer_step(s2, c, crosshairs_enabled, PointerEvent::LeftReleased);
            &&& fx1.publish_drag == Some(DragPhase::Start)
            &&& fx2.publish_drag == Some(DragPhase::Update)
            &&& fx3.publish_drag == Some(DragPhase::End)
            &&& !s3.drag_active
            &&& !s3.pan_active
            &&& fx2.pan_camera == (s.pan_active || c.pan.drag_to_pan)
        }),
{
}

/// A left release always leaves the widget with no drag and no pan running.
pub proof fn lemma_left_release_ends_drag_and_pan(
    s: InteractionState,
    c: PlotControls,
    crosshairs_enabled: bool,
)
    ensures
        !pointer_step(s, c, crosshairs_enabled, PointerEvent::LeftReleased).0.drag_active,
        !pointer_step(s, c, crosshairs_enabled, PointerEvent::LeftReleased).0.pan_active,
{
}

/// A right release always leaves no box selection, and zooms exactly when a
/// selection was running and was dragged.
pub proof fn lemma_right_release_ends_selection(
    s: InteractionState,
    c: PlotControls,
    crosshairs_enabled: bool,
    dragged: bool,
)
    ensures
        ({
            let (s1, fx) = pointer_step(
                s,
                c,
                crosshairs_enabled,
                PointerEvent::RightReleased { dragged },
            );
            &&& !s1.selection_active
            &&& fx.zoom_to_selection == (s.selection_active && dragged)
        }),
{
}

/// With box zoom disabled, a right press does nothing at all.
pub proof fn lemma_box_zoom_disabled_ignores_right_press(
    s: InteractionState,
    c: PlotControls,
    crosshairs_enabled: bool,
    inside: bool,
)
    requires
        !c.zoom.box_zoom,
    ensures
        pointer_step(s, c, crosshairs_enabled, PointerEvent::RightPressed { inside }) == (
            s,
            no_effects(),
        ),
{
}

/// Presses and wheel events outside the plot do nothing at all: they neither
/// change the state nor record a click.
pub proof fn lemma_outside_input_is_ignored(
    s: InteractionState,
    c: PlotControls,
    crosshairs_enabled: bool,
    now_ns: u64,
    scroll_up: bool,
)
    ensures
        pointer_step(
            s,
            c,
            crosshairs_enabled,
            PointerEvent::LeftPressed { inside: false, now_ns },
        ) == (s, no_effects()),
        pointer_step(s, c, crosshairs_enabled, PointerEvent::RightPressed { inside: false }) == (
            s,
            no_effects(),
        ),
        pointer_step(
            s,
            c,
            crosshairs_enabled,
            PointerEvent::WheelScrolled { inside: false, scroll_up },
        ) == (s, no_effects()),
{
}

/// The wheel zooms only with Ctrl-scroll zoom enabled and Ctrl held, in when
/// scrolled up and out when scrolled down, and pans only when it does not zoom
/// and scroll-to-pan is enabled. It leaves the interaction state as it is.
pub proof fn lemma_wheel_zoom_needs_ctrl(
    s: InteractionState,
    c: PlotControls,
    crosshairs_enabled: bool,
    inside: bool,
    scroll_up: bool,
)
    ensures
        ({
            let fx = pointer_step(
                s,
                c,
                crosshairs_enabled,
                PointerEvent::WheelScrolled { inside, scroll_up },
            ).1;
            &&& (fx.wheel matches Some(WheelAction::Zoom { .. })) <==> (inside
                && c.zoom.scroll_with_ctrl && ctrl_held(s.modifiers))
            &&& (fx.wheel == Some(WheelAction::Pan)) <==> (inside && !(c.zoom.scroll_with_ctrl
                && ctrl_held(s.modifiers)) && c.pan.scroll_to_pan)
            &&& forall|zoom_in: bool|
                fx.wheel == Some(WheelAction::Zoom { zoom_in }) ==> zoom_in == scroll_up
        }),
        pointer_step(s, c, crosshairs_enabled, PointerEvent::WheelScrolled { inside, scroll_up }).0
            == s,
{
}

/// Every effect that moves the camera or changes what the plot shows asks for a
/// redraw: a wheel zoom or pan, a drag pan, a zoom to the box selection, an
/// autoscale, a started or extended box selection and moved crosshairs. A wheel
/// action, whichever it is, also pushes the camera to the linked axes, and every
/// push to the linked axes comes with a redraw.
pub proof fn lemma_camera_changes_are_redrawn(
    s: InteractionState,
    c: PlotControls,
    crosshairs_enabled: bool,
    event: PointerEvent,
)
    ensures
        ({
            let fx = pointer_step(s, c, crosshairs_enabled, event).1;
            &&& fx.wheel is Some ==> fx.needs_redraw && fx.update_axis_links
            &&& fx.update_axis_links ==> fx.needs_redraw
            &&& fx.pan_camera ==> fx.needs_redraw && fx.update_axis_links
            &&& fx.zoom_to_selection ==> fx.needs_redraw && fx.update_axis_links
            &&& fx.autoscale is Some ==> fx.needs_redraw
            &&& fx.start_selection ==> fx.needs_redraw
            &&& fx.extend_selection ==> fx.needs_redraw
            &&& fx.track_crosshairs ==> fx.needs_redraw
        }),
{
}

/// A cursor move tracks the crosshairs exactly when they are enabled, extends a
/// running box selection (which then counts as moved), pans the camera and pushes
/// the axis links exactly while a pan runs, publishes a drag update exactly while
/// a drag runs. While hovering takes part, it redraws for a cursor inside the
/// plot, and for a cursor outside drops the cached hover, redrawing when there
/// was one; otherwise the cached hover stays. It starts and ends nothing.
pub proof fn lemma_cursor_move_effects(
    s: InteractionState,
    c: PlotControls,
    crosshairs_enabled: bool,
    inside: bool,
)
    ensures
        ({
            let (s1, fx) = pointer_step(
                s,
                c,
                crosshairs_enabled,
                PointerEvent::CursorMoved { inside },
            );
            &&& fx.track_crosshairs == crosshairs_enabled
            &&& fx.extend_selection == s.selection_active
            &&& fx.pan_camera == s.pan_active
            &&& fx.update_axis_links == s.pan_active
            &&& (fx.publish_drag == Some(DragPhase::Update)) == s.drag_active
            &&& fx.publish_drag != Some(DragPhase::Update) ==> fx.publish_drag is None
            &&& s.selection_active ==> s1.selection_moved
            &&& (inside && s.hover_enabled && !s.pan_active && !s.selection_active)
                ==> fx.needs_redraw
            &&& (!inside && s.hover_enabled && !s.pan_active && !s.selection_active)
                ==> !s1.hover_cached && (s.hover_cached ==> fx.needs_redraw)
            &&& (inside || !s.hover_enabled || s.pan_active || s.selection_active)
                ==> s1.hover_cached == s.hover_cached
            &&& s1.selection_active == s.selection_active
            &&& s1.pan_active == s.pan_active
            &&& s1.drag_active == s.drag_active
            &&& s1.last_click_ns == s.last_click_ns
            &&& !fx.start_pan && !fx.start_selection && !fx.zoom_to_selection && !fx.try_pick
            &&& fx.autoscale is None && fx.wheel is None
        }),
{
}

/// A single left click inside the plot (no double click) records the click,
/// starts a drag, starts a pan exactly when drag-to-pan is enabled, and tries a
/// pick exactly when picking is enabled in the state and the controls and no pan
/// or selection was running. It runs no autoscale.
pub proof fn lemma_single_click_effects(
    s: InteractionState,
    c: PlotControls,
    crosshairs_enabled: bool,
    now_ns: u64,
)
    requires
        !is_double_click(s, now_ns),
    ensures
        ({
            let (s1, fx) = pointer_step(
                s,
                c,
                crosshairs_enabled,
                PointerEvent::LeftPressed { inside: true, now_ns },
            );
            &&& s1.last_click_ns == Some(now_ns)
            &&& s1.drag_active
            &&& fx.publish_drag == Some(DragPhase::Start)
            &&& fx.start_pan == c.pan.drag_to_pan
            &&& c.pan.drag_to_pan ==> s1.pan_active
            &&& fx.try_pick == (s.pick_enabled && c.pick.click_to_pick && !s.pan_active
                && !s.selection_active)
            &&& fx.autoscale is None
        }),
{
}

/// A double click inside the plot records the click and starts no drag, pan or
/// pick; it redraws exactly when it runs an autoscale.
pub proof fn lemma_double_click_effects(
    s: InteractionState,
    c: PlotControls,
    crosshairs_enabled: bool,
    now_ns: u64,
)
    requires
        is_double_click(s, now_ns),
    ensures
        ({
            let (s1, fx) = pointer_step(
                s,
                c,
                crosshairs_enabled,
                PointerEvent::LeftPressed { inside: true, now_ns },
            );
            &&& s1.last_click_ns == Some(now_ns)
            &&& s1.drag_active == s.drag_active
            &&& s1.pan_active == s.pan_active
            &&& fx.publish_drag is None
            &&& !fx.start_pan
            &&& !fx.try_pick
            &&& fx.needs_redraw == (fx.autoscale is Some)
            &&& (fx.autoscale is Some) == (c.zoom.double_click_autoscale
                || c.zoom.double_click_autoscale_y)
        }),
{
}

/// A right press inside the plot with box zoom enabled starts a fresh box
/// selection at the cursor and redraws.
pub proof fn lemma_right_press_starts_selection(
    s: InteractionState,
    c: PlotControls,
    crosshairs_enabled: bool,
)
    requires
        c.zoom.box_zoom,
    ensures
        ({
            let (s1, fx) = pointer_step(
                s,
                c,
                crosshairs_enabled,
                PointerEvent::RightPressed { inside: true },
            );
            &&& s1.selection_active
            &&& !s1.selection_moved
            &&& fx.start_selection
            &&& fx.needs_redraw
        }),
{
}

/// Leaving the window drops the cached hover, and redraws exactly when one was cached.
pub proof fn lemma_cursor_left_clears_hover(
    s: InteractionState,
    c: PlotControls,
    crosshairs_enabled: bool,
)
    ensures
        !pointer_step(s, c, crosshairs_enabled, PointerEvent::CursorLeft).0.hover_cached,
        pointer_step(s, c, crosshairs_enabled, PointerEvent::CursorLeft).1.needs_redraw
            == s.hover_cached,
{
}

/// A pan only runs as part of a drag: every pointer event keeps "panning implies
/// dragging", which holds of a fresh plot.
pub proof fn lemma_pan_implies_drag(
    s: InteractionState,
    c: PlotControls,
    crosshairs_enabled: bool,
    event: PointerEvent,
)
    requires
        s.pan_active ==> s.drag_active,
    ensures
        pointer_step(s, c, crosshairs_enabled, event).0.pan_active ==> pointer_step(
            s,
            c,
            crosshairs_enabled,
            event,
        ).0.drag_active,
        initial_interaction_state().pan_active ==> initial_interaction_state().drag_active,
{
}

/// Pointer events never change the held modifiers, nor whether hovering and
/// picking are enabled.
pub proof fn lemma_pointer_events_keep_settings(
    s: InteractionState,
    c: PlotControls,
    crosshairs_enabled: bool,
    event: PointerEvent,
)
    ensures
        pointer_step(s, c, crosshairs_enabled, event).0.modifiers == s.modifiers,
        pointer_step(s, c, crosshairs_enabled, event).0.hover_enabled == s.hover_enabled,
        pointer_step(s, c, crosshairs_enabled, event).0.pick_enabled == s.pick_enabled,
{
}

} // verus!
