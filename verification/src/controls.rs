//! Controls for user interaction with the plot.

use vstd::prelude::*;

verus! {

/// Configures user interaction behavior of the plot widget.
#[derive(Debug, Clone, Copy, PartialEq, Eq, Structural)]
pub struct PlotControls {
    /// Controls how panning is performed.
    pub pan: PanControls,
    /// Controls how zooming is performed.
    pub zoom: ZoomControls,
    /// Controls how points are picked and cleared.
    pub pick: PickControls,
    /// Enables point highlighting while hovering.
    pub highlight_on_hover: bool,
    /// Shows the in-canvas controls/help UI (`?` button).
    pub show_controls_help: bool,
}

/// Configures panning interactions.
#[derive(Debug, Clone, Copy, PartialEq, Eq, Structural)]
pub struct PanControls {
    /// Enables panning using the mouse wheel or trackpad scroll gesture.
    pub scroll_to_pan: bool,
    /// Enables panning by dragging with the left mouse button.
    pub drag_to_pan: bool,
}

/// Configures zoom interactions.
#[derive(Debug, Clone, Copy, PartialEq, Eq, Structural)]
pub struct ZoomControls {
    /// Enables box zoom via right-button drag.
    pub box_zoom: bool,
    /// Enables zooming at cursor while Ctrl is held during scroll.
    pub scroll_with_ctrl: bool,
    /// Enables double-click reset/autoscale behavior.
    pub double_click_autoscale: bool,
    /// Enables double-click y-only autoscale behavior.
    ///
    /// If `double_click_autoscale` is also enabled, full autoscale takes precedence.
    pub double_click_autoscale_y: bool,
}

/// Configures pick interactions.
#[derive(Debug, Clone, Copy, PartialEq, Eq, Structural)]
pub struct PickControls {
    /// Enables picking by left-clicking a highlighted point.
    pub click_to_pick: bool,
    /// Enables clearing picked points with the Escape key.
    pub clear_on_escape: bool,
}

/// The pan controls that `Default` gives: both pan gestures enabled.
pub open spec fn default_pan_controls() -> PanControls {
    PanControls { scroll_to_pan: true, drag_to_pan: true }
}

/// The zoom controls that `Default` gives: everything but the y-only double-click
/// autoscale enabled.
pub open spec fn default_zoom_controls() -> ZoomControls {
    ZoomControls {
        box_zoom: true,
        scroll_with_ctrl: true,
        double_click_autoscale: true,
        double_click_autoscale_y: false,
    }
}

/// The pick controls that `Default` gives: both pick gestures enabled.
pub open spec fn default_pick_controls() -> PickControls {
    PickControls { click_to_pick: true, clear_on_escape: true }
}

/// The controls that `Default` gives.
pub open spec fn default_plot_controls() -> PlotControls {
    PlotControls {
        pan: default_pan_controls(),
        zoom: default_zoom_controls(),
        pick: default_pick_controls(),
        highlight_on_hover: true,
        show_controls_help: true,
    }
}

// In keeping with a batteries-included philosophy, most everything is enabled by default.
impl Default for PlotControls {
    fn default() -> (res: Self)
        ensures
            res == default_plot_controls(),
    {
        PlotControls {
            pan: PanControls::default(),
            zoom: ZoomControls::default(),
            pick: PickControls::default(),
            highlight_on_hover: true,
            show_controls_help: true,
        }
    }
}

impl Default for ZoomControls {
    fn default() -> (res: Self)
        ensures
            res == default_zoom_controls(),
    {
        ZoomControls {
            box_zoom: true,
            scroll_with_ctrl: true,
            double_click_autoscale: true,
            double_click_autoscale_y: false,
        }
    }
}

impl Default for PanControls {
    fn default() -> (res: Self)
        ensures
            res == default_pan_controls(),
    {
        PanControls { scroll_to_pan: true, drag_to_pan: true }
    }
}

impl Default for PickControls {
    fn default() -> (res: Self)
        ensures
            res == default_pick_controls(),
    {
        PickControls { click_to_pick: true, clear_on_escape: true }
    }
}

} // verus!
