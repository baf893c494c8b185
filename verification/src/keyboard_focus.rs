//! Which surface gets keyboard focus: the compositor's priority chain over dialogs, the lock
//! screen, layer-shell surfaces and the layout, decided over the facts the compositor reads off
//! its surfaces.

use vstd::prelude::*;

verus! {

/// A layer-shell layer.
#[derive(Debug, Clone, Copy, PartialEq, Eq, Structural)]
pub enum Layer {
    Background,
    Bottom,
    Top,
    Overlay,
}

/// The facts keyboard focus is decided from. Layer lists are indexed by [`layer_index`].
#[derive(Debug, Clone, Copy, PartialEq, Eq)]
pub struct FocusFacts {
    pub exit_confirm_dialog_open: bool,
    pub locked: bool,
    pub screenshot_ui_open: bool,
    pub mru_open: bool,
    /// There is an active output (otherwise the layout gets focus with no surface).
    pub has_active_output: bool,
    pub overview_open: bool,
    /// The active monitor draws the layout above the top layer (a fullscreen window).
    pub render_above_top_layer: bool,
    /// The layer of the layer surface holding a popup grab, when it can take keyboard focus.
    pub grab_layer: Option<Layer>,
    /// Per layer, the first surface asking for exclusive keyboard focus (and not placed within
    /// the overview backdrop).
    pub exclusive: [Option<usize>; 4],
    /// Per layer, the surface that holds on-demand focus.
    pub on_demand: [Option<usize>; 4],
    /// The focused layout window, if any.
    pub layout_focus: Option<u64>,
}

/// Who gets keyboard focus.
#[derive(Debug, Clone, Copy, PartialEq, Eq, Structural)]
pub enum FocusChoice {
    ExitConfirmDialog,
    LockScreen,
    ScreenshotUi,
    Mru,
    Overview,
    /// The root surface of the popup grab on that layer.
    Grab(Layer),
    /// The surface at that index on that layer.
    LayerSurface(Layer, usize),
    /// The layout, with its focused window if any.
    Layout(Option<u64>),
}

pub open spec fn layer_index(l: Layer) -> int {
    match l {
        Layer::Background => 0,
        Layer::Bottom => 1,
        Layer::Top => 2,
        Layer::Overlay => 3,
    }
}

/// `a`, or else `b`.
pub open spec fn or_else(a: Option<FocusChoice>, b: Option<FocusChoice>) -> Option<FocusChoice> {
    match a {
        Some(c) => Some(c),
        None => b,
    }
}

pub open spec fn grab_on(f: FocusFacts, l: Layer) -> Option<FocusChoice> {
    if f.grab_layer == Some(l) {
        Some(FocusChoice::Grab(l))
    } else {
        None
    }
}

pub open spec fn exclusive_on(f: FocusFacts, l: Layer) -> Option<FocusChoice> {
    match f.exclusive[layer_index(l)] {
        Some(i) => Some(FocusChoice::LayerSurface(l, i)),
        None => None,
    }
}

pub open spec fn on_demand_on(f: FocusFacts, l: Layer) -> Option<FocusChoice> {
    match f.on_demand[layer_index(l)] {
        Some(i) => Some(FocusChoice::LayerSurface(l, i)),
        None => None,
    }
}

/// Exclusive focus on a layer is preferred over on-demand focus.
pub open spec fn focus_on(f: FocusFacts, l: Layer) -> Option<FocusChoice> {
    or_else(exclusive_on(f, l), on_demand_on(f, l))
}

pub open spec fn layout_on(f: FocusFacts) -> Option<FocusChoice> {
    match f.layout_focus {
        Some(w) => Some(FocusChoice::Layout(Some(w))),
        None => None,
    }
}

/// The layer and layout part of the chain, on an active output.
pub open spec fn output_focus_spec(f: FocusFacts) -> FocusChoice {
    let grabs = or_else(grab_on(f, Layer::Overlay), grab_on(f, Layer::Top));
    let grabs = if f.overview_open {
        grabs
    } else {
        or_else(or_else(grabs, grab_on(f, Layer::Bottom)), grab_on(f, Layer::Background))
    };
    let s = or_else(grabs, focus_on(f, Layer::Overlay));
    let s = if f.render_above_top_layer {
        or_else(
            or_else(or_else(or_else(s, layout_on(f)), focus_on(f, Layer::Top)), focus_on(f, Layer::Bottom)),
            focus_on(f, Layer::Background),
        )
    } else {
        let t = or_else(s, focus_on(f, Layer::Top));
        let t = if f.overview_open {
            Some(
                match t {
                    Some(c) => c,
                    None => FocusChoice::Overview,
                },
            )
        } else {
            t
        };
        let t = or_else(or_else(t, on_demand_on(f, Layer::Bottom)), on_demand_on(f, Layer::Background));
        let t = or_else(t, layout_on(f));
        or_else(or_else(t, exclusive_on(f, Layer::Bottom)), exclusive_on(f, Layer::Background))
    };
    match s {
        Some(c) => c,
        None => FocusChoice::Layout(None),
    }
}

/// Keyboard focus: the exit dialog, then the lock screen, the screenshot UI and the window
/// switcher; on an active output, popup grabs on the overlay and top layers (and, outside the
/// overview, the lower ones), then the overlay layer, then either the layout above the other
/// layers (under a fullscreen window) or the top layer, the overview, on-demand lower layers, the
/// layout, and exclusive lower layers, which only get focus when the layout has none.
pub open spec fn keyboard_focus_spec(f: FocusFacts) -> FocusChoice {
    if f.exit_confirm_dialog_open {
        FocusChoice::ExitConfirmDialog
    } else if f.locked {
        FocusChoice::LockScreen
    } else if f.screenshot_ui_open {
        FocusChoice::ScreenshotUi
    } else if f.mru_open {
        FocusChoice::Mru
    } else if f.has_active_output {
        output_focus_spec(f)
    } else {
        FocusChoice::Layout(None)
    }
}

fn or_else_exec(a: Option<FocusChoice>, b: Option<FocusChoice>) -> (r: Option<FocusChoice>)
    ensures
        r == or_else(a, b),
{
    match a {
        Some(c) => Some(c),
        None => b,
    }
}

fn layer_slot(l: Layer) -> (i: usize)
    ensures
        i == layer_index(l),
{
    match l {
        Layer::Background => 0,
        Layer::Bottom => 1,
        Layer::Top => 2,
        Layer::Overlay => 3,
    }
}

fn grab_on_exec(f: &FocusFacts, l: Layer) -> (r: Option<FocusChoice>)
    ensures
        r == grab_on(*f, l),
{
    if f.grab_layer == Some(l) {
        Some(FocusChoice::Grab(l))
    } else {
        None
    }
}

fn exclusive_on_exec(f: &FocusFacts, l: Layer) -> (r: Option<FocusChoice>)
    ensures
        r == exclusive_on(*f, l),
{
    match f.exclusive[layer_slot(l)] {
        Some(i) => Some(FocusChoice::LayerSurface(l, i)),
        None => None,
    }
}

fn on_demand_on_exec(f: &FocusFacts, l: Layer) -> (r: Option<FocusChoice>)
    ensures
        r == on_demand_on(*f, l),
{
    match f.on_demand[layer_slot(l)] {
        Some(i) => Some(FocusChoice::LayerSurface(l, i)),
        None => None,
    }
}

fn focus_on_exec(f: &FocusFacts, l: Layer) -> (r: Option<FocusChoice>)
    ensures
        r == focus_on(*f, l),
{
    or_else_exec(exclusive_on_exec(f, l), on_demand_on_exec(f, l))
}

/// Decides keyboard focus from the compositor's facts.
pub fn keyboard_focus_choice(f: &FocusFacts) -> (c: FocusChoice)
    ensures
        c == keyboard_focus_spec(*f),
{
    if f.exit_confirm_dialog_open {
        return FocusChoice::ExitConfirmDialog;
    }
    if f.locked {
        return FocusChoice::LockScreen;
    }
    if f.screenshot_ui_open {
        return FocusChoice::ScreenshotUi;
    }
    if f.mru_open {
        return FocusChoice::Mru;
    }
    if !f.has_active_output {
        return FocusChoice::Layout(None);
    }
    let layout = match f.layout_focus {
        Some(w) => Some(FocusChoice::Layout(Some(w))),
        None => None,
    };
    let mut s = or_else_exec(grab_on_exec(f, Layer::Overlay), grab_on_exec(f, Layer::Top));
    if !f.overview_open {
        s = or_else_exec(s, grab_on_exec(f, Layer::Bottom));
        s = or_else_exec(s, grab_on_exec(f, Layer::Background));
    }
    s = or_else_exec(s, focus_on_exec(f, Layer::Overlay));
    if f.render_above_top_layer {
        s = or_else_exec(s, layout);
        s = or_else_exec(s, focus_on_exec(f, Layer::Top));
        s = or_else_exec(s, focus_on_exec(f, Layer::Bottom));
        s = or_else_exec(s, focus_on_exec(f, Layer::Background));
    } else {
        s = or_else_exec(s, focus_on_exec(f, Layer::Top));
        if f.overview_open {
            s = Some(
                match s {
                    Some(c) => c,
                    None => FocusChoice::Overview,
                },
            );
        }
        s = or_else_exec(s, on_demand_on_exec(f, Layer::Bottom));
        s = or_else_exec(s, on_demand_on_exec(f, Layer::Background));
        s = or_else_exec(s, layout);
        s = or_else_exec(s, exclusive_on_exec(f, Layer::Bottom));
        s = or_else_exec(s, exclusive_on_exec(f, Layer::Background));
    }
    match s {
        Some(c) => c,
        None => FocusChoice::Layout(None),
    }
}

/// The lock screen takes focus from everything but the exit dialog, and a layer surface on the
/// bottom or background layer with exclusive interactivity never takes focus from a focused layout
/// window while the layout is not drawn above the top layer.
pub proof fn lemma_focus_priorities(f: FocusFacts)
    ensures
        f.locked && !f.exit_confirm_dialog_open ==> keyboard_focus_spec(f) == FocusChoice::LockScreen,
        ({
            let c = keyboard_focus_spec(f);
            (!f.render_above_top_layer && f.layout_focus is Some && f.on_demand[0] is None
                && f.on_demand[1] is None) ==> !(c matches FocusChoice::LayerSurface(l, _) && (l
                == Layer::Bottom || l == Layer::Background))
        }),
{
}

/// The session-wide surfaces come first, in this order: the exit dialog, the lock screen, the
/// screenshot UI, the window switcher; without an active output the layout gets focus with no
/// window.
pub proof fn lemma_session_focus_order(f: FocusFacts)
    ensures
        f.exit_confirm_dialog_open ==> keyboard_focus_spec(f) == FocusChoice::ExitConfirmDialog,
        !f.exit_confirm_dialog_open && f.locked ==> keyboard_focus_spec(f) == FocusChoice::LockScreen,
        !f.exit_confirm_dialog_open && !f.locked && f.screenshot_ui_open ==> keyboard_focus_spec(f)
            == FocusChoice::ScreenshotUi,
        !f.exit_confirm_dialog_open && !f.locked && !f.screenshot_ui_open && f.mru_open
            ==> keyboard_focus_spec(f) == FocusChoice::Mru,
        !f.exit_confirm_dialog_open && !f.locked && !f.screenshot_ui_open && !f.mru_open
            && !f.has_active_output ==> keyboard_focus_spec(f) == FocusChoice::Layout(None),
{
}

/// On an active output with no session-wide surface up: a popup grab on the overlay or top
/// layer holds focus, as does one on a lower layer outside the overview; with no grab in force,
/// an overlay surface asking for keyboard focus (exclusive first, then on demand) gets it,
/// whatever the layout shows, a fullscreen window included.
pub proof fn lemma_grabs_then_overlay(f: FocusFacts)
    requires
        !f.exit_confirm_dialog_open,
        !f.locked,
        !f.screenshot_ui_open,
        !f.mru_open,
        f.has_active_output,
    ensures
        f.grab_layer == Some(Layer::Overlay) ==> keyboard_focus_spec(f) == FocusChoice::Grab(
            Layer::Overlay,
        ),
        f.grab_layer == Some(Layer::Top) ==> keyboard_focus_spec(f) == FocusChoice::Grab(Layer::Top),
        !f.overview_open && f.grab_layer == Some(Layer::Bottom) ==> keyboard_focus_spec(f)
            == FocusChoice::Grab(Layer::Bottom),
        !f.overview_open && f.grab_layer == Some(Layer::Background) ==> keyboard_focus_spec(f)
            == FocusChoice::Grab(Layer::Background),
        ({
            let no_grab = f.grab_layer is None || (f.overview_open && (f.grab_layer == Some(
                Layer::Bottom,
            ) || f.grab_layer == Some(Layer::Background)));
            &&& no_grab && f.exclusive[3] is Some ==> keyboard_focus_spec(f)
                == FocusChoice::LayerSurface(Layer::Overlay, f.exclusive[3]->0)
            &&& no_grab && f.exclusive[3] is None && f.on_demand[3] is Some ==> keyboard_focus_spec(
                f,
            ) == FocusChoice::LayerSurface(Layer::Overlay, f.on_demand[3]->0)
        }),
{
}

/// Below the grabs and the overlay layer: under a fullscreen window the focused window keeps
/// focus ahead of the top and lower layers; otherwise a top-layer surface asking for focus gets
/// it, then the overview, then on-demand lower layers, then the focused window, and exclusive
/// lower-layer surfaces only when no window is focused. Nothing at all leaves the layout
/// focused with no window.
pub proof fn lemma_layout_and_lower_layers(f: FocusFacts)
    requires
        !f.exit_confirm_dialog_open,
        !f.locked,
        !f.screenshot_ui_open,
        !f.mru_open,
        f.has_active_output,
        f.grab_layer is None,
        f.exclusive[3] is None,
        f.on_demand[3] is None,
    ensures
        f.render_above_top_layer && f.layout_focus is Some ==> keyboard_focus_spec(f)
            == FocusChoice::Layout(f.layout_focus),
        !f.render_above_top_layer && f.exclusive[2] is Some ==> keyboard_focus_spec(f)
            == FocusChoice::LayerSurface(Layer::Top, f.exclusive[2]->0),
        !f.render_above_top_layer && f.exclusive[2] is None && f.on_demand[2] is Some
            ==> keyboard_focus_spec(f) == FocusChoice::LayerSurface(Layer::Top, f.on_demand[2]->0),
        ({
            let top_quiet = f.exclusive[2] is None && f.on_demand[2] is None;
            &&& !f.render_above_top_layer && top_quiet && f.overview_open ==> keyboard_focus_spec(f)
                == FocusChoice::Overview
            &&& !f.render_above_top_layer && top_quiet && !f.overview_open && f.on_demand[1] is Some
                ==> keyboard_focus_spec(f) == FocusChoice::LayerSurface(Layer::Bottom, f.on_demand[1]->0)
            &&& !f.render_above_top_layer && top_quiet && !f.overview_open && f.on_demand[1] is None
                && f.on_demand[0] is None && f.layout_focus is Some ==> keyboard_focus_spec(f)
                == FocusChoice::Layout(f.layout_focus)
            &&& top_quiet && f.on_demand[1] is None && f.on_demand[0] is None && f.layout_focus is None
                && f.exclusive[1] is Some && !f.overview_open ==> keyboard_focus_spec(f)
                == FocusChoice::LayerSurface(Layer::Bottom, f.exclusive[1]->0)
            &&& top_quiet && f.on_demand[1] is None && f.on_demand[0] is None && f.layout_focus is None
                && f.exclusive[1] is None && f.exclusive[0] is None && !f.overview_open
                ==> keyboard_focus_spec(f) == FocusChoice::Layout(None)
        }),
{
}

/// When a newly focused window's focus timestamp is set.
#[derive(Debug, Clone, Copy, PartialEq, Eq, Structural)]
pub enum FocusStamp {
    /// Now.
    Now,
    /// After the focus has stayed put for this many milliseconds; a later focus change replaces
    /// the pending stamp.
    AfterDebounce(u64),
}

/// When a window that just got keyboard focus is stamped for the recent-windows list: at once
/// when it has never been stamped (it was just mapped) or there is no debounce, else only once the
/// debounce period has passed with the focus still there.
pub fn focus_stamp(has_timestamp: bool, debounce_ms: u32) -> (s: FocusStamp)
    ensures
        s == (if !has_timestamp || debounce_ms == 0 {
            FocusStamp::Now
        } else {
            FocusStamp::AfterDebounce(debounce_ms as u64)
        }),
{
    if !has_timestamp || debounce_ms == 0 {
        FocusStamp::Now
    } else {
        FocusStamp::AfterDebounce(debounce_ms as u64)
    }
}

} // verus!
