//! How the overlay is placed as a Wayland layer-shell surface, and which
//! pointer input region it gets for a click-through value.

use vstd::prelude::*;

use crate::app_state::{effect_of, next_click_through, AppState, Effect};
use crate::config::{Position, Settings};
use crate::ipc::Command;

verus! {

/// An edge of the output that a layer surface can be anchored to.
#[derive(Clone, Copy, Debug, PartialEq, Eq, Structural)]
pub enum Edge {
    Left,
    Right,
    Top,
    Bottom,
}

/// The layer-shell stacking layer of a surface.
#[derive(Clone, Copy, Debug, PartialEq, Eq, Structural)]
pub enum Layer {
    Background,
    Bottom,
    Top,
    Overlay,
}

/// Exclusive zone that asks the compositor not to move other surfaces
/// out of the way of this one.
pub const NO_EXCLUSIVE_ZONE: i32 = -1;

/// Everything the layer-shell setup of the overlay window decides.
#[derive(Clone, Copy, Debug, PartialEq, Eq, Structural)]
pub struct LayerSetup {
    /// Layer of the surface: above normal application windows.
    pub layer: Layer,
    /// The anchored top or bottom edge.
    pub vertical: Edge,
    /// The anchored left or right edge.
    pub horizontal: Edge,
    /// Margin in pixels on each of the two anchored edges.
    pub margin: i32,
    /// Exclusive zone of the surface.
    pub exclusive_zone: i32,
    /// Whether the surface may take keyboard focus.
    pub keyboard_focus: bool,
    /// Whether the input region is emptied as soon as the window is realized.
    pub empty_input_on_realize: bool,
}

/// The corner edges for a position: (top or bottom, left or right).
pub open spec fn corner_edges(position: Position) -> (Edge, Edge) {
    match position {
        Position::TopLeft => (Edge::Top, Edge::Left),
        Position::TopRight => (Edge::Top, Edge::Right),
        Position::BottomLeft => (Edge::Bottom, Edge::Left),
        Position::BottomRight => (Edge::Bottom, Edge::Right),
    }
}

/// Decides the layer-shell setup of the overlay window: top layer,
/// anchored to the two edges of the configured corner with the configured
/// margin on both, reserving no space, never taking keyboard focus, and
/// starting with an empty input region when click-through is on.
pub fn setup_plan(settings: &Settings, state: &AppState) -> (plan: LayerSetup)
    ensures
        plan.layer == Layer::Top,
        (plan.vertical, plan.horizontal) == corner_edges(settings.position),
        plan.vertical == Edge::Top <==> (settings.position == Position::TopLeft
            || settings.position == Position::TopRight),
        plan.vertical == Edge::Bottom <==> (settings.position == Position::BottomLeft
            || settings.position == Position::BottomRight),
        plan.horizontal == Edge::Left <==> (settings.position == Position::TopLeft
            || settings.position == Position::BottomLeft),
        plan.horizontal == Edge::Right <==> (settings.position == Position::TopRight
            || settings.position == Position::BottomRight),
        plan.margin == settings.margin,
        plan.exclusive_zone == NO_EXCLUSIVE_ZONE,
        !plan.keyboard_focus,
        plan.empty_input_on_realize == state.click_through,
{
    let (vertical, horizontal) = match settings.position {
        Position::TopLeft => (Edge::Top, Edge::Left),
        Position::TopRight => (Edge::Top, Edge::Right),
        Position::BottomLeft => (Edge::Bottom, Edge::Left),
        Position::BottomRight => (Edge::Bottom, Edge::Right),
    };
    LayerSetup {
        layer: Layer::Top,
        vertical,
        horizontal,
        margin: settings.margin,
        exclusive_zone: NO_EXCLUSIVE_ZONE,
        keyboard_focus: false,
        empty_input_on_realize: state.click_through,
    }
}

/// The two anchored edges are always one horizontal and one vertical
/// edge, and different positions are anchored to different corners.
pub proof fn lemma_corners_distinct(p: Position, q: Position)
    ensures
        corner_edges(p).0 == Edge::Top || corner_edges(p).0 == Edge::Bottom,
        corner_edges(p).1 == Edge::Left || corner_edges(p).1 == Edge::Right,
        corner_edges(p) == corner_edges(q) ==> p == q,
{
}

/// The pointer input region to give the overlay's surface.
#[derive(Clone, Copy, Debug, PartialEq, Eq, Structural)]
pub enum InputRegion {
    /// No input: the pointer passes through to the windows beneath.
    Empty,
    /// The whole window, `width` x `height` pixels from its top-left corner.
    Whole { width: i32, height: i32 },
    /// Leave the current region as it is.
    Keep,
}

/// The input region owed to a window of `width` x `height` pixels.
pub open spec fn region_for(click_through: bool, width: i32, height: i32) -> InputRegion {
    if click_through {
        InputRegion::Empty
    } else if width > 0 && height > 0 {
        InputRegion::Whole { width, height }
    } else {
        InputRegion::Keep
    }
}

/// The input region for a click-through value on a window of the given
/// size: empty when click-through is on; the whole window when it is off
/// and the window has a positive size; otherwise the region is kept.
pub fn click_through_region(click_through: bool, width: i32, height: i32) -> (r: InputRegion)
    ensures
        r == region_for(click_through, width, height),
        click_through <==> r == InputRegion::Empty,
        !click_through && width > 0 && height > 0 ==> r == (InputRegion::Whole { width, height }),
        !click_through && (width <= 0 || height <= 0) ==> r == InputRegion::Keep,
{
    if click_through {
        InputRegion::Empty
    } else if width > 0 && height > 0 {
        InputRegion::Whole { width, height }
    } else {
        InputRegion::Keep
    }
}

/// After a click-through command the window is handed the new state's
/// value, so the pointer passes through exactly when the state says so,
/// and with click-through off a window with a size receives input
/// everywhere.
pub proof fn lemma_region_follows_state(
    click_through: bool,
    command: Command,
    width: i32,
    height: i32,
)
    requires
        command == Command::Toggle || command == Command::Enable || command == Command::Disable,
    ensures
        ({
            let after = next_click_through(click_through, command);
            &&& effect_of(command, after) == Effect::ApplyClickThrough(after)
            &&& (region_for(after, width, height) == InputRegion::Empty <==> after)
            &&& (!after && width > 0 && height > 0) ==> region_for(after, width, height)
                == InputRegion::Whole { width, height }
        }),
{
}

/// The anchored corner is the one the position names: the top edge for
/// the two top positions, the bottom edge for the two bottom ones, the
/// left edge for the two left positions, the right edge for the two
/// right ones.
pub proof fn lemma_corner_follows_name(p: Position)
    ensures
        corner_edges(p).0 == Edge::Top <==> (p == Position::TopLeft || p == Position::TopRight),
        corner_edges(p).0 == Edge::Bottom <==> (p == Position::BottomLeft || p
            == Position::BottomRight),
        corner_edges(p).1 == Edge::Left <==> (p == Position::TopLeft || p == Position::BottomLeft),
        corner_edges(p).1 == Edge::Right <==> (p == Position::TopRight || p
            == Position::BottomRight),
{
}

/// The input region by window size: click-through always gives the empty
/// region and nothing else does; a whole-window region covers exactly
/// the window and is only ever given for a window of positive width and
/// height; with click-through off, a window of positive size gets the
/// whole-window region and any other window keeps its region.
pub proof fn lemma_region_by_size(click_through: bool, width: i32, height: i32)
    ensures
        region_for(click_through, width, height) == InputRegion::Empty <==> click_through,
        region_for(click_through, width, height) is Whole ==> ({
            &&& !click_through
            &&& width > 0
            &&& height > 0
            &&& region_for(click_through, width, height)->Whole_width == width
            &&& region_for(click_through, width, height)->Whole_height == height
        }),
        !click_through && width > 0 && height > 0 ==> region_for(click_through, width, height)
            is Whole,
        !click_through && (width <= 0 || height <= 0) ==> region_for(click_through, width, height)
            == InputRegion::Keep,
{
}

} // verus!
