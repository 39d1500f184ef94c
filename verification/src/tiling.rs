//! Window tiling layouts and their names in key bindings and commands.
use vstd::prelude::*;

use crate::text::str_eq;

verus! {
/// A supported tiling layout.
#[derive(Clone, Copy, Debug, PartialEq, Eq, Structural)]
pub enum TilingLayout {
    /// Left half of the screen.
    LeftHalf,
    /// Right half.
    RightHalf,
    /// Top half.
    TopHalf,
    /// Bottom half.
    BottomHalf,
    /// Left third.
    LeftThird,
    /// Center third (columns).
    CenterThird,
    /// Right third.
    RightThird,
    /// Top third.
    TopThird,
    /// Middle third (rows).
    MiddleThird,
    /// Bottom third.
    BottomThird,
    /// Left two thirds.
    LeftTwoThirds,
    /// Right two thirds.
    RightTwoThirds,
    /// Top two thirds.
    TopTwoThirds,
    /// Bottom two thirds.
    BottomTwoThirds,
    /// Top-left quarter.
    TopLeftQuarter,
    /// Top-right quarter.
    TopRightQuarter,
    /// Bottom-left quarter.
    BottomLeftQuarter,
    /// Bottom-right quarter.
    BottomRightQuarter,
    /// The whole visible screen.
    Maximize,
}

/// The layout a camelCase name stands for; none for any other text
/// (names are case sensitive).
pub open spec fn layout_named(s: Seq<char>) -> Option<TilingLayout> {
    if s == "leftHalf"@ {
        Some(TilingLayout::LeftHalf)
    } else if s == "rightHalf"@ {
        Some(TilingLayout::RightHalf)
    } else if s == "topHalf"@ {
        Some(TilingLayout::TopHalf)
    } else if s == "bottomHalf"@ {
        Some(TilingLayout::BottomHalf)
    } else if s == "leftThird"@ {
        Some(TilingLayout::LeftThird)
    } else if s == "centerThird"@ {
        Some(TilingLayout::CenterThird)
    } else if s == "rightThird"@ {
        Some(TilingLayout::RightThird)
    } else if s == "topThird"@ {
        Some(TilingLayout::TopThird)
    } else if s == "middleThird"@ {
        Some(TilingLayout::MiddleThird)
    } else if s == "bottomThird"@ {
        Some(TilingLayout::BottomThird)
    } else if s == "leftTwoThirds"@ {
        Some(TilingLayout::LeftTwoThirds)
    } else if s == "rightTwoThirds"@ {
        Some(TilingLayout::RightTwoThirds)
    } else if s == "topTwoThirds"@ {
        Some(TilingLayout::TopTwoThirds)
    } else if s == "bottomTwoThirds"@ {
        Some(TilingLayout::BottomTwoThirds)
    } else if s == "topLeftQuarter"@ {
        Some(TilingLayout::TopLeftQuarter)
    } else if s == "topRightQuarter"@ {
        Some(TilingLayout::TopRightQuarter)
    } else if s == "bottomLeftQuarter"@ {
        Some(TilingLayout::BottomLeftQuarter)
    } else if s == "bottomRightQuarter"@ {
        Some(TilingLayout::BottomRightQuarter)
    } else if s == "maximize"@ {
        Some(TilingLayout::Maximize)
    } else {
        None
    }
}

impl TilingLayout {
    /// Parses a camelCase layout name.
    pub fn parse(s: &str) -> (res: Option<TilingLayout>)
        ensures
            res == layout_named(s@),
    {
        if str_eq(s, "leftHalf") {
            Some(TilingLayout::LeftHalf)
        } else if str_eq(s, "rightHalf") {
            Some(TilingLayout::RightHalf)
        } else if str_eq(s, "topHalf") {
            Some(TilingLayout::TopHalf)
        } else if str_eq(s, "bottomHalf") {
            Some(TilingLayout::BottomHalf)
        } else if str_eq(s, "leftThird") {
            Some(TilingLayout::LeftThird)
        } else if str_eq(s, "centerThird") {
            Some(TilingLayout::CenterThird)
        } else if str_eq(s, "rightThird") {
            Some(TilingLayout::RightThird)
        } else if str_eq(s, "topThird") {
            Some(TilingLayout::TopThird)
        } else if str_eq(s, "middleThird") {
            Some(TilingLayout::MiddleThird)
        } else if str_eq(s, "bottomThird") {
            Some(TilingLayout::BottomThird)
        } else if str_eq(s, "leftTwoThirds") {
            Some(TilingLayout::LeftTwoThirds)
        } else if str_eq(s, "rightTwoThirds") {
            Some(TilingLayout::RightTwoThirds)
        } else if str_eq(s, "topTwoThirds") {
            Some(TilingLayout::TopTwoThirds)
        } else if str_eq(s, "bottomTwoThirds") {
            Some(TilingLayout::BottomTwoThirds)
        } else if str_eq(s, "topLeftQuarter") {
            Some(TilingLayout::TopLeftQuarter)
        } else if str_eq(s, "topRightQuarter") {
            Some(TilingLayout::TopRightQuarter)
        } else if str_eq(s, "bottomLeftQuarter") {
            Some(TilingLayout::BottomLeftQuarter)
        } else if str_eq(s, "bottomRightQuarter") {
            Some(TilingLayout::BottomRightQuarter)
        } else if str_eq(s, "maximize") {
            Some(TilingLayout::Maximize)
        } else {
            None
        }
    }
}

/// The layout-name a snap gesture hands to the tiler: the snap layouts
/// (halves, maximize, quarters) have one; other layouts none.
pub open spec fn snap_layout_name_of(l: TilingLayout) -> Option<Seq<char>> {
    match l {
        TilingLayout::LeftHalf => Some("leftHalf"@),
        TilingLayout::RightHalf => Some("rightHalf"@),
        TilingLayout::Maximize => Some("maximize"@),
        TilingLayout::TopLeftQuarter => Some("topLeftQuarter"@),
        TilingLayout::TopRightQuarter => Some("topRightQuarter"@),
        TilingLayout::BottomLeftQuarter => Some("bottomLeftQuarter"@),
        TilingLayout::BottomRightQuarter => Some("bottomRightQuarter"@),
        _ => None,
    }
}

/// The layout name a finished snap gesture tiles with.
pub fn snap_layout_name(l: TilingLayout) -> (res: Option<&'static str>)
    ensures
        match snap_layout_name_of(l) {
            Some(n) => res matches Some(r) && r@ == n,
            None => res is None,
        },
{
    match l {
        TilingLayout::LeftHalf => Some("leftHalf"),
        TilingLayout::RightHalf => Some("rightHalf"),
        TilingLayout::Maximize => Some("maximize"),
        TilingLayout::TopLeftQuarter => Some("topLeftQuarter"),
        TilingLayout::TopRightQuarter => Some("topRightQuarter"),
        TilingLayout::BottomLeftQuarter => Some("bottomLeftQuarter"),
        TilingLayout::BottomRightQuarter => Some("bottomRightQuarter"),
        _ => None,
    }
}

/// A snap gesture tiles with the layout it showed: its name parses back to
/// that layout.
pub proof fn lemma_snap_name_parses_back(l: TilingLayout)
    ensures
        snap_layout_name_of(l) matches Some(n) ==> layout_named(n) == Some(l),
{
    match l {
        TilingLayout::LeftHalf => {
            reveal_strlit("leftHalf");
        },
        TilingLayout::RightHalf => {
            reveal_strlit("rightHalf");
            reveal_strlit("leftHalf");
            assert("rightHalf"@.len() != "leftHalf"@.len());
        },
        TilingLayout::Maximize => {
            reveal_strlit("maximize");
            reveal_strlit("leftHalf");
            assert("maximize"@[0] != "leftHalf"@[0]);
            reveal_strlit("rightHalf");
            assert("maximize"@.len() != "rightHalf"@.len());
            reveal_strlit("topHalf");
            assert("maximize"@.len() != "topHalf"@.len());
            reveal_strlit("bottomHalf");
            assert("maximize"@.len() != "bottomHalf"@.len());
            reveal_strlit("leftThird");
            assert("maximize"@.len() != "leftThird"@.len());
            reveal_strlit("centerThird");
            assert("maximize"@.len() != "centerThird"@.len());
            reveal_strlit("rightThird");
            assert("maximize"@.len() != "rightThird"@.len());
            reveal_strlit("topThird");
            assert("maximize"@[0] != "topThird"@[0]);
            reveal_strlit("middleThird");
            assert("maximize"@.len() != "middleThird"@.len());
            reveal_strlit("bottomThird");
            assert("maximize"@.len() != "bottomThird"@.len());
            reveal_strlit("leftTwoThirds");
            assert("maximize"@.len() != "leftTwoThirds"@.len());
            reveal_strlit("rightTwoThirds");
            assert("maximize"@.len() != "rightTwoThirds"@.len());
            reveal_strlit("topTwoThirds");
            assert("maximize"@.len() != "topTwoThirds"@.len());
            reveal_strlit("bottomTwoThirds");
            assert("maximize"@.len() != "bottomTwoThirds"@.len());
            reveal_strlit("topLeftQuarter");
            assert("maximize"@.len() != "topLeftQuarter"@.len());
            reveal_strlit("topRightQuarter");
            assert("maximize"@.len() != "topRightQuarter"@.len());
            reveal_strlit("bottomLeftQuarter");
            assert("maximize"@.len() != "bottomLeftQuarter"@.len());
            reveal_strlit("bottomRightQuarter");
            assert("maximize"@.len() != "bottomRightQuarter"@.len());
        },
        TilingLayout::TopLeftQuarter => {
            reveal_strlit("topLeftQuarter");
            reveal_strlit("leftHalf");
            assert("topLeftQuarter"@.len() != "leftHalf"@.len());
            reveal_strlit("rightHalf");
            assert("topLeftQuarter"@.len() != "rightHalf"@.len());
            reveal_strlit("topHalf");
            assert("topLeftQuarter"@.len() != "topHalf"@.len());
            reveal_strlit("bottomHalf");
            assert("topLeftQuarter"@.len() != "bottomHalf"@.len());
            reveal_strlit("leftThird");
            assert("topLeftQuarter"@.len() != "leftThird"@.len());
            reveal_strlit("centerThird");
            assert("topLeftQuarter"@.len() != "centerThird"@.len());
            reveal_strlit("rightThird");
            assert("topLeftQuarter"@.len() != "rightThird"@.len());
            reveal_strlit("topThird");
            assert("topLeftQuarter"@.len() != "topThird"@.len());
            reveal_strlit("middleThird");
            assert("topLeftQuarter"@.len() != "middleThird"@.len());
            reveal_strlit("bottomThird");
            assert("topLeftQuarter"@.len() != "bottomThird"@.len());
            reveal_strlit("leftTwoThirds");
            assert("topLeftQuarter"@.len() != "leftTwoThirds"@.len());
            reveal_strlit("rightTwoThirds");
            assert("topLeftQuarter"@[0] != "rightTwoThirds"@[0]);
            reveal_strlit("topTwoThirds");
            assert("topLeftQuarter"@.len() != "topTwoThirds"@.len());
            reveal_strlit("bottomTwoThirds");
            assert("topLeftQuarter"@.len() != "bottomTwoThirds"@.len());
        },
        TilingLayout::TopRightQuarter => {
            reveal_strlit("topRightQuarter");
            reveal_strlit("leftHalf");
            assert("topRightQuarter"@.len() != "leftHalf"@.len());
            reveal_strlit("rightHalf");
            assert("topRightQuarter"@.len() != "rightHalf"@.len());
            reveal_strlit("topHalf");
            assert("topRightQuarter"@.len() != "topHalf"@.len());
            reveal_strlit("bottomHalf");
            assert("topRightQuarter"@.len() != "bottomHalf"@.len());
            reveal_strlit("leftThird");
            assert("topRightQuarter"@.len() != "leftThird"@.len());
            reveal_strlit("centerThird");
            assert("topRightQuarter"@.len() != "centerThird"@.len());
            reveal_strlit("rightThird");
            assert("topRightQuarter"@.len() != "rightThird"@.len());
            reveal_strlit("topThird");
            assert("topRightQuarter"@.len() != "topThird"@.len());
            reveal_strlit("middleThird");
            assert("topRightQuarter"@.len() != "middleThird"@.len());
            reveal_strlit("bottomThird");
            assert("topRightQuarter"@.len() != "bottomThird"@.len());
            reveal_strlit("leftTwoThirds");
            assert("topRightQuarter"@.len() != "leftTwoThirds"@.len());
            reveal_strlit("rightTwoThirds");
            assert("topRightQuarter"@.len() != "rightTwoThirds"@.len());
            reveal_strlit("topTwoThirds");
            assert("topRightQuarter"@.len() != "topTwoThirds"@.len());
            reveal_strlit("bottomTwoThirds");
            assert("topRightQuarter"@[0] != "bottomTwoThirds"@[0]);
            reveal_strlit("topLeftQuarter");
            assert("topRightQuarter"@.len() != "topLeftQuarter"@.len());
        },
        TilingLayout::BottomLeftQuarter => {
            reveal_strlit("bottomLeftQuarter");
            reveal_strlit("leftHalf");
            assert("bottomLeftQuarter"@.len() != "leftHalf"@.len());
            reveal_strlit("rightHalf");
            assert("bottomLeftQuarter"@.len() != "rightHalf"@.len());
            reveal_strlit("topHalf");
            assert("bottomLeftQuarter"@.len() != "topHalf"@.len());
            reveal_strlit("bottomHalf");
            assert("bottomLeftQuarter"@.len() != "bottomHalf"@.len());
            reveal_strlit("leftThird");
            assert("bottomLeftQuarter"@.len() != "leftThird"@.len());
            reveal_strlit("centerThird");
            assert("bottomLeftQuarter"@.len() != "centerThird"@.len());
            reveal_strlit("rightThird");
            assert("bottomLeftQuarter"@.len() != "rightThird"@.len());
            reveal_strlit("topThird");
            assert("bottomLeftQuarter"@.len() != "topThird"@.len());
            reveal_strlit("middleThird");
            assert("bottomLeftQuarter"@.len() != "middleThird"@.len());
            reveal_strlit("bottomThird");
            assert("bottomLeftQuarter"@.len() != "bottomThird"@.len());
            reveal_strlit("leftTwoThirds");
            assert("bottomLeftQuarter"@.len() != "leftTwoThirds"@.len());
            reveal_strlit("rightTwoThirds");
            assert("bottomLeftQuarter"@.len() != "rightTwoThirds"@.len());
            reveal_strlit("topTwoThirds");
            assert("bottomLeftQuarter"@.len() != "topTwoThirds"@.len());
            reveal_strlit("bottomTwoThirds");
            assert("bottomLeftQuarter"@.len() != "bottomTwoThirds"@.len());
            reveal_strlit("topLeftQuarter");
            assert("bottomLeftQuarter"@.len() != "topLeftQuarter"@.len());
            reveal_strlit("topRightQuarter");
            assert("bottomLeftQuarter"@.len() != "topRightQuarter"@.len());
        },
        TilingLayout::BottomRightQuarter => {
            reveal_strlit("bottomRightQuarter");
            reveal_strlit("leftHalf");
            assert("bottomRightQuarter"@.len() != "leftHalf"@.len());
            reveal_strlit("rightHalf");
            assert("bottomRightQuarter"@.len() != "rightHalf"@.len());
            reveal_strlit("topHalf");
            assert("bottomRightQuarter"@.len() != "topHalf"@.len());
            reveal_strlit("bottomHalf");
            assert("bottomRightQuarter"@.len() != "bottomHalf"@.len());
            reveal_strlit("leftThird");
            assert("bottomRightQuarter"@.len() != "leftThird"@.len());
            reveal_strlit("centerThird");
            assert("bottomRightQuarter"@.len() != "centerThird"@.len());
            reveal_strlit("rightThird");
            assert("bottomRightQuarter"@.len() != "rightThird"@.len());
            reveal_strlit("topThird");
            assert("bottomRightQuarter"@.len() != "topThird"@.len());
            reveal_strlit("middleThird");
            assert("bottomRightQuarter"@.len() != "middleThird"@.len());
            reveal_strlit("bottomThird");
            assert("bottomRightQuarter"@.len() != "bottomThird"@.len());
            reveal_strlit("leftTwoThirds");
            assert("bottomRightQuarter"@.len() != "leftTwoThirds"@.len());
            reveal_strlit("rightTwoThirds");
            assert("bottomRightQuarter"@.len() != "rightTwoThirds"@.len());
            reveal_strlit("topTwoThirds");
            assert("bottomRightQuarter"@.len() != "topTwoThirds"@.len());
            reveal_strlit("bottomTwoThirds");
            assert("bottomRightQuarter"@.len() != "bottomTwoThirds"@.len());
            reveal_strlit("topLeftQuarter");
            assert("bottomRightQuarter"@.len() != "topLeftQuarter"@.len());
            reveal_strlit("topRightQuarter");
            assert("bottomRightQuarter"@.len() != "topRightQuarter"@.len());
            reveal_strlit("bottomLeftQuarter");
            assert("bottomRightQuarter"@.len() != "bottomLeftQuarter"@.len());
        },
        _ => {},
    }
}

/// Where the cursor stands relative to a display's edges (as the snap
/// detector measures it against the trigger distances).
#[derive(Clone, Copy, Debug, PartialEq, Eq, Structural)]
pub struct EdgeHits {
    pub at_left: bool,
    pub at_right: bool,
    pub at_top: bool,
    pub at_bottom: bool,
    pub in_corner_top: bool,
    pub in_corner_bottom: bool,
    pub in_corner_left: bool,
    pub in_corner_right: bool,
}

/// The snap zone of the cursor: corners first (an edge together with the
/// corner band of the adjacent edge), then the left and right edges, then
/// the top edge (maximize); none elsewhere.
pub open spec fn snap_zone_of(h: EdgeHits) -> Option<TilingLayout> {
    if h.at_left && h.in_corner_top || h.at_top && h.in_corner_left {
        Some(TilingLayout::TopLeftQuarter)
    } else if h.at_right && h.in_corner_top || h.at_top && h.in_corner_right {
        Some(TilingLayout::TopRightQuarter)
    } else if h.at_left && h.in_corner_bottom || h.at_bottom && h.in_corner_left {
        Some(TilingLayout::BottomLeftQuarter)
    } else if h.at_right && h.in_corner_bottom || h.at_bottom && h.in_corner_right {
        Some(TilingLayout::BottomRightQuarter)
    } else if h.at_left {
        Some(TilingLayout::LeftHalf)
    } else if h.at_right {
        Some(TilingLayout::RightHalf)
    } else if h.at_top {
        Some(TilingLayout::Maximize)
    } else {
        None
    }
}

/// Decides the snap zone from the cursor's edge hits.
pub fn snap_zone(h: EdgeHits) -> (res: Option<TilingLayout>)
    ensures
        res == snap_zone_of(h),
{
    if h.at_left && h.in_corner_top || h.at_top && h.in_corner_left {
        Some(TilingLayout::TopLeftQuarter)
    } else if h.at_right && h.in_corner_top || h.at_top && h.in_corner_right {
        Some(TilingLayout::TopRightQuarter)
    } else if h.at_left && h.in_corner_bottom || h.at_bottom && h.in_corner_left {
        Some(TilingLayout::BottomLeftQuarter)
    } else if h.at_right && h.in_corner_bottom || h.at_bottom && h.in_corner_right {
        Some(TilingLayout::BottomRightQuarter)
    } else if h.at_left {
        Some(TilingLayout::LeftHalf)
    } else if h.at_right {
        Some(TilingLayout::RightHalf)
    } else if h.at_top {
        Some(TilingLayout::Maximize)
    } else {
        None
    }
}

/// Where a drag snaps. An edge hit together with the corner band of an
/// adjacent edge is that corner's quarter (top corners before bottom ones,
/// left before right); otherwise the left edge is the left half, the right
/// edge the right half, the top edge maximizes, and the bottom edge alone
/// or no edge snaps to nothing.
pub proof fn lemma_snap_zone_corners_and_edges(h: EdgeHits)
    ensures
        (h.at_left && h.in_corner_top) || (h.at_top && h.in_corner_left) ==> snap_zone_of(h)
            == Some(TilingLayout::TopLeftQuarter),
        !((h.at_left && h.in_corner_top) || (h.at_top && h.in_corner_left)) && ((h.at_right
            && h.in_corner_top) || (h.at_top && h.in_corner_right)) ==> snap_zone_of(h) == Some(
            TilingLayout::TopRightQuarter,
        ),
        !(h.in_corner_top && (h.at_left || h.at_right)) && !(h.at_top && (h.in_corner_left
            || h.in_corner_right)) && ((h.at_left && h.in_corner_bottom) || (h.at_bottom
            && h.in_corner_left)) ==> snap_zone_of(h) == Some(TilingLayout::BottomLeftQuarter),
        !(h.in_corner_top && (h.at_left || h.at_right)) && !(h.at_top && (h.in_corner_left
            || h.in_corner_right)) && !((h.at_left && h.in_corner_bottom) || (h.at_bottom
            && h.in_corner_left)) && ((h.at_right && h.in_corner_bottom) || (h.at_bottom
            && h.in_corner_right)) ==> snap_zone_of(h) == Some(TilingLayout::BottomRightQuarter),
        !h.in_corner_top && !h.in_corner_bottom && !((h.at_top || h.at_bottom) && (h.in_corner_left
            || h.in_corner_right)) && h.at_left ==> snap_zone_of(h) == Some(TilingLayout::LeftHalf),
        !h.in_corner_top && !h.in_corner_bottom && !((h.at_top || h.at_bottom) && (h.in_corner_left
            || h.in_corner_right)) && !h.at_left && h.at_right ==> snap_zone_of(h) == Some(
            TilingLayout::RightHalf,
        ),
        !h.in_corner_left && !h.in_corner_right && !h.at_left && !h.at_right && h.at_top
            ==> snap_zone_of(h) == Some(TilingLayout::Maximize),
        !h.at_left && !h.at_right && !h.at_top ==> (snap_zone_of(h) is None <==> !(h.at_bottom && (
        h.in_corner_left || h.in_corner_right))),
{
}

/// Every zone a snap can pick has a layout name to tile with.
pub proof fn lemma_snap_zones_are_named(h: EdgeHits)
    ensures
        snap_zone_of(h) matches Some(l) ==> snap_layout_name_of(l) is Some,
{
}

// ------------------------------------------------------------------ drag-to-snap

/// A snap zone: the layout it tiles with and the display it is on.
#[derive(Clone, Copy, Debug, PartialEq, Eq, Structural)]
pub struct SnapZone {
    pub layout: TilingLayout,
    pub display: usize,
}

/// The drag-to-snap gesture's state: whether a mouse drag is under way and
/// the zone (layout and display index) whose preview is shown.
#[derive(Clone, Copy, Debug, PartialEq, Eq, Structural)]
pub struct SnapDrag {
    pub dragging: bool,
    pub shown: Option<SnapZone>,
}

/// A mouse event of the gesture, with what the platform measured for it.
#[derive(Clone, Copy, Debug, PartialEq, Eq, Structural)]
pub enum SnapEvent {
    /// The left button went down.
    Down,
    /// The mouse moved with the button held: the snap zone under the cursor
    /// (layout and display index), and whether any display is known.
    Dragged { zone: Option<SnapZone>, has_displays: bool },
    /// The left button went up: whether the focused window moved more than
    /// 10 points since the button went down.
    Up { moved: bool },
    /// Any other event.
    Other,
}

/// What the platform does after a gesture step.
#[derive(Clone, Copy, Debug, PartialEq, Eq, Structural)]
pub enum SnapAction {
    /// Nothing.
    Nothing,
    /// Remember the focused window's position and refresh the displays and
    /// tiling preferences.
    Begin,
    /// Show the preview of this zone.
    ShowPreview(SnapZone),
    /// Hide the preview.
    HidePreview,
    /// Hide the preview and tile the focused window with this layout.
    HideAndTile(TilingLayout),
}

/// The next state and action of the gesture: a button press starts a drag;
/// a drag over a zone other than the shown one shows it, and a drag off
/// every zone hides a shown preview (nothing happens outside a drag or with
/// no display known); releasing the button ends the drag, hides the preview
/// and, when a zone with a snap name was shown and the window moved, tiles
/// it; other events change nothing.
pub open spec fn snap_step_of(state: SnapDrag, ev: SnapEvent) -> (SnapDrag, SnapAction) {
    match ev {
        SnapEvent::Down => (SnapDrag { dragging: true, shown: None }, SnapAction::Begin),
        SnapEvent::Dragged { zone, has_displays } => if !state.dragging || !has_displays {
            (state, SnapAction::Nothing)
        } else {
            match zone {
                Some(z) => if state.shown != Some(z) {
                    (SnapDrag { shown: Some(z), ..state }, SnapAction::ShowPreview(z))
                } else {
                    (state, SnapAction::Nothing)
                },
                None => if state.shown is Some {
                    (SnapDrag { shown: None, ..state }, SnapAction::HidePreview)
                } else {
                    (state, SnapAction::Nothing)
                },
            }
        },
        SnapEvent::Up { moved } => {
            let next = SnapDrag { dragging: false, shown: None };
            match state.shown {
                Some(z) => if moved && snap_layout_name_of(z.layout) is Some {
                    (next, SnapAction::HideAndTile(z.layout))
                } else {
                    (next, SnapAction::HidePreview)
                },
                None => (next, SnapAction::HidePreview),
            }
        },
        SnapEvent::Other => (state, SnapAction::Nothing),
    }
}

/// One step of the drag-to-snap gesture; with tiling disabled every event
/// leaves the state as it is and does nothing.
pub fn snap_step(state: SnapDrag, ev: SnapEvent, enabled: bool) -> (res: (SnapDrag, SnapAction))
    ensures
        enabled ==> res == snap_step_of(state, ev),
        !enabled ==> res == (state, SnapAction::Nothing),
{
    if !enabled {
        return (state, SnapAction::Nothing);
    }
    match ev {
        SnapEvent::Down => (SnapDrag { dragging: true, shown: None }, SnapAction::Begin),
        SnapEvent::Dragged { zone, has_displays } => {
            if !state.dragging || !has_displays {
                return (state, SnapAction::Nothing);
            }
            match zone {
                Some(z) => {
                    let same = match state.shown {
                        Some(z0) => z0.layout == z.layout && z0.display == z.display,
                        None => false,
                    };
                    if !same {
                        (SnapDrag { dragging: state.dragging, shown: Some(z) }, SnapAction::ShowPreview(z))
                    } else {
                        (state, SnapAction::Nothing)
                    }
                },
                None => if state.shown.is_some() {
                    (SnapDrag { dragging: state.dragging, shown: None }, SnapAction::HidePreview)
                } else {
                    (state, SnapAction::Nothing)
                },
            }
        },
        SnapEvent::Up { moved } => {
            let next = SnapDrag { dragging: false, shown: None };
            match state.shown {
                Some(z) => if moved && snap_layout_name(z.layout).is_some() {
                    (next, SnapAction::HideAndTile(z.layout))
                } else {
                    (next, SnapAction::HidePreview)
                },
                None => (next, SnapAction::HidePreview),
            }
        },
        SnapEvent::Other => (state, SnapAction::Nothing),
    }
}

/// A gesture tiles only with a layout that has a snap name, only on a
/// button release, and only with the layout whose preview was shown; and a
/// preview is only ever shown during a drag (each step keeps that so).
pub proof fn lemma_snap_tiles_shown_named_layout(state: SnapDrag, ev: SnapEvent)
    ensures
        match snap_step_of(state, ev).1 {
            SnapAction::HideAndTile(l) => ev is Up && (state.shown matches Some(z) && z.layout == l)
                && snap_layout_name_of(l) is Some,
            _ => true,
        },
        (state.shown is Some ==> state.dragging) ==> (snap_step_of(state, ev).0.shown is Some
            ==> snap_step_of(state, ev).0.dragging),
{
}

} // verus!
