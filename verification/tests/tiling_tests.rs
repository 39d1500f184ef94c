use display_dj::expose::{app_expose_split, expose_grid, expose_order, ExposeWindow};
use display_dj::tiling::{snap_step, SnapAction, SnapDrag, SnapEvent, SnapZone};
use display_dj::tiling::{snap_layout_name, snap_zone, EdgeHits, TilingLayout};

fn win(name: &str, pid: i32, id: u32) -> ExposeWindow {
    ExposeWindow { owner_name: name.into(), owner_pid: pid, window_id: id }
}

fn windows() -> Vec<ExposeWindow> {
    vec![
        win("Zed", 30, 1),
        win("alpha", 10, 2),
        win("Zed", 30, 3),
        win("Mail", 20, 4),
        win("alpha", 10, 5),
    ]
}

#[test]
fn expose_groups_windows_by_app_in_recent_order() {
    assert_eq!(expose_order(&windows(), false, 10), vec![1, 3, 2, 5, 4]);
    assert_eq!(expose_order(&windows(), false, 3), vec![1, 3, 2]);
    assert_eq!(expose_order(&[], false, 3), Vec::<u32>::new());
}

#[test]
fn expose_sorts_apps_by_lowercase_name() {
    assert_eq!(expose_order(&windows(), true, 10), vec![2, 5, 4, 1, 3]);
    let ties = vec![win("b", 1, 1), win("B", 2, 2), win("a", 3, 3)];
    assert_eq!(expose_order(&ties, true, 10), vec![3, 1, 2]);
}

#[test]
fn app_expose_keeps_frontmost_app() {
    let (mine, others) = app_expose_split(&windows(), 10);
    assert_eq!(mine, vec![1, 3]);
    assert_eq!(others, vec![(10, 2), (20, 4), (10, 5)]);
    let (mine, _) = app_expose_split(&windows(), 1);
    assert_eq!(mine, vec![1]);
    let (mine, others) = app_expose_split(&[], 4);
    assert!(mine.is_empty() && others.is_empty());
}

#[test]
fn expose_grid_sizes() {
    assert_eq!(expose_grid(1), (1, 1));
    assert_eq!(expose_grid(2), (2, 1));
    assert_eq!(expose_grid(4), (2, 2));
    assert_eq!(expose_grid(5), (3, 2));
    assert_eq!(expose_grid(9), (3, 3));
    assert_eq!(expose_grid(10), (4, 3));
}

fn hits() -> EdgeHits {
    EdgeHits {
        at_left: false,
        at_right: false,
        at_top: false,
        at_bottom: false,
        in_corner_top: false,
        in_corner_bottom: false,
        in_corner_left: false,
        in_corner_right: false,
    }
}

#[test]
fn snap_zones() {
    assert_eq!(snap_zone(hits()), None);
    assert_eq!(snap_zone(EdgeHits { at_left: true, ..hits() }), Some(TilingLayout::LeftHalf));
    assert_eq!(snap_zone(EdgeHits { at_right: true, ..hits() }), Some(TilingLayout::RightHalf));
    assert_eq!(snap_zone(EdgeHits { at_top: true, ..hits() }), Some(TilingLayout::Maximize));
    assert_eq!(snap_zone(EdgeHits { at_bottom: true, ..hits() }), None);
    assert_eq!(
        snap_zone(EdgeHits { at_left: true, in_corner_top: true, ..hits() }),
        Some(TilingLayout::TopLeftQuarter)
    );
    assert_eq!(
        snap_zone(EdgeHits { at_top: true, in_corner_right: true, ..hits() }),
        Some(TilingLayout::TopRightQuarter)
    );
    assert_eq!(
        snap_zone(EdgeHits { at_bottom: true, in_corner_left: true, ..hits() }),
        Some(TilingLayout::BottomLeftQuarter)
    );
    assert_eq!(
        snap_zone(EdgeHits { at_right: true, in_corner_bottom: true, ..hits() }),
        Some(TilingLayout::BottomRightQuarter)
    );
}

#[test]
fn snap_names_parse_back() {
    for l in [
        TilingLayout::LeftHalf,
        TilingLayout::RightHalf,
        TilingLayout::Maximize,
        TilingLayout::TopLeftQuarter,
        TilingLayout::TopRightQuarter,
        TilingLayout::BottomLeftQuarter,
        TilingLayout::BottomRightQuarter,
    ] {
        let name = snap_layout_name(l).unwrap();
        assert_eq!(TilingLayout::parse(name), Some(l));
    }
    assert_eq!(snap_layout_name(TilingLayout::CenterThird), None);
}

#[test]
fn drag_to_snap_gesture() {
    let idle = SnapDrag { dragging: false, shown: None };
    let left = SnapZone { layout: TilingLayout::LeftHalf, display: 0 };
    let (s, a) = snap_step(idle, SnapEvent::Down, true);
    assert_eq!(a, SnapAction::Begin);
    assert_eq!(s, SnapDrag { dragging: true, shown: None });
    let (s, a) = snap_step(s, SnapEvent::Dragged { zone: Some(left), has_displays: true }, true);
    assert_eq!(a, SnapAction::ShowPreview(left));
    let (s, a) = snap_step(s, SnapEvent::Dragged { zone: Some(left), has_displays: true }, true);
    assert_eq!(a, SnapAction::Nothing);
    let (s2, a) = snap_step(s, SnapEvent::Dragged { zone: None, has_displays: true }, true);
    assert_eq!(a, SnapAction::HidePreview);
    assert_eq!(s2.shown, None);
    let (s, a) = snap_step(s, SnapEvent::Up { moved: true }, true);
    assert_eq!(a, SnapAction::HideAndTile(TilingLayout::LeftHalf));
    assert_eq!(s, idle);
    let shown = SnapDrag { dragging: true, shown: Some(left) };
    assert_eq!(snap_step(shown, SnapEvent::Up { moved: false }, true).1, SnapAction::HidePreview);
    assert_eq!(snap_step(idle, SnapEvent::Dragged { zone: Some(left), has_displays: true }, true), (idle, SnapAction::Nothing));
    let thirds = SnapDrag { dragging: true, shown: Some(SnapZone { layout: TilingLayout::LeftThird, display: 1 }) };
    assert_eq!(snap_step(thirds, SnapEvent::Up { moved: true }, true).1, SnapAction::HidePreview);
    assert_eq!(snap_step(shown, SnapEvent::Other, true), (shown, SnapAction::Nothing));
    assert_eq!(snap_step(shown, SnapEvent::Up { moved: true }, false), (shown, SnapAction::Nothing));
    assert_eq!(snap_step(idle, SnapEvent::Down, false), (idle, SnapAction::Nothing));
}
