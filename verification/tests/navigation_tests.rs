use lanta::layout::MappedWindow;
use lanta::navigation::{Center, Direction, Line};
use lanta::viewport::Viewport;

fn three_side_by_side() -> Vec<MappedWindow<u32>> {
    vec![
        MappedWindow { id: 0, vp: Viewport { x: 0, y: 35, width: 851, height: 1405 } },
        MappedWindow { id: 1, vp: Viewport { x: 854, y: 35, width: 851, height: 1405 } },
        MappedWindow { id: 2, vp: Viewport { x: 1708, y: 35, width: 851, height: 1405 } },
    ]
}

#[test]
fn horizontal_move_picks_the_nearest_candidate() {
    let windows = three_side_by_side();
    assert_eq!(
        Line().next_window(&Direction::Left, &windows[2].vp, &windows).unwrap().id,
        1
    );
    assert_eq!(
        Line().next_window(&Direction::Right, &windows[0].vp, &windows).unwrap().id,
        1
    );
    assert_eq!(
        Center().next_window(&Direction::Left, &windows[2].vp, &windows).unwrap().id,
        1
    );
    assert_eq!(
        Center().next_window(&Direction::Right, &windows[0].vp, &windows).unwrap().id,
        1
    );
}

#[test]
fn no_candidate_in_empty_direction() {
    let windows = three_side_by_side();
    assert!(Line().next_window(&Direction::Left, &windows[0].vp, &windows).is_none());
    assert!(Center().next_window(&Direction::Left, &windows[0].vp, &windows).is_none());
    assert!(Line().next_window(&Direction::Right, &windows[2].vp, &windows).is_none());
    assert!(Center().next_window(&Direction::Right, &windows[2].vp, &windows).is_none());
}

#[test]
fn center_policy_requires_the_cone() {
    // One window directly above the focus, one to the right: moving right
    // must not pick the one above, since it lies outside the cone.
    let focus = Viewport { x: 500, y: 500, width: 100, height: 100 };
    let windows = vec![
        MappedWindow { id: 0, vp: Viewport { x: 500, y: 0, width: 100, height: 100 } },
        MappedWindow { id: 1, vp: Viewport { x: 700, y: 500, width: 100, height: 100 } },
    ];
    assert_eq!(Center().next_window(&Direction::Right, &focus, &windows).unwrap().id, 1);
    assert_eq!(Center().next_window(&Direction::Up, &focus, &windows).unwrap().id, 0);
}

#[test]
fn line_policy_requires_straddling_span() {
    // A window whose horizontal span does not cover the focus centre does
    // not qualify when moving up.
    let focus = Viewport { x: 500, y: 500, width: 100, height: 100 };
    let windows = vec![
        MappedWindow { id: 0, vp: Viewport { x: 0, y: 0, width: 100, height: 100 } },
        MappedWindow { id: 1, vp: Viewport { x: 450, y: 100, width: 200, height: 100 } },
    ];
    assert_eq!(Line().next_window(&Direction::Up, &focus, &windows).unwrap().id, 1);
}
