use lanta::viewport::{Strut, Viewport};

fn empty_strut() -> Strut {
    Strut {
        left: 0,
        right: 0,
        top: 0,
        bottom: 0,
        left_start_y: 0,
        left_end_y: 0,
        right_start_y: 0,
        right_end_y: 0,
        top_start_x: 0,
        top_end_x: 0,
        bottom_start_x: 0,
        bottom_end_x: 0,
    }
}

#[test]
fn top_strut_within_shrinks() {
    let vp = Viewport { x: 0, y: 0, width: 2560, height: 1440 };
    let strut = Strut { top: 35, top_start_x: 0, top_end_x: 2559, ..empty_strut() };
    assert_eq!(
        vp.without_strut(2560, 2720, &strut),
        Viewport { x: 0, y: 35, width: 2560, height: 1405 }
    )
}

#[test]
fn bottom_strut_within_shrinks() {
    let vp = Viewport { x: 0, y: 0, width: 2560, height: 1440 };
    let strut = Strut { bottom: 1315, bottom_start_x: 0, bottom_end_x: 2559, ..empty_strut() };
    assert_eq!(
        vp.without_strut(2560, 2720, &strut),
        Viewport { x: 0, y: 0, width: 2560, height: 1405 }
    )
}

#[test]
fn bottom_strut_outside_does_not_change() {
    let vp = Viewport { x: 0, y: 1440, width: 1920, height: 1280 };
    let strut = Strut { bottom: 1315, bottom_start_x: 0, bottom_end_x: 2559, ..empty_strut() };
    assert_eq!(
        vp.without_strut(2560, 2720, &strut),
        Viewport { x: 0, y: 1440, width: 1920, height: 1280 }
    )
}

#[test]
fn left_strut_clamps_the_left_edge() {
    let vp = Viewport { x: 0, y: 0, width: 800, height: 600 };
    let strut = Strut { left: 50, left_start_y: 0, left_end_y: 600, ..empty_strut() };
    assert_eq!(
        vp.without_strut(800, 600, &strut),
        Viewport { x: 50, y: 0, width: 750, height: 600 }
    )
}
