use lanta::model::WindowId;
use lanta::screen::{Dock, Screen};
use lanta::viewport::{Strut, Viewport};

fn bottom_strut() -> Strut {
    Strut {
        left: 0,
        right: 0,
        top: 0,
        bottom: 1315,
        left_start_y: 0,
        left_end_y: 0,
        right_start_y: 0,
        right_end_y: 0,
        top_start_x: 0,
        top_end_x: 0,
        bottom_start_x: 0,
        bottom_end_x: 2559,
    }
}

#[test]
fn top_dock_only_affects_top_monitor() {
    let vps = vec![
        Viewport { x: 0, y: 0, width: 2560, height: 1440 },
        Viewport { x: 0, y: 1440, width: 1920, height: 1280 },
    ];
    let mut screen = Screen::new();
    screen.add(Dock { window_id: WindowId(7), strut: Some(bottom_strut()) });
    assert_eq!(
        screen.viewports(vps),
        vec![
            Viewport { x: 0, y: 0, width: 2560, height: 1405 },
            Viewport { x: 0, y: 1440, width: 1920, height: 1280 },
        ]
    )
}

#[test]
fn dock_without_strut_contributes_nothing() {
    let vps = vec![Viewport { x: 0, y: 0, width: 1024, height: 768 }];
    let mut screen = Screen::new();
    screen.add(Dock { window_id: WindowId(1), strut: None });
    assert_eq!(screen.viewports(vps.clone()), vps);
}

#[test]
fn removed_dock_no_longer_applies() {
    let vps = vec![
        Viewport { x: 0, y: 0, width: 2560, height: 1440 },
        Viewport { x: 0, y: 1440, width: 1920, height: 1280 },
    ];
    let mut screen = Screen::new();
    screen.add(Dock { window_id: WindowId(7), strut: Some(bottom_strut()) });
    screen.remove_dock(WindowId(7));
    assert_eq!(screen.viewports(vps.clone()), vps);
}
