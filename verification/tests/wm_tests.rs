use lanta::groups::Group;
use lanta::layout::{LayoutChoice, MappedWindow, StackLayout, ThreeColumn, TiledLayout};
use lanta::model::{CrtcChange, CrtcInfo, KeyCombo, WindowId, WindowType};
use lanta::navigation::Direction;
use lanta::viewport::{Strut, Viewport};
use lanta::wm::{Action, Command, NavStyle, WindowManager};

fn info(x: i16, y: i16, width: u16, height: u16) -> CrtcInfo {
    CrtcInfo { x, y, width, height }
}

fn layouts_with(choice: LayoutChoice) -> Vec<LayoutChoice> {
    vec![choice]
}

fn groups_named(names: &[&str], layout: &str, layouts: &Vec<LayoutChoice>) -> Vec<Group> {
    names
        .iter()
        .map(|n| Group::new(String::from(*n), &String::from(layout), layouts))
        .collect()
}

fn manage_normal(wm: &mut WindowManager, id: u32) -> Vec<Action> {
    wm.manage_window(WindowId(id), &vec![WindowType::Normal], Some(false), None)
}

fn has_configure(acts: &[Action], id: u32, vp: Viewport) -> bool {
    acts.iter().any(|a| *a == Action::Configure(WindowId(id), vp))
}

fn is_display_change(a: &Action) -> bool {
    matches!(a, Action::Unmap(_) | Action::Configure(_, _) | Action::MapWindow(_))
}

#[test]
fn managing_a_window_maps_and_focuses_it() {
    let layouts = layouts_with(LayoutChoice::Stack(StackLayout::new(String::from("stack"), 0)));
    let groups = groups_named(&["main"], "stack", &layouts);
    let mut wm = WindowManager::new(vec![], groups, layouts, vec![(1, info(0, 0, 800, 600))]);
    let acts = manage_normal(&mut wm, 42);
    assert!(acts.contains(&Action::EnableKeyEvents(WindowId(42))));
    assert!(acts.contains(&Action::EnableTracking(WindowId(42))));
    assert!(acts.contains(&Action::MapWindow(WindowId(42))));
    assert!(has_configure(&acts, 42, Viewport { x: 0, y: 0, width: 800, height: 600 }));
    assert!(acts.contains(&Action::Focus(Some(WindowId(42)))));
    assert_eq!(wm.focused_window(), Some(WindowId(42)));
}

#[test]
fn managing_twice_is_an_error_and_a_no_op() {
    let layouts = layouts_with(LayoutChoice::Stack(StackLayout::new(String::from("stack"), 0)));
    let groups = groups_named(&["main"], "stack", &layouts);
    let mut wm = WindowManager::new(vec![], groups, layouts, vec![(1, info(0, 0, 800, 600))]);
    manage_normal(&mut wm, 42);
    let acts = manage_normal(&mut wm, 42);
    assert!(acts.is_empty());
    assert_eq!(wm.placements().len(), 1);
}

#[test]
fn override_redirect_and_popup_types_stay_unmanaged() {
    let layouts = layouts_with(LayoutChoice::Stack(StackLayout::new(String::from("stack"), 0)));
    let groups = groups_named(&["main"], "stack", &layouts);
    let mut wm = WindowManager::new(vec![], groups, layouts, vec![(1, info(0, 0, 800, 600))]);
    let acts = wm.manage_window(WindowId(1), &vec![WindowType::Normal], Some(true), None);
    assert_eq!(acts, vec![Action::EnableKeyEvents(WindowId(1))]);
    let acts = wm.manage_window(WindowId(2), &vec![WindowType::Notification], Some(false), None);
    assert_eq!(acts, vec![Action::EnableKeyEvents(WindowId(2))]);
    let acts = wm.manage_window(WindowId(3), &vec![WindowType::Tooltip], Some(false), None);
    assert_eq!(acts, vec![Action::EnableKeyEvents(WindowId(3))]);
    let acts = wm.manage_window(WindowId(4), &vec![WindowType::Utility], Some(false), None);
    assert_eq!(acts, vec![Action::EnableKeyEvents(WindowId(4))]);
    let acts = wm.manage_window(WindowId(5), &vec![WindowType::Normal], None, None);
    assert_eq!(acts, vec![Action::EnableKeyEvents(WindowId(5))]);
    assert!(wm.placements().is_empty());
}

#[test]
fn a_dock_shrinks_every_viewport() {
    // Two stacked monitors; a dock reserving the bottom 1315 pixels of the
    // whole screen cuts the upper monitor down to 1405 rows.
    let layouts = layouts_with(LayoutChoice::Stack(StackLayout::new(String::from("stack"), 0)));
    let groups = groups_named(&["a", "b"], "stack", &layouts);
    let mut wm = WindowManager::new(
        vec![],
        groups,
        layouts,
        vec![(1, info(0, 0, 2560, 1440)), (2, info(0, 1440, 1920, 1280))],
    );
    manage_normal(&mut wm, 42);
    let strut = Strut {
        left: 0,
        right: 0,
        top: 0,
        bottom: 1315,
        left_start_y: 0,
        left_end_y: 0,
        right_start_y: 0,
        right_end_y: 0,
        top_start_x: 0,
        top_end_x: 0,
        bottom_start_x: 0,
        bottom_end_x: 2559,
    };
    let acts = wm.manage_window(WindowId(9), &vec![WindowType::Dock], Some(false), Some(strut));
    assert!(acts.contains(&Action::MapWindow(WindowId(9))));
    assert!(has_configure(&acts, 42, Viewport { x: 0, y: 0, width: 2560, height: 1405 }));
    assert_eq!(
        wm.placements(),
        vec![MappedWindow { id: WindowId(42), vp: Viewport { x: 0, y: 0, width: 2560, height: 1405 } }]
    );
}

#[test]
fn unmanaging_hides_the_window() {
    let layouts = layouts_with(LayoutChoice::Stack(StackLayout::new(String::from("stack"), 0)));
    let groups = groups_named(&["main"], "stack", &layouts);
    let mut wm = WindowManager::new(vec![], groups, layouts, vec![(1, info(0, 0, 800, 600))]);
    manage_normal(&mut wm, 42);
    let acts = wm.unmanage_window(WindowId(42));
    assert!(acts.contains(&Action::Unmap(WindowId(42))));
    assert!(wm.placements().is_empty());
    assert_eq!(wm.focused_window(), None);
}

#[test]
fn removal_focuses_the_nearest_remaining_window() {
    let layouts = layouts_with(LayoutChoice::Tiled(TiledLayout::new(String::from("tiled"), 0)));
    let groups = groups_named(&["main"], "tiled", &layouts);
    let mut wm = WindowManager::new(vec![], groups, layouts, vec![(1, info(0, 0, 900, 600))]);
    manage_normal(&mut wm, 1);
    manage_normal(&mut wm, 2);
    manage_normal(&mut wm, 3);
    // Focus the middle window, then unmanage it: the predecessor is
    // preferred.
    wm.on_enter_notify(WindowId(2));
    assert_eq!(wm.focused_window(), Some(WindowId(2)));
    wm.on_unmap_notify(WindowId(2));
    assert_eq!(wm.focused_window(), Some(WindowId(1)));
}

#[test]
fn reconcile_twice_issues_no_display_changes() {
    let layouts = layouts_with(LayoutChoice::Tiled(TiledLayout::new(String::from("tiled"), 2)));
    let groups = groups_named(&["main"], "tiled", &layouts);
    let mut wm = WindowManager::new(vec![], groups, layouts, vec![(1, info(0, 0, 1000, 500))]);
    manage_normal(&mut wm, 1);
    manage_normal(&mut wm, 2);
    let first = wm.refresh();
    assert!(first.iter().all(|a| !is_display_change(a)));
    let second = wm.refresh();
    assert!(second.iter().all(|a| !is_display_change(a)));
    assert!(second.contains(&Action::Focus(Some(WindowId(2)))));
}

#[test]
fn three_windows_in_three_columns_end_to_end() {
    let layouts = layouts_with(LayoutChoice::ThreeColumn(ThreeColumn::new(
        String::from("three"),
        2,
    )));
    let groups = groups_named(&["main"], "three", &layouts);
    let mut wm = WindowManager::new(vec![], groups, layouts, vec![(1, info(0, 0, 1000, 500))]);
    manage_normal(&mut wm, 1);
    manage_normal(&mut wm, 2);
    let acts = manage_normal(&mut wm, 3);
    // The first window's rectangle is unchanged from the two-window
    // arrangement, so the diff configures only the second and third.
    assert!(!acts.iter().any(|a| matches!(a, Action::Configure(WindowId(1), _))));
    assert!(has_configure(&acts, 2, Viewport { x: 334, y: 0, width: 332, height: 500 }));
    assert!(has_configure(&acts, 3, Viewport { x: 668, y: 0, width: 332, height: 500 }));
    assert!(acts.contains(&Action::MapWindow(WindowId(3))));
    assert_eq!(
        wm.placements(),
        vec![
            MappedWindow { id: WindowId(1), vp: Viewport { x: 0, y: 0, width: 332, height: 500 } },
            MappedWindow { id: WindowId(2), vp: Viewport { x: 334, y: 0, width: 332, height: 500 } },
            MappedWindow { id: WindowId(3), vp: Viewport { x: 668, y: 0, width: 332, height: 500 } },
        ]
    );
}

fn assert_injective(wm: &WindowManager) {
    let table = wm.output_groups();
    for i in 0..table.len() {
        for j in (i + 1)..table.len() {
            assert_ne!(table[i].1, table[j].1, "outputs {:?} share a group", table);
        }
    }
}

#[test]
fn output_group_assignment_stays_injective() {
    let layouts = layouts_with(LayoutChoice::Stack(StackLayout::new(String::from("stack"), 0)));
    let groups = groups_named(&["g0", "g1", "g2"], "stack", &layouts);
    let mut wm = WindowManager::new(
        vec![],
        groups,
        layouts,
        vec![(10, info(0, 0, 800, 600)), (11, info(800, 0, 800, 600))],
    );
    assert_injective(&wm);
    wm.switch_group(&String::from("g1"));
    assert_injective(&wm);
    wm.rotate_crtc();
    assert_injective(&wm);
    let add = CrtcChange {
        timestamp: 0,
        window: 0,
        crtc: 12,
        mode: 0,
        rotation: 0,
        x: 0,
        y: 600,
        width: 800,
        height: 600,
    };
    wm.on_crtc_change(&add);
    assert_injective(&wm);
    wm.switch_group(&String::from("g0"));
    assert_injective(&wm);
    let remove = CrtcChange { width: 0, height: 0, ..add };
    wm.on_crtc_change(&remove);
    assert_injective(&wm);
    wm.next_group();
    assert_injective(&wm);
    wm.prev_group();
    assert_injective(&wm);
}

#[test]
fn switching_groups_swaps_assignments() {
    let layouts = layouts_with(LayoutChoice::Stack(StackLayout::new(String::from("stack"), 0)));
    let groups = groups_named(&["g0", "g1"], "stack", &layouts);
    let mut wm = WindowManager::new(
        vec![],
        groups,
        layouts,
        vec![(10, info(0, 0, 800, 600)), (11, info(800, 0, 800, 600))],
    );
    assert_eq!(wm.output_groups(), vec![(10, 0), (11, 1)]);
    wm.switch_group(&String::from("g1"));
    assert_eq!(wm.output_groups(), vec![(10, 1), (11, 0)]);
}

#[test]
fn moving_the_focused_window_follows_it() {
    let layouts = layouts_with(LayoutChoice::Stack(StackLayout::new(String::from("stack"), 0)));
    let groups = groups_named(&["g0", "g1"], "stack", &layouts);
    let mut wm = WindowManager::new(vec![], groups, layouts, vec![(1, info(0, 0, 800, 600))]);
    manage_normal(&mut wm, 42);
    wm.move_focused_to_next_group();
    // The single output now shows the target group, which holds the window,
    // and the window stays focused there.
    assert_eq!(wm.current_group_index(), 1);
    assert_eq!(wm.placements().len(), 1);
    assert_eq!(wm.focused_window(), Some(WindowId(42)));
    wm.move_focused_to_prev_group();
    assert_eq!(wm.current_group_index(), 0);
    assert_eq!(wm.placements().len(), 1);
    assert_eq!(wm.focused_window(), Some(WindowId(42)));
}

#[test]
fn directional_focus_and_swap() {
    let layouts = layouts_with(LayoutChoice::Tiled(TiledLayout::new(String::from("tiled"), 0)));
    let groups = groups_named(&["main"], "tiled", &layouts);
    let mut wm = WindowManager::new(vec![], groups, layouts, vec![(1, info(0, 0, 900, 600))]);
    manage_normal(&mut wm, 1);
    manage_normal(&mut wm, 2);
    manage_normal(&mut wm, 3);
    assert_eq!(wm.focused_window(), Some(WindowId(3)));
    let acts = wm.focus_in_direction(NavStyle::Line, Direction::Left);
    assert_eq!(wm.focused_window(), Some(WindowId(2)));
    assert!(acts.contains(&Action::Focus(Some(WindowId(2)))));
    // Swapping right exchanges the middle and right windows' positions.
    wm.swap_in_direction(NavStyle::Center, Direction::Right);
    let placed = wm.placements();
    assert_eq!(placed[1].id, WindowId(3));
    assert_eq!(placed[2].id, WindowId(2));
    assert_eq!(wm.focused_window(), Some(WindowId(2)));
}

#[test]
fn swapping_within_the_group_exchanges_neighbours() {
    let layouts = layouts_with(LayoutChoice::Tiled(TiledLayout::new(String::from("tiled"), 0)));
    let groups = groups_named(&["main"], "tiled", &layouts);
    let mut wm = WindowManager::new(vec![], groups, layouts, vec![(1, info(0, 0, 900, 600))]);
    manage_normal(&mut wm, 1);
    manage_normal(&mut wm, 2);
    wm.on_enter_notify(WindowId(1));
    wm.swap_with_next_in_group();
    let placed = wm.placements();
    assert_eq!(placed[0].id, WindowId(2));
    assert_eq!(placed[1].id, WindowId(1));
    wm.swap_with_previous_in_group();
    let placed = wm.placements();
    assert_eq!(placed[0].id, WindowId(1));
    assert_eq!(placed[1].id, WindowId(2));
}

#[test]
fn rotating_focus_wraps_backwards() {
    let layouts = layouts_with(LayoutChoice::Tiled(TiledLayout::new(String::from("tiled"), 0)));
    let groups = groups_named(&["main"], "tiled", &layouts);
    let mut wm = WindowManager::new(vec![], groups, layouts, vec![(1, info(0, 0, 900, 600))]);
    manage_normal(&mut wm, 1);
    manage_normal(&mut wm, 2);
    manage_normal(&mut wm, 3);
    assert_eq!(wm.focused_window(), Some(WindowId(3)));
    wm.rotate_focus_in_group();
    assert_eq!(wm.focused_window(), Some(WindowId(2)));
    wm.rotate_focus_in_group();
    assert_eq!(wm.focused_window(), Some(WindowId(1)));
    // Rotating past the start wraps to the end.
    wm.rotate_focus_in_group();
    assert_eq!(wm.focused_window(), Some(WindowId(3)));
}

#[test]
fn close_focused_asks_the_server_only() {
    let layouts = layouts_with(LayoutChoice::Stack(StackLayout::new(String::from("stack"), 0)));
    let groups = groups_named(&["main"], "stack", &layouts);
    let mut wm = WindowManager::new(vec![], groups, layouts, vec![(1, info(0, 0, 800, 600))]);
    manage_normal(&mut wm, 42);
    let acts = wm.close_focused();
    assert_eq!(acts, vec![Action::CloseWindow(WindowId(42))]);
    // The record stays until the server reports destruction.
    assert_eq!(wm.placements().len(), 1);
    wm.on_destroy_notify(WindowId(42));
    assert!(wm.placements().is_empty());
}

#[test]
fn key_dispatch_runs_the_bound_command() {
    let layouts = layouts_with(LayoutChoice::Stack(StackLayout::new(String::from("stack"), 0)));
    let groups = groups_named(&["main"], "stack", &layouts);
    let combo = KeyCombo { mod_mask: 8, keysym: 0x71 };
    let keys = vec![(combo, Command::CloseFocused)];
    let mut wm = WindowManager::new(keys, groups, layouts, vec![(1, info(0, 0, 800, 600))]);
    manage_normal(&mut wm, 42);
    let acts = wm.on_key_press(combo);
    assert_eq!(acts, vec![Action::CloseWindow(WindowId(42))]);
    let acts = wm.on_key_press(KeyCombo { mod_mask: 0, keysym: 0x20 });
    assert!(acts.is_empty());
}

#[test]
fn spawn_command_yields_a_spawn_action() {
    let layouts = layouts_with(LayoutChoice::Stack(StackLayout::new(String::from("stack"), 0)));
    let groups = groups_named(&["main"], "stack", &layouts);
    let mut wm = WindowManager::new(vec![], groups, layouts, vec![(1, info(0, 0, 800, 600))]);
    let argv = vec![String::from("xterm"), String::from("-e"), String::from("top")];
    let acts = wm.run_command(Command::Spawn(argv.clone()));
    assert_eq!(acts, vec![Action::Spawn(argv)]);
}

#[test]
fn layout_cycling_changes_the_arrangement() {
    let layouts = vec![
        LayoutChoice::Tiled(TiledLayout::new(String::from("tiled"), 0)),
        LayoutChoice::Stack(StackLayout::new(String::from("stack"), 0)),
    ];
    let groups = groups_named(&["main"], "tiled", &layouts);
    let mut wm = WindowManager::new(vec![], groups, layouts, vec![(1, info(0, 0, 900, 600))]);
    manage_normal(&mut wm, 1);
    manage_normal(&mut wm, 2);
    assert_eq!(wm.placements().len(), 2);
    wm.group_cycle_layouts();
    // The stack layout shows only the focused window.
    assert_eq!(wm.placements().len(), 1);
    wm.group_cycle_layouts();
    assert_eq!(wm.placements().len(), 2);
}

#[test]
fn hot_plug_uses_the_lowest_unused_group() {
    let layouts = layouts_with(LayoutChoice::Stack(StackLayout::new(String::from("stack"), 0)));
    let groups = groups_named(&["g0", "g1", "g2"], "stack", &layouts);
    let mut wm = WindowManager::new(vec![], groups, layouts, vec![(10, info(0, 0, 800, 600))]);
    wm.next_group();
    assert_eq!(wm.output_groups(), vec![(10, 1)]);
    let add = CrtcChange {
        timestamp: 0,
        window: 0,
        crtc: 11,
        mode: 0,
        rotation: 0,
        x: 800,
        y: 0,
        width: 800,
        height: 600,
    };
    wm.on_crtc_change(&add);
    assert_eq!(wm.output_groups(), vec![(10, 1), (11, 0)]);
    // A report for a known output replaces its geometry in place.
    let update = CrtcChange { width: 1024, height: 768, ..add };
    wm.on_crtc_change(&update);
    assert_eq!(wm.output_groups(), vec![(10, 1), (11, 0)]);
}

#[test]
fn group_names_and_desktops_metadata() {
    let layouts = layouts_with(LayoutChoice::Stack(StackLayout::new(String::from("stack"), 0)));
    let groups = groups_named(&["alpha", "beta"], "stack", &layouts);
    let mut wm = WindowManager::new(vec![], groups, layouts, vec![(1, info(0, 0, 800, 600))]);
    assert_eq!(wm.group_names(), vec![String::from("alpha"), String::from("beta")]);
    assert_eq!(wm.current_group_index(), 0);
    manage_normal(&mut wm, 7);
    assert_eq!(wm.managed_windows(), vec![WindowId(7)]);
}

#[test]
fn unknown_layout_name_falls_back_to_the_first() {
    let layouts = vec![
        LayoutChoice::Tiled(TiledLayout::new(String::from("tiled"), 0)),
        LayoutChoice::Stack(StackLayout::new(String::from("stack"), 0)),
    ];
    let g = Group::new(String::from("main"), &String::from("missing"), &layouts);
    assert_eq!(g.layout_id, 0);
    let g = Group::new(String::from("main"), &String::from("stack"), &layouts);
    assert_eq!(g.layout_id, 1);
    assert_eq!(g.name(), &String::from("main"));
}

#[test]
fn impossible_dock_geometry_freezes_the_display() {
    // A dock whose strut exceeds the whole screen cannot be applied; the
    // reconciliation leaves the display untouched instead of inverting
    // rectangles.
    let layouts = layouts_with(LayoutChoice::Stack(StackLayout::new(String::from("stack"), 0)));
    let groups = groups_named(&["main"], "stack", &layouts);
    let mut wm = WindowManager::new(vec![], groups, layouts, vec![(1, info(0, 0, 800, 600))]);
    manage_normal(&mut wm, 42);
    let strut = Strut {
        left: 0,
        right: 0,
        top: 0,
        bottom: 2000,
        left_start_y: 0,
        left_end_y: 0,
        right_start_y: 0,
        right_end_y: 0,
        top_start_x: 0,
        top_end_x: 0,
        bottom_start_x: 0,
        bottom_end_x: 799,
    };
    wm.manage_window(WindowId(9), &vec![WindowType::Dock], Some(false), Some(strut));
    // The previously rendered placement is retained untouched.
    assert_eq!(wm.placements().len(), 1);
    assert_eq!(wm.refresh(), vec![Action::PublishDesktops]);
}

#[test]
fn each_new_window_takes_the_focus() {
    let layouts = layouts_with(LayoutChoice::Tiled(TiledLayout::new(String::from("tiled"), 0)));
    let groups = groups_named(&["main"], "tiled", &layouts);
    let mut wm = WindowManager::new(vec![], groups, layouts, vec![(1, info(0, 0, 900, 600))]);
    manage_normal(&mut wm, 1);
    assert_eq!(wm.focused_window(), Some(WindowId(1)));
    // A second window joins the group and becomes the focused window even
    // though the group already had one.
    manage_normal(&mut wm, 2);
    assert_eq!(wm.focused_window(), Some(WindowId(2)));
}

#[test]
fn moving_without_a_focused_window_is_a_no_op() {
    let layouts = layouts_with(LayoutChoice::Stack(StackLayout::new(String::from("stack"), 0)));
    let groups = groups_named(&["g0", "g1"], "stack", &layouts);
    let mut wm = WindowManager::new(vec![], groups, layouts, vec![(1, info(0, 0, 800, 600))]);
    let acts = wm.move_focused_to_next_group();
    assert!(acts.is_empty());
    assert_eq!(wm.current_group_index(), 0);
}

#[test]
fn moving_refocuses_the_source_group() {
    let layouts = layouts_with(LayoutChoice::Tiled(TiledLayout::new(String::from("tiled"), 0)));
    let groups = groups_named(&["g0", "g1"], "tiled", &layouts);
    let mut wm = WindowManager::new(vec![], groups, layouts, vec![(1, info(0, 0, 900, 600))]);
    manage_normal(&mut wm, 1);
    manage_normal(&mut wm, 2);
    // The focused second window moves away; its old group falls back to the
    // remaining window, found again when that group is shown.
    wm.move_focused_to_next_group();
    assert_eq!(wm.focused_window(), Some(WindowId(2)));
    wm.prev_group();
    assert_eq!(wm.current_group_index(), 0);
    assert_eq!(wm.focused_window(), Some(WindowId(1)));
}
