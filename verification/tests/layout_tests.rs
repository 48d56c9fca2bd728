use lanta::layout::{LayoutChoice, MappedWindow, StackLayout, ThreeColumn, TiledLayout};
use lanta::stack::Stack;
use lanta::viewport::Viewport;

fn vp(x: u32, y: u32, width: u32, height: u32) -> Viewport {
    Viewport { x, y, width, height }
}

#[test]
fn stack_layout_places_only_the_focused_window() {
    let layout = StackLayout::new(String::from("stack"), 10);
    let stack = Stack::from_parts(vec![1u32, 2, 3], 1);
    let placed = layout.layout(&vp(0, 0, 800, 600), &stack);
    assert_eq!(placed, vec![MappedWindow { id: 2, vp: vp(10, 10, 780, 580) }]);
}

#[test]
fn stack_layout_of_empty_stack_is_empty() {
    let layout = StackLayout::new(String::from("stack"), 10);
    let stack: Stack<u32> = Stack::new();
    assert_eq!(layout.layout(&vp(0, 0, 800, 600), &stack), vec![]);
}

#[test]
fn tiled_layout_splits_equal_columns() {
    // 1000 - 2 = 998 divides evenly among 2 columns: widths plus the
    // paddings between and around the columns sum to the viewport width.
    let layout = TiledLayout::new(String::from("tiled"), 2);
    let stack = Stack::from(vec![1u32, 2]);
    let placed = layout.layout(&vp(0, 0, 1000, 500), &stack);
    assert_eq!(
        placed,
        vec![
            MappedWindow { id: 1, vp: vp(2, 2, 497, 496) },
            MappedWindow { id: 2, vp: vp(501, 2, 497, 496) },
        ]
    );
    let width_sum: u32 = placed.iter().map(|w| w.vp.width).sum();
    assert_eq!(width_sum + 3 * 2, 1000);
    assert!(placed.iter().all(|w| w.vp.height == 496));
}

#[test]
fn tiled_layout_of_empty_stack_is_empty() {
    let layout = TiledLayout::new(String::from("tiled"), 2);
    let stack: Stack<u32> = Stack::new();
    assert_eq!(layout.layout(&vp(0, 0, 1000, 500), &stack), vec![]);
}

fn column_counts(placed: &[MappedWindow<u32>], col_xs: &[u32]) -> Vec<usize> {
    col_xs.iter().map(|x| placed.iter().filter(|w| w.vp.x == *x).count()).collect()
}

#[test]
fn three_column_sizes_for_small_counts() {
    let layout = ThreeColumn::new(String::from("three"), 0);
    let viewport = vp(0, 0, 900, 600);
    // Zero windows: nothing.
    let stack: Stack<u32> = Stack::new();
    assert_eq!(layout.layout(&viewport, &stack), vec![]);
    // One window: the full viewport.
    let stack = Stack::from(vec![1u32]);
    assert_eq!(
        layout.layout(&viewport, &stack),
        vec![MappedWindow { id: 1, vp: viewport }]
    );
    // Two windows: a one-to-two split.
    let stack = Stack::from(vec![1u32, 2]);
    assert_eq!(
        layout.layout(&viewport, &stack),
        vec![
            MappedWindow { id: 1, vp: vp(0, 0, 300, 600) },
            MappedWindow { id: 2, vp: vp(300, 0, 600, 600) },
        ]
    );
    // Three to eight windows: column sizes as equal as possible, the
    // remainder falling to the first two columns when it is two and to the
    // middle column otherwise.
    let cases: Vec<(usize, Vec<usize>)> = vec![
        (3, vec![1, 1, 1]),
        (4, vec![1, 2, 1]),
        (5, vec![2, 2, 1]),
        (7, vec![2, 3, 2]),
        (8, vec![3, 3, 2]),
    ];
    for (n, expected) in cases {
        let stack = Stack::from((0..n as u32).collect::<Vec<u32>>());
        let placed = layout.layout(&viewport, &stack);
        assert_eq!(placed.len(), n);
        assert_eq!(column_counts(&placed, &[0, 300, 600]), expected, "n = {}", n);
    }
}

#[test]
fn three_column_stacks_rows_top_to_bottom() {
    let layout = ThreeColumn::new(String::from("three"), 0);
    let viewport = vp(0, 0, 900, 600);
    let stack = Stack::from(vec![1u32, 2, 3, 4]);
    let placed = layout.layout(&viewport, &stack);
    assert_eq!(
        placed,
        vec![
            MappedWindow { id: 1, vp: vp(0, 0, 300, 600) },
            MappedWindow { id: 2, vp: vp(300, 0, 300, 300) },
            MappedWindow { id: 3, vp: vp(300, 300, 300, 300) },
            MappedWindow { id: 4, vp: vp(600, 0, 300, 600) },
        ]
    );
}

#[test]
fn three_column_with_padding_on_three_windows() {
    let layout = ThreeColumn::new(String::from("three"), 2);
    let stack = Stack::from(vec![1u32, 2, 3]);
    let placed = layout.layout(&vp(0, 0, 1000, 500), &stack);
    assert_eq!(
        placed,
        vec![
            MappedWindow { id: 1, vp: vp(0, 0, 332, 500) },
            MappedWindow { id: 2, vp: vp(334, 0, 332, 500) },
            MappedWindow { id: 3, vp: vp(668, 0, 332, 500) },
        ]
    );
}

#[test]
fn unfit_viewport_yields_no_placements() {
    // A viewport too narrow for the padding cannot be divided; the layout
    // choice emits nothing rather than wrapping around.
    let choice = LayoutChoice::Tiled(TiledLayout::new(String::from("tiled"), 10));
    let stack = Stack::from(vec![1u32]);
    assert_eq!(choice.layout(&vp(0, 0, 5, 5), &stack), vec![]);
    let choice = LayoutChoice::Stack(StackLayout::new(String::from("stack"), 10));
    assert_eq!(choice.layout(&vp(0, 0, 5, 5), &stack), vec![]);
}
