use lanta::stack::Stack;

fn stack_from_pieces<T>(before: Vec<T>, after: Vec<T>) -> Stack<T> {
    let focused = before.len();
    let mut windows = before;
    windows.extend(after);
    Stack::from_parts(windows, focused)
}

#[test]
fn test_from() {
    let vec = vec![1, 2, 3];
    let stack = Stack::from(vec.clone());
    assert_eq!(stack.iter(), &vec);
    assert_eq!(stack.focused(), Some(&vec[0]));
    assert_eq!(stack.focused_idx(), 0)
}

#[test]
fn test_len() {
    let stack = stack_from_pieces(vec![1, 2], vec![2, 3]);
    assert_eq!(stack.len(), 4);
}

#[test]
fn test_is_empty() {
    let stack = Stack::<u8>::default();
    assert_eq!(stack.is_empty(), true);
    let stack = stack_from_pieces(vec![1, 2], vec![]);
    assert_eq!(stack.is_empty(), false);
    let stack = stack_from_pieces(vec![], vec![3, 4]);
    assert_eq!(stack.is_empty(), false);
}

#[test]
fn test_focused() {
    let stack = stack_from_pieces(vec![], vec![2]);
    assert_eq!(stack.focused(), Some(&2));
    assert_eq!(stack.focused_idx(), 0);
    let stack: Stack<u8> = stack_from_pieces(vec![], vec![]);
    assert_eq!(stack.focused(), None);
}

#[test]
fn test_iter() {
    let stack = Stack::<u8>::from(vec![2, 3, 4]);
    let mut iter = stack.iter().iter();
    assert_eq!(iter.next(), Some(&2));
    assert_eq!(iter.next(), Some(&3));
    assert_eq!(iter.next(), Some(&4));
    assert_eq!(iter.next(), None);
}

#[test]
fn push_appends_and_focuses() {
    let mut stack = Stack::new();
    stack.push(10);
    stack.push(20);
    stack.push(30);
    assert_eq!(stack.iter(), &vec![10, 20, 30]);
    assert_eq!(stack.focused(), Some(&30));
}

#[test]
fn focus_moves_clamp_at_ends() {
    let mut stack = Stack::from(vec![1, 2, 3]);
    stack.focus_previous();
    assert_eq!(stack.focused(), Some(&1));
    stack.focus_next();
    assert_eq!(stack.focused(), Some(&2));
    stack.focus_next();
    stack.focus_next();
    assert_eq!(stack.focused(), Some(&3));
    assert_eq!(stack.iter(), &vec![1, 2, 3]);
}

#[test]
fn remove_at_preserves_order_and_shifts_focus_left() {
    let mut stack = Stack::from_parts(vec![1, 2, 3, 4], 2);
    let removed = stack.remove_at(1);
    assert_eq!(removed, 2);
    assert_eq!(stack.iter(), &vec![1, 3, 4]);
    assert_eq!(stack.focused(), Some(&3));
    let mut stack = Stack::from_parts(vec![1, 2, 3, 4], 1);
    stack.remove_at(3);
    assert_eq!(stack.iter(), &vec![1, 2, 3]);
    assert_eq!(stack.focused(), Some(&2));
}

#[test]
fn remove_focused_reclamps() {
    let mut stack = Stack::from_parts(vec![1, 2, 3], 2);
    let removed = stack.remove_focused();
    assert_eq!(removed, 3);
    assert_eq!(stack.iter(), &vec![1, 2]);
    assert_eq!(stack.focused(), Some(&2));
}

#[test]
fn shuffle_next_then_previous_restores_order() {
    let mut stack = Stack::from_parts(vec![1, 2, 3], 1);
    stack.shuffle_next();
    assert_eq!(stack.iter(), &vec![1, 3, 2]);
    assert_eq!(stack.focused(), Some(&2));
    stack.shuffle_previous();
    assert_eq!(stack.iter(), &vec![1, 2, 3]);
    assert_eq!(stack.focused(), Some(&2));
}

#[test]
fn shuffle_is_a_no_op_at_the_boundary() {
    let mut stack = Stack::from_parts(vec![1, 2, 3], 2);
    stack.shuffle_next();
    assert_eq!(stack.iter(), &vec![1, 2, 3]);
    assert_eq!(stack.focused_idx(), 2);
    let mut stack = Stack::from_parts(vec![1, 2, 3], 0);
    stack.shuffle_previous();
    assert_eq!(stack.iter(), &vec![1, 2, 3]);
    assert_eq!(stack.focused_idx(), 0);
}

#[test]
fn focus_at_ignores_out_of_range() {
    let mut stack = Stack::from(vec![5, 6]);
    stack.focus_at(1);
    assert_eq!(stack.focused(), Some(&6));
    stack.focus_at(9);
    assert_eq!(stack.focused(), Some(&6));
}

#[test]
fn slice_copies_a_sub_sequence() {
    let stack = Stack::from(vec![9, 8, 7, 6]);
    assert_eq!(stack.slice(1, 3), vec![8, 7]);
    assert_eq!(stack.slice(0, 0), Vec::<i32>::new());
}
