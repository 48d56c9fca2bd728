//! A stack that maintains a pointer to a focused element.
//!
//! This primarily exists to keep track of the stack of windows in each
//! group and to remember which window within the stack is currently focused.
//!
//! The order of the stack and the pointer to the focused element can be moved
//! independently: `shuffle_next`/`shuffle_previous` change the order of the
//! elements while keeping focus on the same logical element, while
//! `focus_next`/`focus_previous` change which element is focused without
//! affecting ordering.

use vstd::prelude::*;

verus! {

/// An ordered sequence of elements with one distinguished focused position.
#[derive(Clone, Debug)]
pub struct Stack<T> {
    windows: Vec<T>,
    focused: usize,
}

impl<T> View for Stack<T> {
    type V = Seq<T>;

    closed spec fn view(&self) -> Seq<T> {
        self.windows@
    }
}

impl<T> Stack<T> {
    /// The focused index points at an element, or the stack is empty and the
    /// index rests at zero.
    pub open spec fn wf(&self) -> bool {
        if self@.len() == 0 {
            self.focus() == 0
        } else {
            self.focus() < self@.len()
        }
    }

    /// The focused index, as a mathematical integer.
    pub closed spec fn focus(&self) -> int {
        self.focused as int
    }

    /// The focused element, if the focused index points at one.
    pub open spec fn focused_spec(&self) -> Option<T> {
        if 0 <= self.focus() < self@.len() {
            Some(self@[self.focus()])
        } else {
            None
        }
    }

    /// An empty stack.
    pub fn new() -> (s: Stack<T>)
        ensures
            s@ == Seq::<T>::empty(),
            s.focus() == 0,
            s.wf(),
    {
        Stack { windows: Vec::new(), focused: 0 }
    }

    /// Returns the number of elements in the stack.
    pub fn len(&self) -> (n: usize)
        ensures
            n == self@.len(),
    {
        self.windows.len()
    }

    /// Returns whether the stack is empty.
    pub fn is_empty(&self) -> (b: bool)
        ensures
            b == (self@.len() == 0),
    {
        self.windows.is_empty()
    }

    /// Borrows the elements in order, ignoring focus.
    pub fn iter(&self) -> (v: &Vec<T>)
        ensures
            v@ == self@,
    {
        &self.windows
    }

    /// Returns a reference to the focused element.
    pub fn focused(&self) -> (r: Option<&T>)
        ensures
            match r {
                Some(t) => self.focused_spec() == Some(*t),
                None => self.focused_spec() is None,
            },
    {
        if self.focused < self.windows.len() {
            Some(&self.windows[self.focused])
        } else {
            None
        }
    }

    /// The focused index.
    pub fn focused_idx(&self) -> (i: usize)
        ensures
            i == self.focus(),
    {
        self.focused
    }

    /// Builds a stack from its parts: the ordered elements and the focused
    /// index.
    pub fn from_parts(windows: Vec<T>, focused: usize) -> (s: Stack<T>)
        ensures
            s@ == windows@,
            s.focus() == focused,
    {
        Stack { windows, focused }
    }

    /// Appends an element and focuses it.
    pub fn push(&mut self, value: T)
        ensures
            final(self)@ == old(self)@.push(value),
            final(self).focus() == old(self)@.len(),
            final(self).wf(),
    {
        self.windows.push(value);
        self.focused = self.windows.len() - 1;
    }

    /// Moves focus one position towards the end, clamping there; never wraps.
    pub fn focus_next(&mut self)
        requires
            old(self).wf(),
        ensures
            final(self)@ == old(self)@,
            final(self).focus() == if old(self).focus() + 1 < old(self)@.len() {
                old(self).focus() + 1
            } else {
                old(self).focus()
            },
            final(self).wf(),
    {
        let n = self.windows.len();
        if self.focused + 1 < n {
            self.focused = self.focused + 1;
        }
    }

    /// Moves focus one position towards the start, clamping there; never
    /// wraps.
    pub fn focus_previous(&mut self)
        requires
            old(self).wf(),
        ensures
            final(self)@ == old(self)@,
            final(self).focus() == if old(self).focus() > 0 {
                old(self).focus() - 1
            } else {
                0
            },
            final(self).wf(),
    {
        if self.focused > 0 {
            self.focused = self.focused - 1;
        }
    }

    /// Moves focus to the given position; a no-op if it is out of range.
    pub fn focus_at(&mut self, i: usize)
        requires
            old(self).wf(),
        ensures
            final(self)@ == old(self)@,
            final(self).focus() == if i < old(self)@.len() {
                i as int
            } else {
                old(self).focus()
            },
            final(self).wf(),
    {
        if i < self.windows.len() {
            self.focused = i;
        }
    }

    /// Swaps the focused element with its successor and moves focus with it;
    /// a no-op when the focused element is last.
    pub fn shuffle_next(&mut self)
        requires
            old(self).wf(),
        ensures
            final(self).wf(),
            ({
                let f = old(self).focus();
                if f + 1 < old(self)@.len() {
                    final(self)@ == old(self)@.update(f, old(self)@[f + 1]).update(
                        f + 1,
                        old(self)@[f],
                    ) && final(self).focus() == f + 1
                } else {
                    final(self)@ == old(self)@ && final(self).focus() == f
                }
            }),
    {
        let n = self.windows.len();
        if self.focused + 1 < n {
            let f = self.focused;
            let moved = self.windows.remove(f);
            self.windows.insert(f + 1, moved);
            self.focused = f + 1;
            proof {
                assert(self@ =~= old(self)@.update(f as int, old(self)@[f + 1]).update(
                    f + 1,
                    old(self)@[f as int],
                ));
            }
        }
    }

    /// Swaps the focused element with its predecessor and moves focus with
    /// it; a no-op when the focused element is first.
    pub fn shuffle_previous(&mut self)
        requires
            old(self).wf(),
        ensures
            final(self).wf(),
            ({
                let f = old(self).focus();
                if 0 < f < old(self)@.len() {
                    final(self)@ == old(self)@.update(f - 1, old(self)@[f]).update(
                        f,
                        old(self)@[f - 1],
                    ) && final(self).focus() == f - 1
                } else {
                    final(self)@ == old(self)@ && final(self).focus() == f
                }
            }),
    {
        if self.focused > 0 && self.focused < self.windows.len() {
            let f = self.focused;
            let moved = self.windows.remove(f);
            self.windows.insert(f - 1, moved);
            self.focused = f - 1;
            proof {
                assert(self@ =~= old(self)@.update(f - 1, old(self)@[f as int]).update(
                    f as int,
                    old(self)@[f - 1],
                ));
            }
        }
    }

    /// Removes the element at the given position. Focus shifts one to the
    /// left when the removal was at or before the focused index and focus is
    /// not already at the start; otherwise the focused index keeps its value,
    /// now naming the next surviving element.
    pub fn remove_at(&mut self, i: usize) -> (removed: T)
        requires
            old(self).wf(),
            i < old(self)@.len(),
        ensures
            removed == old(self)@[i as int],
            final(self)@ == old(self)@.remove(i as int),
            final(self).focus() == if i <= old(self).focus() && old(self).focus() > 0 {
                old(self).focus() - 1
            } else {
                old(self).focus()
            },
            final(self).wf(),
    {
        let removed = self.windows.remove(i);
        if i <= self.focused && self.focused > 0 {
            self.focused = self.focused - 1;
        }
        removed
    }

    /// Removes the focused element and re-clamps focus to the last valid
    /// index.
    pub fn remove_focused(&mut self) -> (removed: T)
        requires
            old(self).wf(),
            old(self)@.len() > 0,
        ensures
            removed == old(self)@[old(self).focus()],
            final(self)@ == old(self)@.remove(old(self).focus()),
            final(self).focus() == if old(self).focus() + 1 < old(self)@.len() {
                old(self).focus()
            } else if old(self).focus() > 0 {
                old(self).focus() - 1
            } else {
                0
            },
            final(self).wf(),
    {
        let removed = self.windows.remove(self.focused);
        if self.focused >= self.windows.len() && self.focused > 0 {
            self.focused = self.focused - 1;
        }
        removed
    }
}

impl<T: Copy> Stack<T> {
    /// Copies out a contiguous sub-sequence by order, ignoring focus.
    pub fn slice(&self, start: usize, end: usize) -> (v: Vec<T>)
        requires
            start <= end <= self@.len(),
        ensures
            v@ == self@.subrange(start as int, end as int),
    {
        let mut v: Vec<T> = Vec::new();
        let mut i: usize = start;
        while i < end
            invariant
                start <= i <= end <= self@.len(),
                v@ == self@.subrange(start as int, i as int),
            decreases end - i,
        {
            v.push(self.windows[i]);
            proof {
                assert(v@ =~= self@.subrange(start as int, i + 1));
            }
            i = i + 1;
        }
        v
    }
}

impl<T> Default for Stack<T> {
    /// An empty stack.
    fn default() -> (s: Self)
        ensures
            s@ == Seq::<T>::empty(),
            s.focus() == 0,
            s.wf(),
    {
        Stack { windows: Vec::new(), focused: 0 }
    }
}

impl<T> Stack<T> {
    /// A stack of the given elements with the first one focused.
    pub fn from(windows: Vec<T>) -> (s: Stack<T>)
        ensures
            s@ == windows@,
            s.focus() == 0,
            s.wf(),
    {
        Stack { windows, focused: 0 }
    }
}

/// Within one stack the relative order of elements never moves: `push`
/// appends, `focus_next`/`focus_previous` leave the sequence unchanged, and
/// `remove_at` deletes one position while every surviving pair keeps its
/// order. This lemma states the `remove_at` part: two distinct surviving
/// positions map to positions in the shorter sequence that compare the same
/// way and hold the same elements.
pub proof fn lemma_remove_preserves_order<T>(s: Seq<T>, i: int, j: int, k: int)
    requires
        0 <= i < s.len(),
        0 <= j < s.len(),
        0 <= k < s.len(),
        j != i,
        k != i,
        j < k,
    ensures
        ({
            let jn = if j < i { j } else { j - 1 };
            let kn = if k < i { k } else { k - 1 };
            jn < kn && s.remove(i)[jn] == s[j] && s.remove(i)[kn] == s[k]
        }),
{
}

/// The focused element is `None` exactly when the stack is empty, for every
/// well-formed stack.
pub proof fn lemma_focused_none_iff_empty<T>(s: Stack<T>)
    requires
        s.wf(),
    ensures
        s.focused_spec() is None <==> s@.len() == 0,
{
}

/// `shuffle_next` followed by `shuffle_previous` on the same focused element
/// restores the original order and focus; at the end of the stack both are
/// no-ops, so the stack is unchanged there as well.
pub proof fn lemma_shuffle_round_trip<T>(s: Seq<T>, f: int)
    requires
        0 <= f < s.len() || (s.len() == 0 && f == 0),
    ensures
        f + 1 < s.len() ==> ({
            let shuffled = s.update(f, s[f + 1]).update(f + 1, s[f]);
            let back = shuffled.update(f, shuffled[f + 1]).update(f + 1, shuffled[f]);
            back =~= s
        }),
{
}

} // verus!
