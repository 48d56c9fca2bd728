//! Workspace groups: a named collection with an active layout choice and an
//! optionally focused window. Groups are created once from configuration and
//! persist; the layout is selected by name from the shared layout list,
//! falling back to the first layout when the name is unknown.

use vstd::prelude::*;

use crate::layout::LayoutChoice;
use crate::model::WindowId;

verus! {

/// The position of the first layout with the given name, if any.
pub open spec fn layout_position(layouts: Seq<LayoutChoice>, name: Seq<char>) -> Option<int>
    decreases layouts.len(),
{
    if layouts.len() == 0 {
        None
    } else if layouts.first().name_spec() == name {
        Some(0)
    } else {
        match layout_position(layouts.drop_first(), name) {
            Some(i) => Some(i + 1),
            None => None,
        }
    }
}

/// The layout a group constructed with this name gets: the first layout so
/// named, or the first layout of the list when none is.
pub open spec fn layout_index_of(layouts: Seq<LayoutChoice>, name: Seq<char>) -> int {
    match layout_position(layouts, name) {
        Some(i) => i,
        None => 0,
    }
}

/// A named workspace.
#[derive(Clone, Debug)]
pub struct Group {
    /// The group's name.
    pub name: String,
    /// Index of the active layout in the shared layout list.
    pub layout_id: usize,
    /// The focused window of this group, if any.
    pub focused_window: Option<WindowId>,
}

impl Group {
    /// The group's name.
    pub open spec fn name_spec(&self) -> Seq<char> {
        self.name@
    }

    /// Builds a group with no focused window whose layout is the first one
    /// named `default_layout`, or the first layout overall when none is.
    pub fn new(name: String, default_layout: &String, layouts: &Vec<LayoutChoice>) -> (g: Group)
        ensures
            g.name_spec() == name@,
            g.focused_window is None,
            g.layout_id == layout_index_of(layouts@, default_layout@),
    {
        let mut i: usize = 0;
        let mut layout_id: usize = 0;
        let mut found = false;
        while i < layouts.len()
            invariant
                i <= layouts@.len(),
                !found ==> layout_position(layouts@.take(i as int), default_layout@) is None
                    && layout_id == 0,
                found ==> 0 <= layout_id < i && layout_position(layouts@, default_layout@)
                    == Some(layout_id as int),
            decreases layouts@.len() - i,
        {
            if !found && layouts[i].name().eq(default_layout) {
                layout_id = i;
                found = true;
                proof {
                    lemma_layout_position_found(layouts@, default_layout@, i as int);
                }
            }
            i = i + 1;
            proof {
                if !found {
                    lemma_layout_position_step(layouts@, default_layout@, i as int);
                }
            }
        }
        proof {
            assert(layouts@.take(layouts@.len() as int) =~= layouts@);
        }
        Group { name, layout_id, focused_window: None }
    }

    /// The group's name.
    pub fn name(&self) -> (r: &String)
        ensures
            r@ == self.name_spec(),
    {
        &self.name
    }
}

/// When the layouts before `i` miss the name and the layout at `i` carries
/// it, `i` is the position of the first layout so named.
proof fn lemma_layout_position_found(layouts: Seq<LayoutChoice>, name: Seq<char>, i: int)
    requires
        0 <= i < layouts.len(),
        layout_position(layouts.take(i), name) is None,
        layouts[i].name_spec() == name,
    ensures
        layout_position(layouts, name) == Some(i),
    decreases i,
{
    if i == 0 {
        assert(layouts.first() == layouts[0]);
    } else {
        assert(layouts.take(i).first() == layouts.first());
        assert(layouts.first().name_spec() != name) by {
            if layouts.take(i).first().name_spec() == name {
                assert(layout_position(layouts.take(i), name) is Some);
            }
        }
        assert(layouts.drop_first().take(i - 1) =~= layouts.take(i).drop_first());
        lemma_layout_position_found(layouts.drop_first(), name, i - 1);
    }
}

/// A prefix that misses the name stays missing when it grows by one layout
/// that also misses it.
proof fn lemma_layout_position_step(layouts: Seq<LayoutChoice>, name: Seq<char>, i: int)
    requires
        0 < i <= layouts.len(),
        layout_position(layouts.take(i - 1), name) is None,
        layouts[i - 1].name_spec() != name,
    ensures
        layout_position(layouts.take(i), name) is None,
    decreases i,
{
    if i == 1 {
        assert(layouts.take(1int).len() == 1);
        assert(layouts.take(1int).first() == layouts[0]);
        assert(layouts.take(1int).drop_first() =~= Seq::<LayoutChoice>::empty());
        assert(layout_position(Seq::<LayoutChoice>::empty(), name) is None);
        assert(layout_position(layouts.take(1int), name) is None);
    } else {
        assert(layouts.take(i).first() == layouts[0]);
        assert(layouts.take(i - 1).first() == layouts[0]);
        if layouts[0].name_spec() == name {
            assert(layout_position(layouts.take(i - 1), name) is Some);
        } else {
            assert(layouts.drop_first().take(i - 2) =~= layouts.take(i - 1).drop_first());
            assert(layouts.drop_first().take(i - 1) =~= layouts.take(i).drop_first());
            assert(layouts.drop_first()[i - 2] == layouts[i - 1]);
            lemma_layout_position_step(layouts.drop_first(), name, i - 1);
        }
    }
}

} // verus!
