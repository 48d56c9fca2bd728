//! The orchestrator: owns the groups, the flat list of managed windows with
//! their group membership, the outputs and which group each one displays,
//! the dock registry, the previously rendered placements, and the command
//! table. Event handlers mutate this state and return the list of actions a
//! display-server backend must perform; the reconciliation step recomputes
//! the placements of every output/group pair and diffs them against the
//! previous ones so that only the minimal show/hide/move operations are
//! issued.

use vstd::prelude::*;
use vstd::set_lib::{lemma_int_range, lemma_len_subset, set_int_range};

use crate::groups::Group;
use crate::layout::{LayoutChoice, MappedWindow};
use crate::model::{Crtc, CrtcChange, CrtcInfo, KeyCombo, WindowId, WindowType};
use crate::navigation::{center_pick, line_pick, Center, Direction, Line};
use crate::screen::{
    bounding_height, bounding_width, docks_without, fold_struts, struts_of, viewports_ok, Dock,
    Screen,
};
use crate::stack::Stack;
use crate::viewport::{Strut, Viewport};

verus! {

/// Index of a group in the orchestrator's group list.
pub type GroupId = usize;

/// A managed, non-dock window: its handle and the group it belongs to.
#[derive(Clone, Copy, Debug, PartialEq, Eq, Structural)]
pub struct Window {
    pub id: WindowId,
    pub group: GroupId,
}

/// One entry of the output assignment table: an output, its geometry, and
/// the group it currently displays.
#[derive(Clone, Copy, Debug, PartialEq, Eq, Structural)]
pub struct OutputEntry {
    pub crtc: Crtc,
    pub info: CrtcInfo,
    pub group: GroupId,
}

/// The navigation policy a directional command uses.
#[derive(Clone, Copy, Debug, PartialEq, Eq, Structural)]
pub enum NavStyle {
    Line,
    Center,
}

/// A command bound to a key combination.
#[derive(Clone, Debug)]
pub enum Command {
    CloseFocused,
    FocusIn(NavStyle, Direction),
    SwapIn(NavStyle, Direction),
    RotateFocus,
    LayoutNext,
    NextGroup,
    PrevGroup,
    MoveToNextGroup,
    MoveToPrevGroup,
    RotateCrtc,
    SwapNextInGroup,
    SwapPreviousInGroup,
    Spawn(Vec<String>),
}

/// One operation the display-server backend must perform, in order. Mapping,
/// unmapping and configuring are expected to be bracketed by the backend
/// with disabling and re-enabling position tracking, so that its own calls
/// are not mistaken for user-driven events. `PublishDesktops` asks the
/// backend to publish the current desktop metadata, read from the
/// orchestrator's getters.
#[derive(Clone, Debug, PartialEq, Eq)]
pub enum Action {
    Unmap(WindowId),
    Configure(WindowId, Viewport),
    MapWindow(WindowId),
    Focus(Option<WindowId>),
    EnableTracking(WindowId),
    EnableKeyEvents(WindowId),
    CloseWindow(WindowId),
    PublishDesktops,
    Spawn(Vec<String>),
}

/// The position of the first output entry for `crtc`, if any.
pub open spec fn find_output(outputs: Seq<OutputEntry>, crtc: Crtc) -> Option<int>
    decreases outputs.len(),
{
    if outputs.len() == 0 {
        None
    } else if outputs.first().crtc == crtc {
        Some(0)
    } else {
        match find_output(outputs.drop_first(), crtc) {
            Some(i) => Some(i + 1),
            None => None,
        }
    }
}

/// The position of the first managed window with this handle, if any.
pub open spec fn find_window(windows: Seq<Window>, id: WindowId) -> Option<int>
    decreases windows.len(),
{
    if windows.len() == 0 {
        None
    } else if windows.first().id == id {
        Some(0)
    } else {
        match find_window(windows.drop_first(), id) {
            Some(i) => Some(i + 1),
            None => None,
        }
    }
}

/// The position of the first occurrence of `id`, if any.
pub open spec fn find_id(ids: Seq<WindowId>, id: WindowId) -> Option<int>
    decreases ids.len(),
{
    if ids.len() == 0 {
        None
    } else if ids.first() == id {
        Some(0)
    } else {
        match find_id(ids.drop_first(), id) {
            Some(i) => Some(i + 1),
            None => None,
        }
    }
}

/// The handles of the managed windows that belong to the group, in list
/// order.
pub open spec fn windows_in_group(windows: Seq<Window>, gid: GroupId) -> Seq<WindowId>
    decreases windows.len(),
{
    if windows.len() == 0 {
        Seq::empty()
    } else {
        let rest = windows_in_group(windows.drop_last(), gid);
        if windows.last().group == gid {
            rest.push(windows.last().id)
        } else {
            rest
        }
    }
}

/// The focused index a group's stack is built with: the position of the
/// group's focused window among the group's windows, and zero when there is
/// no focused window or it is not among them.
pub open spec fn focused_idx_spec(windows: Seq<Window>, g: Group, gid: GroupId) -> int {
    match g.focused_window {
        Some(w) => match find_id(windows_in_group(windows, gid), w) {
            Some(p) => p,
            None => 0,
        },
        None => 0,
    }
}

/// The rectangle of an output's reported geometry, coordinates carried over
/// bit-for-bit.
pub open spec fn vp_of_info(info: CrtcInfo) -> Viewport {
    Viewport {
        x: info.x as u32,
        y: info.y as u32,
        width: info.width as u32,
        height: info.height as u32,
    }
}

/// The raw rectangles of the outputs, in table order.
pub open spec fn output_ports(outputs: Seq<OutputEntry>) -> Seq<Viewport> {
    Seq::new(outputs.len(), |i: int| vp_of_info(outputs[i].info))
}

/// Whether the dock struts can be applied to every output rectangle within
/// machine arithmetic: the condition under which reconciliation recomputes
/// placements.
pub open spec fn reconcile_ready(outputs: Seq<OutputEntry>, docks: Seq<Dock>) -> bool {
    viewports_ok(docks, output_ports(outputs))
}

/// The usable rectangle of output `i` once every dock's strut has been
/// applied.
pub open spec fn folded_vp(outputs: Seq<OutputEntry>, docks: Seq<Dock>, i: int) -> Viewport {
    let ports = output_ports(outputs);
    fold_struts(ports[i], struts_of(docks), bounding_width(ports), bounding_height(ports))
}

/// The placements of one output/group pair: what the group's active layout
/// makes of the group's windows over the output's usable rectangle.
pub open spec fn pair_placements(
    groups: Seq<Group>,
    windows: Seq<Window>,
    layouts: Seq<LayoutChoice>,
    vp: Viewport,
    gid: GroupId,
) -> Seq<MappedWindow<WindowId>> {
    let elems = windows_in_group(windows, gid);
    let g = groups[gid as int];
    layouts[g.layout_id as int].placements_spec(vp, elems, focused_idx_spec(windows, g, gid))
}

/// The placements of the first `k` output/group pairs, concatenated in
/// table order.
pub open spec fn placements_upto(
    groups: Seq<Group>,
    windows: Seq<Window>,
    layouts: Seq<LayoutChoice>,
    outputs: Seq<OutputEntry>,
    docks: Seq<Dock>,
    k: int,
) -> Seq<MappedWindow<WindowId>>
    decreases k,
{
    if k <= 0 {
        Seq::empty()
    } else {
        placements_upto(groups, windows, layouts, outputs, docks, k - 1) + pair_placements(
            groups,
            windows,
            layouts,
            folded_vp(outputs, docks, k - 1),
            outputs[k - 1].group,
        )
    }
}

/// Every placement of the next rendering: all output/group pairs in table
/// order.
pub open spec fn desired_placements(
    groups: Seq<Group>,
    windows: Seq<Window>,
    layouts: Seq<LayoutChoice>,
    outputs: Seq<OutputEntry>,
    docks: Seq<Dock>,
) -> Seq<MappedWindow<WindowId>> {
    placements_upto(groups, windows, layouts, outputs, docks, outputs.len() as int)
}

/// Whether some placement in the sequence concerns this window.
pub open spec fn contains_id(s: Seq<MappedWindow<WindowId>>, id: WindowId) -> bool {
    exists|i: int| 0 <= i < s.len() && (#[trigger] s[i]).id == id
}

/// The unmap operations of a reconciliation: one for each window shown
/// before but absent now, in previous order.
pub open spec fn unmap_actions(
    prev: Seq<MappedWindow<WindowId>>,
    next: Seq<MappedWindow<WindowId>>,
) -> Seq<Action>
    decreases prev.len(),
{
    if prev.len() == 0 {
        Seq::empty()
    } else {
        let rest = unmap_actions(prev.drop_last(), next);
        if !contains_id(next, prev.last().id) {
            rest.push(Action::Unmap(prev.last().id))
        } else {
            rest
        }
    }
}

/// The configure operations of a reconciliation: one for each placement not
/// already shown exactly so, in next order.
pub open spec fn configure_actions(
    prev: Seq<MappedWindow<WindowId>>,
    next: Seq<MappedWindow<WindowId>>,
) -> Seq<Action>
    decreases next.len(),
{
    if next.len() == 0 {
        Seq::empty()
    } else {
        let rest = configure_actions(prev, next.drop_last());
        if !prev.contains(next.last()) {
            rest.push(Action::Configure(next.last().id, next.last().vp))
        } else {
            rest
        }
    }
}

/// The map operations of a reconciliation: one for each window shown now
/// but absent before, in next order.
pub open spec fn map_actions(
    prev: Seq<MappedWindow<WindowId>>,
    next: Seq<MappedWindow<WindowId>>,
) -> Seq<Action>
    decreases next.len(),
{
    if next.len() == 0 {
        Seq::empty()
    } else {
        let rest = map_actions(prev, next.drop_last());
        if !contains_id(prev, next.last().id) {
            rest.push(Action::MapWindow(next.last().id))
        } else {
            rest
        }
    }
}

/// The window that receives input focus after a reconciliation: the focused
/// window of the group shown on the current output.
pub open spec fn focus_target(
    outputs: Seq<OutputEntry>,
    current: Crtc,
    groups: Seq<Group>,
) -> Option<WindowId> {
    match find_output(outputs, current) {
        Some(i) => if outputs[i].group < groups.len() {
            groups[outputs[i].group as int].focused_window
        } else {
            None
        },
        None => None,
    }
}

/// Everything one reconciliation pass tells the backend to do: unmaps, then
/// configures, then maps, then the focus update. When the dock geometry
/// cannot be applied, nothing is done.
pub open spec fn reconcile_actions(
    groups: Seq<Group>,
    windows: Seq<Window>,
    layouts: Seq<LayoutChoice>,
    outputs: Seq<OutputEntry>,
    docks: Seq<Dock>,
    current: Crtc,
    prev: Seq<MappedWindow<WindowId>>,
) -> Seq<Action> {
    if reconcile_ready(outputs, docks) {
        let next = desired_placements(groups, windows, layouts, outputs, docks);
        unmap_actions(prev, next) + configure_actions(prev, next) + map_actions(prev, next)
            + seq![Action::Focus(focus_target(outputs, current, groups))]
    } else {
        Seq::empty()
    }
}

/// What the previous-placement store holds after one reconciliation pass.
pub open spec fn mapped_after(
    groups: Seq<Group>,
    windows: Seq<Window>,
    layouts: Seq<LayoutChoice>,
    outputs: Seq<OutputEntry>,
    docks: Seq<Dock>,
    prev: Seq<MappedWindow<WindowId>>,
) -> Seq<MappedWindow<WindowId>> {
    if reconcile_ready(outputs, docks) {
        desired_placements(groups, windows, layouts, outputs, docks)
    } else {
        prev
    }
}

/// Every group's active layout is an index into the layout list.
pub open spec fn groups_wf(groups: Seq<Group>, n_layouts: int) -> bool {
    forall|i: int| 0 <= i < groups.len() ==> (#[trigger] groups[i]).layout_id < n_layouts
}

/// Every managed window belongs to a group that exists.
pub open spec fn windows_wf(windows: Seq<Window>, n_groups: int) -> bool {
    forall|i: int| 0 <= i < windows.len() ==> (#[trigger] windows[i]).group < n_groups
}

/// One record per window: no handle appears twice in the window list.
pub open spec fn windows_unique(windows: Seq<Window>) -> bool {
    forall|i: int, j: int|
        0 <= i < j < windows.len() ==> (#[trigger] windows[i]).id != (#[trigger] windows[j]).id
}

/// The output assignment table is sound: outputs are distinct, no two
/// outputs display the same group, every displayed group exists, and every
/// reported origin is non-negative.
pub open spec fn outputs_wf(outputs: Seq<OutputEntry>, n_groups: int) -> bool {
    &&& forall|i: int, j: int|
        0 <= i < j < outputs.len() ==> (#[trigger] outputs[i]).crtc != (#[trigger] outputs[j]).crtc
    &&& forall|i: int, j: int|
        0 <= i < j < outputs.len() ==> (#[trigger] outputs[i]).group != (
        #[trigger] outputs[j]).group
    &&& forall|i: int| 0 <= i < outputs.len() ==> (#[trigger] outputs[i]).group < n_groups
    &&& forall|i: int|
        0 <= i < outputs.len() ==> (#[trigger] outputs[i]).info.x >= 0 && outputs[i].info.y >= 0
}

/// Whether some output entry displays this group.
pub open spec fn group_used(outputs: Seq<OutputEntry>, gid: int) -> bool {
    exists|i: int| 0 <= i < outputs.len() && (#[trigger] outputs[i]).group == gid
}

/// The orchestrator.
pub struct WindowManager {
    keys: Vec<(KeyCombo, Command)>,
    groups: Vec<Group>,
    windows: Vec<Window>,
    layouts: Vec<LayoutChoice>,
    outputs: Vec<OutputEntry>,
    screen: Screen,
    current: Crtc,
    mapped: Vec<MappedWindow<WindowId>>,
}

impl WindowManager {
    /// The key bindings.
    pub closed spec fn keys_spec(&self) -> Seq<(KeyCombo, Command)> {
        self.keys@
    }

    /// The groups, in configuration order.
    pub closed spec fn groups_spec(&self) -> Seq<Group> {
        self.groups@
    }

    /// The managed windows, in management order.
    pub closed spec fn windows_spec(&self) -> Seq<Window> {
        self.windows@
    }

    /// The layout list.
    pub closed spec fn layouts_spec(&self) -> Seq<LayoutChoice> {
        self.layouts@
    }

    /// The output assignment table.
    pub closed spec fn outputs_spec(&self) -> Seq<OutputEntry> {
        self.outputs@
    }

    /// The registered docks.
    pub closed spec fn docks_spec(&self) -> Seq<Dock> {
        self.screen.docks_spec()
    }

    /// The current output.
    pub closed spec fn current_spec(&self) -> Crtc {
        self.current
    }

    /// The placements applied by the previous reconciliation.
    pub closed spec fn mapped_spec(&self) -> Seq<MappedWindow<WindowId>> {
        self.mapped@
    }

    /// The orchestrator's invariant: at least one layout, every group's
    /// layout exists, every window's group exists and has exactly one
    /// record, the output table is sound and non-empty, and the current
    /// output is in the table.
    pub open spec fn wf(&self) -> bool {
        &&& self.layouts_spec().len() >= 1
        &&& groups_wf(self.groups_spec(), self.layouts_spec().len() as int)
        &&& windows_wf(self.windows_spec(), self.groups_spec().len() as int)
        &&& windows_unique(self.windows_spec())
        &&& outputs_wf(self.outputs_spec(), self.groups_spec().len() as int)
        &&& self.outputs_spec().len() >= 1
        &&& find_output(self.outputs_spec(), self.current_spec()) is Some
    }
}

/// When the entries before `i` are for other outputs and the entry at `i`
/// is for `crtc`, `i` is the position `find_output` names.
pub proof fn lemma_find_output_found(outputs: Seq<OutputEntry>, crtc: Crtc, i: int)
    requires
        0 <= i < outputs.len(),
        forall|j: int| 0 <= j < i ==> (#[trigger] outputs[j]).crtc != crtc,
        outputs[i].crtc == crtc,
    ensures
        find_output(outputs, crtc) == Some(i),
    decreases i,
{
    if i == 0 {
    } else {
        assert(outputs.first().crtc != crtc);
        assert(forall|j: int|
            0 <= j < i - 1 ==> (#[trigger] outputs.drop_first()[j]).crtc != crtc);
        lemma_find_output_found(outputs.drop_first(), crtc, i - 1);
    }
}

/// When no entry is for `crtc`, `find_output` names none.
pub proof fn lemma_find_output_none(outputs: Seq<OutputEntry>, crtc: Crtc)
    requires
        forall|j: int| 0 <= j < outputs.len() ==> (#[trigger] outputs[j]).crtc != crtc,
    ensures
        find_output(outputs, crtc) is None,
    decreases outputs.len(),
{
    if outputs.len() > 0 {
        assert(forall|j: int|
            0 <= j < outputs.len() - 1 ==> (#[trigger] outputs.drop_first()[j]).crtc != crtc);
        lemma_find_output_none(outputs.drop_first(), crtc);
    }
}

/// When the windows before `i` have other handles and the window at `i` has
/// this one, `i` is the position `find_window` names.
pub proof fn lemma_find_window_found(windows: Seq<Window>, id: WindowId, i: int)
    requires
        0 <= i < windows.len(),
        forall|j: int| 0 <= j < i ==> (#[trigger] windows[j]).id != id,
        windows[i].id == id,
    ensures
        find_window(windows, id) == Some(i),
    decreases i,
{
    if i == 0 {
    } else {
        assert(windows.first().id != id);
        assert(forall|j: int| 0 <= j < i - 1 ==> (#[trigger] windows.drop_first()[j]).id != id);
        lemma_find_window_found(windows.drop_first(), id, i - 1);
    }
}

/// When no window has the handle, `find_window` names none.
pub proof fn lemma_find_window_none(windows: Seq<Window>, id: WindowId)
    requires
        forall|j: int| 0 <= j < windows.len() ==> (#[trigger] windows[j]).id != id,
    ensures
        find_window(windows, id) is None,
    decreases windows.len(),
{
    if windows.len() > 0 {
        assert(forall|j: int|
            0 <= j < windows.len() - 1 ==> (#[trigger] windows.drop_first()[j]).id != id);
        lemma_find_window_none(windows.drop_first(), id);
    }
}

/// When the handles before `i` differ and the handle at `i` matches, `i` is
/// the position `find_id` names.
pub proof fn lemma_find_id_found(ids: Seq<WindowId>, id: WindowId, i: int)
    requires
        0 <= i < ids.len(),
        forall|j: int| 0 <= j < i ==> ids[j] != id,
        ids[i] == id,
    ensures
        find_id(ids, id) == Some(i),
    decreases i,
{
    if i == 0 {
    } else {
        assert(ids.first() != id);
        assert(forall|j: int| 0 <= j < i - 1 ==> ids.drop_first()[j] != id);
        lemma_find_id_found(ids.drop_first(), id, i - 1);
    }
}

/// When no handle matches, `find_id` names none.
pub proof fn lemma_find_id_none(ids: Seq<WindowId>, id: WindowId)
    requires
        forall|j: int| 0 <= j < ids.len() ==> ids[j] != id,
    ensures
        find_id(ids, id) is None,
    decreases ids.len(),
{
    if ids.len() > 0 {
        assert(forall|j: int| 0 <= j < ids.len() - 1 ==> ids.drop_first()[j] != id);
        lemma_find_id_none(ids.drop_first(), id);
    }
}

/// Among any collection of distinct displayed groups there is an unused
/// group index no larger than the number of outputs.
proof fn lemma_unused_group_exists(outputs: Seq<OutputEntry>)
    requires
        forall|i: int, j: int|
            0 <= i < j < outputs.len() ==> (#[trigger] outputs[i]).group != (
            #[trigger] outputs[j]).group,
    ensures
        exists|g: int| 0 <= g <= outputs.len() && !group_used(outputs, g),
{
    broadcast use vstd::seq_lib::seq_to_set_is_finite;

    let gs = Seq::new(outputs.len(), |i: int| outputs[i].group as int);
    assert(gs.no_duplicates());
    gs.lemma_cardinality_of_set();
    let n = outputs.len() as int;
    if forall|g: int| 0 <= g <= n ==> #[trigger] group_used(outputs, g) {
        lemma_int_range(0, n + 1);
        assert(set_int_range(0, n + 1).subset_of(gs.to_set())) by {
            assert forall|g: int| set_int_range(0, n + 1).contains(g) implies gs.to_set().contains(
                g,
            ) by {
                assert(group_used(outputs, g));
                let i = choose|i: int|
                    0 <= i < outputs.len() && (#[trigger] outputs[i]).group == g;
                assert(gs[i] == g);
                assert(gs.to_set().contains(gs[i]));
            }
        }
        lemma_len_subset(set_int_range(0, n + 1), gs.to_set());
        assert(false);
    }
}

/// The live entries of a startup output report: those with non-zero size.
pub open spec fn live_outputs(reported: Seq<(Crtc, CrtcInfo)>) -> Seq<(Crtc, CrtcInfo)>
    decreases reported.len(),
{
    if reported.len() == 0 {
        Seq::empty()
    } else {
        let rest = live_outputs(reported.drop_last());
        if reported.last().1.width > 0 && reported.last().1.height > 0 {
            rest.push(reported.last())
        } else {
            rest
        }
    }
}

/// The initial output table: each live output in report order, assigned the
/// group of its own position.
pub open spec fn initial_outputs(live: Seq<(Crtc, CrtcInfo)>) -> Seq<OutputEntry> {
    Seq::new(
        live.len(),
        |i: int| OutputEntry { crtc: live[i].0, info: live[i].1, group: i as GroupId },
    )
}

/// The group shown on the given output, if the output is known.
pub open spec fn current_group(outputs: Seq<OutputEntry>, current: Crtc) -> Option<GroupId> {
    match find_output(outputs, current) {
        Some(i) => Some(outputs[i].group),
        None => None,
    }
}

impl WindowManager {
    /// Builds the orchestrator from configuration and the startup output
    /// report. Outputs reported with zero width or height are discarded;
    /// each surviving output is assigned a distinct group in report order,
    /// and the first one becomes current. No windows are managed yet.
    pub fn new(
        keys: Vec<(KeyCombo, Command)>,
        groups: Vec<Group>,
        layouts: Vec<LayoutChoice>,
        reported: Vec<(Crtc, CrtcInfo)>,
    ) -> (r: WindowManager)
        requires
            layouts@.len() >= 1,
            forall|i: int|
                0 <= i < groups@.len() ==> (#[trigger] groups@[i]).layout_id < layouts@.len(),
            1 <= live_outputs(reported@).len() <= groups@.len(),
            forall|i: int, j: int|
                0 <= i < j < live_outputs(reported@).len() ==> (#[trigger] live_outputs(
                    reported@,
                )[i]).0 != (#[trigger] live_outputs(reported@)[j]).0,
            forall|i: int|
                0 <= i < live_outputs(reported@).len() ==> (#[trigger] live_outputs(
                    reported@,
                )[i]).1.x >= 0 && live_outputs(reported@)[i].1.y >= 0,
        ensures
            r.keys_spec() == keys@,
            r.groups_spec() == groups@,
            r.layouts_spec() == layouts@,
            r.outputs_spec() == initial_outputs(live_outputs(reported@)),
            r.current_spec() == live_outputs(reported@)[0].0,
            r.windows_spec() == Seq::<Window>::empty(),
            r.mapped_spec() == Seq::<MappedWindow<WindowId>>::empty(),
            r.docks_spec() == Seq::<Dock>::empty(),
            r.wf(),
    {
        let mut entries: Vec<OutputEntry> = Vec::new();
        let mut i: usize = 0;
        proof {
            assert(entries@ =~= initial_outputs(live_outputs(reported@.take(0int))));
        }
        while i < reported.len()
            invariant
                i <= reported@.len(),
                entries@ == initial_outputs(live_outputs(reported@.take(i as int))),
                entries@.len() == live_outputs(reported@.take(i as int)).len(),
            decreases reported@.len() - i,
        {
            proof {
                assert(reported@.take(i + 1).drop_last() =~= reported@.take(i as int));
                assert(reported@.take(i + 1).last() == reported@[i as int]);
            }
            let (crtc, info) = reported[i];
            if info.width > 0 && info.height > 0 {
                let group = entries.len();
                entries.push(OutputEntry { crtc, info, group });
                proof {
                    assert(entries@ =~= initial_outputs(
                        live_outputs(reported@.take(i + 1)),
                    ));
                }
            }
            i = i + 1;
        }
        proof {
            assert(reported@.take(reported@.len() as int) =~= reported@);
        }
        let n_outputs = entries.len();
        proof {
            assert(n_outputs == entries@.len());
        }
        let current = entries[0].crtc;
        let r = WindowManager {
            keys,
            groups,
            windows: Vec::new(),
            layouts,
            outputs: entries,
            screen: Screen::new(),
            current,
            mapped: Vec::new(),
        };
        proof {
            lemma_find_output_found(r.outputs_spec(), current, 0);
            let live = live_outputs(reported@);
            let outs = r.outputs_spec();
            assert(outs == initial_outputs(live));
            assert(r.layouts_spec().len() >= 1);
            assert(groups_wf(r.groups_spec(), r.layouts_spec().len() as int));
            assert forall|i: int, j: int| 0 <= i < j < outs.len() implies (
            #[trigger] outs[i]).crtc != (#[trigger] outs[j]).crtc by {
                assert(outs[i].crtc == live[i].0);
                assert(outs[j].crtc == live[j].0);
            }
            assert forall|i: int, j: int| 0 <= i < j < outs.len() implies (
            #[trigger] outs[i]).group != (#[trigger] outs[j]).group by {
                assert(outs.len() == n_outputs);
                assert(outs[i].group == i as GroupId);
                assert(outs[j].group == j as GroupId);
            }
            assert forall|i: int| 0 <= i < outs.len() implies (#[trigger] outs[i]).group
                < r.groups_spec().len() by {}
            assert forall|i: int| 0 <= i < outs.len() implies (#[trigger] outs[i]).info.x >= 0
                && outs[i].info.y >= 0 by {
                assert(outs[i].info == live[i].1);
                assert(live[i].1.x >= 0 && live[i].1.y >= 0);
            }
        }
        r
    }

    /// The group names, in order: what a desktop-metadata publication sends.
    pub fn group_names(&self) -> (names: Vec<String>)
        ensures
            names@.len() == self.groups_spec().len(),
            forall|i: int|
                0 <= i < names@.len() ==> (#[trigger] names@[i])@ == self.groups_spec()[i].name_spec(),
    {
        let mut names: Vec<String> = Vec::new();
        let mut i: usize = 0;
        while i < self.groups.len()
            invariant
                i <= self.groups@.len(),
                names@.len() == i,
                forall|j: int|
                    0 <= j < i ==> (#[trigger] names@[j])@ == self.groups_spec()[j].name_spec(),
            decreases self.groups@.len() - i,
        {
            names.push(self.groups[i].name().clone());
            i = i + 1;
        }
        names
    }

    /// The index of the group shown on the current output: what a
    /// desktop-metadata publication sends as the active desktop.
    pub fn current_group_index(&self) -> (r: GroupId)
        requires
            self.wf(),
        ensures
            Some(r) == current_group(self.outputs_spec(), self.current_spec()),
            r < self.groups_spec().len(),
    {
        let i = self.find_output_idx(self.current).unwrap();
        let g = self.outputs[i].group;
        proof {
            assert(self.outputs_spec()[i as int].group < self.groups_spec().len() as int);
        }
        g
    }

    /// The handles of every managed window, in management order.
    pub fn managed_windows(&self) -> (v: Vec<WindowId>)
        ensures
            v@ == self.windows_spec().map_values(|w: Window| w.id),
    {
        let mut v: Vec<WindowId> = Vec::new();
        let mut i: usize = 0;
        while i < self.windows.len()
            invariant
                i <= self.windows@.len(),
                v@.len() == i,
                forall|j: int| 0 <= j < i ==> v@[j] == self.windows_spec()[j].id,
            decreases self.windows@.len() - i,
        {
            v.push(self.windows[i].id);
            i = i + 1;
        }
        proof {
            assert(v@ =~= self.windows_spec().map_values(|w: Window| w.id));
        }
        v
    }

    /// The focused window of the group shown on the current output, if any.
    pub fn focused_window(&self) -> (r: Option<WindowId>)
        ensures
            r == focus_target(self.outputs_spec(), self.current_spec(), self.groups_spec()),
    {
        match self.find_output_idx(self.current) {
            Some(i) => {
                let gid = self.outputs[i].group;
                if gid < self.groups.len() {
                    self.groups[gid].focused_window
                } else {
                    None
                }
            }
            None => None,
        }
    }

    /// The position of the output entry for `crtc`, if any.
    fn find_output_idx(&self, crtc: Crtc) -> (r: Option<usize>)
        ensures
            match r {
                Some(i) => i < self.outputs_spec().len() && find_output(self.outputs_spec(), crtc)
                    == Some(i as int) && self.outputs_spec()[i as int].crtc == crtc && (forall|
                    j: int,
                |
                    0 <= j < i ==> (#[trigger] self.outputs_spec()[j]).crtc != crtc),
                None => find_output(self.outputs_spec(), crtc) is None,
            },
    {
        let mut i: usize = 0;
        while i < self.outputs.len()
            invariant
                i <= self.outputs@.len(),
                forall|j: int| 0 <= j < i ==> (#[trigger] self.outputs@[j]).crtc != crtc,
            decreases self.outputs@.len() - i,
        {
            if self.outputs[i].crtc == crtc {
                proof {
                    lemma_find_output_found(self.outputs_spec(), crtc, i as int);
                }
                return Some(i);
            }
            i = i + 1;
        }
        proof {
            lemma_find_output_none(self.outputs_spec(), crtc);
        }
        None
    }

    /// The position of the managed window with this handle, if any.
    fn find_window_idx(&self, id: WindowId) -> (r: Option<usize>)
        ensures
            match r {
                Some(i) => i < self.windows_spec().len() && find_window(self.windows_spec(), id)
                    == Some(i as int) && self.windows_spec()[i as int].id == id && (forall|j: int|
                    0 <= j < i ==> (#[trigger] self.windows_spec()[j]).id != id),
                None => find_window(self.windows_spec(), id) is None,
            },
    {
        let mut i: usize = 0;
        while i < self.windows.len()
            invariant
                i <= self.windows@.len(),
                forall|j: int| 0 <= j < i ==> (#[trigger] self.windows@[j]).id != id,
            decreases self.windows@.len() - i,
        {
            if self.windows[i].id == id {
                proof {
                    lemma_find_window_found(self.windows_spec(), id, i as int);
                }
                return Some(i);
            }
            i = i + 1;
        }
        proof {
            lemma_find_window_none(self.windows_spec(), id);
        }
        None
    }

    /// Whether the window is currently managed.
    fn is_window_managed(&self, id: WindowId) -> (b: bool)
        ensures
            b == (find_window(self.windows_spec(), id) is Some),
    {
        self.find_window_idx(id).is_some()
    }

    /// The position of `id` among the given handles, if any.
    fn position_in_ids(ids: &Vec<WindowId>, id: WindowId) -> (r: Option<usize>)
        ensures
            match r {
                Some(i) => i < ids@.len() && find_id(ids@, id) == Some(i as int) && ids@[i as int]
                    == id && (forall|j: int| 0 <= j < i ==> ids@[j] != id),
                None => find_id(ids@, id) is None,
            },
    {
        let mut i: usize = 0;
        while i < ids.len()
            invariant
                i <= ids@.len(),
                forall|j: int| 0 <= j < i ==> ids@[j] != id,
            decreases ids@.len() - i,
        {
            if ids[i] == id {
                proof {
                    lemma_find_id_found(ids@, id, i as int);
                }
                return Some(i);
            }
            i = i + 1;
        }
        proof {
            lemma_find_id_none(ids@, id);
        }
        None
    }

    /// The handles of the group's windows, in list order.
    fn windows_of_group(&self, gid: GroupId) -> (v: Vec<WindowId>)
        ensures
            v@ == windows_in_group(self.windows_spec(), gid),
    {
        let mut v: Vec<WindowId> = Vec::new();
        let mut i: usize = 0;
        while i < self.windows.len()
            invariant
                i <= self.windows@.len(),
                v@ == windows_in_group(self.windows@.take(i as int), gid),
            decreases self.windows@.len() - i,
        {
            proof {
                assert(self.windows@.take(i + 1).drop_last() =~= self.windows@.take(i as int));
                assert(self.windows@.take(i + 1).last() == self.windows@[i as int]);
            }
            let w = self.windows[i];
            if w.group == gid {
                v.push(w.id);
            }
            i = i + 1;
        }
        proof {
            assert(self.windows@.take(self.windows@.len() as int) =~= self.windows@);
        }
        v
    }

    /// The stack a group's layout is computed over: the group's windows in
    /// list order, focused at the group's focused window.
    fn group_stack(&self, gid: GroupId) -> (s: Stack<WindowId>)
        requires
            gid < self.groups_spec().len(),
        ensures
            s@ == windows_in_group(self.windows_spec(), gid),
            s.focus() == focused_idx_spec(
                self.windows_spec(),
                self.groups_spec()[gid as int],
                gid,
            ),
    {
        let ids = self.windows_of_group(gid);
        let focused_idx: usize = match self.groups[gid].focused_window {
            Some(w) => match Self::position_in_ids(&ids, w) {
                Some(p) => p,
                None => 0,
            },
            None => 0,
        };
        Stack::from_parts(ids, focused_idx)
    }

    /// The lowest group index no output currently displays.
    fn find_next_unallocated_group(&self) -> (g: GroupId)
        requires
            forall|i: int, j: int|
                0 <= i < j < self.outputs_spec().len() ==> (#[trigger] self.outputs_spec()[i]).group
                    != (#[trigger] self.outputs_spec()[j]).group,
        ensures
            !group_used(self.outputs_spec(), g as int),
            forall|h: int| 0 <= h < g ==> #[trigger] group_used(self.outputs_spec(), h),
            g <= self.outputs_spec().len(),
    {
        let mut g: usize = 0;
        loop
            invariant
                g <= self.outputs@.len(),
                forall|h: int| 0 <= h < g ==> #[trigger] group_used(self.outputs_spec(), h),
                forall|i: int, j: int|
                    0 <= i < j < self.outputs_spec().len() ==> (
                    #[trigger] self.outputs_spec()[i]).group != (
                    #[trigger] self.outputs_spec()[j]).group,
            decreases self.outputs@.len() + 1 - g,
        {
            let mut used = false;
            let mut i: usize = 0;
            while i < self.outputs.len()
                invariant
                    i <= self.outputs@.len(),
                    used ==> group_used(self.outputs_spec(), g as int),
                    !used ==> forall|j: int|
                        0 <= j < i ==> (#[trigger] self.outputs@[j]).group != g,
                decreases self.outputs@.len() - i,
            {
                if self.outputs[i].group == g {
                    used = true;
                }
                i = i + 1;
            }
            if !used {
                return g;
            }
            proof {
                if g >= self.outputs@.len() {
                    lemma_unused_group_exists(self.outputs_spec());
                    let u = choose|u: int|
                        0 <= u <= self.outputs_spec().len() && !group_used(
                            self.outputs_spec(),
                            u,
                        );
                    assert(group_used(self.outputs_spec(), u));
                    assert(false);
                }
            }
            g = g + 1;
        }
    }
}

impl WindowManager {
    /// Whether some placement concerns this window.
    fn contains_id_exec(v: &Vec<MappedWindow<WindowId>>, id: WindowId) -> (b: bool)
        ensures
            b == contains_id(v@, id),
    {
        let mut i: usize = 0;
        while i < v.len()
            invariant
                i <= v@.len(),
                forall|j: int| 0 <= j < i ==> (#[trigger] v@[j]).id != id,
            decreases v@.len() - i,
        {
            if v[i].id == id {
                return true;
            }
            i = i + 1;
        }
        false
    }

    /// Whether the exact placement occurs in the sequence.
    fn contains_mw_exec(v: &Vec<MappedWindow<WindowId>>, w: &MappedWindow<WindowId>) -> (b: bool)
        ensures
            b == v@.contains(*w),
    {
        let mut i: usize = 0;
        while i < v.len()
            invariant
                i <= v@.len(),
                forall|j: int| 0 <= j < i ==> v@[j] != *w,
            decreases v@.len() - i,
        {
            if v[i] == *w {
                return true;
            }
            i = i + 1;
        }
        false
    }

    /// One reconciliation pass: recomputes the placements of every
    /// output/group pair, diffs them against the previous rendering, stores
    /// the new rendering, and returns the operations the backend must
    /// perform. When the dock geometry cannot be applied to the outputs,
    /// nothing changes and nothing is issued.
    fn reconcile(&mut self) -> (acts: Vec<Action>)
        requires
            old(self).wf(),
        ensures
            final(self).wf(),
            final(self).keys_spec() == old(self).keys_spec(),
            final(self).groups_spec() == old(self).groups_spec(),
            final(self).windows_spec() == old(self).windows_spec(),
            final(self).layouts_spec() == old(self).layouts_spec(),
            final(self).outputs_spec() == old(self).outputs_spec(),
            final(self).docks_spec() == old(self).docks_spec(),
            final(self).current_spec() == old(self).current_spec(),
            final(self).mapped_spec() == mapped_after(
                old(self).groups_spec(),
                old(self).windows_spec(),
                old(self).layouts_spec(),
                old(self).outputs_spec(),
                old(self).docks_spec(),
                old(self).mapped_spec(),
            ),
            acts@ == reconcile_actions(
                old(self).groups_spec(),
                old(self).windows_spec(),
                old(self).layouts_spec(),
                old(self).outputs_spec(),
                old(self).docks_spec(),
                old(self).current_spec(),
                old(self).mapped_spec(),
            ),
    {
        let mut ports: Vec<Viewport> = Vec::new();
        let mut i: usize = 0;
        while i < self.outputs.len()
            invariant
                i <= self.outputs@.len(),
                ports@.len() == i,
                forall|j: int|
                    0 <= j < i ==> ports@[j] == output_ports(self.outputs@)[j],
            decreases self.outputs@.len() - i,
        {
            ports.push(Viewport::clone_from_crtc_info(&self.outputs[i].info));
            i = i + 1;
        }
        proof {
            assert(ports@ =~= output_ports(self.outputs_spec()));
        }
        if !self.screen.can_apply(&ports) {
            let acts: Vec<Action> = Vec::new();
            proof {
                assert(acts@ =~= reconcile_actions(
                    self.groups_spec(),
                    self.windows_spec(),
                    self.layouts_spec(),
                    self.outputs_spec(),
                    self.docks_spec(),
                    self.current_spec(),
                    self.mapped_spec(),
                ));
            }
            return acts;
        }
        let ghost ports_view = ports@;
        let vps = self.screen.viewports(ports);
        let mut next: Vec<MappedWindow<WindowId>> = Vec::new();
        let mut k: usize = 0;
        while k < self.outputs.len()
            invariant
                self.wf(),
                k <= self.outputs@.len(),
                ports_view == output_ports(self.outputs_spec()),
                vps@.len() == self.outputs@.len(),
                forall|j: int|
                    0 <= j < vps@.len() ==> vps@[j] == folded_vp(
                        self.outputs_spec(),
                        self.docks_spec(),
                        j,
                    ),
                next@ == placements_upto(
                    self.groups_spec(),
                    self.windows_spec(),
                    self.layouts_spec(),
                    self.outputs_spec(),
                    self.docks_spec(),
                    k as int,
                ),
            decreases self.outputs@.len() - k,
        {
            let gid = self.outputs[k].group;
            let stack = self.group_stack(gid);
            let layout_id = self.groups[gid].layout_id;
            let mut part = self.layouts[layout_id].layout(&vps[k], &stack);
            next.append(&mut part);
            k = k + 1;
        }
        let ghost old_mapped = self.mapped@;
        let mut acts: Vec<Action> = Vec::new();
        let mut i: usize = 0;
        proof {
            assert(acts@ =~= unmap_actions(old_mapped.take(0int), next@));
        }
        while i < self.mapped.len()
            invariant
                i <= self.mapped@.len(),
                old_mapped == self.mapped@,
                acts@ == unmap_actions(old_mapped.take(i as int), next@),
            decreases self.mapped@.len() - i,
        {
            proof {
                assert(old_mapped.take(i + 1).drop_last() =~= old_mapped.take(i as int));
                assert(old_mapped.take(i + 1).last() == old_mapped[i as int]);
            }
            let id = self.mapped[i].id;
            if !Self::contains_id_exec(&next, id) {
                acts.push(Action::Unmap(id));
            }
            i = i + 1;
        }
        proof {
            assert(old_mapped.take(old_mapped.len() as int) =~= old_mapped);
        }
        let ghost unmaps = acts@;
        let mut i: usize = 0;
        while i < next.len()
            invariant
                i <= next@.len(),
                old_mapped == self.mapped@,
                acts@ == unmaps + configure_actions(old_mapped, next@.take(i as int)),
            decreases next@.len() - i,
        {
            proof {
                assert(next@.take(i + 1).drop_last() =~= next@.take(i as int));
                assert(next@.take(i + 1).last() == next@[i as int]);
            }
            let w = Self::mapped_candidate(&next, i);
            if !Self::contains_mw_exec(&self.mapped, &w) {
                acts.push(Action::Configure(w.id, w.vp));
            }
            i = i + 1;
        }
        proof {
            assert(next@.take(next@.len() as int) =~= next@);
        }
        let ghost configures = acts@;
        let mut i: usize = 0;
        while i < next.len()
            invariant
                i <= next@.len(),
                old_mapped == self.mapped@,
                acts@ == configures + map_actions(old_mapped, next@.take(i as int)),
            decreases next@.len() - i,
        {
            proof {
                assert(next@.take(i + 1).drop_last() =~= next@.take(i as int));
                assert(next@.take(i + 1).last() == next@[i as int]);
            }
            let id = next[i].id;
            if !Self::contains_id_exec(&self.mapped, id) {
                acts.push(Action::MapWindow(id));
            }
            i = i + 1;
        }
        proof {
            assert(next@.take(next@.len() as int) =~= next@);
        }
        acts.push(Action::Focus(self.focused_window()));
        self.mapped = next;
        proof {
            assert(acts@ =~= reconcile_actions(
                old(self).groups_spec(),
                old(self).windows_spec(),
                old(self).layouts_spec(),
                old(self).outputs_spec(),
                old(self).docks_spec(),
                old(self).current_spec(),
                old_mapped,
            ));
        }
        acts
    }

    /// Copies the placement at `i`.
    fn mapped_candidate(v: &Vec<MappedWindow<WindowId>>, i: usize) -> (w: MappedWindow<WindowId>)
        requires
            i < v@.len(),
        ensures
            w == v@[i as int],
    {
        v[i]
    }
}

/// The fields the mutation left alone and the reconciliation outcome every
/// handler ends with: the new rendering is stored and the returned actions
/// end with the reconciliation's operations over the given components.
pub open spec fn unchanged_config(pre: WindowManager, post: WindowManager) -> bool {
    &&& post.keys_spec() == pre.keys_spec()
    &&& post.layouts_spec() == pre.layouts_spec()
}

/// The output of `rotate_crtc`: the next output in table order, cyclically.
pub open spec fn next_crtc(outputs: Seq<OutputEntry>, current: Crtc) -> Crtc {
    match find_output(outputs, current) {
        Some(i) => outputs[if i + 1 < outputs.len() {
            i + 1
        } else {
            0
        }].crtc,
        None => current,
    }
}

/// What `refresh` does: nothing changes but the stored rendering, and the
/// actions are one reconciliation pass followed by a metadata publication.
pub open spec fn refresh_post(pre: WindowManager, post: WindowManager, acts: Seq<Action>) -> bool {
    &&& unchanged_config(pre, post)
    &&& post.groups_spec() == pre.groups_spec()
    &&& post.windows_spec() == pre.windows_spec()
    &&& post.outputs_spec() == pre.outputs_spec()
    &&& post.docks_spec() == pre.docks_spec()
    &&& post.current_spec() == pre.current_spec()
    &&& post.mapped_spec() == mapped_after(
        pre.groups_spec(),
        pre.windows_spec(),
        pre.layouts_spec(),
        pre.outputs_spec(),
        pre.docks_spec(),
        pre.mapped_spec(),
    )
    &&& acts == reconcile_actions(
        pre.groups_spec(),
        pre.windows_spec(),
        pre.layouts_spec(),
        pre.outputs_spec(),
        pre.docks_spec(),
        pre.current_spec(),
        pre.mapped_spec(),
    ) + seq![Action::PublishDesktops]
}

/// What `rotate_crtc` does: the current output advances cyclically and a
/// reconciliation pass follows.
pub open spec fn rotate_crtc_post(
    pre: WindowManager,
    post: WindowManager,
    acts: Seq<Action>,
) -> bool {
    &&& unchanged_config(pre, post)
    &&& post.groups_spec() == pre.groups_spec()
    &&& post.windows_spec() == pre.windows_spec()
    &&& post.outputs_spec() == pre.outputs_spec()
    &&& post.docks_spec() == pre.docks_spec()
    &&& post.current_spec() == next_crtc(pre.outputs_spec(), pre.current_spec())
    &&& post.mapped_spec() == mapped_after(
        pre.groups_spec(),
        pre.windows_spec(),
        pre.layouts_spec(),
        pre.outputs_spec(),
        pre.docks_spec(),
        pre.mapped_spec(),
    )
    &&& acts == reconcile_actions(
        pre.groups_spec(),
        pre.windows_spec(),
        pre.layouts_spec(),
        pre.outputs_spec(),
        pre.docks_spec(),
        post.current_spec(),
        pre.mapped_spec(),
    )
}

/// The groups after the current group's layout advances cyclically.
pub open spec fn cycled_groups(
    groups: Seq<Group>,
    outputs: Seq<OutputEntry>,
    current: Crtc,
    n_layouts: int,
) -> Seq<Group> {
    match current_group(outputs, current) {
        Some(gid) => if gid < groups.len() {
            let g = groups[gid as int];
            groups.update(
                gid as int,
                Group {
                    layout_id: (if g.layout_id + 1 < n_layouts {
                        g.layout_id + 1
                    } else {
                        0
                    }) as usize,
                    ..g
                },
            )
        } else {
            groups
        },
        None => groups,
    }
}

/// What `group_cycle_layouts` does: the current group's layout advances
/// cyclically through the layout list and a reconciliation pass follows.
pub open spec fn group_cycle_layouts_post(
    pre: WindowManager,
    post: WindowManager,
    acts: Seq<Action>,
) -> bool {
    &&& unchanged_config(pre, post)
    &&& post.groups_spec() == cycled_groups(
        pre.groups_spec(),
        pre.outputs_spec(),
        pre.current_spec(),
        pre.layouts_spec().len() as int,
    )
    &&& post.windows_spec() == pre.windows_spec()
    &&& post.outputs_spec() == pre.outputs_spec()
    &&& post.docks_spec() == pre.docks_spec()
    &&& post.current_spec() == pre.current_spec()
    &&& post.mapped_spec() == mapped_after(
        post.groups_spec(),
        pre.windows_spec(),
        pre.layouts_spec(),
        pre.outputs_spec(),
        pre.docks_spec(),
        pre.mapped_spec(),
    )
    &&& acts == reconcile_actions(
        post.groups_spec(),
        pre.windows_spec(),
        pre.layouts_spec(),
        pre.outputs_spec(),
        pre.docks_spec(),
        pre.current_spec(),
        pre.mapped_spec(),
    )
}

/// What `close_focused` does: ask the server to close the focused window of
/// the current group, if there is one; no state changes.
pub open spec fn close_focused_post(
    pre: WindowManager,
    post: WindowManager,
    acts: Seq<Action>,
) -> bool {
    &&& post == pre
    &&& acts == match focus_target(pre.outputs_spec(), pre.current_spec(), pre.groups_spec()) {
        Some(id) => seq![Action::CloseWindow(id)],
        None => Seq::<Action>::empty(),
    }
}

/// The output table after the current output is assigned `new_idx`: the
/// output that displayed `new_idx` takes over the current output's old
/// group, so that no two outputs ever display the same group.
pub open spec fn focus_group_outputs(
    outputs: Seq<OutputEntry>,
    current: Crtc,
    new_idx: GroupId,
) -> Seq<OutputEntry> {
    match find_output(outputs, current) {
        Some(ci) => {
            let old_idx = outputs[ci].group;
            Seq::new(
                outputs.len(),
                |j: int|
                    if j == ci {
                        OutputEntry { group: new_idx, ..outputs[j] }
                    } else if outputs[j].group == new_idx && old_idx != new_idx {
                        OutputEntry { group: old_idx, ..outputs[j] }
                    } else {
                        outputs[j]
                    },
            )
        },
        None => outputs,
    }
}

/// What assigning a group to the current output does to the table and the
/// metadata: nothing when the group does not exist, otherwise the swap with
/// a publication.
pub open spec fn focus_group_post(
    pre: WindowManager,
    post: WindowManager,
    acts: Seq<Action>,
    new_idx: GroupId,
) -> bool {
    &&& unchanged_config(pre, post)
    &&& post.groups_spec() == pre.groups_spec()
    &&& post.windows_spec() == pre.windows_spec()
    &&& post.docks_spec() == pre.docks_spec()
    &&& post.current_spec() == pre.current_spec()
    &&& post.mapped_spec() == pre.mapped_spec()
    &&& if new_idx < pre.groups_spec().len() {
        post.outputs_spec() == focus_group_outputs(
            pre.outputs_spec(),
            pre.current_spec(),
            new_idx,
        ) && acts == seq![Action::PublishDesktops]
    } else {
        post.outputs_spec() == pre.outputs_spec() && acts == Seq::<Action>::empty()
    }
}

impl WindowManager {
    /// Reconciles and republishes the desktop metadata: what startup runs
    /// once every existing window has been managed.
    pub fn refresh(&mut self) -> (acts: Vec<Action>)
        requires
            old(self).wf(),
        ensures
            final(self).wf(),
            refresh_post(*old(self), *final(self), acts@),
    {
        let mut acts = self.reconcile();
        acts.push(Action::PublishDesktops);
        proof {
            assert(acts@ =~= reconcile_actions(
                old(self).groups_spec(),
                old(self).windows_spec(),
                old(self).layouts_spec(),
                old(self).outputs_spec(),
                old(self).docks_spec(),
                old(self).current_spec(),
                old(self).mapped_spec(),
            ) + seq![Action::PublishDesktops]);
        }
        acts
    }

    /// Advances which output is current, cyclically in table order, and
    /// reconciles. Only the focus target changes, not any assignment.
    pub fn rotate_crtc(&mut self) -> (acts: Vec<Action>)
        requires
            old(self).wf(),
        ensures
            final(self).wf(),
            rotate_crtc_post(*old(self), *final(self), acts@),
    {
        let i = self.find_output_idx(self.current).unwrap();
        let n = self.outputs.len();
        let k = if i + 1 < n {
            i + 1
        } else {
            0
        };
        self.current = self.outputs[k].crtc;
        proof {
            lemma_find_output_self(self.outputs_spec(), k as int);
        }
        self.reconcile()
    }

    /// Cycles the current group to the next layout in the list and
    /// reconciles.
    pub fn group_cycle_layouts(&mut self) -> (acts: Vec<Action>)
        requires
            old(self).wf(),
        ensures
            final(self).wf(),
            group_cycle_layouts_post(*old(self), *final(self), acts@),
    {
        let gid = self.current_group_index();
        if gid < self.groups.len() {
            let old_layout = self.groups[gid].layout_id;
            let n = self.layouts.len();
            let new_layout = if old_layout + 1 < n {
                old_layout + 1
            } else {
                0
            };
            let name = self.groups[gid].name.clone();
            let focused_window = self.groups[gid].focused_window;
            self.groups.set(
                gid,
                Group { name, layout_id: new_layout, focused_window },
            );
            proof {
                assert forall|i: int| 0 <= i < self.groups_spec().len() implies (
                #[trigger] self.groups_spec()[i]).layout_id < self.layouts_spec().len() by {
                    if i != gid {
                        assert(self.groups_spec()[i] == old(self).groups_spec()[i]);
                        assert(old(self).groups_spec()[i].layout_id < old(
                            self,
                        ).layouts_spec().len());
                    }
                }
                assert(self.groups_spec() =~= cycled_groups(
                    old(self).groups_spec(),
                    old(self).outputs_spec(),
                    old(self).current_spec(),
                    old(self).layouts_spec().len() as int,
                ));
            }
        }
        self.reconcile()
    }

    /// Asks the server to close the focused window; the window record is
    /// removed only when the server later reports its destruction.
    pub fn close_focused(&mut self) -> (acts: Vec<Action>)
        ensures
            *final(self) == *old(self),
            close_focused_post(*old(self), *final(self), acts@),
    {
        let mut acts: Vec<Action> = Vec::new();
        match self.focused_window() {
            Some(id) => {
                acts.push(Action::CloseWindow(id));
                proof {
                    assert(acts@ =~= seq![Action::CloseWindow(id)]);
                }
            }
            None => {
                proof {
                    assert(acts@ =~= Seq::<Action>::empty());
                }
            }
        }
        acts
    }

    /// Assigns the group to the current output, demoting whichever output
    /// displayed it to the current output's old group; a no-op when the
    /// group does not exist. Publishes the metadata; callers reconcile.
    fn focus_group(&mut self, new_idx: GroupId) -> (acts: Vec<Action>)
        requires
            old(self).wf(),
        ensures
            final(self).wf(),
            focus_group_post(*old(self), *final(self), acts@, new_idx),
    {
        let mut acts: Vec<Action> = Vec::new();
        if new_idx >= self.groups.len() {
            proof {
                assert(acts@ =~= Seq::<Action>::empty());
            }
            return acts;
        }
        let ci = self.find_output_idx(self.current).unwrap();
        let old_idx = self.outputs[ci].group;
        if old_idx != new_idx {
            let mut j: usize = 0;
            while j < self.outputs.len()
                invariant
                    old(self).wf(),
                    j <= self.outputs@.len(),
                    self.keys@ == old(self).keys@,
                    self.groups@ == old(self).groups@,
                    self.windows@ == old(self).windows@,
                    self.layouts@ == old(self).layouts@,
                    self.screen == old(self).screen,
                    self.current == old(self).current,
                    self.mapped@ == old(self).mapped@,
                    self.outputs@.len() == old(self).outputs@.len(),
                    old_idx != new_idx,
                    ci < self.outputs@.len(),
                    find_output(old(self).outputs_spec(), old(self).current_spec()) == Some(
                        ci as int,
                    ),
                    old(self).outputs@[ci as int].group == old_idx,
                    forall|t: int|
                        0 <= t < j ==> self.outputs@[t] == (if old(self).outputs@[t].group
                            == new_idx {
                            OutputEntry { group: old_idx, ..old(self).outputs@[t] }
                        } else {
                            old(self).outputs@[t]
                        }),
                    forall|t: int|
                        j <= t < self.outputs@.len() ==> self.outputs@[t] == old(
                            self,
                        ).outputs@[t],
                decreases self.outputs@.len() - j,
            {
                if self.outputs[j].group == new_idx {
                    let entry = self.outputs[j];
                    self.outputs.set(j, OutputEntry { group: old_idx, ..entry });
                }
                j = j + 1;
            }
        }
        let entry = self.outputs[ci];
        self.outputs.set(ci, OutputEntry { group: new_idx, ..entry });
        acts.push(Action::PublishDesktops);
        proof {
            let pre = old(self).outputs_spec();
            let posts = self.outputs_spec();
            assert(find_output(pre, old(self).current_spec()) == Some(ci as int));
            assert(posts =~= focus_group_outputs(
                pre,
                old(self).current_spec(),
                new_idx,
            ));
            assert(acts@ =~= seq![Action::PublishDesktops]);
            assert forall|i: int, j2: int| 0 <= i < j2 < posts.len() implies (
            #[trigger] posts[i]).group != (#[trigger] posts[j2]).group by {
                assert(pre[i].group != pre[j2].group);
            }
            assert forall|i: int| 0 <= i < posts.len() implies (#[trigger] posts[i]).group
                < self.groups_spec().len() by {
                assert(pre[i].group < self.groups_spec().len());
            }
            assert forall|i: int, j2: int| 0 <= i < j2 < posts.len() implies (
            #[trigger] posts[i]).crtc != (#[trigger] posts[j2]).crtc by {
                assert(pre[i].crtc != pre[j2].crtc);
            }
            assert(posts[ci as int].crtc == old(self).current_spec());
            lemma_find_output_self(posts, ci as int);
        }
        acts
    }
}

/// The output at `k` guarantees its own id can be found in the table.
pub proof fn lemma_find_output_self(outputs: Seq<OutputEntry>, k: int)
    requires
        0 <= k < outputs.len(),
    ensures
        find_output(outputs, outputs[k].crtc) is Some,
    decreases k,
{
    if outputs.first().crtc == outputs[k].crtc {
    } else {
        lemma_find_output_self(outputs.drop_first(), k - 1);
    }
}

/// The position of the first output entry displaying `gid`, if any.
pub open spec fn find_output_with_group(outputs: Seq<OutputEntry>, gid: GroupId) -> Option<int>
    decreases outputs.len(),
{
    if outputs.len() == 0 {
        None
    } else if outputs.first().group == gid {
        Some(0)
    } else {
        match find_output_with_group(outputs.drop_first(), gid) {
            Some(i) => Some(i + 1),
            None => None,
        }
    }
}

/// The group-index step of group navigation: one forward or back from the
/// group shown on the current output, with no wraparound at either end.
pub open spec fn shift_target(
    outputs: Seq<OutputEntry>,
    current: Crtc,
    n_groups: int,
    forward: bool,
) -> Option<GroupId> {
    match current_group(outputs, current) {
        Some(cur) => if forward {
            if cur + 1 < n_groups {
                Some((cur + 1) as GroupId)
            } else {
                None
            }
        } else {
            if cur > 0 {
                Some((cur - 1) as GroupId)
            } else {
                None
            }
        },
        None => None,
    }
}

/// What one step of group navigation does: nothing at the boundary,
/// otherwise the focus-group swap, a publication, and a reconciliation.
pub open spec fn shift_group_post(
    pre: WindowManager,
    post: WindowManager,
    acts: Seq<Action>,
    forward: bool,
) -> bool {
    &&& unchanged_config(pre, post)
    &&& post.groups_spec() == pre.groups_spec()
    &&& post.windows_spec() == pre.windows_spec()
    &&& post.docks_spec() == pre.docks_spec()
    &&& post.current_spec() == pre.current_spec()
    &&& match shift_target(
        pre.outputs_spec(),
        pre.current_spec(),
        pre.groups_spec().len() as int,
        forward,
    ) {
        None => {
            &&& post.outputs_spec() == pre.outputs_spec()
            &&& post.mapped_spec() == pre.mapped_spec()
            &&& acts == Seq::<Action>::empty()
        },
        Some(t) => {
            let outputs2 = focus_group_outputs(pre.outputs_spec(), pre.current_spec(), t);
            &&& post.outputs_spec() == outputs2
            &&& post.mapped_spec() == mapped_after(
                pre.groups_spec(),
                pre.windows_spec(),
                pre.layouts_spec(),
                outputs2,
                pre.docks_spec(),
                pre.mapped_spec(),
            )
            &&& acts == seq![Action::PublishDesktops] + reconcile_actions(
                pre.groups_spec(),
                pre.windows_spec(),
                pre.layouts_spec(),
                outputs2,
                pre.docks_spec(),
                pre.current_spec(),
                pre.mapped_spec(),
            )
        },
    }
}

/// The groups after focus rotates one step backwards through the current
/// group's windows, wrapping at the start; `None` when nothing is to be
/// done (no current group, no focused window, or an empty group).
pub open spec fn rotate_focus_result(
    groups: Seq<Group>,
    windows: Seq<Window>,
    outputs: Seq<OutputEntry>,
    current: Crtc,
) -> Option<Seq<Group>> {
    match current_group(outputs, current) {
        Some(gid) => if gid < groups.len() {
            let g = groups[gid as int];
            match g.focused_window {
                Some(wid) => {
                    let ids = windows_in_group(windows, gid);
                    if ids.len() == 0 {
                        None
                    } else {
                        let idx = match find_id(ids, wid) {
                            Some(p) => p,
                            None => 0,
                        };
                        let new_focus = if idx > 0 {
                            idx - 1
                        } else {
                            ids.len() - 1
                        };
                        Some(
                            groups.update(
                                gid as int,
                                Group { focused_window: Some(ids[new_focus]), ..g },
                            ),
                        )
                    }
                },
                None => None,
            }
        } else {
            None
        },
        None => None,
    }
}

/// What `rotate_focus_in_group` does: either nothing, or the focus moves
/// one step and a reconciliation follows.
pub open spec fn rotate_focus_post(
    pre: WindowManager,
    post: WindowManager,
    acts: Seq<Action>,
) -> bool {
    &&& unchanged_config(pre, post)
    &&& post.windows_spec() == pre.windows_spec()
    &&& post.outputs_spec() == pre.outputs_spec()
    &&& post.docks_spec() == pre.docks_spec()
    &&& post.current_spec() == pre.current_spec()
    &&& match rotate_focus_result(
        pre.groups_spec(),
        pre.windows_spec(),
        pre.outputs_spec(),
        pre.current_spec(),
    ) {
        None => {
            &&& post.groups_spec() == pre.groups_spec()
            &&& post.mapped_spec() == pre.mapped_spec()
            &&& acts == Seq::<Action>::empty()
        },
        Some(gs) => {
            &&& post.groups_spec() == gs
            &&& post.mapped_spec() == mapped_after(
                gs,
                pre.windows_spec(),
                pre.layouts_spec(),
                pre.outputs_spec(),
                pre.docks_spec(),
                pre.mapped_spec(),
            )
            &&& acts == reconcile_actions(
                gs,
                pre.windows_spec(),
                pre.layouts_spec(),
                pre.outputs_spec(),
                pre.docks_spec(),
                pre.current_spec(),
                pre.mapped_spec(),
            )
        },
    }
}

/// The window list after two handles trade places: when both are managed,
/// the records at their positions exchange identities and keep their
/// groups; otherwise nothing changes.
pub open spec fn swapped_windows(windows: Seq<Window>, lhs: WindowId, rhs: WindowId) -> Seq<
    Window,
> {
    match (find_window(windows, lhs), find_window(windows, rhs)) {
        (Some(l), Some(r)) => windows.update(
            l,
            Window { id: rhs, group: windows[l].group },
        ).update(r, Window { id: lhs, group: windows[r].group }),
        _ => windows,
    }
}

/// Whether a swap of the two handles takes place: both must be managed.
pub open spec fn swap_happens(windows: Seq<Window>, lhs: WindowId, rhs: WindowId) -> bool {
    find_window(windows, lhs) is Some && find_window(windows, rhs) is Some
}

/// What exchanging two windows' positions does: the identity swap and a
/// reconciliation when both are managed, nothing otherwise.
pub open spec fn swap_windows_post(
    pre: WindowManager,
    post: WindowManager,
    acts: Seq<Action>,
    lhs: WindowId,
    rhs: WindowId,
) -> bool {
    &&& unchanged_config(pre, post)
    &&& post.groups_spec() == pre.groups_spec()
    &&& post.outputs_spec() == pre.outputs_spec()
    &&& post.docks_spec() == pre.docks_spec()
    &&& post.current_spec() == pre.current_spec()
    &&& if swap_happens(pre.windows_spec(), lhs, rhs) {
        let ws = swapped_windows(pre.windows_spec(), lhs, rhs);
        &&& post.windows_spec() == ws
        &&& post.mapped_spec() == mapped_after(
            pre.groups_spec(),
            ws,
            pre.layouts_spec(),
            pre.outputs_spec(),
            pre.docks_spec(),
            pre.mapped_spec(),
        )
        &&& acts == reconcile_actions(
            pre.groups_spec(),
            ws,
            pre.layouts_spec(),
            pre.outputs_spec(),
            pre.docks_spec(),
            pre.current_spec(),
            pre.mapped_spec(),
        )
    } else {
        &&& post.windows_spec() == pre.windows_spec()
        &&& post.mapped_spec() == pre.mapped_spec()
        &&& acts == Seq::<Action>::empty()
    }
}

/// The focused window and its stack neighbour in the current group, if the
/// neighbour in the given direction exists.
pub open spec fn adjacent_swap_pair(
    groups: Seq<Group>,
    windows: Seq<Window>,
    outputs: Seq<OutputEntry>,
    current: Crtc,
    forward: bool,
) -> Option<(WindowId, WindowId)> {
    match current_group(outputs, current) {
        Some(gid) => if gid < groups.len() {
            match groups[gid as int].focused_window {
                Some(wid) => {
                    let ids = windows_in_group(windows, gid);
                    match find_id(ids, wid) {
                        Some(pos) => if forward {
                            if pos + 1 < ids.len() {
                                Some((wid, ids[pos + 1]))
                            } else {
                                None
                            }
                        } else {
                            if pos > 0 {
                                Some((wid, ids[pos - 1]))
                            } else {
                                None
                            }
                        },
                        None => None,
                    }
                },
                None => None,
            }
        } else {
            None
        },
        None => None,
    }
}

/// What swapping the focused window with its stack neighbour does: the two
/// records exchange identities when the neighbour exists, else nothing.
pub open spec fn adjacent_swap_post(
    pre: WindowManager,
    post: WindowManager,
    acts: Seq<Action>,
    forward: bool,
) -> bool {
    match adjacent_swap_pair(
        pre.groups_spec(),
        pre.windows_spec(),
        pre.outputs_spec(),
        pre.current_spec(),
        forward,
    ) {
        Some(pair) => swap_windows_post(pre, post, acts, pair.0, pair.1),
        None => post == pre && acts == Seq::<Action>::empty(),
    }
}

/// The new groups and current output when focus moves to a window: the
/// window's group focuses it, and the output showing that group (if any)
/// becomes current; `None` when the window is not managed or its group does
/// not exist.
pub open spec fn focus_window_result(
    groups: Seq<Group>,
    windows: Seq<Window>,
    outputs: Seq<OutputEntry>,
    current: Crtc,
    wid: WindowId,
) -> Option<(Seq<Group>, Crtc)> {
    match find_window(windows, wid) {
        Some(p) => {
            let g = windows[p].group;
            if g < groups.len() {
                let groups2 = groups.update(
                    g as int,
                    Group { focused_window: Some(windows[p].id), ..groups[g as int] },
                );
                let cur2 = match find_output_with_group(outputs, g) {
                    Some(oi) => outputs[oi].crtc,
                    None => current,
                };
                Some((groups2, cur2))
            } else {
                None
            }
        },
        None => None,
    }
}

/// What focusing a window does: its group focuses it, the output showing
/// that group becomes current, and a reconciliation follows; nothing when
/// the window is unknown.
pub open spec fn focus_window_post(
    pre: WindowManager,
    post: WindowManager,
    acts: Seq<Action>,
    wid: WindowId,
) -> bool {
    &&& unchanged_config(pre, post)
    &&& post.windows_spec() == pre.windows_spec()
    &&& post.outputs_spec() == pre.outputs_spec()
    &&& post.docks_spec() == pre.docks_spec()
    &&& match focus_window_result(
        pre.groups_spec(),
        pre.windows_spec(),
        pre.outputs_spec(),
        pre.current_spec(),
        wid,
    ) {
        None => {
            &&& post.groups_spec() == pre.groups_spec()
            &&& post.current_spec() == pre.current_spec()
            &&& post.mapped_spec() == pre.mapped_spec()
            &&& acts == Seq::<Action>::empty()
        },
        Some(pair) => {
            &&& post.groups_spec() == pair.0
            &&& post.current_spec() == pair.1
            &&& post.mapped_spec() == mapped_after(
                pair.0,
                pre.windows_spec(),
                pre.layouts_spec(),
                pre.outputs_spec(),
                pre.docks_spec(),
                pre.mapped_spec(),
            )
            &&& acts == reconcile_actions(
                pair.0,
                pre.windows_spec(),
                pre.layouts_spec(),
                pre.outputs_spec(),
                pre.docks_spec(),
                pair.1,
                pre.mapped_spec(),
            )
        },
    }
}

/// The groups after a window is removed: when the removed window was its
/// group's focused window, focus moves to the nearest remaining window of
/// that group, preferring the predecessor.
pub open spec fn groups_after_removal(
    groups: Seq<Group>,
    windows: Seq<Window>,
    id: WindowId,
) -> Seq<Group> {
    match find_window(windows, id) {
        Some(p) => {
            let gid = windows[p].group;
            if gid < groups.len() && groups[gid as int].focused_window == Some(id) {
                let ids = windows_in_group(windows, gid);
                let newf = match find_id(ids, id) {
                    Some(q) => if q > 0 {
                        Some(ids[q - 1])
                    } else if q + 1 < ids.len() {
                        Some(ids[q + 1])
                    } else {
                        None
                    },
                    None => None,
                };
                groups.update(gid as int, Group { focused_window: newf, ..groups[gid as int] })
            } else {
                groups
            }
        },
        None => groups,
    }
}

/// The window list after a window is removed: the first record with the
/// handle disappears; the others keep their order.
pub open spec fn windows_after_removal(windows: Seq<Window>, id: WindowId) -> Seq<Window> {
    match find_window(windows, id) {
        Some(p) => windows.remove(p),
        None => windows,
    }
}

/// What removing a window record does: focus moves off it, the record
/// disappears, and a reconciliation with a metadata publication follows.
pub open spec fn remove_window_post(
    pre: WindowManager,
    post: WindowManager,
    acts: Seq<Action>,
    id: WindowId,
) -> bool {
    let gs = groups_after_removal(pre.groups_spec(), pre.windows_spec(), id);
    let ws = windows_after_removal(pre.windows_spec(), id);
    &&& unchanged_config(pre, post)
    &&& post.groups_spec() == gs
    &&& post.windows_spec() == ws
    &&& post.outputs_spec() == pre.outputs_spec()
    &&& post.docks_spec() == pre.docks_spec()
    &&& post.current_spec() == pre.current_spec()
    &&& post.mapped_spec() == mapped_after(
        gs,
        ws,
        pre.layouts_spec(),
        pre.outputs_spec(),
        pre.docks_spec(),
        pre.mapped_spec(),
    )
    &&& acts == reconcile_actions(
        gs,
        ws,
        pre.layouts_spec(),
        pre.outputs_spec(),
        pre.docks_spec(),
        pre.current_spec(),
        pre.mapped_spec(),
    ) + seq![Action::PublishDesktops]
}

impl WindowManager {
    /// Moves the current output to the next group, swapping assignments so
    /// that no two outputs display the same group; a no-op at the end of
    /// the group list.
    pub fn next_group(&mut self) -> (acts: Vec<Action>)
        requires
            old(self).wf(),
        ensures
            final(self).wf(),
            shift_group_post(*old(self), *final(self), acts@, true),
    {
        let gid = self.current_group_index();
        let n = self.groups.len();
        let mut acts: Vec<Action> = Vec::new();
        if gid + 1 < n {
            let mut a1 = self.focus_group(gid + 1);
            let ghost ga1 = a1@;
            let mut a2 = self.reconcile();
            let ghost ga2 = a2@;
            acts.append(&mut a1);
            acts.append(&mut a2);
            proof {
                assert(acts@ =~= ga1 + ga2);
            }
        } else {
            proof {
                assert(acts@ =~= Seq::<Action>::empty());
            }
        }
        acts
    }

    /// Moves the current output to the previous group; a no-op at the start
    /// of the group list.
    pub fn prev_group(&mut self) -> (acts: Vec<Action>)
        requires
            old(self).wf(),
        ensures
            final(self).wf(),
            shift_group_post(*old(self), *final(self), acts@, false),
    {
        let gid = self.current_group_index();
        let n = self.groups.len();
        let mut acts: Vec<Action> = Vec::new();
        if gid > 0 {
            let mut a1 = self.focus_group(gid - 1);
            let ghost ga1 = a1@;
            let mut a2 = self.reconcile();
            let ghost ga2 = a2@;
            acts.append(&mut a1);
            acts.append(&mut a2);
            proof {
                assert(acts@ =~= ga1 + ga2);
            }
        } else {
            proof {
                assert(acts@ =~= Seq::<Action>::empty());
            }
        }
        acts
    }

    /// Cycles focus through the current group's windows, wrapping at the
    /// start.
    pub fn rotate_focus_in_group(&mut self) -> (acts: Vec<Action>)
        requires
            old(self).wf(),
        ensures
            final(self).wf(),
            rotate_focus_post(*old(self), *final(self), acts@),
    {
        let gid = self.current_group_index();
        let mut acts: Vec<Action> = Vec::new();
        if gid >= self.groups.len() {
            proof {
                assert(acts@ =~= Seq::<Action>::empty());
            }
            return acts;
        }
        match self.groups[gid].focused_window {
            Some(wid) => {
                let ids = self.windows_of_group(gid);
                if ids.len() == 0 {
                    proof {
                        assert(acts@ =~= Seq::<Action>::empty());
                    }
                    return acts;
                }
                let idx: usize = match Self::position_in_ids(&ids, wid) {
                    Some(p) => p,
                    None => 0,
                };
                let new_focus: usize = if idx > 0 {
                    idx - 1
                } else {
                    ids.len() - 1
                };
                let name = self.groups[gid].name.clone();
                let layout_id = self.groups[gid].layout_id;
                let new_focused = Some(ids[new_focus]);
                self.groups.set(gid, Group { name, layout_id, focused_window: new_focused });
                proof {
                    assert(self.groups_spec() =~= rotate_focus_result(
                        old(self).groups_spec(),
                        old(self).windows_spec(),
                        old(self).outputs_spec(),
                        old(self).current_spec(),
                    ).unwrap());
                    assert forall|i: int| 0 <= i < self.groups_spec().len() implies (
                    #[trigger] self.groups_spec()[i]).layout_id < self.layouts_spec().len() by {
                        if i != gid {
                            assert(self.groups_spec()[i] == old(self).groups_spec()[i]);
                        }
                        assert(old(self).groups_spec()[i].layout_id < old(
                            self,
                        ).layouts_spec().len());
                    }
                }
                self.reconcile()
            }
            None => {
                proof {
                    assert(acts@ =~= Seq::<Action>::empty());
                }
                acts
            }
        }
    }

    /// Exchanges the records of the two windows so that they trade places
    /// in their stacks, and reconciles; a no-op unless both are managed.
    fn swap_windows(&mut self, lhs: WindowId, rhs: WindowId) -> (acts: Vec<Action>)
        requires
            old(self).wf(),
        ensures
            final(self).wf(),
            swap_windows_post(*old(self), *final(self), acts@, lhs, rhs),
    {
        let lpos = self.find_window_idx(lhs);
        let rpos = self.find_window_idx(rhs);
        match (lpos, rpos) {
            (Some(l), Some(r)) => {
                let lgroup = self.windows[l].group;
                let rgroup = self.windows[r].group;
                self.windows.set(l, Window { id: rhs, group: lgroup });
                self.windows.set(r, Window { id: lhs, group: rgroup });
                proof {
                    assert(self.windows_spec() =~= swapped_windows(
                        old(self).windows_spec(),
                        lhs,
                        rhs,
                    ));
                    assert forall|i: int| 0 <= i < self.windows_spec().len() implies (
                    #[trigger] self.windows_spec()[i]).group < self.groups_spec().len() by {
                        assert(old(self).windows_spec()[i].group < old(self).groups_spec().len());
                    }
                }
                self.reconcile()
            }
            _ => {
                let acts: Vec<Action> = Vec::new();
                proof {
                    assert(acts@ =~= Seq::<Action>::empty());
                }
                acts
            }
        }
    }

    /// Swaps the focused window with its successor in the current group's
    /// stack; a no-op when it is last or nothing is focused.
    pub fn swap_with_next_in_group(&mut self) -> (acts: Vec<Action>)
        requires
            old(self).wf(),
        ensures
            final(self).wf(),
            adjacent_swap_post(*old(self), *final(self), acts@, true),
    {
        self.swap_adjacent(true)
    }

    /// Swaps the focused window with its predecessor in the current group's
    /// stack; a no-op when it is first or nothing is focused.
    pub fn swap_with_previous_in_group(&mut self) -> (acts: Vec<Action>)
        requires
            old(self).wf(),
        ensures
            final(self).wf(),
            adjacent_swap_post(*old(self), *final(self), acts@, false),
    {
        self.swap_adjacent(false)
    }

    /// The shared body of the two adjacent swaps.
    fn swap_adjacent(&mut self, forward: bool) -> (acts: Vec<Action>)
        requires
            old(self).wf(),
        ensures
            final(self).wf(),
            adjacent_swap_post(*old(self), *final(self), acts@, forward),
    {
        let gid = self.current_group_index();
        let acts: Vec<Action> = Vec::new();
        if gid >= self.groups.len() {
            proof {
                assert(acts@ =~= Seq::<Action>::empty());
            }
            return acts;
        }
        match self.groups[gid].focused_window {
            Some(wid) => {
                let ids = self.windows_of_group(gid);
                match Self::position_in_ids(&ids, wid) {
                    Some(pos) => {
                        let n_ids = ids.len();
                        let next: Option<usize> = if forward {
                            if pos + 1 < n_ids {
                                Some(pos + 1)
                            } else {
                                None
                            }
                        } else {
                            if pos > 0 {
                                Some(pos - 1)
                            } else {
                                None
                            }
                        };
                        match next {
                            Some(np) => {
                                let target = ids[np];
                                self.swap_windows(wid, target)
                            }
                            None => {
                                proof {
                                    assert(acts@ =~= Seq::<Action>::empty());
                                }
                                acts
                            }
                        }
                    }
                    None => {
                        proof {
                            assert(acts@ =~= Seq::<Action>::empty());
                        }
                        acts
                    }
                }
            }
            None => {
                proof {
                    assert(acts@ =~= Seq::<Action>::empty());
                }
                acts
            }
        }
    }

    /// The position of the first output displaying `gid`, if any.
    fn find_output_with_group_idx(&self, gid: GroupId) -> (r: Option<usize>)
        ensures
            match r {
                Some(i) => i < self.outputs_spec().len() && find_output_with_group(
                    self.outputs_spec(),
                    gid,
                ) == Some(i as int) && self.outputs_spec()[i as int].group == gid,
                None => find_output_with_group(self.outputs_spec(), gid) is None,
            },
    {
        let mut i: usize = 0;
        while i < self.outputs.len()
            invariant
                i <= self.outputs@.len(),
                forall|j: int| 0 <= j < i ==> (#[trigger] self.outputs@[j]).group != gid,
            decreases self.outputs@.len() - i,
        {
            if self.outputs[i].group == gid {
                proof {
                    lemma_find_output_with_group_found(self.outputs_spec(), gid, i as int);
                }
                return Some(i);
            }
            i = i + 1;
        }
        proof {
            lemma_find_output_with_group_none(self.outputs_spec(), gid);
        }
        None
    }

    /// Focuses the window within its group, makes the output showing that
    /// group current, and reconciles; a no-op for unmanaged windows.
    fn focus_window(&mut self, wid: WindowId) -> (acts: Vec<Action>)
        requires
            old(self).wf(),
        ensures
            final(self).wf(),
            focus_window_post(*old(self), *final(self), acts@, wid),
    {
        match self.find_window_idx(wid) {
            Some(p) => {
                let gid = self.windows[p].group;
                if gid < self.groups.len() {
                    let name = self.groups[gid].name.clone();
                    let layout_id = self.groups[gid].layout_id;
                    let focused = Some(self.windows[p].id);
                    self.groups.set(gid, Group { name, layout_id, focused_window: focused });
                    match self.find_output_with_group_idx(gid) {
                        Some(oi) => {
                            self.current = self.outputs[oi].crtc;
                            proof {
                                lemma_find_output_self(self.outputs_spec(), oi as int);
                            }
                        }
                        None => {}
                    }
                    proof {
                        assert forall|i: int| 0 <= i < self.groups_spec().len() implies (
                        #[trigger] self.groups_spec()[i]).layout_id
                            < self.layouts_spec().len() by {
                            if i != gid {
                                assert(self.groups_spec()[i] == old(self).groups_spec()[i]);
                            }
                            assert(old(self).groups_spec()[i].layout_id < old(
                                self,
                            ).layouts_spec().len());
                        }
                        assert(self.groups_spec() =~= focus_window_result(
                            old(self).groups_spec(),
                            old(self).windows_spec(),
                            old(self).outputs_spec(),
                            old(self).current_spec(),
                            wid,
                        ).unwrap().0);
                    }
                    self.reconcile()
                } else {
                    let acts: Vec<Action> = Vec::new();
                    proof {
                        assert(acts@ =~= Seq::<Action>::empty());
                    }
                    acts
                }
            }
            None => {
                let acts: Vec<Action> = Vec::new();
                proof {
                    assert(acts@ =~= Seq::<Action>::empty());
                }
                acts
            }
        }
    }

    /// Removes the window's record: when it was its group's focused window,
    /// focus shifts to the nearest remaining window of that group,
    /// preferring the predecessor; then reconciles and republishes the
    /// metadata.
    fn remove_window(&mut self, id: WindowId) -> (acts: Vec<Action>)
        requires
            old(self).wf(),
        ensures
            final(self).wf(),
            remove_window_post(*old(self), *final(self), acts@, id),
    {
        match self.find_window_idx(id) {
            Some(p) => {
                let gid = self.windows[p].group;
                if gid < self.groups.len() {
                    let focused_matches = match self.groups[gid].focused_window {
                        Some(f) => f == id,
                        None => false,
                    };
                    if focused_matches {
                        let ids = self.windows_of_group(gid);
                        let newf: Option<WindowId> = match Self::position_in_ids(&ids, id) {
                            Some(q) => {
                                if q > 0 {
                                    Some(ids[q - 1])
                                } else if q + 1 < ids.len() {
                                    Some(ids[q + 1])
                                } else {
                                    None
                                }
                            }
                            None => None,
                        };
                        let name = self.groups[gid].name.clone();
                        let layout_id = self.groups[gid].layout_id;
                        self.groups.set(gid, Group { name, layout_id, focused_window: newf });
                        proof {
                            assert forall|i: int| 0 <= i < self.groups_spec().len() implies (
                            #[trigger] self.groups_spec()[i]).layout_id
                                < self.layouts_spec().len() by {
                                if i != gid {
                                    assert(self.groups_spec()[i] == old(self).groups_spec()[i]);
                                }
                                assert(old(self).groups_spec()[i].layout_id < old(
                                    self,
                                ).layouts_spec().len());
                            }
                        }
                    }
                }
                self.windows.remove(p);
                proof {
                    assert(self.groups_spec() =~= groups_after_removal(
                        old(self).groups_spec(),
                        old(self).windows_spec(),
                        id,
                    ));
                    assert(self.windows_spec() =~= windows_after_removal(
                        old(self).windows_spec(),
                        id,
                    ));
                    assert forall|i: int| 0 <= i < self.windows_spec().len() implies (
                    #[trigger] self.windows_spec()[i]).group < self.groups_spec().len() by {
                        if i < p {
                            assert(self.windows_spec()[i] == old(self).windows_spec()[i]);
                        } else {
                            assert(self.windows_spec()[i] == old(self).windows_spec()[i + 1]);
                        }
                        assert(old(self).windows_spec()[if i < p {
                            i
                        } else {
                            i + 1
                        }].group < old(self).groups_spec().len());
                    }
                }
                let mut acts = self.reconcile();
                acts.push(Action::PublishDesktops);
                proof {
                    assert(acts@ =~= reconcile_actions(
                        self.groups_spec(),
                        self.windows_spec(),
                        self.layouts_spec(),
                        self.outputs_spec(),
                        self.docks_spec(),
                        self.current_spec(),
                        old(self).mapped_spec(),
                    ) + seq![Action::PublishDesktops]);
                }
                acts
            }
            None => {
                let mut acts = self.reconcile();
                acts.push(Action::PublishDesktops);
                proof {
                    assert(acts@ =~= reconcile_actions(
                        self.groups_spec(),
                        self.windows_spec(),
                        self.layouts_spec(),
                        self.outputs_spec(),
                        self.docks_spec(),
                        self.current_spec(),
                        old(self).mapped_spec(),
                    ) + seq![Action::PublishDesktops]);
                }
                acts
            }
        }
    }
}

/// When the entries before `i` display other groups and the entry at `i`
/// displays `gid`, `i` is the position `find_output_with_group` names.
pub proof fn lemma_find_output_with_group_found(outputs: Seq<OutputEntry>, gid: GroupId, i: int)
    requires
        0 <= i < outputs.len(),
        forall|j: int| 0 <= j < i ==> (#[trigger] outputs[j]).group != gid,
        outputs[i].group == gid,
    ensures
        find_output_with_group(outputs, gid) == Some(i),
    decreases i,
{
    if i == 0 {
    } else {
        assert(outputs.first().group != gid);
        assert(forall|j: int|
            0 <= j < i - 1 ==> (#[trigger] outputs.drop_first()[j]).group != gid);
        lemma_find_output_with_group_found(outputs.drop_first(), gid, i - 1);
    }
}

/// When no entry displays the group, `find_output_with_group` names none.
pub proof fn lemma_find_output_with_group_none(outputs: Seq<OutputEntry>, gid: GroupId)
    requires
        forall|j: int| 0 <= j < outputs.len() ==> (#[trigger] outputs[j]).group != gid,
    ensures
        find_output_with_group(outputs, gid) is None,
    decreases outputs.len(),
{
    if outputs.len() > 0 {
        assert(forall|j: int|
            0 <= j < outputs.len() - 1 ==> (#[trigger] outputs.drop_first()[j]).group != gid);
        lemma_find_output_with_group_none(outputs.drop_first(), gid);
    }
}

/// The window list after a window moves to another group: every record with
/// the handle changes its group; the order is untouched.
pub open spec fn moved_windows(windows: Seq<Window>, id: WindowId, gid: GroupId) -> Seq<Window> {
    Seq::new(
        windows.len(),
        |i: int|
            if windows[i].id == id {
                Window { id: windows[i].id, group: gid }
            } else {
                windows[i]
            },
    )
}

/// The groups after the focused window `id` leaves group `gid` for group
/// `t`: the old group refocuses the nearest remaining window, preferring
/// the predecessor, and the new group focuses the moved window.
pub open spec fn moved_groups(
    groups: Seq<Group>,
    windows: Seq<Window>,
    gid: GroupId,
    t: GroupId,
    id: WindowId,
) -> Seq<Group> {
    let ids = windows_in_group(windows, gid);
    let newf = match find_id(ids, id) {
        Some(q) => if q > 0 {
            Some(ids[q - 1])
        } else if q + 1 < ids.len() {
            Some(ids[q + 1])
        } else {
            None
        },
        None => None,
    };
    groups.update(gid as int, Group { focused_window: newf, ..groups[gid as int] }).update(
        t as int,
        Group { focused_window: Some(id), ..groups[t as int] },
    )
}

/// What moving the focused window one group over does: nothing at the
/// boundary, and nothing when no window is focused; otherwise the window
/// changes group and stays focused in its new group, its old group
/// refocuses the nearest remaining window, the focus-group swap and a
/// publication follow, and the display is reconciled.
pub open spec fn move_focused_post(
    pre: WindowManager,
    post: WindowManager,
    acts: Seq<Action>,
    forward: bool,
) -> bool {
    match shift_target(
        pre.outputs_spec(),
        pre.current_spec(),
        pre.groups_spec().len() as int,
        forward,
    ) {
        None => post == pre && acts == Seq::<Action>::empty(),
        Some(t) => {
            match focus_target(pre.outputs_spec(), pre.current_spec(), pre.groups_spec()) {
                None => post == pre && acts == Seq::<Action>::empty(),
                Some(id) => {
                    let gid = current_group(pre.outputs_spec(), pre.current_spec()).unwrap();
                    let gs = moved_groups(pre.groups_spec(), pre.windows_spec(), gid, t, id);
                    let ws = moved_windows(pre.windows_spec(), id, t);
                    let outs2 = focus_group_outputs(pre.outputs_spec(), pre.current_spec(), t);
                    &&& unchanged_config(pre, post)
                    &&& post.groups_spec() == gs
                    &&& post.windows_spec() == ws
                    &&& post.outputs_spec() == outs2
                    &&& post.docks_spec() == pre.docks_spec()
                    &&& post.current_spec() == pre.current_spec()
                    &&& post.mapped_spec() == mapped_after(
                        gs,
                        ws,
                        pre.layouts_spec(),
                        outs2,
                        pre.docks_spec(),
                        pre.mapped_spec(),
                    )
                    &&& acts == seq![Action::PublishDesktops] + reconcile_actions(
                        gs,
                        ws,
                        pre.layouts_spec(),
                        outs2,
                        pre.docks_spec(),
                        pre.current_spec(),
                        pre.mapped_spec(),
                    )
                },
            }
        },
    }
}

/// What removing the focused window does: nothing when no window is
/// focused; otherwise the removal with its reconciliation and publication,
/// followed by one more reconciliation.
pub open spec fn remove_focused_post(
    pre: WindowManager,
    post: WindowManager,
    acts: Seq<Action>,
) -> bool {
    match focus_target(pre.outputs_spec(), pre.current_spec(), pre.groups_spec()) {
        None => post == pre && acts == Seq::<Action>::empty(),
        Some(id) => {
            let gs = groups_after_removal(pre.groups_spec(), pre.windows_spec(), id);
            let ws = windows_after_removal(pre.windows_spec(), id);
            let m1 = mapped_after(
                gs,
                ws,
                pre.layouts_spec(),
                pre.outputs_spec(),
                pre.docks_spec(),
                pre.mapped_spec(),
            );
            &&& unchanged_config(pre, post)
            &&& post.groups_spec() == gs
            &&& post.windows_spec() == ws
            &&& post.outputs_spec() == pre.outputs_spec()
            &&& post.docks_spec() == pre.docks_spec()
            &&& post.current_spec() == pre.current_spec()
            &&& post.mapped_spec() == mapped_after(
                gs,
                ws,
                pre.layouts_spec(),
                pre.outputs_spec(),
                pre.docks_spec(),
                m1,
            )
            &&& acts == reconcile_actions(
                gs,
                ws,
                pre.layouts_spec(),
                pre.outputs_spec(),
                pre.docks_spec(),
                pre.current_spec(),
                pre.mapped_spec(),
            ) + seq![Action::PublishDesktops] + reconcile_actions(
                gs,
                ws,
                pre.layouts_spec(),
                pre.outputs_spec(),
                pre.docks_spec(),
                pre.current_spec(),
                m1,
            )
        },
    }
}

/// What unmanaging a window does: its docks leave the registry; its record,
/// if it has one, is removed with the removal's reconciliation and
/// publication; and the display is reconciled once more, since the usable
/// viewports may have changed.
pub open spec fn unmanage_post(
    pre: WindowManager,
    post: WindowManager,
    acts: Seq<Action>,
    id: WindowId,
) -> bool {
    let docks2 = docks_without(pre.docks_spec(), id);
    let managed = find_window(pre.windows_spec(), id) is Some;
    let gs = if managed {
        groups_after_removal(pre.groups_spec(), pre.windows_spec(), id)
    } else {
        pre.groups_spec()
    };
    let ws = if managed {
        windows_after_removal(pre.windows_spec(), id)
    } else {
        pre.windows_spec()
    };
    let m1 = if managed {
        mapped_after(gs, ws, pre.layouts_spec(), pre.outputs_spec(), docks2, pre.mapped_spec())
    } else {
        pre.mapped_spec()
    };
    let first = if managed {
        reconcile_actions(
            gs,
            ws,
            pre.layouts_spec(),
            pre.outputs_spec(),
            docks2,
            pre.current_spec(),
            pre.mapped_spec(),
        ) + seq![Action::PublishDesktops]
    } else {
        Seq::<Action>::empty()
    };
    &&& unchanged_config(pre, post)
    &&& post.groups_spec() == gs
    &&& post.windows_spec() == ws
    &&& post.outputs_spec() == pre.outputs_spec()
    &&& post.docks_spec() == docks2
    &&& post.current_spec() == pre.current_spec()
    &&& post.mapped_spec() == mapped_after(
        gs,
        ws,
        pre.layouts_spec(),
        pre.outputs_spec(),
        docks2,
        m1,
    )
    &&& acts == first + reconcile_actions(
        gs,
        ws,
        pre.layouts_spec(),
        pre.outputs_spec(),
        docks2,
        pre.current_spec(),
        m1,
    )
}

impl WindowManager {
    /// Changes the group of every record of this window; display state is
    /// untouched until the caller reconciles.
    fn move_window_to_group(&mut self, id: WindowId, gid: GroupId)
        ensures
            final(self).windows_spec() == moved_windows(old(self).windows_spec(), id, gid),
            final(self).keys_spec() == old(self).keys_spec(),
            final(self).groups_spec() == old(self).groups_spec(),
            final(self).layouts_spec() == old(self).layouts_spec(),
            final(self).outputs_spec() == old(self).outputs_spec(),
            final(self).docks_spec() == old(self).docks_spec(),
            final(self).current_spec() == old(self).current_spec(),
            final(self).mapped_spec() == old(self).mapped_spec(),
    {
        let mut i: usize = 0;
        while i < self.windows.len()
            invariant
                i <= self.windows@.len(),
                self.keys@ == old(self).keys@,
                self.groups@ == old(self).groups@,
                self.layouts@ == old(self).layouts@,
                self.outputs@ == old(self).outputs@,
                self.screen == old(self).screen,
                self.current == old(self).current,
                self.mapped@ == old(self).mapped@,
                self.windows@.len() == old(self).windows@.len(),
                forall|t: int|
                    0 <= t < i ==> self.windows@[t] == moved_windows(
                        old(self).windows@,
                        id,
                        gid,
                    )[t],
                forall|t: int|
                    i <= t < self.windows@.len() ==> self.windows@[t] == old(self).windows@[t],
            decreases self.windows@.len() - i,
        {
            if self.windows[i].id == id {
                self.windows.set(i, Window { id, group: gid });
            }
            i = i + 1;
        }
        proof {
            assert(self.windows_spec() =~= moved_windows(old(self).windows_spec(), id, gid));
        }
    }

    /// Moves the focused window to the next group and follows it there.
    pub fn move_focused_to_next_group(&mut self) -> (acts: Vec<Action>)
        requires
            old(self).wf(),
        ensures
            final(self).wf(),
            move_focused_post(*old(self), *final(self), acts@, true),
    {
        self.move_focused(true)
    }

    /// Moves the focused window to the previous group and follows it there.
    pub fn move_focused_to_prev_group(&mut self) -> (acts: Vec<Action>)
        requires
            old(self).wf(),
        ensures
            final(self).wf(),
            move_focused_post(*old(self), *final(self), acts@, false),
    {
        self.move_focused(false)
    }

    /// The shared body of the two focused-window moves.
    fn move_focused(&mut self, forward: bool) -> (acts: Vec<Action>)
        requires
            old(self).wf(),
        ensures
            final(self).wf(),
            move_focused_post(*old(self), *final(self), acts@, forward),
    {
        let gid = self.current_group_index();
        let n = self.groups.len();
        let target: Option<GroupId> = if forward {
            if gid + 1 < n {
                Some(gid + 1)
            } else {
                None
            }
        } else {
            if gid > 0 {
                Some(gid - 1)
            } else {
                None
            }
        };
        let mut acts: Vec<Action> = Vec::new();
        match target {
            Some(t) => {
                match self.focused_window() {
                    Some(id) => {
                        let ids = self.windows_of_group(gid);
                        let newf: Option<WindowId> = match Self::position_in_ids(&ids, id) {
                            Some(q) => {
                                if q > 0 {
                                    Some(ids[q - 1])
                                } else if q + 1 < ids.len() {
                                    Some(ids[q + 1])
                                } else {
                                    None
                                }
                            }
                            None => None,
                        };
                        let name = self.groups[gid].name.clone();
                        let layout_id = self.groups[gid].layout_id;
                        self.groups.set(gid, Group { name, layout_id, focused_window: newf });
                        self.move_window_to_group(id, t);
                        let name_t = self.groups[t].name.clone();
                        let layout_t = self.groups[t].layout_id;
                        self.groups.set(
                            t,
                            Group {
                                name: name_t,
                                layout_id: layout_t,
                                focused_window: Some(id),
                            },
                        );
                        proof {
                            assert forall|i: int| 0 <= i < self.groups_spec().len() implies (
                            #[trigger] self.groups_spec()[i]).layout_id
                                < self.layouts_spec().len() by {
                                if i != gid && i != t {
                                    assert(self.groups_spec()[i] == old(self).groups_spec()[i]);
                                }
                                assert(old(self).groups_spec()[i].layout_id < old(
                                    self,
                                ).layouts_spec().len());
                            }
                            assert(self.groups_spec() =~= moved_groups(
                                old(self).groups_spec(),
                                old(self).windows_spec(),
                                gid,
                                t,
                                id,
                            ));
                            assert forall|i: int|
                                0 <= i < self.windows_spec().len() implies (
                            #[trigger] self.windows_spec()[i]).group
                                < self.groups_spec().len() by {
                                assert(old(self).windows_spec()[i].group < old(
                                    self,
                                ).groups_spec().len());
                            }
                        }
                        let mut a1 = self.focus_group(t);
                        let ghost ga1 = a1@;
                        let mut a2 = self.reconcile();
                        let ghost ga2 = a2@;
                        acts.append(&mut a1);
                        acts.append(&mut a2);
                        proof {
                            assert(acts@ =~= ga1 + ga2);
                        }
                    }
                    None => {
                        proof {
                            assert(acts@ =~= Seq::<Action>::empty());
                        }
                    }
                }
            }
            None => {
                proof {
                    assert(acts@ =~= Seq::<Action>::empty());
                }
            }
        }
        acts
    }

    /// Removes the focused window from management entirely.
    pub fn remove_focused_window(&mut self) -> (acts: Vec<Action>)
        requires
            old(self).wf(),
        ensures
            final(self).wf(),
            remove_focused_post(*old(self), *final(self), acts@),
    {
        match self.focused_window() {
            Some(id) => {
                let mut acts = self.remove_window(id);
                let ghost ga1 = acts@;
                let mut a2 = self.reconcile();
                let ghost ga2 = a2@;
                acts.append(&mut a2);
                proof {
                    assert(acts@ =~= ga1 + ga2);
                }
                acts
            }
            None => {
                let acts: Vec<Action> = Vec::new();
                proof {
                    assert(acts@ =~= Seq::<Action>::empty());
                }
                acts
            }
        }
    }

    /// Takes the window out of the system: out of the dock registry, out of
    /// its group if it is managed, and off the display.
    pub fn unmanage_window(&mut self, id: WindowId) -> (acts: Vec<Action>)
        requires
            old(self).wf(),
        ensures
            final(self).wf(),
            unmanage_post(*old(self), *final(self), acts@, id),
    {
        self.screen.remove_dock(id);
        let mut acts: Vec<Action> = Vec::new();
        if self.is_window_managed(id) {
            let mut a1 = self.remove_window(id);
            let ghost ga1 = a1@;
            let mut a2 = self.reconcile();
            let ghost ga2 = a2@;
            acts.append(&mut a1);
            acts.append(&mut a2);
            proof {
                assert(acts@ =~= ga1 + ga2);
            }
        } else {
            let mut a2 = self.reconcile();
            let ghost ga2 = a2@;
            acts.append(&mut a2);
            proof {
                assert(acts@ =~= Seq::<Action>::empty() + ga2);
            }
        }
        acts
    }

    /// Handles a window's unmapping by its own application: the window
    /// leaves management.
    pub fn on_unmap_notify(&mut self, id: WindowId) -> (acts: Vec<Action>)
        requires
            old(self).wf(),
        ensures
            final(self).wf(),
            if find_window(old(self).windows_spec(), id) is Some {
                remove_window_post(*old(self), *final(self), acts@, id)
            } else {
                *final(self) == *old(self) && acts@ == Seq::<Action>::empty()
            },
    {
        if self.is_window_managed(id) {
            self.remove_window(id)
        } else {
            let acts: Vec<Action> = Vec::new();
            proof {
                assert(acts@ =~= Seq::<Action>::empty());
            }
            acts
        }
    }

    /// Handles a window's destruction: the window is unmanaged.
    pub fn on_destroy_notify(&mut self, id: WindowId) -> (acts: Vec<Action>)
        requires
            old(self).wf(),
        ensures
            final(self).wf(),
            unmanage_post(*old(self), *final(self), acts@, id),
    {
        self.unmanage_window(id)
    }

    /// Handles the pointer entering a window: focus follows the pointer.
    pub fn on_enter_notify(&mut self, id: WindowId) -> (acts: Vec<Action>)
        requires
            old(self).wf(),
        ensures
            final(self).wf(),
            focus_window_post(*old(self), *final(self), acts@, id),
    {
        self.focus_window(id)
    }
}

/// What managing a window does. An already-managed window is left alone. A
/// new window first has its key bindings registered; one whose attributes
/// could not be read or that declares override-redirect, or whose type is
/// notification, tooltip or utility, is then deliberately left unmanaged. A
/// dock window is mapped and registered in the dock registry, shrinking
/// every output's usable area. Any other window starts position tracking,
/// joins the group shown on the current output, becomes that group's
/// focused window, and the display is reconciled with a metadata
/// publication in between.
pub open spec fn manage_post(
    pre: WindowManager,
    post: WindowManager,
    acts: Seq<Action>,
    id: WindowId,
    types: Seq<WindowType>,
    override_redirect: Option<bool>,
    strut: Option<Strut>,
) -> bool {
    if find_window(pre.windows_spec(), id) is Some {
        post == pre && acts == Seq::<Action>::empty()
    } else if override_redirect != Some(false) {
        post == pre && acts == seq![Action::EnableKeyEvents(id)]
    } else if types.contains(WindowType::Notification) || types.contains(WindowType::Tooltip)
        || types.contains(WindowType::Utility) {
        post == pre && acts == seq![Action::EnableKeyEvents(id)]
    } else if types.contains(WindowType::Dock) {
        let docks2 = pre.docks_spec().push(Dock { window_id: id, strut });
        &&& unchanged_config(pre, post)
        &&& post.groups_spec() == pre.groups_spec()
        &&& post.windows_spec() == pre.windows_spec()
        &&& post.outputs_spec() == pre.outputs_spec()
        &&& post.docks_spec() == docks2
        &&& post.current_spec() == pre.current_spec()
        &&& post.mapped_spec() == mapped_after(
            pre.groups_spec(),
            pre.windows_spec(),
            pre.layouts_spec(),
            pre.outputs_spec(),
            docks2,
            pre.mapped_spec(),
        )
        &&& acts == seq![Action::EnableKeyEvents(id), Action::MapWindow(id)] + reconcile_actions(
            pre.groups_spec(),
            pre.windows_spec(),
            pre.layouts_spec(),
            pre.outputs_spec(),
            docks2,
            pre.current_spec(),
            pre.mapped_spec(),
        )
    } else {
        match current_group(pre.outputs_spec(), pre.current_spec()) {
            Some(gid) => {
                let ws = pre.windows_spec().push(Window { id, group: gid });
                let gs = if gid < pre.groups_spec().len() {
                    pre.groups_spec().update(
                        gid as int,
                        Group { focused_window: Some(id), ..pre.groups_spec()[gid as int] },
                    )
                } else {
                    pre.groups_spec()
                };
                let m1 = mapped_after(
                    gs,
                    ws,
                    pre.layouts_spec(),
                    pre.outputs_spec(),
                    pre.docks_spec(),
                    pre.mapped_spec(),
                );
                &&& unchanged_config(pre, post)
                &&& post.groups_spec() == gs
                &&& post.windows_spec() == ws
                &&& post.outputs_spec() == pre.outputs_spec()
                &&& post.docks_spec() == pre.docks_spec()
                &&& post.current_spec() == pre.current_spec()
                &&& post.mapped_spec() == mapped_after(
                    gs,
                    ws,
                    pre.layouts_spec(),
                    pre.outputs_spec(),
                    pre.docks_spec(),
                    m1,
                )
                &&& acts == seq![Action::EnableKeyEvents(id), Action::EnableTracking(id)]
                    + reconcile_actions(
                    gs,
                    ws,
                    pre.layouts_spec(),
                    pre.outputs_spec(),
                    pre.docks_spec(),
                    pre.current_spec(),
                    pre.mapped_spec(),
                ) + seq![Action::PublishDesktops] + reconcile_actions(
                    gs,
                    ws,
                    pre.layouts_spec(),
                    pre.outputs_spec(),
                    pre.docks_spec(),
                    pre.current_spec(),
                    m1,
                )
            },
            None => {
                &&& unchanged_config(pre, post)
                &&& post.groups_spec() == pre.groups_spec()
                &&& post.windows_spec() == pre.windows_spec()
                &&& post.outputs_spec() == pre.outputs_spec()
                &&& post.docks_spec() == pre.docks_spec()
                &&& post.current_spec() == pre.current_spec()
                &&& post.mapped_spec() == mapped_after(
                    pre.groups_spec(),
                    pre.windows_spec(),
                    pre.layouts_spec(),
                    pre.outputs_spec(),
                    pre.docks_spec(),
                    pre.mapped_spec(),
                )
                &&& acts == seq![Action::EnableKeyEvents(id), Action::EnableTracking(id)]
                    + reconcile_actions(
                    pre.groups_spec(),
                    pre.windows_spec(),
                    pre.layouts_spec(),
                    pre.outputs_spec(),
                    pre.docks_spec(),
                    pre.current_spec(),
                    pre.mapped_spec(),
                )
            },
        }
    }
}

/// What a map request does: an unmanaged window is managed; a managed one
/// becomes its group's focused window, with no display change until the
/// next reconciliation.
pub open spec fn map_request_post(
    pre: WindowManager,
    post: WindowManager,
    acts: Seq<Action>,
    id: WindowId,
    types: Seq<WindowType>,
    override_redirect: Option<bool>,
    strut: Option<Strut>,
) -> bool {
    match find_window(pre.windows_spec(), id) {
        None => manage_post(pre, post, acts, id, types, override_redirect, strut),
        Some(p) => {
            let gid = pre.windows_spec()[p].group;
            let gs = if gid < pre.groups_spec().len() {
                pre.groups_spec().update(
                    gid as int,
                    Group {
                        focused_window: Some(pre.windows_spec()[p].id),
                        ..pre.groups_spec()[gid as int]
                    },
                )
            } else {
                pre.groups_spec()
            };
            &&& unchanged_config(pre, post)
            &&& post.groups_spec() == gs
            &&& post.windows_spec() == pre.windows_spec()
            &&& post.outputs_spec() == pre.outputs_spec()
            &&& post.docks_spec() == pre.docks_spec()
            &&& post.current_spec() == pre.current_spec()
            &&& post.mapped_spec() == pre.mapped_spec()
            &&& acts == Seq::<Action>::empty()
        },
    }
}

impl WindowManager {
    /// Whether the reported type list carries the given type.
    fn has_type(types: &Vec<WindowType>, t: WindowType) -> (b: bool)
        ensures
            b == types@.contains(t),
    {
        let mut i: usize = 0;
        while i < types.len()
            invariant
                i <= types@.len(),
                forall|j: int| 0 <= j < i ==> types@[j] != t,
            decreases types@.len() - i,
        {
            if types[i] == t {
                return true;
            }
            i = i + 1;
        }
        false
    }

    /// Brings a window under management, given what the display server
    /// reports about it: its types, whether its attributes could be read
    /// and declare override-redirect, and its strut hint if it is a dock.
    pub fn manage_window(
        &mut self,
        id: WindowId,
        types: &Vec<WindowType>,
        override_redirect: Option<bool>,
        strut: Option<Strut>,
    ) -> (acts: Vec<Action>)
        requires
            old(self).wf(),
        ensures
            final(self).wf(),
            manage_post(*old(self), *final(self), acts@, id, types@, override_redirect, strut),
    {
        let mut acts: Vec<Action> = Vec::new();
        if self.is_window_managed(id) {
            proof {
                assert(acts@ =~= Seq::<Action>::empty());
            }
            return acts;
        }
        let dock = Self::has_type(types, WindowType::Dock);
        acts.push(Action::EnableKeyEvents(id));
        let ok = match override_redirect {
            Some(false) => true,
            _ => false,
        };
        if !ok {
            proof {
                assert(acts@ =~= seq![Action::EnableKeyEvents(id)]);
            }
            return acts;
        }
        if Self::has_type(types, WindowType::Notification) || Self::has_type(
            types,
            WindowType::Tooltip,
        ) || Self::has_type(types, WindowType::Utility) {
            proof {
                assert(acts@ =~= seq![Action::EnableKeyEvents(id)]);
            }
            return acts;
        }
        if dock {
            acts.push(Action::MapWindow(id));
            self.screen.add(Dock { window_id: id, strut });
            let mut a1 = self.reconcile();
            let ghost ga1 = a1@;
            acts.append(&mut a1);
            proof {
                assert(acts@ =~= seq![Action::EnableKeyEvents(id), Action::MapWindow(id)] + ga1);
            }
            acts
        } else {
            acts.push(Action::EnableTracking(id));
            let gid = self.current_group_index();
            self.windows.push(Window { id, group: gid });
            proof {
                assert forall|i: int| 0 <= i < self.windows_spec().len() implies (
                #[trigger] self.windows_spec()[i]).group < self.groups_spec().len() by {
                    if i < old(self).windows@.len() {
                        assert(self.windows_spec()[i] == old(self).windows_spec()[i]);
                        assert(old(self).windows_spec()[i].group < old(self).groups_spec().len());
                    }
                }
                lemma_find_window_props(old(self).windows_spec(), id);
                assert forall|i: int, j: int|
                    0 <= i < j < self.windows_spec().len() implies (
                #[trigger] self.windows_spec()[i]).id != (
                #[trigger] self.windows_spec()[j]).id by {
                    assert(self.windows_spec()[i] == old(self).windows_spec()[i]);
                    if j < old(self).windows@.len() {
                        assert(self.windows_spec()[j] == old(self).windows_spec()[j]);
                        assert(old(self).windows_spec()[i].id != old(self).windows_spec()[j].id);
                    } else {
                        assert(self.windows_spec()[j].id == id);
                        assert(old(self).windows_spec()[i].id != id);
                    }
                }
            }
            let name = self.groups[gid].name.clone();
            let layout_id = self.groups[gid].layout_id;
            self.groups.set(gid, Group { name, layout_id, focused_window: Some(id) });
            proof {
                assert forall|i: int| 0 <= i < self.groups_spec().len() implies (
                #[trigger] self.groups_spec()[i]).layout_id < self.layouts_spec().len() by {
                    if i != gid {
                        assert(self.groups_spec()[i] == old(self).groups_spec()[i]);
                    }
                    assert(old(self).groups_spec()[i].layout_id < old(
                        self,
                    ).layouts_spec().len());
                }
                assert(self.groups_spec() =~= old(self).groups_spec().update(
                    gid as int,
                    Group {
                        focused_window: Some(id),
                        ..old(self).groups_spec()[gid as int]
                    },
                ));
            }
            let mut a1 = self.reconcile();
            let ghost ga1 = a1@;
            acts.append(&mut a1);
            acts.push(Action::PublishDesktops);
            let mut a2 = self.reconcile();
            let ghost ga2 = a2@;
            acts.append(&mut a2);
            proof {
                assert(acts@ =~= seq![
                    Action::EnableKeyEvents(id),
                    Action::EnableTracking(id),
                ] + ga1 + seq![Action::PublishDesktops] + ga2);
            }
            acts
        }
    }

    /// Handles a map request: manages an unknown window, or refocuses a
    /// known one.
    pub fn on_map_request(
        &mut self,
        id: WindowId,
        types: &Vec<WindowType>,
        override_redirect: Option<bool>,
        strut: Option<Strut>,
    ) -> (acts: Vec<Action>)
        requires
            old(self).wf(),
        ensures
            final(self).wf(),
            map_request_post(*old(self), *final(self), acts@, id, types@, override_redirect, strut),
    {
        match self.find_window_idx(id) {
            None => self.manage_window(id, types, override_redirect, strut),
            Some(p) => {
                let gid = self.windows[p].group;
                let wid = self.windows[p].id;
                if gid < self.groups.len() {
                    let name = self.groups[gid].name.clone();
                    let layout_id = self.groups[gid].layout_id;
                    self.groups.set(gid, Group { name, layout_id, focused_window: Some(wid) });
                    proof {
                        assert forall|i: int| 0 <= i < self.groups_spec().len() implies (
                        #[trigger] self.groups_spec()[i]).layout_id
                            < self.layouts_spec().len() by {
                            if i != gid {
                                assert(self.groups_spec()[i] == old(self).groups_spec()[i]);
                            }
                            assert(old(self).groups_spec()[i].layout_id < old(
                                self,
                            ).layouts_spec().len());
                        }
                        assert(self.groups_spec() =~= old(self).groups_spec().update(
                            gid as int,
                            Group {
                                focused_window: Some(old(self).windows_spec()[p as int].id),
                                ..old(self).groups_spec()[gid as int]
                            },
                        ));
                    }
                }
                let acts: Vec<Action> = Vec::new();
                proof {
                    assert(acts@ =~= Seq::<Action>::empty());
                }
                acts
            }
        }
    }
}

/// The position of the first placement of this window in the previous
/// rendering, if any.
pub open spec fn find_placement(mapped: Seq<MappedWindow<WindowId>>, id: WindowId) -> Option<int>
    decreases mapped.len(),
{
    if mapped.len() == 0 {
        None
    } else if mapped.first().id == id {
        Some(0)
    } else {
        match find_placement(mapped.drop_first(), id) {
            Some(i) => Some(i + 1),
            None => None,
        }
    }
}

/// The window a directional command lands on: the focused window's last
/// placement is looked up and the chosen policy picks the neighbouring
/// placement in the direction; `None` when nothing is focused, the focused
/// window is not currently placed, or no candidate qualifies.
pub open spec fn direction_target(
    style: NavStyle,
    dir: Direction,
    groups: Seq<Group>,
    outputs: Seq<OutputEntry>,
    current: Crtc,
    mapped: Seq<MappedWindow<WindowId>>,
) -> Option<MappedWindow<WindowId>> {
    match focus_target(outputs, current, groups) {
        None => None,
        Some(fid) => match find_placement(mapped, fid) {
            None => None,
            Some(mi) => match style {
                NavStyle::Line => line_pick(dir, mapped[mi].vp, mapped),
                NavStyle::Center => center_pick(dir, mapped[mi].vp, mapped),
            },
        },
    }
}

/// What a directional focus change does: focus moves to the window the
/// policy picks, if any.
pub open spec fn focus_in_direction_post(
    pre: WindowManager,
    post: WindowManager,
    acts: Seq<Action>,
    style: NavStyle,
    dir: Direction,
) -> bool {
    match direction_target(
        style,
        dir,
        pre.groups_spec(),
        pre.outputs_spec(),
        pre.current_spec(),
        pre.mapped_spec(),
    ) {
        Some(mw) => focus_window_post(pre, post, acts, mw.id),
        None => post == pre && acts == Seq::<Action>::empty(),
    }
}

/// What a directional swap does: the focused window and the window the
/// policy picks trade places, if one is picked.
pub open spec fn swap_in_direction_post(
    pre: WindowManager,
    post: WindowManager,
    acts: Seq<Action>,
    style: NavStyle,
    dir: Direction,
) -> bool {
    match direction_target(
        style,
        dir,
        pre.groups_spec(),
        pre.outputs_spec(),
        pre.current_spec(),
        pre.mapped_spec(),
    ) {
        Some(mw) => {
            match focus_target(pre.outputs_spec(), pre.current_spec(), pre.groups_spec()) {
                Some(fid) => swap_windows_post(pre, post, acts, mw.id, fid),
                None => post == pre && acts == Seq::<Action>::empty(),
            }
        },
        None => post == pre && acts == Seq::<Action>::empty(),
    }
}

/// The output table after a removal report: the entry for the output is
/// dropped; the others keep their order.
pub open spec fn removed_outputs(outputs: Seq<OutputEntry>, crtc: Crtc) -> Seq<OutputEntry> {
    match find_output(outputs, crtc) {
        Some(i) => outputs.remove(i),
        None => outputs,
    }
}

/// The lowest group index that no output displays.
pub open spec fn min_unused_group(outputs: Seq<OutputEntry>) -> int {
    choose|g: int|
        0 <= g && !group_used(outputs, g) && forall|h: int|
            0 <= h < g ==> #[trigger] group_used(outputs, h)
}

/// The output table after a geometry report with non-zero size: a known
/// output's geometry is replaced in place; an unknown output joins the
/// table displaying the lowest unused group.
pub open spec fn updated_outputs(
    outputs: Seq<OutputEntry>,
    crtc: Crtc,
    info: CrtcInfo,
) -> Seq<OutputEntry> {
    match find_output(outputs, crtc) {
        Some(i) => outputs.update(i, OutputEntry { crtc, info, group: outputs[i].group }),
        None => outputs.push(
            OutputEntry { crtc, info, group: min_unused_group(outputs) as GroupId },
        ),
    }
}

/// What an output change report does: the table is updated, the current
/// output falls back to the first remaining entry when its own output is
/// gone, and the display is reconciled.
pub open spec fn crtc_change_post(
    pre: WindowManager,
    post: WindowManager,
    acts: Seq<Action>,
    change: CrtcChange,
) -> bool {
    let outs2 = if change.width > 0 && change.height > 0 {
        updated_outputs(pre.outputs_spec(), change.crtc, crtc_change_info(change))
    } else {
        removed_outputs(pre.outputs_spec(), change.crtc)
    };
    let cur2 = if !(change.width > 0 && change.height > 0) && pre.current_spec() == change.crtc {
        outs2[0].crtc
    } else {
        pre.current_spec()
    };
    &&& unchanged_config(pre, post)
    &&& post.groups_spec() == pre.groups_spec()
    &&& post.windows_spec() == pre.windows_spec()
    &&& post.docks_spec() == pre.docks_spec()
    &&& post.outputs_spec() == outs2
    &&& post.current_spec() == cur2
    &&& post.mapped_spec() == mapped_after(
        pre.groups_spec(),
        pre.windows_spec(),
        pre.layouts_spec(),
        outs2,
        pre.docks_spec(),
        pre.mapped_spec(),
    )
    &&& acts == reconcile_actions(
        pre.groups_spec(),
        pre.windows_spec(),
        pre.layouts_spec(),
        outs2,
        pre.docks_spec(),
        cur2,
        pre.mapped_spec(),
    )
}

/// The geometry carried by a change report.
pub open spec fn crtc_change_info(change: CrtcChange) -> CrtcInfo {
    CrtcInfo { x: change.x, y: change.y, width: change.width, height: change.height }
}

/// Where `find_window` points, the record carries the sought handle; where
/// it points nowhere, no record does.
pub proof fn lemma_find_window_props(windows: Seq<Window>, id: WindowId)
    ensures
        match find_window(windows, id) {
            Some(i) => 0 <= i < windows.len() && windows[i].id == id,
            None => forall|j: int| 0 <= j < windows.len() ==> (#[trigger] windows[j]).id != id,
        },
    decreases windows.len(),
{
    if windows.len() > 0 {
        lemma_find_window_props(windows.drop_first(), id);
        if windows.first().id != id {
            match find_window(windows.drop_first(), id) {
                Some(i) => {
                    assert(windows.drop_first()[i] == windows[i + 1]);
                }
                None => {
                    assert forall|j: int| 0 <= j < windows.len() implies (
                    #[trigger] windows[j]).id != id by {
                        if j > 0 {
                            assert(windows.drop_first()[j - 1] == windows[j]);
                        }
                    }
                }
            }
        }
    }
}

/// Where `find_output` points, the entry carries the sought output.
pub proof fn lemma_find_output_props(outputs: Seq<OutputEntry>, crtc: Crtc)
    ensures
        match find_output(outputs, crtc) {
            Some(i) => 0 <= i < outputs.len() && outputs[i].crtc == crtc,
            None => forall|j: int| 0 <= j < outputs.len() ==> (#[trigger] outputs[j]).crtc != crtc,
        },
    decreases outputs.len(),
{
    if outputs.len() > 0 {
        lemma_find_output_props(outputs.drop_first(), crtc);
        if outputs.first().crtc != crtc {
            match find_output(outputs.drop_first(), crtc) {
                Some(i) => {
                    assert(outputs.drop_first()[i] == outputs[i + 1]);
                }
                None => {
                    assert forall|j: int| 0 <= j < outputs.len() implies (
                    #[trigger] outputs[j]).crtc != crtc by {
                        if j > 0 {
                            assert(outputs.drop_first()[j - 1] == outputs[j]);
                        }
                    }
                }
            }
        }
    }
}

impl WindowManager {
    /// The position of the window's placement in the previous rendering.
    fn find_placement_idx(&self, id: WindowId) -> (r: Option<usize>)
        ensures
            match r {
                Some(i) => i < self.mapped_spec().len() && find_placement(self.mapped_spec(), id)
                    == Some(i as int),
                None => find_placement(self.mapped_spec(), id) is None,
            },
    {
        let mut i: usize = 0;
        while i < self.mapped.len()
            invariant
                i <= self.mapped@.len(),
                forall|j: int| 0 <= j < i ==> (#[trigger] self.mapped@[j]).id != id,
            decreases self.mapped@.len() - i,
        {
            if self.mapped[i].id == id {
                proof {
                    lemma_find_placement_found(self.mapped_spec(), id, i as int);
                }
                return Some(i);
            }
            i = i + 1;
        }
        proof {
            lemma_find_placement_none(self.mapped_spec(), id);
        }
        None
    }

    /// Moves focus to the neighbouring window in the given direction, under
    /// the given policy.
    pub fn focus_in_direction(&mut self, style: NavStyle, dir: Direction) -> (acts: Vec<Action>)
        requires
            old(self).wf(),
        ensures
            final(self).wf(),
            focus_in_direction_post(*old(self), *final(self), acts@, style, dir),
    {
        match self.direction_pick(style, dir) {
            Some(mw) => self.focus_window(mw.id),
            None => {
                let acts: Vec<Action> = Vec::new();
                proof {
                    assert(acts@ =~= Seq::<Action>::empty());
                }
                acts
            }
        }
    }

    /// Swaps the focused window with the neighbouring window in the given
    /// direction, under the given policy.
    pub fn swap_in_direction(&mut self, style: NavStyle, dir: Direction) -> (acts: Vec<Action>)
        requires
            old(self).wf(),
        ensures
            final(self).wf(),
            swap_in_direction_post(*old(self), *final(self), acts@, style, dir),
    {
        match self.direction_pick(style, dir) {
            Some(mw) => {
                match self.focused_window() {
                    Some(fid) => self.swap_windows(mw.id, fid),
                    None => {
                        let acts: Vec<Action> = Vec::new();
                        proof {
                            assert(acts@ =~= Seq::<Action>::empty());
                        }
                        acts
                    }
                }
            }
            None => {
                let acts: Vec<Action> = Vec::new();
                proof {
                    assert(acts@ =~= Seq::<Action>::empty());
                }
                acts
            }
        }
    }

    /// The placement a directional command lands on, if any.
    fn direction_pick(&self, style: NavStyle, dir: Direction) -> (r: Option<
        MappedWindow<WindowId>,
    >)
        ensures
            r == direction_target(
                style,
                dir,
                self.groups_spec(),
                self.outputs_spec(),
                self.current_spec(),
                self.mapped_spec(),
            ),
    {
        match self.focused_window() {
            None => None,
            Some(fid) => {
                match self.find_placement_idx(fid) {
                    None => None,
                    Some(mi) => {
                        let vp = self.mapped[mi].vp;
                        match style {
                            NavStyle::Line => Line().next_window(&dir, &vp, &self.mapped),
                            NavStyle::Center => Center().next_window(&dir, &vp, &self.mapped),
                        }
                    }
                }
            }
        }
    }

    /// Handles an output change report. A non-zero size updates a known
    /// output's geometry or adds an unknown output under the lowest unused
    /// group; a zero size removes the output, and the current output falls
    /// back to the first remaining one. The display is then reconciled.
    /// The caller must not report the removal of the only output, nor a new
    /// output when every group is already displayed, nor negative
    /// coordinates: the system requires at least one output, a group for
    /// each output, and on-screen origins.
    pub fn on_crtc_change(&mut self, change: &CrtcChange) -> (acts: Vec<Action>)
        requires
            old(self).wf(),
            change.width > 0 && change.height > 0 ==> change.x >= 0 && change.y >= 0,
            change.width > 0 && change.height > 0 && find_output(
                old(self).outputs_spec(),
                change.crtc,
            ) is None ==> old(self).outputs_spec().len() < old(self).groups_spec().len(),
            !(change.width > 0 && change.height > 0) && change.crtc == old(self).current_spec()
                ==> old(self).outputs_spec().len() >= 2,
        ensures
            final(self).wf(),
            crtc_change_post(*old(self), *final(self), acts@, *change),
    {
        if change.width > 0 && change.height > 0 {
            let info = CrtcInfo {
                x: change.x,
                y: change.y,
                width: change.width,
                height: change.height,
            };
            match self.find_output_idx(change.crtc) {
                Some(i) => {
                    let group = self.outputs[i].group;
                    self.outputs.set(i, OutputEntry { crtc: change.crtc, info, group });
                    proof {
                        let pre = old(self).outputs_spec();
                        let posts = self.outputs_spec();
                        assert(posts =~= updated_outputs(pre, change.crtc, info));
                        assert(pre[i as int].crtc == change.crtc);
                        assert forall|a: int, b: int| 0 <= a < b < posts.len() implies (
                        #[trigger] posts[a]).crtc != (#[trigger] posts[b]).crtc by {
                            assert(pre[a].crtc != pre[b].crtc);
                        }
                        assert forall|a: int, b: int| 0 <= a < b < posts.len() implies (
                        #[trigger] posts[a]).group != (#[trigger] posts[b]).group by {
                            assert(pre[a].group != pre[b].group);
                        }
                        assert forall|a: int| 0 <= a < posts.len() implies (
                        #[trigger] posts[a]).group < self.groups_spec().len() by {
                            assert(pre[a].group < self.groups_spec().len());
                        }
                        assert forall|a: int| 0 <= a < posts.len() implies (
                        #[trigger] posts[a]).info.x >= 0 && posts[a].info.y >= 0 by {
                            assert(pre[a].info.x >= 0 && pre[a].info.y >= 0);
                        }
                        lemma_find_output_props(pre, old(self).current_spec());
                        let ci = find_output(pre, old(self).current_spec()).unwrap();
                        assert(posts[ci].crtc == old(self).current_spec());
                        lemma_find_output_self(posts, ci);
                    }
                }
                None => {
                    let g = self.find_next_unallocated_group();
                    self.outputs.push(OutputEntry { crtc: change.crtc, info, group: g });
                    proof {
                        let pre = old(self).outputs_spec();
                        let posts = self.outputs_spec();
                        let m = min_unused_group(pre);
                        assert(0 <= g as int && !group_used(pre, g as int) && forall|h: int|
                            0 <= h < g ==> #[trigger] group_used(pre, h));
                        assert(m == g as int) by {
                            let c = choose|c: int|
                                0 <= c && !group_used(pre, c) && forall|h: int|
                                    0 <= h < c ==> #[trigger] group_used(pre, h);
                            if c < g {
                                assert(group_used(pre, c));
                            }
                            if c > g {
                                assert(group_used(pre, g as int));
                            }
                        }
                        assert(posts =~= updated_outputs(pre, change.crtc, info));
                        lemma_find_output_props(pre, change.crtc);
                        assert forall|a: int, b: int| 0 <= a < b < posts.len() implies (
                        #[trigger] posts[a]).crtc != (#[trigger] posts[b]).crtc by {
                            if b < pre.len() {
                                assert(pre[a].crtc != pre[b].crtc);
                            } else {
                                assert(pre[a].crtc != change.crtc);
                            }
                        }
                        assert forall|a: int, b: int| 0 <= a < b < posts.len() implies (
                        #[trigger] posts[a]).group != (#[trigger] posts[b]).group by {
                            if b < pre.len() {
                                assert(pre[a].group != pre[b].group);
                            } else {
                                if posts[a].group == g {
                                    assert(group_used(pre, g as int));
                                }
                            }
                        }
                        assert forall|a: int| 0 <= a < posts.len() implies (
                        #[trigger] posts[a]).group < self.groups_spec().len() by {
                            if a < pre.len() {
                                assert(pre[a].group < self.groups_spec().len());
                            }
                        }
                        assert forall|a: int| 0 <= a < posts.len() implies (
                        #[trigger] posts[a]).info.x >= 0 && posts[a].info.y >= 0 by {
                            if a < pre.len() {
                                assert(pre[a].info.x >= 0 && pre[a].info.y >= 0);
                            }
                        }
                        lemma_find_output_props(pre, old(self).current_spec());
                        let ci = find_output(pre, old(self).current_spec()).unwrap();
                        assert(posts[ci].crtc == old(self).current_spec());
                        lemma_find_output_self(posts, ci);
                    }
                }
            }
            self.reconcile()
        } else {
            match self.find_output_idx(change.crtc) {
                Some(i) => {
                    self.outputs.remove(i);
                    proof {
                        let pre = old(self).outputs_spec();
                        let posts = self.outputs_spec();
                        assert(posts =~= removed_outputs(pre, change.crtc));
                        assert forall|a: int, b: int| 0 <= a < b < posts.len() implies (
                        #[trigger] posts[a]).crtc != (#[trigger] posts[b]).crtc by {
                            let a0 = if a < i {
                                a
                            } else {
                                a + 1
                            };
                            let b0 = if b < i {
                                b
                            } else {
                                b + 1
                            };
                            assert(posts[a] == pre[a0] && posts[b] == pre[b0]);
                            assert(pre[a0].crtc != pre[b0].crtc);
                        }
                        assert forall|a: int, b: int| 0 <= a < b < posts.len() implies (
                        #[trigger] posts[a]).group != (#[trigger] posts[b]).group by {
                            let a0 = if a < i {
                                a
                            } else {
                                a + 1
                            };
                            let b0 = if b < i {
                                b
                            } else {
                                b + 1
                            };
                            assert(posts[a] == pre[a0] && posts[b] == pre[b0]);
                            assert(pre[a0].group != pre[b0].group);
                        }
                        assert forall|a: int| 0 <= a < posts.len() implies (
                        #[trigger] posts[a]).group < self.groups_spec().len() && posts[a].info.x
                            >= 0 && posts[a].info.y >= 0 by {
                            let a0 = if a < i {
                                a
                            } else {
                                a + 1
                            };
                            assert(posts[a] == pre[a0]);
                            assert(pre[a0].group < self.groups_spec().len());
                            assert(pre[a0].info.x >= 0 && pre[a0].info.y >= 0);
                        }
                    }
                    if self.current == change.crtc {
                        self.current = self.outputs[0].crtc;
                        proof {
                            lemma_find_output_self(self.outputs_spec(), 0);
                        }
                    } else {
                        proof {
                            let pre = old(self).outputs_spec();
                            let posts = self.outputs_spec();
                            lemma_find_output_props(pre, old(self).current_spec());
                            let ci = find_output(pre, old(self).current_spec()).unwrap();
                            assert(pre[ci].crtc == old(self).current_spec());
                            assert(ci != i);
                            let ci2 = if ci < i {
                                ci
                            } else {
                                ci - 1
                            };
                            assert(posts[ci2] == pre[ci]);
                            lemma_find_output_self(posts, ci2);
                        }
                    }
                }
                None => {
                    proof {
                        assert(self.outputs_spec() =~= removed_outputs(
                            old(self).outputs_spec(),
                            change.crtc,
                        ));
                    }
                }
            }
            self.reconcile()
        }
    }
}

/// When the placements before `i` concern other windows and the placement
/// at `i` concerns this one, `i` is the position `find_placement` names.
pub proof fn lemma_find_placement_found(mapped: Seq<MappedWindow<WindowId>>, id: WindowId, i: int)
    requires
        0 <= i < mapped.len(),
        forall|j: int| 0 <= j < i ==> (#[trigger] mapped[j]).id != id,
        mapped[i].id == id,
    ensures
        find_placement(mapped, id) == Some(i),
    decreases i,
{
    if i == 0 {
    } else {
        assert(mapped.first().id != id);
        assert(forall|j: int| 0 <= j < i - 1 ==> (#[trigger] mapped.drop_first()[j]).id != id);
        lemma_find_placement_found(mapped.drop_first(), id, i - 1);
    }
}

/// When no placement concerns the window, `find_placement` names none.
pub proof fn lemma_find_placement_none(mapped: Seq<MappedWindow<WindowId>>, id: WindowId)
    requires
        forall|j: int| 0 <= j < mapped.len() ==> (#[trigger] mapped[j]).id != id,
    ensures
        find_placement(mapped, id) is None,
    decreases mapped.len(),
{
    if mapped.len() > 0 {
        assert(forall|j: int|
            0 <= j < mapped.len() - 1 ==> (#[trigger] mapped.drop_first()[j]).id != id);
        lemma_find_placement_none(mapped.drop_first(), id);
    }
}

/// Two commands that mean the same thing: identical except that the
/// spawned command line is compared by its strings.
pub open spec fn command_equiv(a: Command, b: Command) -> bool {
    match (a, b) {
        (Command::Spawn(v), Command::Spawn(w)) => v@ == w@,
        _ => a == b,
    }
}

/// What running one command does: each variant behaves as the handler it
/// names; a spawn changes nothing and asks the backend to start the
/// process.
pub open spec fn command_post(
    pre: WindowManager,
    post: WindowManager,
    acts: Seq<Action>,
    cmd: Command,
) -> bool {
    match cmd {
        Command::CloseFocused => close_focused_post(pre, post, acts),
        Command::FocusIn(style, dir) => focus_in_direction_post(pre, post, acts, style, dir),
        Command::SwapIn(style, dir) => swap_in_direction_post(pre, post, acts, style, dir),
        Command::RotateFocus => rotate_focus_post(pre, post, acts),
        Command::LayoutNext => group_cycle_layouts_post(pre, post, acts),
        Command::NextGroup => shift_group_post(pre, post, acts, true),
        Command::PrevGroup => shift_group_post(pre, post, acts, false),
        Command::MoveToNextGroup => move_focused_post(pre, post, acts, true),
        Command::MoveToPrevGroup => move_focused_post(pre, post, acts, false),
        Command::RotateCrtc => rotate_crtc_post(pre, post, acts),
        Command::SwapNextInGroup => adjacent_swap_post(pre, post, acts, true),
        Command::SwapPreviousInGroup => adjacent_swap_post(pre, post, acts, false),
        Command::Spawn(argv) => post == pre && acts.len() == 1 && (acts[0] matches
            Action::Spawn(v) && v@ == argv@),
    }
}

/// The position of the first binding for the key, if any.
pub open spec fn find_key(keys: Seq<(KeyCombo, Command)>, key: KeyCombo) -> Option<int>
    decreases keys.len(),
{
    if keys.len() == 0 {
        None
    } else if keys.first().0 == key {
        Some(0)
    } else {
        match find_key(keys.drop_first(), key) {
            Some(i) => Some(i + 1),
            None => None,
        }
    }
}

impl WindowManager {
    /// Runs one command against the orchestrator.
    pub fn run_command(&mut self, cmd: Command) -> (acts: Vec<Action>)
        requires
            old(self).wf(),
        ensures
            final(self).wf(),
            command_post(*old(self), *final(self), acts@, cmd),
    {
        match cmd {
            Command::CloseFocused => self.close_focused(),
            Command::FocusIn(style, dir) => self.focus_in_direction(style, dir),
            Command::SwapIn(style, dir) => self.swap_in_direction(style, dir),
            Command::RotateFocus => self.rotate_focus_in_group(),
            Command::LayoutNext => self.group_cycle_layouts(),
            Command::NextGroup => self.next_group(),
            Command::PrevGroup => self.prev_group(),
            Command::MoveToNextGroup => self.move_focused_to_next_group(),
            Command::MoveToPrevGroup => self.move_focused_to_prev_group(),
            Command::RotateCrtc => self.rotate_crtc(),
            Command::SwapNextInGroup => self.swap_with_next_in_group(),
            Command::SwapPreviousInGroup => self.swap_with_previous_in_group(),
            Command::Spawn(argv) => {
                let mut acts: Vec<Action> = Vec::new();
                acts.push(Action::Spawn(argv));
                acts
            }
        }
    }

    /// Copies a command; a spawned command line is copied string by string.
    fn clone_command(cmd: &Command) -> (r: Command)
        ensures
            command_equiv(r, *cmd),
    {
        match cmd {
            Command::CloseFocused => Command::CloseFocused,
            Command::FocusIn(style, dir) => Command::FocusIn(*style, *dir),
            Command::SwapIn(style, dir) => Command::SwapIn(*style, *dir),
            Command::RotateFocus => Command::RotateFocus,
            Command::LayoutNext => Command::LayoutNext,
            Command::NextGroup => Command::NextGroup,
            Command::PrevGroup => Command::PrevGroup,
            Command::MoveToNextGroup => Command::MoveToNextGroup,
            Command::MoveToPrevGroup => Command::MoveToPrevGroup,
            Command::RotateCrtc => Command::RotateCrtc,
            Command::SwapNextInGroup => Command::SwapNextInGroup,
            Command::SwapPreviousInGroup => Command::SwapPreviousInGroup,
            Command::Spawn(argv) => {
                let mut copy: Vec<String> = Vec::new();
                let mut i: usize = 0;
                while i < argv.len()
                    invariant
                        i <= argv@.len(),
                        copy@.len() == i,
                        forall|j: int| 0 <= j < i ==> copy@[j] == argv@[j],
                    decreases argv@.len() - i,
                {
                    copy.push(argv[i].clone());
                    i = i + 1;
                }
                proof {
                    assert(copy@ =~= argv@);
                }
                Command::Spawn(copy)
            }
        }
    }

    /// Dispatches a pressed key: the first binding for the combination is
    /// run; an unbound key does nothing.
    pub fn on_key_press(&mut self, key: KeyCombo) -> (acts: Vec<Action>)
        requires
            old(self).wf(),
        ensures
            final(self).wf(),
            match find_key(old(self).keys_spec(), key) {
                Some(i) => command_post(
                    *old(self),
                    *final(self),
                    acts@,
                    old(self).keys_spec()[i].1,
                ),
                None => *final(self) == *old(self) && acts@ == Seq::<Action>::empty(),
            },
    {
        let mut i: usize = 0;
        let n = self.keys.len();
        let mut found: Option<usize> = None;
        while i < n
            invariant
                i <= n,
                n == self.keys@.len(),
                found is None ==> forall|j: int| 0 <= j < i ==> (#[trigger] self.keys@[j]).0 != key,
                match found {
                    Some(f) => f < n && find_key(self.keys@, key) == Some(f as int),
                    None => true,
                },
                found is Some ==> i == n,
            decreases n - i,
        {
            if self.keys[i].0 == key {
                proof {
                    lemma_find_key_found(self.keys@, key, i as int);
                }
                found = Some(i);
                i = n;
            } else {
                i = i + 1;
            }
        }
        match found {
            Some(f) => {
                let cmd = Self::clone_command(&self.keys[f].1);
                let acts = self.run_command(cmd);
                proof {
                    lemma_command_post_equiv(
                        *old(self),
                        *self,
                        acts@,
                        cmd,
                        old(self).keys_spec()[f as int].1,
                    );
                }
                acts
            }
            None => {
                proof {
                    lemma_find_key_none(self.keys@, key);
                }
                let acts: Vec<Action> = Vec::new();
                proof {
                    assert(acts@ =~= Seq::<Action>::empty());
                }
                acts
            }
        }
    }
}

/// When the bindings before `i` are for other keys and the binding at `i`
/// is for this one, `i` is the position `find_key` names.
proof fn lemma_find_key_found(keys: Seq<(KeyCombo, Command)>, key: KeyCombo, i: int)
    requires
        0 <= i < keys.len(),
        forall|j: int| 0 <= j < i ==> (#[trigger] keys[j]).0 != key,
        keys[i].0 == key,
    ensures
        find_key(keys, key) == Some(i),
    decreases i,
{
    if i == 0 {
    } else {
        assert(keys.first().0 != key);
        assert(forall|j: int| 0 <= j < i - 1 ==> (#[trigger] keys.drop_first()[j]).0 != key);
        lemma_find_key_found(keys.drop_first(), key, i - 1);
    }
}

/// When no binding is for the key, `find_key` names none.
proof fn lemma_find_key_none(keys: Seq<(KeyCombo, Command)>, key: KeyCombo)
    requires
        forall|j: int| 0 <= j < keys.len() ==> (#[trigger] keys[j]).0 != key,
    ensures
        find_key(keys, key) is None,
    decreases keys.len(),
{
    if keys.len() > 0 {
        assert(forall|j: int|
            0 <= j < keys.len() - 1 ==> (#[trigger] keys.drop_first()[j]).0 != key);
        lemma_find_key_none(keys.drop_first(), key);
    }
}

/// Equivalent commands produce the same outcome.
proof fn lemma_command_post_equiv(
    pre: WindowManager,
    post: WindowManager,
    acts: Seq<Action>,
    a: Command,
    b: Command,
)
    requires
        command_equiv(a, b),
        command_post(pre, post, acts, a),
    ensures
        command_post(pre, post, acts, b),
{
}

/// Output/group injectivity: in every well-formed state - and every handler
/// both requires and preserves well-formedness - no two outputs display the
/// same group.
pub proof fn lemma_output_groups_injective(wm: WindowManager)
    requires
        wm.wf(),
    ensures
        forall|i: int, j: int|
            0 <= i < j < wm.outputs_spec().len() ==> (#[trigger] wm.outputs_spec()[i]).group != (
            #[trigger] wm.outputs_spec()[j]).group,
{
}

/// A sequence of placements whose windows all appear in `next` yields no
/// unmap operations.
proof fn lemma_unmap_actions_empty(
    prev: Seq<MappedWindow<WindowId>>,
    next: Seq<MappedWindow<WindowId>>,
)
    requires
        forall|i: int| 0 <= i < prev.len() ==> contains_id(next, (#[trigger] prev[i]).id),
    ensures
        unmap_actions(prev, next) == Seq::<Action>::empty(),
    decreases prev.len(),
{
    if prev.len() > 0 {
        assert(contains_id(next, prev.last().id));
        assert(forall|i: int|
            0 <= i < prev.len() - 1 ==> contains_id(next, (#[trigger] prev.drop_last()[i]).id));
        lemma_unmap_actions_empty(prev.drop_last(), next);
    }
}

/// A rendering yields no configure operations against itself.
proof fn lemma_configure_actions_empty(
    prev: Seq<MappedWindow<WindowId>>,
    next: Seq<MappedWindow<WindowId>>,
)
    requires
        forall|i: int| 0 <= i < next.len() ==> prev.contains(#[trigger] next[i]),
    ensures
        configure_actions(prev, next) == Seq::<Action>::empty(),
    decreases next.len(),
{
    if next.len() > 0 {
        assert(prev.contains(next.last()));
        assert(forall|i: int|
            0 <= i < next.len() - 1 ==> prev.contains(#[trigger] next.drop_last()[i]));
        lemma_configure_actions_empty(prev, next.drop_last());
    }
}

/// A sequence of placements whose windows all appear in `prev` yields no
/// map operations.
proof fn lemma_map_actions_empty(
    prev: Seq<MappedWindow<WindowId>>,
    next: Seq<MappedWindow<WindowId>>,
)
    requires
        forall|i: int| 0 <= i < next.len() ==> contains_id(prev, (#[trigger] next[i]).id),
    ensures
        map_actions(prev, next) == Seq::<Action>::empty(),
    decreases next.len(),
{
    if next.len() > 0 {
        assert(contains_id(prev, next.last().id));
        assert(forall|i: int|
            0 <= i < next.len() - 1 ==> contains_id(prev, (#[trigger] next.drop_last()[i]).id));
        lemma_map_actions_empty(prev, next.drop_last());
    }
}

/// Reconciliation idempotence: a second reconciliation over the rendering
/// the first one stored issues no map, unmap or configure operation - only
/// the focus update remains; and where the first pass could not run,
/// neither does the second.
pub proof fn lemma_reconcile_idempotent(
    groups: Seq<Group>,
    windows: Seq<Window>,
    layouts: Seq<LayoutChoice>,
    outputs: Seq<OutputEntry>,
    docks: Seq<Dock>,
    current: Crtc,
    prev: Seq<MappedWindow<WindowId>>,
)
    ensures
        reconcile_actions(
            groups,
            windows,
            layouts,
            outputs,
            docks,
            current,
            mapped_after(groups, windows, layouts, outputs, docks, prev),
        ) == if reconcile_ready(outputs, docks) {
            seq![Action::Focus(focus_target(outputs, current, groups))]
        } else {
            Seq::<Action>::empty()
        },
{
    if reconcile_ready(outputs, docks) {
        let next = desired_placements(groups, windows, layouts, outputs, docks);
        assert forall|i: int| 0 <= i < next.len() implies contains_id(
            next,
            (#[trigger] next[i]).id,
        ) by {}
        assert forall|i: int| 0 <= i < next.len() implies next.contains(#[trigger] next[i]) by {}
        lemma_unmap_actions_empty(next, next);
        lemma_configure_actions_empty(next, next);
        lemma_map_actions_empty(next, next);
        assert(reconcile_actions(groups, windows, layouts, outputs, docks, current, next) =~= seq![
            Action::Focus(focus_target(outputs, current, groups)),
        ]);
    }
}

/// The position of the first group with the given name, if any.
pub open spec fn find_group_by_name(groups: Seq<Group>, name: Seq<char>) -> Option<int>
    decreases groups.len(),
{
    if groups.len() == 0 {
        None
    } else if groups.first().name_spec() == name {
        Some(0)
    } else {
        match find_group_by_name(groups.drop_first(), name) {
            Some(i) => Some(i + 1),
            None => None,
        }
    }
}

/// What switching the current output to a named group does: the
/// focus-group swap towards the first group of that name, a publication
/// and a reconciliation; nothing when no group carries the name.
pub open spec fn switch_group_post(
    pre: WindowManager,
    post: WindowManager,
    acts: Seq<Action>,
    name: Seq<char>,
) -> bool {
    match find_group_by_name(pre.groups_spec(), name) {
        None => post == pre && acts == Seq::<Action>::empty(),
        Some(t) => {
            let outputs2 = focus_group_outputs(
                pre.outputs_spec(),
                pre.current_spec(),
                t as GroupId,
            );
            &&& unchanged_config(pre, post)
            &&& post.groups_spec() == pre.groups_spec()
            &&& post.windows_spec() == pre.windows_spec()
            &&& post.docks_spec() == pre.docks_spec()
            &&& post.current_spec() == pre.current_spec()
            &&& post.outputs_spec() == outputs2
            &&& post.mapped_spec() == mapped_after(
                pre.groups_spec(),
                pre.windows_spec(),
                pre.layouts_spec(),
                outputs2,
                pre.docks_spec(),
                pre.mapped_spec(),
            )
            &&& acts == seq![Action::PublishDesktops] + reconcile_actions(
                pre.groups_spec(),
                pre.windows_spec(),
                pre.layouts_spec(),
                outputs2,
                pre.docks_spec(),
                pre.current_spec(),
                pre.mapped_spec(),
            )
        },
    }
}

impl WindowManager {
    /// Assigns the first group of the given name to the current output,
    /// swapping assignments with whichever output displayed it, and
    /// reconciles; a no-op when no group carries the name.
    pub fn switch_group(&mut self, name: &String) -> (acts: Vec<Action>)
        requires
            old(self).wf(),
        ensures
            final(self).wf(),
            switch_group_post(*old(self), *final(self), acts@, name@),
    {
        let mut i: usize = 0;
        let n = self.groups.len();
        let mut found: Option<usize> = None;
        while i < n
            invariant
                i <= n,
                n == self.groups@.len(),
                found is None ==> forall|j: int|
                    0 <= j < i ==> (#[trigger] self.groups@[j]).name_spec() != name@,
                match found {
                    Some(f) => f < n && find_group_by_name(self.groups@, name@) == Some(f as int),
                    None => true,
                },
                found is Some ==> i == n,
            decreases n - i,
        {
            if self.groups[i].name().eq(name) {
                proof {
                    lemma_find_group_by_name_found(self.groups@, name@, i as int);
                }
                found = Some(i);
                i = n;
            } else {
                i = i + 1;
            }
        }
        match found {
            Some(t) => {
                let mut acts = self.focus_group(t);
                let ghost ga1 = acts@;
                let mut a2 = self.reconcile();
                let ghost ga2 = a2@;
                acts.append(&mut a2);
                proof {
                    assert(acts@ =~= ga1 + ga2);
                }
                acts
            }
            None => {
                proof {
                    lemma_find_group_by_name_none(self.groups@, name@);
                }
                let acts: Vec<Action> = Vec::new();
                proof {
                    assert(acts@ =~= Seq::<Action>::empty());
                }
                acts
            }
        }
    }

    /// The placements applied by the previous reconciliation.
    pub fn placements(&self) -> (v: Vec<MappedWindow<WindowId>>)
        ensures
            v@ == self.mapped_spec(),
    {
        let mut v: Vec<MappedWindow<WindowId>> = Vec::new();
        let mut i: usize = 0;
        while i < self.mapped.len()
            invariant
                i <= self.mapped@.len(),
                v@ == self.mapped@.take(i as int),
            decreases self.mapped@.len() - i,
        {
            v.push(self.mapped[i]);
            proof {
                assert(v@ =~= self.mapped@.take(i + 1));
            }
            i = i + 1;
        }
        proof {
            assert(self.mapped@.take(self.mapped@.len() as int) =~= self.mapped@);
        }
        v
    }

    /// The output assignment table: each output with the group it displays,
    /// in table order.
    pub fn output_groups(&self) -> (v: Vec<(Crtc, GroupId)>)
        ensures
            v@.len() == self.outputs_spec().len(),
            forall|i: int|
                0 <= i < v@.len() ==> #[trigger] v@[i] == (
                    self.outputs_spec()[i].crtc,
                    self.outputs_spec()[i].group,
                ),
    {
        let mut v: Vec<(Crtc, GroupId)> = Vec::new();
        let mut i: usize = 0;
        while i < self.outputs.len()
            invariant
                i <= self.outputs@.len(),
                v@.len() == i,
                forall|j: int|
                    0 <= j < i ==> #[trigger] v@[j] == (
                        self.outputs_spec()[j].crtc,
                        self.outputs_spec()[j].group,
                    ),
            decreases self.outputs@.len() - i,
        {
            let e = self.outputs[i];
            v.push((e.crtc, e.group));
            i = i + 1;
        }
        v
    }
}

/// When the groups before `i` carry other names and the group at `i`
/// carries this one, `i` is the position `find_group_by_name` names.
proof fn lemma_find_group_by_name_found(groups: Seq<Group>, name: Seq<char>, i: int)
    requires
        0 <= i < groups.len(),
        forall|j: int| 0 <= j < i ==> (#[trigger] groups[j]).name_spec() != name,
        groups[i].name_spec() == name,
    ensures
        find_group_by_name(groups, name) == Some(i),
    decreases i,
{
    if i == 0 {
    } else {
        assert(groups.first().name_spec() != name);
        assert(forall|j: int|
            0 <= j < i - 1 ==> (#[trigger] groups.drop_first()[j]).name_spec() != name);
        lemma_find_group_by_name_found(groups.drop_first(), name, i - 1);
    }
}

/// When no group carries the name, `find_group_by_name` names none.
proof fn lemma_find_group_by_name_none(groups: Seq<Group>, name: Seq<char>)
    requires
        forall|j: int| 0 <= j < groups.len() ==> (#[trigger] groups[j]).name_spec() != name,
    ensures
        find_group_by_name(groups, name) is None,
    decreases groups.len(),
{
    if groups.len() > 0 {
        assert(forall|j: int|
            0 <= j < groups.len() - 1 ==> (#[trigger] groups.drop_first()[j]).name_spec() != name);
        lemma_find_group_by_name_none(groups.drop_first(), name);
    }
}

/// At the orchestrator, removal honours order preservation: under the
/// one-record-per-window invariant, removing a managed window deletes every
/// record with its handle, and each surviving record keeps its handle, its
/// group and its place relative to the other survivors.
pub proof fn lemma_removal_removes_the_handle(windows: Seq<Window>, id: WindowId)
    requires
        windows_unique(windows),
    ensures
        ({
            let ws = windows_after_removal(windows, id);
            match find_window(windows, id) {
                Some(p) => {
                    &&& ws.len() == windows.len() - 1
                    &&& forall|k: int| 0 <= k < ws.len() ==> (#[trigger] ws[k]).id != id
                    &&& forall|k: int| 0 <= k < p ==> #[trigger] ws[k] == windows[k]
                    &&& forall|k: int| p <= k < ws.len() ==> #[trigger] ws[k] == windows[k + 1]
                },
                None => ws == windows,
            }
        }),
{
    lemma_find_window_props(windows, id);
    match find_window(windows, id) {
        Some(p) => {
            let ws = windows.remove(p);
            assert forall|k: int| 0 <= k < ws.len() implies (#[trigger] ws[k]).id != id by {
                if k < p {
                    assert(ws[k] == windows[k]);
                    assert(windows[k].id != windows[p].id);
                } else {
                    assert(ws[k] == windows[k + 1]);
                    assert(windows[p].id != windows[k + 1].id);
                }
            }
        }
        None => {}
    }
}

/// At the orchestrator, the swap round trip holds: under the
/// one-record-per-window invariant, exchanging two windows' records twice
/// restores the window list exactly.
pub proof fn lemma_swapped_windows_involutive(windows: Seq<Window>, lhs: WindowId, rhs: WindowId)
    requires
        windows_unique(windows),
    ensures
        swapped_windows(swapped_windows(windows, lhs, rhs), lhs, rhs) == windows,
{
    lemma_find_window_props(windows, lhs);
    lemma_find_window_props(windows, rhs);
    match (find_window(windows, lhs), find_window(windows, rhs)) {
        (Some(l), Some(r)) => {
            let ws1 = swapped_windows(windows, lhs, rhs);
            if l == r {
                assert(ws1 =~= windows);
            } else {
                assert(lhs != rhs) by {
                    if l < r {
                        assert(windows[l].id != windows[r].id);
                    } else {
                        assert(windows[r].id != windows[l].id);
                    }
                }
                assert(ws1[l as int].id == rhs && ws1[r as int].id == lhs);
                assert(find_window(ws1, lhs) == Some(r)) by {
                    assert forall|k: int| 0 <= k < r implies (#[trigger] ws1[k]).id != lhs by {
                        if k == l {
                        } else {
                            assert(ws1[k] == windows[k]);
                            if k < l {
                                assert(windows[k].id != windows[l as int].id);
                            } else {
                                assert(windows[l as int].id != windows[k].id);
                            }
                        }
                    }
                    lemma_find_window_found(ws1, lhs, r);
                }
                assert(find_window(ws1, rhs) == Some(l)) by {
                    assert forall|k: int| 0 <= k < l implies (#[trigger] ws1[k]).id != rhs by {
                        if k == r {
                        } else {
                            assert(ws1[k] == windows[k]);
                            if k < r {
                                assert(windows[k].id != windows[r as int].id);
                            } else {
                                assert(windows[r as int].id != windows[k].id);
                            }
                        }
                    }
                    lemma_find_window_found(ws1, rhs, l);
                }
                assert(swapped_windows(ws1, lhs, rhs) =~= windows);
            }
        }
        _ => {}
    }
}

} // verus!
