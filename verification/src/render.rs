//! What the renderer draws in each view and in which order, and the layout
//! of its uniform buffer: one slot per draw, each slot starting at a
//! multiple of the device's dynamic-offset alignment.
use vstd::prelude::*;
use crate::scene::Selection;

verus! {

/// Number of per-draw uniform slots.
pub const MAX_DRAWS: u64 = 128;

/// First slot of the game view; the scene view starts at slot 0.
pub const GAME_VIEW_SLOT_OFFSET: u64 = 64;

/// What one draw shows.
#[derive(Clone, Copy, PartialEq, Eq, Structural, Debug)]
pub enum DrawItem {
    /// The silhouette of the selected object, drawn before the objects.
    Outline(usize),
    /// A scene object.
    Object(usize),
    /// The marker of the scene camera.
    CameraIcon,
    /// The frustum of the selected scene camera.
    CameraFrustum,
    /// An axis line of the selected scene camera.
    CameraAxis(usize),
    /// A handle of the transform gizmo of the selected object.
    Handle(usize),
}

/// A draw and the uniform slot it writes.
#[derive(Clone, Copy, PartialEq, Eq, Structural, Debug)]
pub struct Draw {
    pub item: DrawItem,
    pub slot: u64,
}

/// The object whose outline the scene view draws: the selected object,
/// where it exists.
pub open spec fn outlined(selected: Selection, object_count: nat) -> Seq<DrawItem> {
    match selected {
        Selection::Object(i) => if i < object_count {
            seq![DrawItem::Outline(i)]
        } else {
            Seq::empty()
        },
        _ => Seq::empty(),
    }
}

/// `item` once where `present`.
pub open spec fn optional(present: bool, item: DrawItem) -> Seq<DrawItem> {
    if present {
        seq![item]
    } else {
        Seq::empty()
    }
}

/// The draws of the scene view in order: the outline of the selected
/// object, the objects, the camera icon, the camera frustum, the camera's
/// axis lines, the gizmo handles.
pub open spec fn scene_view_items(selected: Selection, object_count: nat, camera_icon: bool,
    camera_frustum: bool, axis_lines: nat, handles: nat) -> Seq<DrawItem>
{
    outlined(selected, object_count) + Seq::new(object_count, |i: int| DrawItem::Object(i as usize))
        + optional(camera_icon, DrawItem::CameraIcon) + optional(camera_frustum, DrawItem::CameraFrustum)
        + Seq::new(axis_lines, |k: int| DrawItem::CameraAxis(k as usize))
        + Seq::new(handles, |k: int| DrawItem::Handle(k as usize))
}

/// The draws of the game view in order: the objects.
pub open spec fn game_view_items(object_count: nat) -> Seq<DrawItem> {
    Seq::new(object_count, |i: int| DrawItem::Object(i as usize))
}

/// `items` given consecutive slots from `first`.
pub open spec fn slotted(items: Seq<DrawItem>, first: int) -> Seq<Draw> {
    Seq::new(items.len(), |j: int| Draw { item: items[j], slot: (first + j) as u64 })
}

/// The scene view draws, in this order: the outline of the selected object
/// (where the selection names an existing object), every object once by
/// index, the camera icon, the camera frustum, the camera's axis lines, and
/// the gizmo handles.
pub proof fn lemma_scene_view_order(selected: Selection, n: nat, camera_icon: bool,
    camera_frustum: bool, axis_lines: nat, handles: nat)
    ensures
        ({
            let items = scene_view_items(selected, n, camera_icon, camera_frustum, axis_lines, handles);
            let o: int = match selected {
                Selection::Object(i) => if i < n { 1 } else { 0 },
                _ => 0,
            };
            let ic: int = if camera_icon { 1 } else { 0 };
            let fr: int = if camera_frustum { 1 } else { 0 };
            &&& items.len() == o + n + ic + fr + axis_lines + handles
            &&& o == 1 ==> items[0] == DrawItem::Outline(selected->Object_0)
            &&& forall|i: int| 0 <= i < n ==> #[trigger] items[o + i] == DrawItem::Object(i as usize)
            &&& camera_icon ==> items[o + n] == DrawItem::CameraIcon
            &&& camera_frustum ==> items[o + n + ic] == DrawItem::CameraFrustum
            &&& forall|k: int| 0 <= k < axis_lines ==> #[trigger] items[o + n + ic + fr + k]
                == DrawItem::CameraAxis(k as usize)
            &&& forall|k: int| 0 <= k < handles ==> #[trigger] items[o + n + ic + fr + axis_lines + k]
                == DrawItem::Handle(k as usize)
        }),
{
}

/// The game view draws every object once, by index.
pub proof fn lemma_game_view_order(n: nat)
    ensures
        game_view_items(n).len() == n,
        forall|i: int| 0 <= i < n ==> #[trigger] game_view_items(n)[i] == DrawItem::Object(i as usize),
{
}

/// Draw `j` of a plan keeps its item and writes slot `first + j`.
pub proof fn lemma_slots_are_consecutive(items: Seq<DrawItem>, first: int)
    requires
        0 <= first,
        first + items.len() <= u64::MAX,
    ensures
        slotted(items, first).len() == items.len(),
        forall|j: int| 0 <= j < items.len() ==> (#[trigger] slotted(items, first)[j]).item == items[j]
            && slotted(items, first)[j].slot == first + j,
{
}

/// A run of like draws, one per index.
#[derive(Clone, Copy)]
enum Run {
    Objects,
    AxisLines,
    Handles,
}

/// Draw `k` of a run.
spec fn run_item(run: Run, k: int) -> DrawItem {
    match run {
        Run::Objects => DrawItem::Object(k as usize),
        Run::AxisLines => DrawItem::CameraAxis(k as usize),
        Run::Handles => DrawItem::Handle(k as usize),
    }
}

/// Appends the `count` draws of a run.
fn push_run(items: &mut Vec<DrawItem>, run: Run, count: usize)
    ensures
        final(items)@ == old(items)@ + Seq::new(count as nat, |k: int| run_item(run, k)),
{
    let ghost start = items@;
    let ghost run_seq = Seq::new(count as nat, |k: int| run_item(run, k));
    let mut k: usize = 0;
    while k < count
        invariant
            k <= count,
            run_seq == Seq::new(count as nat, |k: int| run_item(run, k)),
            items@ == start + run_seq.take(k as int),
        decreases count - k,
    {
        let item = match run {
            Run::Objects => DrawItem::Object(k),
            Run::AxisLines => DrawItem::CameraAxis(k),
            Run::Handles => DrawItem::Handle(k),
        };
        items.push(item);
        assert(run_seq.take(k + 1) =~= run_seq.take(k as int).push(item));
        k = k + 1;
    }
    assert(run_seq.take(count as int) =~= run_seq);
}

/// Gives `items` consecutive slots from `first`.
fn assign_slots(items: &Vec<DrawItem>, first: u64) -> (r: Vec<Draw>)
    requires
        first + items@.len() <= MAX_DRAWS,
    ensures
        r@ == slotted(items@, first as int),
{
    let mut draws: Vec<Draw> = Vec::new();
    let mut j: usize = 0;
    while j < items.len()
        invariant
            j <= items@.len(),
            first + items@.len() <= MAX_DRAWS,
            draws@ == slotted(items@, first as int).take(j as int),
        decreases items@.len() - j,
    {
        let d = Draw { item: items[j], slot: first + j as u64 };
        draws.push(d);
        assert(slotted(items@, first as int).take(j + 1) =~= slotted(items@, first as int).take(
            j as int,
        ).push(d));
        j = j + 1;
    }
    assert(slotted(items@, first as int).take(items@.len() as int) =~= slotted(items@, first as int));
    draws
}

/// The scene view's draws with their slots from 0; `None` where they do not
/// fit in the scene view's zone, the `GAME_VIEW_SLOT_OFFSET` slots below the
/// game view's (the renderer panics there).
pub fn scene_view_draws(selected: Selection, object_count: usize, camera_icon: bool,
    camera_frustum: bool, axis_lines: usize, handles: usize) -> (r: Option<Vec<Draw>>)
    ensures
        r is None <==> scene_view_items(selected, object_count as nat, camera_icon, camera_frustum,
            axis_lines as nat, handles as nat).len() > GAME_VIEW_SLOT_OFFSET,
        r matches Some(d) ==> d@ == slotted(scene_view_items(selected, object_count as nat, camera_icon,
            camera_frustum, axis_lines as nat, handles as nat), 0),
{
    let mut items: Vec<DrawItem> = Vec::new();
    match selected {
        Selection::Object(i) => if i < object_count {
            items.push(DrawItem::Outline(i));
        },
        _ => {},
    }
    assert(items@ =~= outlined(selected, object_count as nat));
    if object_count as u64 > GAME_VIEW_SLOT_OFFSET || axis_lines as u64 > GAME_VIEW_SLOT_OFFSET
        || handles as u64 > GAME_VIEW_SLOT_OFFSET {
        return None;
    }
    push_run(&mut items, Run::Objects, object_count);
    if camera_icon {
        items.push(DrawItem::CameraIcon);
    }
    if camera_frustum {
        items.push(DrawItem::CameraFrustum);
    }
    push_run(&mut items, Run::AxisLines, axis_lines);
    push_run(&mut items, Run::Handles, handles);
    assert(items@ =~= scene_view_items(selected, object_count as nat, camera_icon, camera_frustum,
        axis_lines as nat, handles as nat));
    if items.len() as u64 > GAME_VIEW_SLOT_OFFSET {
        return None;
    }
    Some(assign_slots(&items, 0))
}

/// The game view's draws with their slots from `GAME_VIEW_SLOT_OFFSET`;
/// `None` where they run past the `MAX_DRAWS` slots (the renderer panics
/// there).
pub fn game_view_draws(object_count: usize) -> (r: Option<Vec<Draw>>)
    ensures
        r is None <==> GAME_VIEW_SLOT_OFFSET + object_count > MAX_DRAWS,
        r matches Some(d) ==> d@ == slotted(game_view_items(object_count as nat), GAME_VIEW_SLOT_OFFSET as int),
{
    if object_count as u64 > MAX_DRAWS - GAME_VIEW_SLOT_OFFSET {
        return None;
    }
    let mut items: Vec<DrawItem> = Vec::new();
    push_run(&mut items, Run::Objects, object_count);
    assert(items@ =~= game_view_items(object_count as nat));
    Some(assign_slots(&items, GAME_VIEW_SLOT_OFFSET))
}

/// The scene view and the game view never write the same uniform slot
/// within a frame: whenever both plans exist, every scene-view slot lies below
/// every game-view slot.
pub proof fn lemma_views_use_disjoint_slots(selected: Selection, object_count: nat, camera_icon: bool,
    camera_frustum: bool, axis_lines: nat, handles: nat, game_objects: nat)
    requires
        scene_view_items(selected, object_count, camera_icon, camera_frustum, axis_lines, handles).len()
            <= GAME_VIEW_SLOT_OFFSET,
        GAME_VIEW_SLOT_OFFSET + game_objects <= MAX_DRAWS,
    ensures
        ({
            let scene = slotted(scene_view_items(selected, object_count, camera_icon, camera_frustum,
                axis_lines, handles), 0);
            let game = slotted(game_view_items(game_objects), GAME_VIEW_SLOT_OFFSET as int);
            forall|j: int, k: int| 0 <= j < scene.len() && 0 <= k < game.len() ==>
                #[trigger] scene[j].slot < #[trigger] game[k].slot
        }),
{
}

/// The distance between two uniform slots: `size` rounded up to a multiple
/// of `align`.
pub fn uniform_stride(size: u64, align: u64) -> (r: u64)
    requires
        align > 0,
        size + align <= u64::MAX,
    ensures
        r == ((size + align - 1) / align as int) * align,
        r as int % align as int == 0,
        size <= r < size + align,
{
    let q = (size + align - 1) / align;
    proof {
        vstd::arithmetic::div_mod::lemma_fundamental_div_mod((size + align - 1) as int, align as int);
        vstd::arithmetic::div_mod::lemma_mod_multiples_basic(q as int, align as int);
    }
    q * align
}

} // verus!
