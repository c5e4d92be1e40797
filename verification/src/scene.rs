//! Scenes and the scene collection: adding, removing and renaming scenes,
//! switching the active scene with a history for switching back, and undo
//! and redo of every change.
use vstd::prelude::*;

use uuid::Uuid;

use crate::ids::{holds_id, new_id, same_id};
use crate::text::owned;

verus! {

/// A scene in mathematical form.
pub struct SceneView {
    pub id: Uuid,
    pub name: Seq<char>,
    pub parent: Option<Uuid>,
    pub color: u32,
}

/// A scene: a stable id, a display name, an optional parent folder scene
/// and an ARGB color for the UI.
#[derive(Debug, PartialEq)]
pub struct Scene {
    pub id: Uuid,
    pub name: String,
    /// Optional parent scene ID for hierarchical folder organization.
    pub parent: Option<Uuid>,
    /// Color for UI color-coding (ARGB, e.g. 0xFF1A73E8 for blue).
    pub color: u32,
}

impl View for Scene {
    type V = SceneView;

    open spec fn view(&self) -> SceneView {
        SceneView { id: self.id, name: self.name@, parent: self.parent, color: self.color }
    }
}

impl Clone for Scene {
    fn clone(&self) -> (r: Self)
        ensures
            r@ == self@,
    {
        Scene { id: self.id, name: self.name.clone(), parent: self.parent, color: self.color }
    }
}

/// The default scene color: opaque white.
pub const DEFAULT_SCENE_COLOR: u32 = 0xFFFF_FFFF;

impl Scene {
    /// A top-level white scene with a fresh id.
    pub fn new(name: String) -> (r: Self)
        ensures
            r.name == name,
            r.parent.is_none(),
            r.color == DEFAULT_SCENE_COLOR,
    {
        Scene { id: new_id(), name, parent: None, color: DEFAULT_SCENE_COLOR }
    }

    /// A white scene inside `parent`, with a fresh id.
    pub fn with_parent(name: String, parent: Uuid) -> (r: Self)
        ensures
            r.name == name,
            r.parent == Some(parent),
            r.color == DEFAULT_SCENE_COLOR,
    {
        Scene { id: new_id(), name, parent: Some(parent), color: DEFAULT_SCENE_COLOR }
    }

    /// A top-level scene of the given color, with a fresh id.
    pub fn with_color(name: String, color: u32) -> (r: Self)
        ensures
            r.name == name,
            r.parent.is_none(),
            r.color == color,
    {
        Scene { id: new_id(), name, parent: None, color }
    }

    /// A scene of the given color inside `parent`, with a fresh id.
    pub fn with_parent_and_color(name: String, parent: Uuid, color: u32) -> (r: Self)
        ensures
            r.name == name,
            r.parent == Some(parent),
            r.color == color,
    {
        Scene { id: new_id(), name, parent: Some(parent), color }
    }
}

/// The undoable state of a scene collection.
pub struct StateView {
    pub scenes: Seq<SceneView>,
    pub active: Option<Uuid>,
    pub history: Seq<Uuid>,
}

/// A scene collection in mathematical form: the current state and the
/// undo and redo stacks (most recent last).
pub struct ManagerView {
    pub state: StateView,
    pub undo: Seq<StateView>,
    pub redo: Seq<StateView>,
}

/// Some scene has the id.
pub open spec fn has_scene(s: Seq<SceneView>, id: Uuid) -> bool {
    exists|i: int| 0 <= i < s.len() && (#[trigger] s[i]).id == id
}

/// Index of the first scene with the id at or after `i` (the length when
/// there is none).
pub open spec fn scene_index_from(s: Seq<SceneView>, id: Uuid, i: int) -> int
    decreases s.len() - i,
{
    if i >= s.len() {
        s.len() as int
    } else if s[i].id == id {
        i
    } else {
        scene_index_from(s, id, i + 1)
    }
}

/// `v` after a change that started from `before`: an actual change is
/// pushed on the undo stack and clears the redo stack; a no-op leaves both.
pub open spec fn record(v: ManagerView, before: StateView) -> ManagerView {
    if before == v.state {
        v
    } else {
        ManagerView { undo: v.undo.push(before), redo: Seq::empty(), ..v }
    }
}

/// The collection after adding `scene`; the first scene becomes active.
pub open spec fn add_spec(v: ManagerView, scene: SceneView) -> ManagerView {
    let s = v.state;
    record(
        ManagerView {
            state: StateView {
                scenes: s.scenes.push(scene),
                active: if s.active.is_none() { Some(scene.id) } else { s.active },
                ..s
            },
            ..v
        },
        s,
    )
}

/// The history without every entry for `id`.
pub open spec fn without_id(h: Seq<Uuid>, id: Uuid) -> Seq<Uuid>
    decreases h.len(),
{
    if h.len() == 0 {
        h
    } else if h.last() == id {
        without_id(h.drop_last(), id)
    } else {
        without_id(h.drop_last(), id).push(h.last())
    }
}

/// The id of the last scene, if any.
pub open spec fn last_scene_id(s: Seq<SceneView>) -> Option<Uuid> {
    if s.len() == 0 { None } else { Some(s.last().id) }
}

/// The state after removing the first scene with `id` (which exists): the
/// history forgets the id, and when that scene was active, the most recent
/// history entry takes over if it still exists (it leaves the history
/// either way), otherwise the last remaining scene, otherwise none.
pub open spec fn remove_state(s: StateView, id: Uuid) -> StateView {
    let scenes = s.scenes.remove(scene_index_from(s.scenes, id, 0));
    let h = without_id(s.history, id);
    if s.active == Some(id) {
        if h.len() > 0 {
            let candidate = h.last();
            StateView {
                scenes,
                active: if has_scene(scenes, candidate) { Some(candidate) } else { last_scene_id(scenes) },
                history: h.drop_last(),
            }
        } else {
            StateView { scenes, active: last_scene_id(scenes), history: h }
        }
    } else {
        StateView { scenes, active: s.active, history: h }
    }
}

/// The collection after switching to an existing scene `id`: the previous
/// active scene, when different, goes on the history.
pub open spec fn switch_spec(v: ManagerView, id: Uuid) -> ManagerView {
    let s = v.state;
    let history = match s.active {
        Some(prev) => if prev != id { s.history.push(prev) } else { s.history },
        None => s.history,
    };
    record(ManagerView { state: StateView { active: Some(id), history, ..s }, ..v }, s)
}

/// Popping the history until an entry names an existing scene: the history
/// left over and the scene found, if any.
pub open spec fn back_spec(h: Seq<Uuid>, scenes: Seq<SceneView>) -> (Seq<Uuid>, Option<Uuid>)
    decreases h.len(),
{
    if h.len() == 0 {
        (h, None)
    } else if has_scene(scenes, h.last()) {
        (h.drop_last(), Some(h.last()))
    } else {
        back_spec(h.drop_last(), scenes)
    }
}

/// Whether scene `i` heads a group of the presentation order: it has no
/// parent, or its parent is not among the scenes.
pub open spec fn is_top(s: Seq<SceneView>, i: int) -> bool {
    match s[i].parent {
        None => true,
        Some(p) => !has_scene(s, p),
    }
}

/// `acc` followed, from scene `i` on, by every child of `parent` that is not
/// listed yet, each followed by its own children in the same way, at most
/// `fuel` levels deep.
pub open spec fn children_after(s: Seq<SceneView>, parent: Uuid, i: int, fuel: nat, acc: Seq<Uuid>) -> Seq<Uuid>
    decreases fuel, s.len() - i,
{
    if i >= s.len() || fuel == 0 {
        acc
    } else if s[i].parent == Some(parent) && !acc.contains(s[i].id) {
        let below = children_after(s, s[i].id, 0, (fuel - 1) as nat, acc.push(s[i].id));
        children_after(s, parent, i + 1, fuel, below)
    } else {
        children_after(s, parent, i + 1, fuel, acc)
    }
}

/// `acc` followed, from scene `i` on, by every scene not listed yet (only
/// those heading a group when `tops_only`), each followed by its
/// descendants not listed yet.
pub open spec fn groups_after(s: Seq<SceneView>, i: int, tops_only: bool, acc: Seq<Uuid>) -> Seq<Uuid>
    decreases s.len() - i,
{
    if i >= s.len() {
        acc
    } else if (!tops_only || is_top(s, i)) && !acc.contains(s[i].id) {
        groups_after(s, i + 1, tops_only, children_after(s, s[i].id, 0, s.len(), acc.push(s[i].id)))
    } else {
        groups_after(s, i + 1, tops_only, acc)
    }
}

/// The presentation order of the scenes: every scene heading a group
/// followed by its descendants depth-first (children in scene order), then
/// the scenes still missing (only those in a parent cycle or below one),
/// each with its descendants; every id once.
pub open spec fn ordered_spec(s: Seq<SceneView>) -> Seq<Uuid> {
    groups_after(s, 0, false, groups_after(s, 0, true, Seq::empty()))
}

/// `r` begins with `acc`, lists nothing twice when `acc` does not, and
/// every id it adds belongs to a scene.
pub open spec fn extends(s: Seq<SceneView>, acc: Seq<Uuid>, r: Seq<Uuid>) -> bool {
    &&& r.len() >= acc.len()
    &&& forall|k: int| 0 <= k < acc.len() ==> r[k] == acc[k]
    &&& acc.no_duplicates() ==> r.no_duplicates()
    &&& forall|k: int| acc.len() <= k < r.len() ==> has_scene(s, #[trigger] r[k])
}

proof fn lemma_push_new(s: Seq<SceneView>, acc: Seq<Uuid>, i: int)
    requires
        0 <= i < s.len(),
        !acc.contains(s[i].id),
    ensures
        extends(s, acc, acc.push(s[i].id)),
{
    let r = acc.push(s[i].id);
    assert(has_scene(s, s[i].id));
    if acc.no_duplicates() {
        assert forall|a: int, b: int| 0 <= a < r.len() && 0 <= b < r.len() && a != b implies r[a] != r[b] by {
            if a == acc.len() as int {
                assert(acc[b] == r[b]);
            } else if b == acc.len() as int {
                assert(acc[a] == r[a]);
            }
        }
    }
}

proof fn lemma_extends_trans(s: Seq<SceneView>, a: Seq<Uuid>, b: Seq<Uuid>, c: Seq<Uuid>)
    requires
        extends(s, a, b),
        extends(s, b, c),
    ensures
        extends(s, a, c),
{
    assert forall|k: int| a.len() <= k < c.len() implies has_scene(s, #[trigger] c[k]) by {
        if k < b.len() {
            assert(c[k] == b[k]);
        }
    }
}

proof fn lemma_children_after(s: Seq<SceneView>, parent: Uuid, i: int, fuel: nat, acc: Seq<Uuid>)
    requires
        0 <= i,
    ensures
        extends(s, acc, children_after(s, parent, i, fuel, acc)),
    decreases fuel, s.len() - i,
{
    if i >= s.len() || fuel == 0 {
    } else if s[i].parent == Some(parent) && !acc.contains(s[i].id) {
        let pushed = acc.push(s[i].id);
        let below = children_after(s, s[i].id, 0, (fuel - 1) as nat, pushed);
        lemma_push_new(s, acc, i);
        lemma_children_after(s, s[i].id, 0, (fuel - 1) as nat, pushed);
        lemma_children_after(s, parent, i + 1, fuel, below);
        lemma_extends_trans(s, acc, pushed, below);
        lemma_extends_trans(s, acc, below, children_after(s, parent, i + 1, fuel, below));
    } else {
        lemma_children_after(s, parent, i + 1, fuel, acc);
    }
}

proof fn lemma_groups_after(s: Seq<SceneView>, i: int, tops_only: bool, acc: Seq<Uuid>)
    requires
        0 <= i,
    ensures
        extends(s, acc, groups_after(s, i, tops_only, acc)),
        forall|k: int| i <= k < s.len() && (!tops_only || is_top(s, k)) ==> groups_after(s, i, tops_only, acc).contains(#[trigger] s[k].id),
        forall|x: Uuid| acc.contains(x) ==> groups_after(s, i, tops_only, acc).contains(x),
    decreases s.len() - i,
{
    let r = groups_after(s, i, tops_only, acc);
    if i >= s.len() {
    } else {
        let next = if (!tops_only || is_top(s, i)) && !acc.contains(s[i].id) {
            let pushed = acc.push(s[i].id);
            let below = children_after(s, s[i].id, 0, s.len(), pushed);
            lemma_push_new(s, acc, i);
            lemma_children_after(s, s[i].id, 0, s.len(), pushed);
            lemma_extends_trans(s, acc, pushed, below);
            assert(below[acc.len() as int] == s[i].id);
            assert(below.contains(s[i].id));
            below
        } else {
            acc
        };
        lemma_groups_after(s, i + 1, tops_only, next);
        assert(r == groups_after(s, i + 1, tops_only, next));
        lemma_extends_trans(s, acc, next, r);
        assert forall|x: Uuid| acc.contains(x) implies r.contains(x) by {
            let j = choose|j: int| 0 <= j < acc.len() && acc[j] == x;
            assert(next[j] == x);
            assert(next.contains(x));
        }
        if (!tops_only || is_top(s, i)) {
            assert(next.contains(s[i].id));
            assert(r.contains(s[i].id));
        }
    }
}

/// The presentation order lists every scene id exactly once and nothing
/// else.
proof fn lemma_ordered_spec(s: Seq<SceneView>)
    ensures
        ordered_spec(s).no_duplicates(),
        forall|id: Uuid| ordered_spec(s).contains(id) <==> has_scene(s, id),
{
    let e = Seq::<Uuid>::empty();
    let g = groups_after(s, 0, true, e);
    let r = ordered_spec(s);
    lemma_groups_after(s, 0, true, e);
    lemma_groups_after(s, 0, false, g);
    lemma_extends_trans(s, e, g, r);
    assert forall|id: Uuid| r.contains(id) <==> has_scene(s, id) by {
        if r.contains(id) {
            let k = choose|k: int| 0 <= k < r.len() && r[k] == id;
            assert(has_scene(s, r[k]));
        }
        if has_scene(s, id) {
            let k = choose|k: int| 0 <= k < s.len() && (#[trigger] s[k]).id == id;
            assert(r.contains(s[k].id));
        }
    }
}

#[derive(Debug, PartialEq)]
struct SceneSnapshot {
    scenes: Vec<Scene>,
    active: Option<Uuid>,
    history: Vec<Uuid>,
}

/// The scenes in mathematical form.
pub open spec fn scenes_view(s: Seq<Scene>) -> Seq<SceneView> {
    s.map_values(|x: Scene| x@)
}

impl View for SceneSnapshot {
    type V = StateView;

    closed spec fn view(&self) -> StateView {
        StateView { scenes: scenes_view(self.scenes@), active: self.active, history: self.history@ }
    }
}

/// Manages the scene collection: adding/removing/renaming scenes and
/// switching the active scene (the one whose sources are shown on output).
/// Scene switches are tracked in a history stack so `switch_back` behaves
/// like an undo (A → B → C, back → B, back → A).
#[derive(Debug, PartialEq)]
pub struct SceneManager {
    scenes: Vec<Scene>,
    active: Option<Uuid>,
    history: Vec<Uuid>,
    undo_stack: Vec<SceneSnapshot>,
    redo_stack: Vec<SceneSnapshot>,
}

impl View for SceneManager {
    type V = ManagerView;

    closed spec fn view(&self) -> ManagerView {
        ManagerView {
            state: StateView { scenes: scenes_view(self.scenes@), active: self.active, history: self.history@ },
            undo: self.undo_stack@.map_values(|x: SceneSnapshot| x@),
            redo: self.redo_stack@.map_values(|x: SceneSnapshot| x@),
        }
    }
}

fn clone_scenes(s: &Vec<Scene>) -> (r: Vec<Scene>)
    ensures
        scenes_view(r@) == scenes_view(s@),
{
    let mut out: Vec<Scene> = Vec::new();
    let n = s.len();
    let mut i: usize = 0;
    while i < n
        invariant
            n == s@.len(),
            i <= n,
            out@.len() == i,
            forall|k: int| 0 <= k < i ==> (#[trigger] out@[k])@ == s@[k]@,
        decreases n - i,
    {
        out.push(s[i].clone());
        i = i + 1;
    }
    proof {
        assert(scenes_view(out@) =~= scenes_view(s@));
    }
    out
}

fn clone_ids(s: &Vec<Uuid>) -> (r: Vec<Uuid>)
    ensures
        r@ == s@,
{
    let mut out: Vec<Uuid> = Vec::new();
    let n = s.len();
    let mut i: usize = 0;
    while i < n
        invariant
            n == s@.len(),
            i <= n,
            out@ == s@.subrange(0, i as int),
        decreases n - i,
    {
        out.push(s[i]);
        proof {
            assert(out@ =~= s@.subrange(0, i + 1));
        }
        i = i + 1;
    }
    proof {
        assert(s@.subrange(0, n as int) =~= s@);
    }
    out
}

fn same_scene(a: &Scene, b: &Scene) -> (r: bool)
    ensures
        r == (a@ == b@),
{
    let parents = match (&a.parent, &b.parent) {
        (Some(x), Some(y)) => same_id(x, y),
        (None, None) => true,
        _ => false,
    };
    same_id(&a.id, &b.id) && crate::text::str_eq(a.name.as_str(), b.name.as_str()) && parents && a.color == b.color
}

fn same_state(a: &SceneSnapshot, b: &SceneSnapshot) -> (r: bool)
    ensures
        r == (a@ == b@),
{
    let actives = match (&a.active, &b.active) {
        (Some(x), Some(y)) => same_id(x, y),
        (None, None) => true,
        _ => false,
    };
    if !actives || a.scenes.len() != b.scenes.len() || a.history.len() != b.history.len() {
        proof {
            if a@ == b@ {
                assert(a@.scenes.len() == b@.scenes.len());
            }
        }
        return false;
    }
    let n = a.scenes.len();
    let mut i: usize = 0;
    while i < n
        invariant
            n == a.scenes@.len(),
            n == b.scenes@.len(),
            i <= n,
            forall|k: int| 0 <= k < i ==> (#[trigger] a.scenes@[k])@ == b.scenes@[k]@,
        decreases n - i,
    {
        if !same_scene(&a.scenes[i], &b.scenes[i]) {
            proof {
                if a@ == b@ {
                    assert(a@.scenes[i as int] == b@.scenes[i as int]);
                }
            }
            return false;
        }
        i = i + 1;
    }
    let m = a.history.len();
    let mut j: usize = 0;
    while j < m
        invariant
            m == a.history@.len(),
            m == b.history@.len(),
            j <= m,
            forall|k: int| 0 <= k < j ==> a.history@[k] == b.history@[k],
        decreases m - j,
    {
        if !same_id(&a.history[j], &b.history[j]) {
            proof {
                if a@ == b@ {
                    assert(a@.history[j as int] == b@.history[j as int]);
                }
            }
            return false;
        }
        j = j + 1;
    }
    proof {
        assert(a@.scenes =~= b@.scenes);
        assert(a@.history =~= b@.history);
    }
    true
}

/// Whether `id` is listed in `out`.
fn listed(out: &Vec<Uuid>, id: &Uuid) -> (r: bool)
    ensures
        r == out@.contains(*id),
{
    let n = out.len();
    let mut i: usize = 0;
    while i < n
        invariant
            n == out@.len(),
            i <= n,
            forall|k: int| 0 <= k < i ==> out@[k] != *id,
        decreases n - i,
    {
        if same_id(&out[i], id) {
            return true;
        }
        i = i + 1;
    }
    false
}

fn find_scene(s: &Vec<Scene>, id: &Uuid) -> (r: Option<usize>)
    ensures
        match r {
            Some(i) => i == scene_index_from(scenes_view(s@), *id, 0) && i < s@.len() && scenes_view(s@)[i as int].id == *id
                && s@[i as int].id == *id && has_scene(scenes_view(s@), *id),
            None => !has_scene(scenes_view(s@), *id) && scene_index_from(scenes_view(s@), *id, 0) == s@.len(),
        },
{
    let ghost v = scenes_view(s@);
    let n = s.len();
    let mut i: usize = 0;
    while i < n
        invariant
            n == s@.len(),
            v == scenes_view(s@),
            i <= n,
            scene_index_from(v, *id, i as int) == scene_index_from(v, *id, 0),
            forall|k: int| 0 <= k < i ==> (#[trigger] v[k]).id != *id,
        decreases n - i,
    {
        if same_id(&s[i].id, id) {
            proof {
                assert(v[i as int].id == *id);
            }
            return Some(i);
        }
        i = i + 1;
    }
    proof {
        if has_scene(v, *id) {
            let k = choose|k: int| 0 <= k < v.len() && (#[trigger] v[k]).id == *id;
            assert(v[k].id != *id);
        }
    }
    None
}

impl Default for SceneManager {
    fn default() -> (r: Self)
        ensures
            r@.state.scenes.len() == 0 && r@.state.active.is_none() && r@.state.history.len() == 0,
            r@.undo.len() == 0 && r@.redo.len() == 0,
    {
        SceneManager::new()
    }
}

impl SceneManager {
    /// An empty collection with no history.
    pub fn new() -> (r: Self)
        ensures
            r@.state.scenes.len() == 0 && r@.state.active.is_none() && r@.state.history.len() == 0,
            r@.undo.len() == 0 && r@.redo.len() == 0,
    {
        SceneManager { scenes: Vec::new(), active: None, history: Vec::new(), undo_stack: Vec::new(), redo_stack: Vec::new() }
    }

    fn snapshot(&self) -> (r: SceneSnapshot)
        ensures
            r@ == self@.state,
    {
        SceneSnapshot { scenes: clone_scenes(&self.scenes), active: self.active, history: clone_ids(&self.history) }
    }

    fn record_change(&mut self, before: SceneSnapshot)
        ensures
            final(self)@ == record(old(self)@, before@),
    {
        let now = self.snapshot();
        if !same_state(&before, &now) {
            let ghost u = self.undo_stack@;
            self.undo_stack.push(before);
            self.redo_stack.clear();
            proof {
                assert(self.undo_stack@.map_values(|x: SceneSnapshot| x@) =~= u.map_values(|x: SceneSnapshot| x@).push(before@));
                assert(self.redo_stack@.map_values(|x: SceneSnapshot| x@) =~= Seq::<StateView>::empty());
            }
        }
    }

    /// Whether an undo operation is available.
    pub fn can_undo(&self) -> (r: bool)
        ensures
            r == (self@.undo.len() > 0),
    {
        self.undo_stack.len() > 0
    }

    /// Whether a redo operation is available.
    pub fn can_redo(&self) -> (r: bool)
        ensures
            r == (self@.redo.len() > 0),
    {
        self.redo_stack.len() > 0
    }

    fn restore(&mut self, s: SceneSnapshot)
        ensures
            final(self)@ == (ManagerView { state: s@, ..old(self)@ }),
    {
        self.scenes = s.scenes;
        self.active = s.active;
        self.history = s.history;
    }

    /// Undo the most recent scene change or selection change: the current
    /// state moves to the redo stack.
    pub fn undo(&mut self) -> (r: bool)
        ensures
            r == (old(self)@.undo.len() > 0),
            r ==> final(self)@ == (ManagerView {
                state: old(self)@.undo.last(),
                undo: old(self)@.undo.drop_last(),
                redo: old(self)@.redo.push(old(self)@.state),
            }),
            !r ==> final(self)@ == old(self)@,
    {
        let ghost u = self.undo_stack@;
        match self.undo_stack.pop() {
            None => false,
            Some(previous) => {
                let ghost r0 = self.redo_stack@;
                let now = self.snapshot();
                self.redo_stack.push(now);
                self.restore(previous);
                proof {
                    assert(self.undo_stack@.map_values(|x: SceneSnapshot| x@) =~= u.map_values(|x: SceneSnapshot| x@).drop_last());
                    assert(self.redo_stack@.map_values(|x: SceneSnapshot| x@) =~= r0.map_values(|x: SceneSnapshot| x@).push(old(self)@.state));
                }
                true
            },
        }
    }

    /// Redo the most recently undone change: the current state moves back
    /// to the undo stack.
    pub fn redo(&mut self) -> (r: bool)
        ensures
            r == (old(self)@.redo.len() > 0),
            r ==> final(self)@ == (ManagerView {
                state: old(self)@.redo.last(),
                redo: old(self)@.redo.drop_last(),
                undo: old(self)@.undo.push(old(self)@.state),
            }),
            !r ==> final(self)@ == old(self)@,
    {
        let ghost r0 = self.redo_stack@;
        match self.redo_stack.pop() {
            None => false,
            Some(next) => {
                let ghost u = self.undo_stack@;
                let now = self.snapshot();
                self.undo_stack.push(now);
                self.restore(next);
                proof {
                    assert(self.redo_stack@.map_values(|x: SceneSnapshot| x@) =~= r0.map_values(|x: SceneSnapshot| x@).drop_last());
                    assert(self.undo_stack@.map_values(|x: SceneSnapshot| x@) =~= u.map_values(|x: SceneSnapshot| x@).push(old(self)@.state));
                }
                true
            },
        }
    }

    /// Adds a scene and activates it when it is the first scene.
    pub fn add(&mut self, scene: Scene) -> (r: Uuid)
        ensures
            r == scene.id,
            final(self)@ == add_spec(old(self)@, scene@),
    {
        let before = self.snapshot();
        let id = scene.id;
        let ghost sv = scene@;
        let ghost s0 = self.scenes@;
        self.scenes.push(scene);
        if self.active.is_none() {
            self.active = Some(id);
        }
        proof {
            assert(scenes_view(self.scenes@) =~= scenes_view(s0).push(sv));
        }
        self.record_change(before);
        id
    }

    /// Removes the first scene with `id`; `false` (and no change) when there
    /// is none.
    pub fn remove(&mut self, id: Uuid) -> (r: bool)
        ensures
            r == has_scene(old(self)@.state.scenes, id),
            r ==> final(self)@ == record(
                ManagerView { state: remove_state(old(self)@.state, id), ..old(self)@ },
                old(self)@.state,
            ),
            !r ==> final(self)@ == old(self)@,
    {
        let before = self.snapshot();
        let index = match find_scene(&self.scenes, &id) {
            Some(i) => i,
            None => return false,
        };
        proof {
            assert(scenes_view(self.scenes@)[index as int].id == id);
        }
        let ghost s0 = self.scenes@;
        self.scenes.remove(index);
        proof {
            assert(scenes_view(self.scenes@) =~= scenes_view(s0).remove(index as int));
        }
        let ghost h0 = self.history@;
        let mut kept: Vec<Uuid> = Vec::new();
        let n = self.history.len();
        let mut i: usize = 0;
        while i < n
            invariant
                n == h0.len(),
                self.history@ == h0,
                i <= n,
                kept@ == without_id(h0.subrange(0, i as int), id),
            decreases n - i,
        {
            proof {
                assert(h0.subrange(0, i + 1).drop_last() =~= h0.subrange(0, i as int));
                assert(h0.subrange(0, i + 1).last() == h0[i as int]);
            }
            let h = self.history[i];
            if !same_id(&h, &id) {
                kept.push(h);
            }
            i = i + 1;
        }
        proof {
            assert(h0.subrange(0, n as int) =~= h0);
        }
        self.history = kept;
        let ghost scenes1 = scenes_view(self.scenes@);
        assert(scenes1 == scenes_view(s0).remove(scene_index_from(scenes_view(s0), id, 0)));
        if holds_id(&self.active, &id) {
            let ghost hk = self.history@;
            let candidate = self.history.pop();
            proof {
                if hk.len() > 0 {
                    assert(candidate == Some(hk.last()));
                    assert(self.history@ =~= hk.drop_last());
                }
            }
            self.active = match candidate {
                Some(h) => {
                    if find_scene(&self.scenes, &h).is_some() {
                        Some(h)
                    } else {
                        self.last_scene_id()
                    }
                },
                None => self.last_scene_id(),
            };
        }
        proof {
            assert(self@.state == remove_state(old(self)@.state, id));
        }
        self.record_change(before);
        true
    }

    fn last_scene_id(&self) -> (r: Option<Uuid>)
        ensures
            r == last_scene_id(self@.state.scenes),
    {
        let n = self.scenes.len();
        if n == 0 {
            None
        } else {
            Some(self.scenes[n - 1].id)
        }
    }

    /// Renames the first scene with `id`; returns the old name, or `None`
    /// (and no change) if the scene is unknown.
    pub fn rename(&mut self, id: Uuid, name: String) -> (r: Option<String>)
        ensures
            has_scene(old(self)@.state.scenes, id) ==> ({
                let i = scene_index_from(old(self)@.state.scenes, id, 0);
                &&& r matches Some(o) && o@ == old(self)@.state.scenes[i].name
                &&& final(self)@ == record(
                    ManagerView {
                        state: StateView {
                            scenes: old(self)@.state.scenes.update(i, SceneView { name: name@, ..old(self)@.state.scenes[i] }),
                            ..old(self)@.state
                        },
                        ..old(self)@
                    },
                    old(self)@.state,
                )
            }),
            !has_scene(old(self)@.state.scenes, id) ==> r.is_none() && final(self)@ == old(self)@,
    {
        let before = self.snapshot();
        let index = match find_scene(&self.scenes, &id) {
            Some(i) => i,
            None => return None,
        };
        let ghost s0 = self.scenes@;
        let old_scene = self.scenes.remove(index);
        let old_name = old_scene.name;
        let renamed = Scene { id: old_scene.id, name, parent: old_scene.parent, color: old_scene.color };
        self.scenes.insert(index, renamed);
        proof {
            assert(scenes_view(self.scenes@) =~= scenes_view(s0).update(
                index as int,
                SceneView { name: name@, ..scenes_view(s0)[index as int] },
            ));
        }
        self.record_change(before);
        Some(old_name)
    }

    /// Switches the active scene. Unknown IDs are ignored (returns false).
    /// The previously active scene is pushed onto the history stack.
    pub fn switch_to(&mut self, id: Uuid) -> (r: bool)
        ensures
            r == has_scene(old(self)@.state.scenes, id),
            r ==> final(self)@ == switch_spec(old(self)@, id),
            !r ==> final(self)@ == old(self)@,
    {
        if find_scene(&self.scenes, &id).is_none() {
            return false;
        }
        let before = self.snapshot();
        if !holds_id(&self.active, &id) {
            match self.active {
                Some(previous) => self.history.push(previous),
                None => {},
            }
        }
        self.active = Some(id);
        self.record_change(before);
        true
    }

    /// Reverts to the most recently active scene that still exists; history
    /// entries of removed scenes are dropped on the way. `false` when the
    /// history holds no existing scene (it is then empty).
    pub fn switch_back(&mut self) -> (r: bool)
        ensures
            ({
                let (h, found) = back_spec(old(self)@.state.history, old(self)@.state.scenes);
                &&& r == found.is_some()
                &&& r ==> final(self)@ == record(
                    ManagerView { state: StateView { active: found, history: h, ..old(self)@.state }, ..old(self)@ },
                    old(self)@.state,
                )
                &&& !r ==> final(self)@ == ManagerView { state: StateView { history: h, ..old(self)@.state }, ..old(self)@ }
            }),
    {
        let before = self.snapshot();
        let ghost target = back_spec(self@.state.history, self@.state.scenes);
        loop
            invariant
                back_spec(self@.state.history, self@.state.scenes) == target,
                target == back_spec(old(self)@.state.history, old(self)@.state.scenes),
                self@ == (ManagerView { state: StateView { history: self@.state.history, ..old(self)@.state }, ..old(self)@ }),
                before@ == old(self)@.state,
            decreases self.history@.len(),
        {
            match self.history.pop() {
                None => {
                    return false;
                },
                Some(previous) => {
                    if find_scene(&self.scenes, &previous).is_some() {
                        self.active = Some(previous);
                        self.record_change(before);
                        return true;
                    }
                },
            }
        }
    }

    /// The scenes, in insertion order.
    pub fn scenes(&self) -> (r: &[Scene])
        ensures
            scenes_view(r@) == self@.state.scenes,
    {
        self.scenes.as_slice()
    }

    /// The first scene with the id, if any.
    pub fn get(&self, id: Uuid) -> (r: Option<&Scene>)
        ensures
            match r {
                Some(s) => has_scene(self@.state.scenes, id) && s@ == self@.state.scenes[scene_index_from(self@.state.scenes, id, 0)],
                None => !has_scene(self@.state.scenes, id),
            },
    {
        match find_scene(&self.scenes, &id) {
            Some(i) => Some(&self.scenes[i]),
            None => None,
        }
    }

    /// The id of the active scene, if any.
    pub fn active(&self) -> (r: Option<Uuid>)
        ensures
            r == self@.state.active,
    {
        self.active
    }

    /// The active scene, if any.
    pub fn active_scene(&self) -> (r: Option<&Scene>)
        ensures
            match self@.state.active {
                Some(id) => match r {
                    Some(s) => has_scene(self@.state.scenes, id) && s@ == self@.state.scenes[scene_index_from(self@.state.scenes, id, 0)],
                    None => !has_scene(self@.state.scenes, id),
                },
                None => r.is_none(),
            },
    {
        match self.active {
            Some(id) => self.get(id),
            None => None,
        }
    }

    /// The scene active before the current one (top of the history stack).
    pub fn last_active(&self) -> (r: Option<Uuid>)
        ensures
            r == if self@.state.history.len() > 0 { Some(self@.state.history.last()) } else { None },
    {
        let n = self.history.len();
        if n == 0 {
            None
        } else {
            Some(self.history[n - 1])
        }
    }

    fn push_children(&self, parent: Uuid, out: &mut Vec<Uuid>, fuel: usize)
        ensures
            final(out)@ == children_after(self@.state.scenes, parent, 0, fuel as nat, old(out)@),
        decreases fuel,
    {
        if fuel == 0 {
            return;
        }
        let ghost s = self@.state.scenes;
        let ghost start = out@;
        let n = self.scenes.len();
        let mut i: usize = 0;
        while i < n
            invariant
                n == s.len(),
                s == self@.state.scenes,
                fuel > 0,
                i <= n,
                children_after(s, parent, 0, fuel as nat, start) == children_after(s, parent, i as int, fuel as nat, out@),
            decreases n - i,
        {
            let scene = &self.scenes[i];
            proof {
                assert(s[i as int] == scene@);
            }
            if holds_id(&scene.parent, &parent) && !listed(out, &scene.id) {
                out.push(scene.id);
                self.push_children(scene.id, out, fuel - 1);
            }
            i = i + 1;
        }
    }

    /// Whether scene `i` heads a group: no parent, or a parent that is not
    /// among the scenes.
    fn heads_group(&self, i: usize) -> (r: bool)
        requires
            i < self@.state.scenes.len(),
        ensures
            r == is_top(self@.state.scenes, i as int),
    {
        match &self.scenes[i].parent {
            None => true,
            Some(p) => find_scene(&self.scenes, p).is_none(),
        }
    }

    /// All scene ids, each exactly once, ordered so that children directly
    /// follow their parent (depth-first, in scene order) — a stable
    /// presentation order for the UI. A scene whose parent is gone heads its
    /// own group; scenes caught in a parent cycle come last.
    pub fn ordered_scenes(&self) -> (r: Vec<Uuid>)
        ensures
            r@ == ordered_spec(self@.state.scenes),
            r@.no_duplicates(),
            forall|id: Uuid| r@.contains(id) <==> has_scene(self@.state.scenes, id),
    {
        let ghost s = self@.state.scenes;
        let mut ordered: Vec<Uuid> = Vec::new();
        let n = self.scenes.len();
        let mut i: usize = 0;
        while i < n
            invariant
                n == s.len(),
                s == self@.state.scenes,
                i <= n,
                groups_after(s, 0, true, Seq::empty()) == groups_after(s, i as int, true, ordered@),
            decreases n - i,
        {
            proof {
                assert(s[i as int] == self.scenes@[i as int]@);
            }
            if self.heads_group(i) && !listed(&ordered, &self.scenes[i].id) {
                ordered.push(self.scenes[i].id);
                self.push_children(self.scenes[i].id, &mut ordered, n);
            }
            i = i + 1;
        }
        let ghost first = ordered@;
        let mut i: usize = 0;
        while i < n
            invariant
                n == s.len(),
                s == self@.state.scenes,
                i <= n,
                groups_after(s, 0, false, first) == groups_after(s, i as int, false, ordered@),
            decreases n - i,
        {
            proof {
                assert(s[i as int] == self.scenes@[i as int]@);
            }
            if !listed(&ordered, &self.scenes[i].id) {
                ordered.push(self.scenes[i].id);
                self.push_children(self.scenes[i].id, &mut ordered, n);
            }
            i = i + 1;
        }
        proof {
            lemma_ordered_spec(s);
        }
        ordered
    }
}

proof fn lemma_scene_index_from(s: Seq<SceneView>, id: Uuid, i: int)
    requires
        0 <= i <= s.len(),
    ensures
        i <= scene_index_from(s, id, i) <= s.len(),
        scene_index_from(s, id, i) < s.len() ==> s[scene_index_from(s, id, i)].id == id,
        forall|k: int| i <= k < scene_index_from(s, id, i) ==> s[k].id != id,
    decreases s.len() - i,
{
    if i < s.len() && s[i].id != id {
        lemma_scene_index_from(s, id, i + 1);
    }
}

/// Removing the active scene returns to the scene it was switched from:
/// when the most recent history entry names another scene, which is still
/// there, that scene becomes active and leaves the history. The removed
/// scene leaves the scene list, and removing a scene that is not active
/// keeps the active scene.
pub proof fn lemma_remove_returns_to_previous_scene(s: StateView, id: Uuid)
    requires
        has_scene(s.scenes, id),
    ensures
        remove_state(s, id).scenes.len() == s.scenes.len() - 1,
        (forall|j: int| 0 <= j < s.scenes.len() && (#[trigger] s.scenes[j]).id == id ==> forall|k: int|
            0 <= k < s.scenes.len() && s.scenes[k].id == id ==> j == k) ==> !has_scene(remove_state(s, id).scenes, id),
        s.active != Some(id) ==> remove_state(s, id).active == s.active,
        (s.active == Some(id) && s.history.len() > 0 && s.history.last() != id && has_scene(s.scenes, s.history.last()))
            ==> remove_state(s, id).active == Some(s.history.last())
                && remove_state(s, id).history == without_id(s.history, id).drop_last(),
{
    lemma_scene_index_from(s.scenes, id, 0);
    let i = scene_index_from(s.scenes, id, 0);
    if i >= s.scenes.len() {
        let j = choose|j: int| 0 <= j < s.scenes.len() && (#[trigger] s.scenes[j]).id == id;
        assert(false);
    }
    let rest = s.scenes.remove(i);
    if forall|j: int| 0 <= j < s.scenes.len() && (#[trigger] s.scenes[j]).id == id ==> forall|k: int|
        0 <= k < s.scenes.len() && s.scenes[k].id == id ==> j == k {
        if has_scene(rest, id) {
            let m = choose|m: int| 0 <= m < rest.len() && (#[trigger] rest[m]).id == id;
            if m < i {
                assert(rest[m] == s.scenes[m]);
                assert(s.scenes[m].id == id);
            } else {
                assert(rest[m] == s.scenes[m + 1]);
                assert(s.scenes[m + 1].id == id);
            }
        }
    }
    if s.active == Some(id) && s.history.len() > 0 && s.history.last() != id && has_scene(s.scenes, s.history.last()) {
        let h = s.history.last();
        let kept = without_id(s.history, id);
        assert(kept == without_id(s.history.drop_last(), id).push(h));
        assert(kept.len() > 0 && kept.last() == h);
        let j = choose|j: int| 0 <= j < s.scenes.len() && (#[trigger] s.scenes[j]).id == h;
        assert(j != i);
        if j < i {
            assert(rest[j] == s.scenes[j]);
        } else {
            assert(rest[j - 1] == s.scenes[j]);
        }
        assert(has_scene(rest, h));
    }
}

/// Switching back returns to the most recent history entry that names an
/// existing scene: the entries after it (all naming removed scenes) and the
/// entry itself leave the history, the entries before it stay; when no
/// entry names an existing scene nothing is found and the history empties.
pub proof fn lemma_switch_back_finds_latest_existing(h: Seq<Uuid>, scenes: Seq<SceneView>)
    ensures
        ({
            let (rest, found) = back_spec(h, scenes);
            match found {
                Some(x) => {
                    &&& rest.len() < h.len()
                    &&& h[rest.len() as int] == x
                    &&& rest == h.subrange(0, rest.len() as int)
                    &&& has_scene(scenes, x)
                    &&& forall|j: int| rest.len() < j < h.len() ==> !has_scene(scenes, #[trigger] h[j])
                },
                None => {
                    &&& rest.len() == 0
                    &&& forall|j: int| 0 <= j < h.len() ==> !has_scene(scenes, #[trigger] h[j])
                },
            }
        }),
    decreases h.len(),
{
    if h.len() > 0 && !has_scene(scenes, h.last()) {
        let init = h.drop_last();
        lemma_switch_back_finds_latest_existing(init, scenes);
        let (rest, found) = back_spec(init, scenes);
        assert(back_spec(h, scenes) == back_spec(init, scenes));
        match found {
            Some(x) => {
                assert(rest =~= h.subrange(0, rest.len() as int));
                assert(h[rest.len() as int] == init[rest.len() as int]);
                assert forall|j: int| rest.len() < j < h.len() implies !has_scene(scenes, #[trigger] h[j]) by {
                    if j < init.len() {
                        assert(h[j] == init[j]);
                    }
                }
            },
            None => {
                assert forall|j: int| 0 <= j < h.len() implies !has_scene(scenes, #[trigger] h[j]) by {
                    if j < init.len() {
                        assert(h[j] == init[j]);
                    }
                }
            },
        }
    } else if h.len() > 0 {
        assert(h.drop_last() =~= h.subrange(0, h.len() - 1));
    }
}

/// Undo takes back exactly one change: after a change that was recorded,
/// undoing restores the state from before it and offers the change for
/// redo; redoing it then brings back the changed state.
pub proof fn lemma_undo_reverts_change(v: ManagerView, before: StateView)
    requires
        before != v.state,
    ensures
        ({
            let changed = record(v, before);
            let undone = ManagerView { state: changed.undo.last(), undo: changed.undo.drop_last(), redo: changed.redo.push(changed.state) };
            let redone = ManagerView { state: undone.redo.last(), redo: undone.redo.drop_last(), undo: undone.undo.push(undone.state) };
            &&& undone.state == before
            &&& undone.undo == v.undo
            &&& redone.state == v.state
            &&& redone.redo.len() == 0
        }),
{
    let changed = record(v, before);
    assert(changed.undo.drop_last() =~= v.undo);
}

/// A change that leaves the state as it was is not recorded, and a real
/// change always empties the redo stack.
pub proof fn lemma_record_only_real_changes(v: ManagerView, before: StateView)
    ensures
        before == v.state ==> record(v, before) == v,
        before != v.state ==> record(v, before).redo.len() == 0 && record(v, before).undo.len() == v.undo.len() + 1,
{
}

/// Switching keeps the active scene among the scenes: after switching to an
/// existing scene it is active, and switching to the scene that is already
/// active adds nothing to the history.
pub proof fn lemma_switch_to_existing(v: ManagerView, id: Uuid)
    ensures
        switch_spec(v, id).state.active == Some(id),
        switch_spec(v, id).state.scenes == v.state.scenes,
        v.state.active == Some(id) ==> switch_spec(v, id).state.history == v.state.history,
{
}

} // verus!
