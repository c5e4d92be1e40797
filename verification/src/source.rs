//! Scene sources and their bindings to scenes.
//!
//! A source is shown in any number of scenes; each binding may override
//! the source's default transform and carries its own stacking order. The
//! transform is carried through untouched (the renderer reads it), so the
//! manager is generic over its type.
use vstd::prelude::*;

use uuid::Uuid;

use crate::ids::{new_id, same_id};

verus! {

/// What a scene source shows.
#[derive(Debug, Clone, Copy, PartialEq, Eq, Structural)]
pub enum SourceKind {
    Image,
    Text,
    Webcam,
    Browser,
    Media,
    Color,
    GameCapture,
    ScreenCapture,
    Audio,
}

impl SourceKind {
    /// Human-readable label for UI display.
    pub fn label(&self) -> (r: &'static str)
        ensures
            r@ == match *self {
                SourceKind::Image => "Image"@,
                SourceKind::Text => "Text"@,
                SourceKind::Webcam => "Webcam"@,
                SourceKind::Browser => "Browser"@,
                SourceKind::Media => "Media"@,
                SourceKind::Color => "Color"@,
                SourceKind::GameCapture => "Game Capture"@,
                SourceKind::ScreenCapture => "Screen Capture"@,
                SourceKind::Audio => "Audio"@,
            },
    {
        match self {
            SourceKind::Image => "Image",
            SourceKind::Text => "Text",
            SourceKind::Webcam => "Webcam",
            SourceKind::Browser => "Browser",
            SourceKind::Media => "Media",
            SourceKind::Color => "Color",
            SourceKind::GameCapture => "Game Capture",
            SourceKind::ScreenCapture => "Screen Capture",
            SourceKind::Audio => "Audio",
        }
    }
}

/// Pixels cut from each edge of a source, in source pixels.
#[derive(Debug, Clone, Copy, PartialEq, Eq, Default, Structural)]
pub struct Crop {
    pub left: u32,
    pub right: u32,
    pub top: u32,
    pub bottom: u32,
}

/// A source in the application — identified by a UUID, carrying a kind, a
/// default name and per-source metadata.
#[derive(Debug, Clone)]
pub struct Source<T> {
    pub id: Uuid,
    pub name: String,
    pub kind: SourceKind,
    /// Default transform (used when the source is added to a scene without
    /// an explicit override).
    pub transform: T,
    pub visible: bool,
    pub locked: bool,
    /// Stacking order for rendering within a scene (higher = on top).
    pub z_order: i32,
}

impl<T: Default> Source<T> {
    /// A visible, unlocked source with a fresh id and the default
    /// transform.
    pub fn new(name: String, kind: SourceKind) -> (r: Self)
        ensures
            r.name == name,
            r.kind == kind,
            r.visible,
            !r.locked,
            r.z_order == 0,
    {
        Source { id: new_id(), name, kind, transform: T::default(), visible: true, locked: false, z_order: 0 }
    }
}

impl<T> Source<T> {
    /// The same source with another default transform.
    pub fn with_transform(self, transform: T) -> (r: Self)
        ensures
            r == (Source { transform, ..self }),
    {
        Source { transform, ..self }
    }

    /// The same source with another stacking order.
    pub fn with_z_order(self, z_order: i32) -> (r: Self)
        ensures
            r == (Source { z_order, ..self }),
    {
        Source { z_order, ..self }
    }

    /// The same source, shown or hidden.
    pub fn visible(self, visible: bool) -> (r: Self)
        ensures
            r == (Source { visible, ..self }),
    {
        Source { visible, ..self }
    }

    /// The same source, locked or unlocked.
    pub fn locked(self, locked: bool) -> (r: Self)
        ensures
            r == (Source { locked, ..self }),
    {
        Source { locked, ..self }
    }
}

/// Binds a source to a scene, with an optional per-scene transform.
#[derive(Debug, Clone)]
pub struct SceneSource<T> {
    pub source_id: Uuid,
    pub scene_id: Uuid,
    pub transform_override: Option<T>,
    pub visible: bool,
    pub locked: bool,
    pub z_order: i32,
}

impl<T> SceneSource<T> {
    /// A visible, unlocked binding without override at stacking order 0.
    pub fn new(source_id: Uuid, scene_id: Uuid) -> (r: Self)
        ensures
            r == (SceneSource::<T> {
                source_id,
                scene_id,
                transform_override: None,
                visible: true,
                locked: false,
                z_order: 0,
            }),
    {
        SceneSource { source_id, scene_id, transform_override: None, visible: true, locked: false, z_order: 0 }
    }

    /// The transform in effect: the override if set, otherwise `fallback`
    /// (typically the source's default transform).
    pub fn effective_transform<'a>(&'a self, fallback: &'a T) -> (r: &'a T)
        ensures
            *r == match self.transform_override {
                Some(t) => t,
                None => *fallback,
            },
    {
        match &self.transform_override {
            Some(t) => t,
            None => fallback,
        }
    }
}

/// Which bindings a removal drops.
pub enum BindingFilter {
    /// Every binding of a source.
    OfSource(Uuid),
    /// The binding of a source in a scene.
    Binding(Uuid, Uuid),
    /// Every binding in a scene.
    InScene(Uuid),
}

/// Whether a removal drops a binding.
pub open spec fn dropped<T>(f: BindingFilter, b: SceneSource<T>) -> bool {
    match f {
        BindingFilter::OfSource(s) => b.source_id == s,
        BindingFilter::Binding(s, c) => b.source_id == s && b.scene_id == c,
        BindingFilter::InScene(c) => b.scene_id == c,
    }
}

/// The bindings a removal keeps, in order.
pub open spec fn kept<T>(bs: Seq<SceneSource<T>>, f: BindingFilter) -> Seq<SceneSource<T>>
    decreases bs.len(),
{
    if bs.len() == 0 {
        Seq::empty()
    } else if dropped(f, bs.last()) {
        kept(bs.drop_last(), f)
    } else {
        kept(bs.drop_last(), f).push(bs.last())
    }
}

/// The bindings of a scene, in order.
pub open spec fn in_scene<T>(bs: Seq<SceneSource<T>>, scene: Uuid) -> Seq<SceneSource<T>>
    decreases bs.len(),
{
    if bs.len() == 0 {
        Seq::empty()
    } else if bs.last().scene_id == scene {
        in_scene(bs.drop_last(), scene).push(bs.last())
    } else {
        in_scene(bs.drop_last(), scene)
    }
}

/// The highest stacking order among bindings; 0 when there are none.
pub open spec fn max_z<T>(bs: Seq<SceneSource<T>>) -> int
    decreases bs.len(),
{
    if bs.len() == 0 {
        0
    } else if bs.len() == 1 {
        bs[0].z_order as int
    } else {
        let m = max_z(bs.drop_last());
        if bs.last().z_order > m { bs.last().z_order as int } else { m }
    }
}

/// The index of the first source with `id`.
pub open spec fn source_index<T>(ss: Seq<Source<T>>, id: Uuid) -> Option<int>
    decreases ss.len(),
{
    if ss.len() == 0 {
        None
    } else if ss[0].id == id {
        Some(0)
    } else {
        match source_index(ss.drop_first(), id) {
            Some(i) => Some(i + 1),
            None => None,
        }
    }
}

/// The index of the first binding of `source` in `scene`.
pub open spec fn binding_index<T>(bs: Seq<SceneSource<T>>, source: Uuid, scene: Uuid) -> Option<int>
    decreases bs.len(),
{
    if bs.len() == 0 {
        None
    } else if bs[0].source_id == source && bs[0].scene_id == scene {
        Some(0)
    } else {
        match binding_index(bs.drop_first(), source, scene) {
            Some(i) => Some(i + 1),
            None => None,
        }
    }
}

/// The sources of a kind, in order.
pub open spec fn of_kind<T>(ss: Seq<Source<T>>, kind: SourceKind) -> Seq<Source<T>>
    decreases ss.len(),
{
    if ss.len() == 0 {
        Seq::empty()
    } else if ss.last().kind == kind {
        of_kind(ss.drop_last(), kind).push(ss.last())
    } else {
        of_kind(ss.drop_last(), kind)
    }
}

/// Whether bindings are in ascending stacking order.
/// Position of the first binding at or after `k` stacked above `z` (the
/// length when there is none).
pub open spec fn first_above<T>(bs: Seq<SceneSource<T>>, z: i32, k: int) -> int
    decreases bs.len() - k,
{
    if k >= bs.len() {
        bs.len() as int
    } else if bs[k].z_order > z {
        k
    } else {
        first_above(bs, z, k + 1)
    }
}

/// The bindings ordered by stacking order, bindings with equal order in
/// their original order: each binding goes in after every earlier binding
/// that is not stacked above it.
pub open spec fn z_stable_sorted<T>(bs: Seq<SceneSource<T>>) -> Seq<SceneSource<T>>
    decreases bs.len(),
{
    if bs.len() == 0 {
        bs
    } else {
        let r = z_stable_sorted(bs.drop_last());
        r.insert(first_above(r, bs.last().z_order, 0), bs.last())
    }
}

pub open spec fn z_sorted<T>(bs: Seq<SceneSource<T>>) -> bool {
    forall|i: int, j: int| 0 <= i < j < bs.len() ==> (#[trigger] bs[i]).z_order <= (#[trigger] bs[j]).z_order
}

/// A removal keeps exactly the bindings it does not drop: none of the
/// kept bindings matches the filter, and every binding that does not match
/// it stays. In particular removing a source leaves no binding of it, and
/// clearing a scene leaves no binding in it.
pub proof fn lemma_removal_keeps_exactly_the_rest<T>(bs: Seq<SceneSource<T>>, f: BindingFilter)
    ensures
        forall|i: int| 0 <= i < kept(bs, f).len() ==> !dropped(f, #[trigger] kept(bs, f)[i]),
        forall|i: int| 0 <= i < bs.len() && !dropped(f, #[trigger] bs[i]) ==> kept(bs, f).contains(bs[i]),
    decreases bs.len(),
{
    if bs.len() > 0 {
        let rest = bs.drop_last();
        lemma_removal_keeps_exactly_the_rest(rest, f);
        assert forall|i: int| 0 <= i < bs.len() && !dropped(f, #[trigger] bs[i]) implies kept(bs, f).contains(bs[i]) by {
            if i < bs.len() - 1 {
                assert(rest[i] == bs[i]);
                let k = choose|k: int| 0 <= k < kept(rest, f).len() && kept(rest, f)[k] == bs[i];
                if !dropped(f, bs.last()) {
                    assert(kept(bs, f)[k] == bs[i]);
                }
            } else {
                assert(kept(bs, f)[kept(bs, f).len() - 1] == bs[i]);
            }
        }
    }
}

/// No binding of a scene is stacked above the scene's highest order, so a
/// newly bound source (one above it) is on top of the scene.
pub proof fn lemma_new_binding_is_on_top<T>(bs: Seq<SceneSource<T>>)
    ensures
        forall|i: int| 0 <= i < bs.len() ==> (#[trigger] bs[i]).z_order <= max_z(bs),
        forall|i: int| 0 <= i < bs.len() ==> (#[trigger] bs[i]).z_order < max_z(bs) + 1,
    decreases bs.len(),
{
    if bs.len() > 1 {
        lemma_new_binding_is_on_top(bs.drop_last());
        assert forall|i: int| 0 <= i < bs.len() implies (#[trigger] bs[i]).z_order <= max_z(bs) by {
            if i < bs.len() - 1 {
                assert(bs.drop_last()[i] == bs[i]);
            }
        }
    }
}

/// The manager's contents in mathematical form.
pub struct ManagerV<T> {
    pub sources: Seq<Source<T>>,
    pub bindings: Seq<SceneSource<T>>,
}

/// The collection of sources and their scene bindings.
#[derive(Debug, Clone)]
pub struct SourceManager<T> {
    sources: Vec<Source<T>>,
    bindings: Vec<SceneSource<T>>,
}

impl<T> View for SourceManager<T> {
    type V = ManagerV<T>;

    closed spec fn view(&self) -> ManagerV<T> {
        ManagerV { sources: self.sources@, bindings: self.bindings@ }
    }
}

impl<T> Default for SourceManager<T> {
    fn default() -> (r: Self)
        ensures
            r@.sources.len() == 0,
            r@.bindings.len() == 0,
    {
        SourceManager::new()
    }
}

/// Whether `f` drops `b` (executable form).
fn drops<T>(f: &BindingFilter, b: &SceneSource<T>) -> (r: bool)
    ensures
        r == dropped(*f, *b),
{
    match f {
        BindingFilter::OfSource(s) => same_id(&b.source_id, s),
        BindingFilter::Binding(s, c) => same_id(&b.source_id, s) && same_id(&b.scene_id, c),
        BindingFilter::InScene(c) => same_id(&b.scene_id, c),
    }
}

/// Keep the bindings that `f` does not drop, in order.
fn retain_bindings<T>(v: &mut Vec<SceneSource<T>>, f: &BindingFilter)
    ensures
        final(v)@ == kept(old(v)@, *f),
{
    let ghost all = v@;
    let mut out: Vec<SceneSource<T>> = Vec::new();
    let n = v.len();
    let mut k: usize = 0;
    assert(out@ =~= kept(all.subrange(0, 0), *f));
    while k < n
        invariant
            n == all.len(),
            k <= n,
            v@ == all.subrange(k as int, n as int),
            out@ == kept(all.subrange(0, k as int), *f),
        decreases n - k,
    {
        let b = v.remove(0);
        proof {
            assert(b == all[k as int]);
            assert(v@ =~= all.subrange(k + 1, n as int));
            assert(all.subrange(0, k + 1).drop_last() =~= all.subrange(0, k as int));
        }
        if !drops(f, &b) {
            out.push(b);
        }
        k = k + 1;
    }
    assert(all.subrange(0, n as int) =~= all);
    *v = out;
}

impl<T> SourceManager<T> {
    /// An empty manager.
    pub fn new() -> (r: Self)
        ensures
            r@.sources.len() == 0,
            r@.bindings.len() == 0,
    {
        SourceManager { sources: Vec::new(), bindings: Vec::new() }
    }

    /// Add a source; returns its id.
    pub fn add_source(&mut self, source: Source<T>) -> (r: Uuid)
        ensures
            r == source.id,
            final(self)@ == (ManagerV { sources: old(self)@.sources.push(source), ..old(self)@ }),
    {
        let id = source.id;
        self.sources.push(source);
        id
    }

    fn position(&self, id: &Uuid) -> (r: Option<usize>)
        ensures
            match source_index(self@.sources, *id) {
                Some(i) => r matches Some(k) && k as int == i && 0 <= i < self@.sources.len()
                    && self@.sources[i].id == *id,
                None => r.is_none(),
            },
    {
        let n = self.sources.len();
        let mut i: usize = 0;
        proof {
            assert(self@.sources.skip(0) =~= self@.sources);
        }
        while i < n
            invariant
                n == self@.sources.len(),
                i <= n,
                forall|k: int| 0 <= k < i ==> self@.sources[k].id != *id,
                source_index(self@.sources, *id) == match source_index(self@.sources.skip(i as int), *id) {
                    Some(j) => Some(j + i),
                    None => None,
                },
            decreases n - i,
        {
            assert(self@.sources.skip(i as int).drop_first() =~= self@.sources.skip(i + 1));
            if same_id(&self.sources[i].id, id) {
                return Some(i);
            }
            i = i + 1;
        }
        None
    }

    /// Remove a source and all its scene bindings; returns the removed
    /// source, or `None` (and no change) when the id is unknown.
    pub fn remove_source(&mut self, id: Uuid) -> (r: Option<Source<T>>)
        ensures
            match source_index(old(self)@.sources, id) {
                None => r.is_none() && final(self)@ == old(self)@,
                Some(i) => r == Some(old(self)@.sources[i]) && final(self)@ == (ManagerV {
                    sources: old(self)@.sources.remove(i),
                    bindings: kept(old(self)@.bindings, BindingFilter::OfSource(id)),
                }),
            },
    {
        let idx = match self.position(&id) {
            Some(i) => i,
            None => return None,
        };
        let source = self.sources.remove(idx);
        retain_bindings(&mut self.bindings, &BindingFilter::OfSource(id));
        Some(source)
    }

    /// The first source with `id`.
    pub fn get_source(&self, id: Uuid) -> (r: Option<&Source<T>>)
        ensures
            match source_index(self@.sources, id) {
                Some(i) => r == Some(&self@.sources[i]),
                None => r.is_none(),
            },
    {
        match self.position(&id) {
            Some(i) => Some(&self.sources[i]),
            None => None,
        }
    }

    /// Mutable access to the first source with `id`.
    pub fn get_source_mut(&mut self, id: Uuid) -> (r: Option<&mut Source<T>>)
        ensures
            match source_index(old(self)@.sources, id) {
                Some(i) => r matches Some(s) && *s == old(self)@.sources[i] && final(self)@ == (ManagerV {
                    sources: old(self)@.sources.update(i, *final(s)),
                    ..old(self)@
                }),
                None => r.is_none() && final(self)@ == old(self)@,
            },
    {
        match self.position(&id) {
            Some(i) => Some(&mut self.sources[i]),
            None => None,
        }
    }

    /// All sources, in the order they were added.
    pub fn sources(&self) -> (r: &[Source<T>])
        ensures
            r@ == self@.sources,
    {
        self.sources.as_slice()
    }

    /// The sources of one kind, in order.
    pub fn sources_by_kind(&self, kind: &SourceKind) -> (r: Vec<&Source<T>>)
        ensures
            r@.map_values(|s: &Source<T>| *s) == of_kind(self@.sources, *kind),
    {
        let mut out: Vec<&Source<T>> = Vec::new();
        let n = self.sources.len();
        let mut i: usize = 0;
        assert(out@.map_values(|s: &Source<T>| *s) =~= of_kind(self@.sources.subrange(0, 0), *kind));
        while i < n
            invariant
                n == self@.sources.len(),
                i <= n,
                out@.map_values(|s: &Source<T>| *s) == of_kind(self@.sources.subrange(0, i as int), *kind),
            decreases n - i,
        {
            let ghost before = out@;
            assert(self@.sources.subrange(0, i + 1).drop_last() =~= self@.sources.subrange(0, i as int));
            if self.sources[i].kind == *kind {
                out.push(&self.sources[i]);
                assert(out@.map_values(|s: &Source<T>| *s) =~= before.map_values(|s: &Source<T>| *s).push(
                    self@.sources[i as int],
                ));
            }
            i = i + 1;
        }
        assert(self@.sources.subrange(0, n as int) =~= self@.sources);
        out
    }

    fn max_z_in(&self, scene_id: &Uuid) -> (r: i32)
        ensures
            r == max_z(in_scene(self@.bindings, *scene_id)),
    {
        let n = self.bindings.len();
        let mut m: i32 = 0;
        let mut any = false;
        let mut i: usize = 0;
        while i < n
            invariant
                n == self@.bindings.len(),
                i <= n,
                any == (in_scene(self@.bindings.subrange(0, i as int), *scene_id).len() > 0),
                any ==> m == max_z(in_scene(self@.bindings.subrange(0, i as int), *scene_id)),
                !any ==> m == 0,
            decreases n - i,
        {
            let ghost pre = in_scene(self@.bindings.subrange(0, i as int), *scene_id);
            assert(self@.bindings.subrange(0, i + 1).drop_last() =~= self@.bindings.subrange(0, i as int));
            let b = &self.bindings[i];
            if same_id(&b.scene_id, scene_id) {
                let ghost now = in_scene(self@.bindings.subrange(0, i + 1), *scene_id);
                assert(now == pre.push(*b));
                assert(now.drop_last() =~= pre);
                if !any || b.z_order > m {
                    m = b.z_order;
                }
                any = true;
            }
            i = i + 1;
        }
        assert(self@.bindings.subrange(0, n as int) =~= self@.bindings);
        m
    }

    /// Add a source to a scene, stacked above the scene's current top
    /// binding (the new order is one above the highest order in the
    /// scene, or 1 in an empty scene). `None` (and no change) when the
    /// source is unknown.
    pub fn bind_source(&mut self, source_id: Uuid, scene_id: Uuid, transform_override: Option<T>) -> (r: Option<Uuid>)
        requires
            max_z(in_scene(old(self)@.bindings, scene_id)) < i32::MAX,
        ensures
            match source_index(old(self)@.sources, source_id) {
                None => r.is_none() && final(self)@ == old(self)@,
                Some(_) => r == Some(source_id) && final(self)@ == (ManagerV {
                    bindings: old(self)@.bindings.push(SceneSource {
                        source_id,
                        scene_id,
                        transform_override,
                        visible: true,
                        locked: false,
                        z_order: (max_z(in_scene(old(self)@.bindings, scene_id)) + 1) as i32,
                    }),
                    ..old(self)@
                }),
            },
    {
        if self.position(&source_id).is_none() {
            return None;
        }
        let mut binding = SceneSource::new(source_id, scene_id);
        binding.transform_override = transform_override;
        let max = self.max_z_in(&scene_id);
        binding.z_order = max + 1;
        self.bindings.push(binding);
        Some(source_id)
    }

    /// Remove a source from a scene; whether a binding was removed.
    pub fn unbind_source(&mut self, source_id: Uuid, scene_id: Uuid) -> (r: bool)
        ensures
            final(self)@ == (ManagerV {
                bindings: kept(old(self)@.bindings, BindingFilter::Binding(source_id, scene_id)),
                ..old(self)@
            }),
            r == (final(self)@.bindings.len() < old(self)@.bindings.len()),
    {
        let before = self.bindings.len();
        retain_bindings(&mut self.bindings, &BindingFilter::Binding(source_id, scene_id));
        self.bindings.len() < before
    }

    /// The bindings of a scene in ascending stacking order (back to
    /// front); bindings with equal order keep their insertion order.
    pub fn scene_sources(&self, scene_id: Uuid) -> (r: Vec<&SceneSource<T>>)
        ensures
            r@.map_values(|b: &SceneSource<T>| *b) == z_stable_sorted(in_scene(self@.bindings, scene_id)),
            z_sorted(r@.map_values(|b: &SceneSource<T>| *b)),
            r@.map_values(|b: &SceneSource<T>| *b).to_multiset() == in_scene(self@.bindings, scene_id).to_multiset(),
    {
        broadcast use vstd::seq_lib::to_multiset_insert;

        let mut out: Vec<&SceneSource<T>> = Vec::new();
        let n = self.bindings.len();
        let mut i: usize = 0;
        assert(out@.map_values(|b: &SceneSource<T>| *b) =~= in_scene(self@.bindings.subrange(0, 0), scene_id));
        while i < n
            invariant
                n == self@.bindings.len(),
                i <= n,
                z_sorted(out@.map_values(|b: &SceneSource<T>| *b)),
                out@.map_values(|b: &SceneSource<T>| *b) == z_stable_sorted(in_scene(
                    self@.bindings.subrange(0, i as int),
                    scene_id,
                )),
                out@.map_values(|b: &SceneSource<T>| *b).to_multiset() == in_scene(
                    self@.bindings.subrange(0, i as int),
                    scene_id,
                ).to_multiset(),
            decreases n - i,
        {
            let ghost pre = in_scene(self@.bindings.subrange(0, i as int), scene_id);
            let ghost before = out@.map_values(|b: &SceneSource<T>| *b);
            assert(self@.bindings.subrange(0, i + 1).drop_last() =~= self@.bindings.subrange(0, i as int));
            let b = &self.bindings[i];
            if same_id(&b.scene_id, &scene_id) {
                let mut j: usize = 0;
                while j < out.len() && out[j].z_order <= b.z_order
                    invariant
                        j <= out@.len(),
                        before == out@.map_values(|b: &SceneSource<T>| *b),
                        forall|x: int| 0 <= x < j ==> (#[trigger] out@[x]).z_order <= b.z_order,
                        first_above(before, b.z_order, j as int) == first_above(before, b.z_order, 0),
                    decreases out@.len() - j,
                {
                    j = j + 1;
                }
                out.insert(j, b);
                proof {
                    let after = out@.map_values(|b: &SceneSource<T>| *b);
                    assert(after =~= before.insert(j as int, *b));
                    assert forall|x: int, y: int| 0 <= x < y < after.len() implies (#[trigger] after[x]).z_order
                        <= (#[trigger] after[y]).z_order by {
                        if y < j {
                            assert(after[x] == before[x] && after[y] == before[y]);
                        } else if y == j {
                            assert(after[x] == before[x] && after[y] == *b);
                        } else if x < j {
                            assert(after[x] == before[x] && after[y] == before[y - 1]);
                        } else if x == j {
                            assert(after[y] == before[y - 1]);
                            assert(before[j as int].z_order <= before[y - 1].z_order);
                        } else {
                            assert(after[x] == before[x - 1] && after[y] == before[y - 1]);
                        }
                    }
                    vstd::seq_lib::to_multiset_insert(before, j as int, *b);
                    vstd::seq_lib::to_multiset_build(pre, *b);
                    assert(first_above(before, b.z_order, j as int) == j as int);
                    assert(pre.push(*b).drop_last() =~= pre);
                    assert(after == z_stable_sorted(pre.push(*b)));
                }
            }
            i = i + 1;
        }
        assert(self@.bindings.subrange(0, n as int) =~= self@.bindings);
        out
    }

    /// The number of bindings in a scene.
    pub fn source_count_in_scene(&self, scene_id: Uuid) -> (r: usize)
        ensures
            r == in_scene(self@.bindings, scene_id).len(),
    {
        let n = self.bindings.len();
        let mut count: usize = 0;
        let mut i: usize = 0;
        while i < n
            invariant
                n == self@.bindings.len(),
                i <= n,
                count == in_scene(self@.bindings.subrange(0, i as int), scene_id).len(),
                count <= i,
            decreases n - i,
        {
            assert(self@.bindings.subrange(0, i + 1).drop_last() =~= self@.bindings.subrange(0, i as int));
            if same_id(&self.bindings[i].scene_id, &scene_id) {
                count = count + 1;
            }
            i = i + 1;
        }
        assert(self@.bindings.subrange(0, n as int) =~= self@.bindings);
        count
    }

    fn binding_position(&self, source_id: &Uuid, scene_id: &Uuid) -> (r: Option<usize>)
        ensures
            match binding_index(self@.bindings, *source_id, *scene_id) {
                Some(i) => r matches Some(k) && k as int == i && 0 <= i < self@.bindings.len(),
                None => r.is_none(),
            },
    {
        let n = self.bindings.len();
        let mut i: usize = 0;
        proof {
            assert(self@.bindings.skip(0) =~= self@.bindings);
        }
        while i < n
            invariant
                n == self@.bindings.len(),
                i <= n,
                binding_index(self@.bindings, *source_id, *scene_id) == match binding_index(
                    self@.bindings.skip(i as int),
                    *source_id,
                    *scene_id,
                ) {
                    Some(j) => Some(j + i),
                    None => None,
                },
            decreases n - i,
        {
            assert(self@.bindings.skip(i as int).drop_first() =~= self@.bindings.skip(i + 1));
            let b = &self.bindings[i];
            if same_id(&b.source_id, source_id) && same_id(&b.scene_id, scene_id) {
                return Some(i);
            }
            i = i + 1;
        }
        None
    }

    /// Set the transform override of a binding; false (and no change) when
    /// the binding does not exist.
    pub fn set_transform(&mut self, source_id: Uuid, scene_id: Uuid, transform: T) -> (r: bool)
        ensures
            match binding_index(old(self)@.bindings, source_id, scene_id) {
                Some(i) => r && final(self)@ == (ManagerV {
                    bindings: old(self)@.bindings.update(
                        i,
                        SceneSource { transform_override: Some(transform), ..old(self)@.bindings[i] },
                    ),
                    ..old(self)@
                }),
                None => !r && final(self)@ == old(self)@,
            },
    {
        match self.binding_position(&source_id, &scene_id) {
            Some(i) => {
                let b = &mut self.bindings[i];
                b.transform_override = Some(transform);
                true
            },
            None => false,
        }
    }

    /// Move a binding up or down in its scene's stacking order; the new
    /// order, or `None` (and no change) when the binding does not exist.
    pub fn reorder_source(&mut self, source_id: Uuid, scene_id: Uuid, delta: i32) -> (r: Option<i32>)
        requires
            binding_index(old(self)@.bindings, source_id, scene_id) matches Some(i) ==> i32::MIN
                <= old(self)@.bindings[i].z_order + delta <= i32::MAX,
        ensures
            match binding_index(old(self)@.bindings, source_id, scene_id) {
                Some(i) => r == Some((old(self)@.bindings[i].z_order + delta) as i32) && final(self)@ == (ManagerV {
                    bindings: old(self)@.bindings.update(
                        i,
                        SceneSource { z_order: (old(self)@.bindings[i].z_order + delta) as i32, ..old(self)@.bindings[i] },
                    ),
                    ..old(self)@
                }),
                None => r.is_none() && final(self)@ == old(self)@,
            },
    {
        match self.binding_position(&source_id, &scene_id) {
            Some(i) => {
                let b = &mut self.bindings[i];
                b.z_order = b.z_order + delta;
                Some(b.z_order)
            },
            None => None,
        }
    }

    /// Remove every binding of a scene (when the scene is deleted).
    pub fn clear_scene(&mut self, scene_id: Uuid)
        ensures
            final(self)@ == (ManagerV { bindings: kept(old(self)@.bindings, BindingFilter::InScene(scene_id)), ..old(self)@ }),
    {
        retain_bindings(&mut self.bindings, &BindingFilter::InScene(scene_id));
    }
}

} // verus!
