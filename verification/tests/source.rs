use rivulet_core::source::{SceneSource, Source, SourceKind, SourceManager};
use uuid::Uuid;

/// A 2-D transform as the renderer uses it; the manager carries it
/// through untouched.
#[derive(Debug, Clone, PartialEq)]
struct Transform {
    x: f32,
    y: f32,
    width: f32,
    height: f32,
    rotation: f32,
    opacity: f32,
}

impl Default for Transform {
    fn default() -> Self {
        Self {
            x: 0.0,
            y: 0.0,
            width: 1920.0,
            height: 1080.0,
            rotation: 0.0,
            opacity: 1.0,
        }
    }
}

impl Transform {
    fn new(x: f32, y: f32, width: f32, height: f32) -> Self {
        Self {
            x,
            y,
            width,
            height,
            rotation: 0.0,
            opacity: 1.0,
        }
    }
}

type Manager = SourceManager<Transform>;

fn source(name: &str, kind: SourceKind) -> Source<Transform> {
    Source::new(name.to_string(), kind)
}

#[test]
fn source_new_creates_unique_id_and_name() {
    let s = source("My Image", SourceKind::Image);
    assert_eq!(s.name, "My Image");
    assert_eq!(s.kind, SourceKind::Image);
    assert_ne!(s.id, Uuid::nil());
    assert!(s.visible);
    assert!(!s.locked);
    assert_eq!(s.z_order, 0);
    assert_eq!(s.transform, Transform::default());
}

#[test]
fn source_builder_methods() {
    let custom_transform = Transform::new(50.0, 50.0, 320.0, 240.0);
    let s = source("Cam", SourceKind::Webcam)
        .with_transform(custom_transform.clone())
        .with_z_order(5)
        .visible(false)
        .locked(true);
    assert_eq!(s.transform, custom_transform);
    assert_eq!(s.z_order, 5);
    assert!(!s.visible);
    assert!(s.locked);
}

#[test]
fn source_two_instances_have_different_ids() {
    let a = source("A", SourceKind::Color);
    let b = source("B", SourceKind::Color);
    assert_ne!(a.id, b.id);
}

#[test]
fn scene_source_new_uses_defaults() {
    let src = Uuid::new_v4();
    let scene = Uuid::new_v4();
    let ss: SceneSource<Transform> = SceneSource::new(src, scene);
    assert_eq!(ss.source_id, src);
    assert_eq!(ss.scene_id, scene);
    assert!(ss.transform_override.is_none());
    assert!(ss.visible);
    assert!(!ss.locked);
    assert_eq!(ss.z_order, 0);
}

#[test]
fn scene_source_effective_transform_uses_fallback_when_no_override() {
    let ss: SceneSource<Transform> = SceneSource::new(Uuid::new_v4(), Uuid::new_v4());
    let fallback = Transform::new(0.0, 0.0, 800.0, 600.0);
    assert_eq!(ss.effective_transform(&fallback), &fallback);
}

#[test]
fn scene_source_effective_transform_uses_override_when_set() {
    let mut ss = SceneSource::new(Uuid::new_v4(), Uuid::new_v4());
    let override_t = Transform::new(10.0, 20.0, 320.0, 240.0);
    ss.transform_override = Some(override_t.clone());
    let fallback = Transform::default();
    assert_eq!(ss.effective_transform(&fallback), &override_t);
}

#[test]
fn manager_add_and_get_source() {
    let mut mgr = Manager::new();
    let s = source("Test", SourceKind::Text);
    let id = s.id;
    mgr.add_source(s);
    assert!(mgr.get_source(id).is_some());
    assert_eq!(mgr.sources().len(), 1);
}

#[test]
fn manager_remove_source_removes_bindings_too() {
    let mut mgr = Manager::new();
    let sid = mgr.add_source(source("S", SourceKind::Color));
    let scene = Uuid::new_v4();
    mgr.bind_source(sid, scene, None);
    assert_eq!(mgr.source_count_in_scene(scene), 1);

    let removed = mgr.remove_source(sid);
    assert!(removed.is_some());
    assert_eq!(mgr.sources().len(), 0);
    assert_eq!(mgr.source_count_in_scene(scene), 0);
}

#[test]
fn manager_remove_unknown_source_returns_none() {
    let mut mgr = Manager::new();
    assert!(mgr.remove_source(Uuid::new_v4()).is_none());
}

#[test]
fn manager_sources_by_kind() {
    let mut mgr = Manager::new();
    mgr.add_source(source("Img", SourceKind::Image));
    mgr.add_source(source("Txt", SourceKind::Text));
    mgr.add_source(source("Img2", SourceKind::Image));

    let imgs = mgr.sources_by_kind(&SourceKind::Image);
    assert_eq!(imgs.len(), 2);
    assert_eq!(imgs[0].name, "Img");
    assert_eq!(imgs[1].name, "Img2");
    let txts = mgr.sources_by_kind(&SourceKind::Text);
    assert_eq!(txts.len(), 1);
}

#[test]
fn manager_get_source_mut() {
    let mut mgr = Manager::new();
    let id = mgr.add_source(source("Old", SourceKind::Text));
    if let Some(s) = mgr.get_source_mut(id) {
        s.name = "New".to_string();
    }
    assert_eq!(mgr.get_source(id).unwrap().name, "New");
}

#[test]
fn manager_bind_and_scene_sources() {
    let mut mgr = Manager::new();
    let scene = Uuid::new_v4();
    let s1 = mgr.add_source(source("A", SourceKind::Image));
    let s2 = mgr.add_source(source("B", SourceKind::Text));

    mgr.bind_source(s1, scene, None);
    mgr.bind_source(s2, scene, None);

    let list = mgr.scene_sources(scene);
    assert_eq!(list.len(), 2);
    assert_eq!(list[0].z_order, 1);
    assert_eq!(list[1].z_order, 2);
}

#[test]
fn manager_bind_unknown_source_returns_none() {
    let mut mgr = Manager::new();
    let scene = Uuid::new_v4();
    assert!(mgr.bind_source(Uuid::new_v4(), scene, None).is_none());
}

#[test]
fn manager_unbind_source() {
    let mut mgr = Manager::new();
    let scene = Uuid::new_v4();
    let sid = mgr.add_source(source("X", SourceKind::Media));
    mgr.bind_source(sid, scene, None);
    assert!(mgr.unbind_source(sid, scene));
    assert_eq!(mgr.source_count_in_scene(scene), 0);
    assert!(!mgr.unbind_source(sid, scene));
}

#[test]
fn manager_bind_same_source_to_multiple_scenes() {
    let mut mgr = Manager::new();
    let scene_a = Uuid::new_v4();
    let scene_b = Uuid::new_v4();
    let sid = mgr.add_source(source("Shared", SourceKind::Color));

    mgr.bind_source(sid, scene_a, None);
    mgr.bind_source(sid, scene_b, None);

    assert_eq!(mgr.source_count_in_scene(scene_a), 1);
    assert_eq!(mgr.source_count_in_scene(scene_b), 1);
}

#[test]
fn manager_set_transform() {
    let mut mgr = Manager::new();
    let scene = Uuid::new_v4();
    let sid = mgr.add_source(source("S", SourceKind::Image));
    mgr.bind_source(sid, scene, None);

    let new_t = Transform::new(100.0, 200.0, 320.0, 240.0);
    assert!(mgr.set_transform(sid, scene, new_t.clone()));

    let list = mgr.scene_sources(scene);
    assert_eq!(list[0].transform_override, Some(new_t));
}

#[test]
fn manager_set_transform_unknown_binding() {
    let mut mgr = Manager::new();
    assert!(!mgr.set_transform(Uuid::new_v4(), Uuid::new_v4(), Transform::default()));
}

#[test]
fn manager_reorder_source() {
    let mut mgr = Manager::new();
    let scene = Uuid::new_v4();
    let sid = mgr.add_source(source("S", SourceKind::Text));
    mgr.bind_source(sid, scene, None);

    let z = mgr.scene_sources(scene)[0].z_order;
    let new_z = mgr.reorder_source(sid, scene, 10).unwrap();
    assert_eq!(new_z, z + 10);
}

#[test]
fn manager_reorder_unknown_binding() {
    let mut mgr = Manager::new();
    assert!(mgr.reorder_source(Uuid::new_v4(), Uuid::new_v4(), 1).is_none());
}

#[test]
fn manager_clear_scene_removes_all_bindings() {
    let mut mgr = Manager::new();
    let scene = Uuid::new_v4();
    let s1 = mgr.add_source(source("A", SourceKind::Image));
    let s2 = mgr.add_source(source("B", SourceKind::Text));
    mgr.bind_source(s1, scene, None);
    mgr.bind_source(s2, scene, None);

    mgr.clear_scene(scene);
    assert_eq!(mgr.source_count_in_scene(scene), 0);
    assert_eq!(mgr.sources().len(), 2);
}

#[test]
fn manager_scene_sources_sorted_by_z_order() {
    let mut mgr = Manager::new();
    let scene = Uuid::new_v4();
    let s1 = mgr.add_source(source("Back", SourceKind::Image));
    let s2 = mgr.add_source(source("Mid", SourceKind::Text));
    let s3 = mgr.add_source(source("Front", SourceKind::Color));

    mgr.bind_source(s1, scene, None);
    mgr.bind_source(s2, scene, None);
    mgr.bind_source(s3, scene, None);

    let list = mgr.scene_sources(scene);
    assert_eq!(list.len(), 3);
    assert!(list[0].z_order <= list[1].z_order);
    assert!(list[1].z_order <= list[2].z_order);
}

#[test]
fn manager_source_id_stable_after_bind() {
    let mut mgr = Manager::new();
    let scene = Uuid::new_v4();
    let sid = mgr.add_source(source("S", SourceKind::Webcam));
    mgr.bind_source(sid, scene, Some(Transform::new(10.0, 20.0, 640.0, 480.0)));

    let list = mgr.scene_sources(scene);
    assert_eq!(list[0].source_id, sid);

    let src = mgr.get_source(sid).unwrap();
    assert_eq!(src.name, "S");
    assert_eq!(src.kind, SourceKind::Webcam);
}

#[test]
fn manager_bind_with_transform_override() {
    let mut mgr = Manager::new();
    let scene = Uuid::new_v4();
    let sid = mgr.add_source(source("S", SourceKind::Image));
    let t = Transform::new(50.0, 60.0, 320.0, 240.0);
    mgr.bind_source(sid, scene, Some(t.clone()));

    let list = mgr.scene_sources(scene);
    let ss = list[0];
    let src = mgr.get_source(sid).unwrap();
    assert_eq!(ss.effective_transform(&src.transform), &t);
}

#[test]
fn manager_default_is_empty() {
    let mgr = Manager::new();
    assert_eq!(mgr.sources().len(), 0);
    assert_eq!(mgr.scene_sources(Uuid::new_v4()).len(), 0);
}

#[test]
fn manager_clone_preserves_data() {
    let mut mgr = Manager::new();
    let scene = Uuid::new_v4();
    let sid = mgr.add_source(source("X", SourceKind::Media));
    mgr.bind_source(sid, scene, None);

    let mgr2 = mgr.clone();
    assert_eq!(mgr2.sources().len(), 1);
    assert_eq!(mgr2.source_count_in_scene(scene), 1);
}

#[test]
fn reordered_bindings_come_back_in_stacking_order_and_new_ones_go_on_top() {
    let mut mgr = Manager::new();
    let scene = Uuid::new_v4();
    let a = mgr.add_source(source("A", SourceKind::Image));
    let b = mgr.add_source(source("B", SourceKind::Text));
    let c = mgr.add_source(source("C", SourceKind::Color));
    mgr.bind_source(a, scene, None);
    mgr.bind_source(b, scene, None);
    assert_eq!(mgr.reorder_source(a, scene, 5), Some(6));
    assert_eq!(mgr.reorder_source(b, scene, -7), Some(-5));
    let order: Vec<Uuid> = mgr.scene_sources(scene).iter().map(|s| s.source_id).collect();
    assert_eq!(order, vec![b, a]);
    mgr.bind_source(c, scene, None);
    let list = mgr.scene_sources(scene);
    assert_eq!(list[2].source_id, c);
    assert_eq!(list[2].z_order, 7);
    let other = Uuid::new_v4();
    mgr.bind_source(c, other, None);
    assert_eq!(mgr.scene_sources(other)[0].z_order, 1);
}
