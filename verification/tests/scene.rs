use rivulet_core::scene::{Scene, SceneManager};
use uuid::Uuid;


    #[test]
    fn scene_new_creates_unique_id_and_name() {
        let scene = Scene::new("Hauptszene".to_string());
        assert_eq!(scene.name, "Hauptszene");
        assert_ne!(scene.id, Uuid::nil());
        assert_eq!(scene.parent, None);
        assert_eq!(scene.color, 0xFFFFFFFF);
    }

    #[test]
    fn scene_with_parent_sets_parent_and_inherits_default_color() {
        let parent = Scene::new("Parent".to_string()).id;
        let child = Scene::with_parent("Child".to_string(), parent);
        assert_eq!(child.parent, Some(parent));
        assert_eq!(child.color, 0xFFFFFFFF);
    }

    #[test]
    fn scene_with_color_sets_custom_color() {
        let scene = Scene::with_color("Colored".to_string(), 0xFF1A73E8);
        assert_eq!(scene.color, 0xFF1A73E8);
        assert_eq!(scene.parent, None);
    }

    #[test]
    fn scene_with_parent_and_color_sets_both() {
        let parent = Scene::new("Parent".to_string()).id;
        let child = Scene::with_parent_and_color("Child".to_string(), parent, 0xFF36A2EB);
        assert_eq!(child.parent, Some(parent));
        assert_eq!(child.color, 0xFF36A2EB);
    }

    #[test]
    fn manager_first_scene_becomes_active() {
        let mut mgr = SceneManager::new();
        assert_eq!(mgr.active(), None);
        let id = mgr.add(Scene::new("Game".to_string()));
        assert_eq!(mgr.active(), Some(id));
        assert_eq!(mgr.active_scene().map(|s| s.name.as_str()), Some("Game"));
    }

    #[test]
    fn manager_switch_changes_active_and_tracks_last_active() {
        let mut mgr = SceneManager::new();
        let a = mgr.add(Scene::new("A".to_string()));
        let b = mgr.add(Scene::new("B".to_string()));
        assert_eq!(mgr.active(), Some(a));

        assert!(mgr.switch_to(b));
        assert_eq!(mgr.active(), Some(b));
        assert_eq!(mgr.last_active(), Some(a));

        // Switching to the same scene is a no-op for last_active.
        assert!(mgr.switch_to(b));
        assert_eq!(mgr.last_active(), Some(a));

        // Unknown IDs are rejected.
        assert!(!mgr.switch_to(Uuid::new_v4()));
        assert_eq!(mgr.active(), Some(b));
    }

    #[test]
    fn manager_undo_redo_restores_scene_add_and_name_changes() {
        let mut mgr = SceneManager::new();
        let id = mgr.add(Scene::new("Game".to_string()));
        assert!(mgr.can_undo());
        assert!(mgr.undo());
        assert!(mgr.scenes().is_empty());
        assert_eq!(mgr.active(), None);
        assert!(mgr.can_redo());
        assert!(mgr.redo());
        assert_eq!(mgr.get(id).map(|s| s.name.as_str()), Some("Game"));

        mgr.rename(id, "Live".to_string());
        assert!(mgr.undo());
        assert_eq!(mgr.get(id).map(|s| s.name.as_str()), Some("Game"));
        assert!(mgr.redo());
        assert_eq!(mgr.get(id).map(|s| s.name.as_str()), Some("Live"));
    }

    #[test]
    fn manager_new_change_clears_redo_stack() {
        let mut mgr = SceneManager::new();
        let a = mgr.add(Scene::new("A".to_string()));
        mgr.add(Scene::new("B".to_string()));
        assert!(mgr.undo());
        assert!(mgr.can_redo());
        mgr.rename(a, "Renamed".to_string());
        assert!(!mgr.can_redo());
    }

    #[test]
    fn manager_switch_back_is_undoable() {
        let mut mgr = SceneManager::new();
        let a = mgr.add(Scene::new("A".to_string()));
        let b = mgr.add(Scene::new("B".to_string()));
        mgr.switch_to(b);
        assert!(mgr.switch_back());
        assert_eq!(mgr.active(), Some(a));
        assert!(mgr.undo());
        assert_eq!(mgr.active(), Some(b));
        assert!(mgr.redo());
        assert_eq!(mgr.active(), Some(a));
    }

    #[test]
    fn manager_switch_back_returns_to_previous_scene() {
        let mut mgr = SceneManager::new();
        let a = mgr.add(Scene::new("A".to_string()));
        let b = mgr.add(Scene::new("B".to_string()));
        let c = mgr.add(Scene::new("C".to_string()));
        mgr.switch_to(b);
        mgr.switch_to(c);
        assert_eq!(mgr.active(), Some(c));

        assert!(mgr.switch_back());
        assert_eq!(mgr.active(), Some(b));
        assert_eq!(mgr.last_active(), Some(a));

        assert!(mgr.switch_back());
        assert_eq!(mgr.active(), Some(a));
        assert_eq!(mgr.last_active(), None);

        // History exhausted → false, active unchanged.
        assert!(!mgr.switch_back());
        assert_eq!(mgr.active(), Some(a));

        // A fresh manager without switching history returns false.
        let mut fresh = SceneManager::new();
        fresh.add(Scene::new("Only".to_string()));
        assert!(!fresh.switch_back());
        assert!(fresh.active().is_some());
    }

    #[test]
    fn manager_remove_unknown_returns_false() {
        let mut mgr = SceneManager::new();
        mgr.add(Scene::new("A".to_string()));
        assert!(!mgr.remove(Uuid::new_v4()));
        assert_eq!(mgr.scenes().len(), 1);
    }

    #[test]
    fn manager_remove_active_falls_back_to_last_scene() {
        let mut mgr = SceneManager::new();
        let a = mgr.add(Scene::new("A".to_string()));
        let b = mgr.add(Scene::new("B".to_string()));
        mgr.switch_to(b);
        assert!(mgr.remove(b));
        assert_eq!(mgr.scenes().len(), 1);
        assert_eq!(mgr.active(), Some(a));
    }

    #[test]
    fn manager_remove_last_scene_clears_active() {
        let mut mgr = SceneManager::new();
        let a = mgr.add(Scene::new("A".to_string()));
        assert!(mgr.remove(a));
        assert_eq!(mgr.scenes().len(), 0);
        assert_eq!(mgr.active(), None);
    }

    #[test]
    fn manager_rename_updates_name_and_reports_old() {
        let mut mgr = SceneManager::new();
        let a = mgr.add(Scene::new("Old".to_string()));
        assert_eq!(mgr.rename(a, "New".to_string()), Some("Old".to_string()));
        assert_eq!(mgr.get(a).map(|s| s.name.as_str()), Some("New"));

        assert_eq!(mgr.rename(Uuid::new_v4(), "X".to_string()), None);
    }

    #[test]
    fn manager_ordered_scenes_groups_children_under_parents() {
        let mut mgr = SceneManager::new();
        let parent = mgr.add(Scene::new("Folder".to_string()));
        let child1 = mgr.add(Scene::with_parent("Child 1".to_string(), parent));
        let other = mgr.add(Scene::new("Top".to_string()));
        let child2 = mgr.add(Scene::with_parent("Child 2".to_string(), parent));

        let ids = mgr.ordered_scenes();
        let names: Vec<&str> = ids
            .iter()
            .map(|id| mgr.get(*id).map(|s| s.name.as_str()).unwrap_or(""))
            .collect();
        assert_eq!(names, vec!["Folder", "Child 1", "Child 2", "Top"]);
        // Every added scene is present exactly once, and child ids are grouped
        // under their parent regardless of insertion order.
        assert_eq!(ids.len(), 4);
        assert!(ids.contains(&parent));
        assert!(ids.contains(&child1));
        assert!(ids.contains(&child2));
        assert!(ids.contains(&other));
    }

#[test]
fn removing_a_scene_forgets_it_in_the_history_and_is_undoable() {
    let mut mgr = SceneManager::new();
    let a = mgr.add(Scene::new("A".to_string()));
    let b = mgr.add(Scene::new("B".to_string()));
    let c = mgr.add(Scene::new("C".to_string()));
    mgr.switch_to(b);
    mgr.switch_to(c);
    assert!(mgr.remove(b));
    assert_eq!(mgr.active(), Some(c));
    assert_eq!(mgr.last_active(), Some(a));
    assert!(mgr.undo());
    assert_eq!(mgr.scenes().len(), 3);
    assert_eq!(mgr.last_active(), Some(b));
    assert!(!mgr.rename(Uuid::nil(), "x".to_string()).is_some());
    assert!(mgr.can_redo(), "a rejected rename records nothing");
}

#[test]
fn ordered_scenes_keeps_a_child_whose_parent_was_removed() {
    let mut m = SceneManager::new();
    let a = m.add(Scene::new("A".to_string()));
    let c = m.add(Scene::with_parent("C".to_string(), a));
    let b = m.add(Scene::new("B".to_string()));
    assert_eq!(m.ordered_scenes(), vec![a, c, b]);
    assert!(m.remove(a));
    assert_eq!(m.ordered_scenes(), vec![c, b]);
}

#[test]
fn ordered_scenes_lists_scenes_in_a_parent_cycle_once() {
    let mut m = SceneManager::new();
    let top = m.add(Scene::new("Top".to_string()));
    let mut x = Scene::new("X".to_string());
    let mut y = Scene::new("Y".to_string());
    x.parent = Some(y.id);
    y.parent = Some(x.id);
    let x_id = m.add(x);
    let y_id = m.add(y);
    assert_eq!(m.ordered_scenes(), vec![top, x_id, y_id]);
}
