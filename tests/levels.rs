use ldtk_swap::level::{DragDropEvent, LevelCommand, LevelManager, DEFAULT_WORLD};

fn loaded() -> LevelManager {
    let mut m = LevelManager::new(0);
    let cmds = m.load_initial();
    assert_eq!(cmds.len(), 1);
    m
}

fn is_spawn(c: &LevelCommand, id: u64, locator: &str) -> bool {
    match c {
        LevelCommand::Spawn { id: i, locator: l } => *i == id && l == locator,
        _ => false,
    }
}

fn is_despawn(c: &LevelCommand, id: u64) -> bool {
    matches!(c, LevelCommand::Despawn { id: i } if *i == id)
}

#[test]
fn initial_level_comes_from_the_built_in_world() {
    let mut m = LevelManager::new(3);
    let cmds = m.load_initial();
    assert_eq!(m.levels.len(), 1);
    assert_eq!(m.levels[0].locator, DEFAULT_WORLD);
    assert_eq!(m.levels[0].locator, "pipes2.ldtk");
    assert_eq!(m.selection, 3);
    assert!(is_spawn(&cmds[0], 0, "pipes2.ldtk"));
}

#[test]
fn valid_drop_replaces_the_level() {
    let mut m = loaded();
    let cmds = m.handle_drop("maps/other.ldtk".to_string());
    assert_eq!(m.levels.len(), 1);
    assert_eq!(m.levels[0].locator, "maps/other.ldtk");
    assert_eq!(m.levels[0].id, 1);
    assert_eq!(cmds.len(), 2);
    assert!(is_despawn(&cmds[0], 0));
    assert!(is_spawn(&cmds[1], 1, "maps/other.ldtk"));
}

#[test]
fn invalid_drop_clears_the_level() {
    let mut m = loaded();
    let cmds = m.handle_drop("pictures/tile.png".to_string());
    assert_eq!(m.levels.len(), 0);
    assert_eq!(cmds.len(), 1);
    assert!(is_despawn(&cmds[0], 0));
    assert_eq!(m.next_id, 1);
}

#[test]
fn extension_is_case_sensitive() {
    let mut m = loaded();
    let cmds = m.handle_drop("maps/OTHER.LDTK".to_string());
    assert_eq!(m.levels.len(), 0);
    assert_eq!(cmds.len(), 1);
}

#[test]
fn file_without_extension_is_rejected() {
    let mut m = loaded();
    m.handle_drop("maps/ldtk".to_string());
    assert_eq!(m.levels.len(), 0);
}

#[test]
fn hidden_file_named_like_the_extension_is_rejected() {
    let mut m = loaded();
    m.handle_drop("maps/.ldtk".to_string());
    assert_eq!(m.levels.len(), 0);
}

#[test]
fn extension_is_taken_from_the_final_component() {
    let mut m = loaded();
    m.handle_drop("maps.ldtk/level.png".to_string());
    assert_eq!(m.levels.len(), 0);
    m.handle_drop("a/b.tar.ldtk".to_string());
    assert_eq!(m.levels.len(), 1);
    assert_eq!(m.levels[0].locator, "a/b.tar.ldtk");
}

#[test]
fn apply_drop_follows_the_given_extension() {
    let mut m = loaded();
    let cmds = m.apply_drop("x.png".to_string(), Some("ldtk".to_string()));
    assert_eq!(m.levels.len(), 1);
    assert!(is_spawn(&cmds[1], 1, "x.png"));
    let cmds = m.apply_drop("y.ldtk".to_string(), None);
    assert_eq!(m.levels.len(), 0);
    assert!(is_despawn(&cmds[0], 1));
    assert_eq!(cmds.len(), 1);
    let cmds = m.apply_drop("z".to_string(), Some("ldtk".to_string()));
    assert_eq!(cmds.len(), 1);
    assert!(is_spawn(&cmds[0], 2, "z"));
}

#[test]
fn drop_on_empty_registry_spawns_only() {
    let mut m = LevelManager::new(0);
    let cmds = m.handle_drop("w.ldtk".to_string());
    assert_eq!(cmds.len(), 1);
    assert!(is_spawn(&cmds[0], 0, "w.ldtk"));
}

#[test]
fn hovering_changes_nothing() {
    let mut m = loaded();
    let cmds = m.handle_event(&DragDropEvent::HoveredFile { window: 7, path: "a.png".to_string() });
    assert!(matches!(cmds[0], LevelCommand::Hovering { window: 7 }));
    let cmds = m.handle_event(&DragDropEvent::HoveredFileCanceled { window: 7 });
    assert!(matches!(cmds[0], LevelCommand::HoverCanceled { window: 7 }));
    assert_eq!(m.levels.len(), 1);
    assert_eq!(m.levels[0].locator, "pipes2.ldtk");
    assert_eq!(m.next_id, 1);
}

#[test]
fn events_are_handled_in_arrival_order() {
    let mut m = loaded();
    let events = vec![
        DragDropEvent::DroppedFile { window: 1, path: "a.ldtk".to_string() },
        DragDropEvent::HoveredFile { window: 1, path: "b.ldtk".to_string() },
        DragDropEvent::DroppedFile { window: 1, path: "b.ldtk".to_string() },
        DragDropEvent::DroppedFile { window: 1, path: "c.txt".to_string() },
        DragDropEvent::DroppedFile { window: 1, path: "d.ldtk".to_string() },
    ];
    let cmds = m.handle_events(events);
    assert_eq!(cmds.len(), 7);
    assert!(is_despawn(&cmds[0], 0));
    assert!(is_spawn(&cmds[1], 1, "a.ldtk"));
    assert!(matches!(cmds[2], LevelCommand::Hovering { window: 1 }));
    assert!(is_despawn(&cmds[3], 1));
    assert!(is_spawn(&cmds[4], 2, "b.ldtk"));
    assert!(is_despawn(&cmds[5], 2));
    assert!(is_spawn(&cmds[6], 3, "d.ldtk"));
    assert_eq!(m.levels.len(), 1);
    assert_eq!(m.levels[0].locator, "d.ldtk");
}
