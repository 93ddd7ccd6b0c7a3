use ldtk_swap::camera::Camera;
use ldtk_swap::level::{DragDropEvent, LevelCommand};
use ldtk_swap::motion::{MoveInput, Player};
use ldtk_swap::world::{GameWorld, WINDOW_HEIGHT, WINDOW_WIDTH};

fn idle() -> MoveInput {
    MoveInput { up: false, down: false, left: false, right: false }
}

#[test]
fn startup_spawns_one_of_each() {
    let (w, cmds) = GameWorld::startup(WINDOW_WIDTH, WINDOW_HEIGHT, 0);
    assert_eq!(w.player, Some(Player { x: 325_000, y: 340_000, z: 10_000, movement_speed: 100_000 }));
    assert_eq!(w.camera, Some(Camera { x: 325_000, y: 185_000, z: 0, zoom_percent: 175 }));
    assert_eq!(w.levels.levels.len(), 1);
    assert_eq!(w.levels.levels[0].locator, "pipes2.ldtk");
    assert_eq!(cmds.len(), 1);
    assert!(matches!(&cmds[0], LevelCommand::Spawn { id: 0, locator } if locator == "pipes2.ldtk"));
}

#[test]
fn camera_waits_without_a_player() {
    let (mut w, _) = GameWorld::startup(WINDOW_WIDTH, WINDOW_HEIGHT, 0);
    w.player = None;
    let before = w.camera;
    w.update_camera(16_667);
    assert_eq!(w.camera, before);
}

#[test]
fn frame_runs_levels_then_player_then_camera() {
    let (mut w, _) = GameWorld::startup(WINDOW_WIDTH, WINDOW_HEIGHT, 0);
    let events = vec![DragDropEvent::DroppedFile { window: 0, path: "next.ldtk".to_string() }];
    let input = MoveInput { up: false, down: true, left: false, right: false };
    let cmds = w.frame(events, input, 250_000);
    assert_eq!(cmds.len(), 2);
    assert_eq!(w.levels.levels[0].locator, "next.ldtk");
    let p = w.player.unwrap();
    assert_eq!((p.x, p.y), (325_000, 315_000));
    let c = w.camera.unwrap();
    assert_eq!((c.x, c.y, c.z), (325_000, 250_000, 0));
}

#[test]
fn idle_frames_leave_the_player_in_place() {
    let (mut w, _) = GameWorld::startup(WINDOW_WIDTH, WINDOW_HEIGHT, 0);
    let start = w.player;
    for _ in 0..10 {
        w.frame(Vec::new(), idle(), 16_667);
    }
    assert_eq!(w.player, start);
    assert_eq!(w.levels.levels.len(), 1);
}
