use vstd::prelude::*;
use crate::camera::{track, followed, Camera};
use crate::level::{
    commands_model, events_step, CommandModel, DragDropEvent, LevelCommand, LevelManager,
    DEFAULT_WORLD,
};
use crate::motion::{moved, move_fits, update_player, MoveInput, Player, UNITS_PER_PIXEL};

verus! {

/// Logical window width, in pixels.
pub const WINDOW_WIDTH: u32 = 650;

/// Logical window height, in pixels.
pub const WINDOW_HEIGHT: u32 = 370;

/// How far the camera is zoomed in, in percent.
pub const CAMERA_ZOOM_PERCENT: u32 = 175;

/// Player speed, in pixels per second.
pub const PLAYER_SPEED_PIXELS: u32 = 100;

/// Distance of the player's spawn point below the window's top edge, in pixels.
pub const PLAYER_TOP_MARGIN: i64 = 30;

/// Draw depth of the player.
pub const PLAYER_DEPTH: i64 = 10;

/// The simulated game: the singleton player and camera, and the level registry.
#[derive(Clone, Debug)]
pub struct GameWorld {
    pub player: Option<Player>,
    pub camera: Option<Camera>,
    pub levels: LevelManager,
}

/// Where the camera starts: the window's centre, zoomed in.
pub open spec fn initial_camera(width: u32, height: u32) -> Camera {
    Camera {
        x: ((width / 2) as int * UNITS_PER_PIXEL) as i64,
        y: ((height / 2) as int * UNITS_PER_PIXEL) as i64,
        z: 0,
        zoom_percent: CAMERA_ZOOM_PERCENT,
    }
}

/// Where the player starts: horizontally centred, near the top of the window.
pub open spec fn initial_player(width: u32, height: u32) -> Player {
    Player {
        x: ((width / 2) as int * UNITS_PER_PIXEL) as i64,
        y: ((height as int - PLAYER_TOP_MARGIN) * UNITS_PER_PIXEL) as i64,
        z: (PLAYER_DEPTH * UNITS_PER_PIXEL) as i64,
        movement_speed: (PLAYER_SPEED_PIXELS as int * UNITS_PER_PIXEL) as u32,
    }
}

impl GameWorld {
    pub open spec fn wf(self) -> bool {
        self.levels.wf()
    }

    /// Sets up a window of `width` by `height` pixels: one camera, one player, and the
    /// built-in world's level number `selection`.
    pub fn startup(width: u32, height: u32, selection: usize) -> (r: (GameWorld, Vec<LevelCommand>))
        ensures
            r.0.wf(),
            r.0.player == Some(initial_player(width, height)),
            r.0.camera == Some(initial_camera(width, height)),
            r.0.levels.levels@.len() == 1,
            r.0.levels.model().levels == seq![(0u64, DEFAULT_WORLD@)],
            r.0.levels.selection == selection,
            commands_model(r.1@) == seq![CommandModel::Spawn(0, DEFAULT_WORLD@)],
    {
        let half_w: i64 = (width / 2) as i64;
        let half_h: i64 = (height / 2) as i64;
        let camera = Camera {
            x: half_w * UNITS_PER_PIXEL,
            y: half_h * UNITS_PER_PIXEL,
            z: 0,
            zoom_percent: CAMERA_ZOOM_PERCENT,
        };
        let player = Player {
            x: half_w * UNITS_PER_PIXEL,
            y: (height as i64 - PLAYER_TOP_MARGIN) * UNITS_PER_PIXEL,
            z: PLAYER_DEPTH * UNITS_PER_PIXEL,
            movement_speed: PLAYER_SPEED_PIXELS * (UNITS_PER_PIXEL as u32),
        };
        let mut levels = LevelManager::new(selection);
        let cmds = levels.load_initial();
        (GameWorld { player: Some(player), camera: Some(camera), levels }, cmds)
    }

    /// Tracks the player with the camera for one frame; without a camera or a player it does
    /// nothing.
    pub fn update_camera(&mut self, dt_us: u32)
        ensures
            final(self).player == old(self).player,
            final(self).levels == old(self).levels,
            match (old(self).camera, old(self).player) {
                (Some(c), Some(p)) => {
                    let f = followed(c, p.x as int, p.y as int, dt_us as int);
                    &&& final(self).camera is Some
                    &&& final(self).camera->0.x as int == f.0
                    &&& final(self).camera->0.y as int == f.1
                    &&& final(self).camera->0.z == c.z
                    &&& final(self).camera->0.zoom_percent == c.zoom_percent
                },
                _ => final(self).camera == old(self).camera,
            },
    {
        match (&mut self.camera, &self.player) {
            (Some(c), Some(p)) => track(c, p.x, p.y, dt_us),
            _ => {},
        }
    }

    /// Moves the player by the held keys for one frame. The player must exist.
    pub fn update_player(&mut self, input: MoveInput, dt_us: u32)
        requires
            old(self).player is Some,
            move_fits(old(self).player->0, input, dt_us as int),
        ensures
            final(self).camera == old(self).camera,
            final(self).levels == old(self).levels,
            final(self).player is Some,
            (final(self).player->0.x as int, final(self).player->0.y as int) == moved(old(self).player->0, input, dt_us as int),
            final(self).player->0.z == old(self).player->0.z,
            final(self).player->0.movement_speed == old(self).player->0.movement_speed,
    {
        match &mut self.player {
            Some(p) => update_player(p, input, dt_us),
            None => {},
        }
    }

    /// Runs one frame in the fixed order: the level manager drains the drag-and-drop queue,
    /// then the player moves by the held keys, then the camera tracks the moved player.
    /// Returns what the runtime has to carry out for the levels.
    pub fn frame(&mut self, events: Vec<DragDropEvent>, input: MoveInput, dt_us: u32) -> (cmds: Vec<LevelCommand>)
        requires
            old(self).wf(),
            old(self).player is Some,
            old(self).levels.next_id + events@.len() <= u64::MAX,
            move_fits(old(self).player->0, input, dt_us as int),
        ensures
            final(self).wf(),
            (final(self).levels.model(), commands_model(cmds@)) == events_step(old(self).levels.model(), events@),
            final(self).levels.selection == old(self).levels.selection,
            final(self).player is Some,
            (final(self).player->0.x as int, final(self).player->0.y as int) == moved(old(self).player->0, input, dt_us as int),
            final(self).player->0.z == old(self).player->0.z,
            final(self).player->0.movement_speed == old(self).player->0.movement_speed,
            match old(self).camera {
                Some(c) => {
                    let p = final(self).player->0;
                    let f = followed(c, p.x as int, p.y as int, dt_us as int);
                    &&& final(self).camera is Some
                    &&& final(self).camera->0.x as int == f.0
                    &&& final(self).camera->0.y as int == f.1
                    &&& final(self).camera->0.z == c.z
                    &&& final(self).camera->0.zoom_percent == c.zoom_percent
                },
                None => final(self).camera is None,
            },
    {
        let cmds = self.levels.handle_events(events);
        self.update_player(input, dt_us);
        self.update_camera(dt_us);
        cmds
    }
}

} // verus!
