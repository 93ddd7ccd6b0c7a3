use vstd::prelude::*;

verus! {

/// The world file loaded at startup.
pub const DEFAULT_WORLD: &'static str = "pipes2.ldtk";

/// The only file extension accepted as a level.
pub const LEVEL_EXTENSION: &'static str = "ldtk";

/// What `std::path::Path::extension` yields for a path, as text.
pub uninterp spec fn path_extension(path: Seq<char>) -> Option<Seq<char>>;

/// Relies on `std::path::Path::extension`: the extension of the path's final component.
/// The extension of a `&str` path is a slice of it, so it is always valid text.
#[verifier::external_body]
fn file_extension(path: &String) -> (r: Option<String>)
    ensures
        opt_text(r) == path_extension(path@),
{
    std::path::Path::new(path.as_str()).extension().and_then(|e| e.to_str()).map(|e| e.to_string())
}

/// The text of an optional string.
pub open spec fn opt_text(s: Option<String>) -> Option<Seq<char>> {
    match s {
        Some(t) => Some(t@),
        None => None,
    }
}

/// Whether a path's extension marks a level file: exactly `ldtk`, case-sensitive.
pub open spec fn is_level_extension(ext: Option<Seq<char>>) -> bool {
    ext == Some(LEVEL_EXTENSION@)
}

/// The current level: an identity in the level registry and the locator its asset is loaded from.
#[derive(Clone, Debug)]
pub struct Level {
    pub id: u64,
    pub locator: String,
}

impl Level {
    pub open spec fn model(self) -> (u64, Seq<char>) {
        (self.id, self.locator@)
    }
}

/// A file drag-and-drop notification from the window with the given identity.
#[derive(Clone, Debug)]
pub enum DragDropEvent {
    DroppedFile { window: u64, path: String },
    HoveredFile { window: u64, path: String },
    HoveredFileCanceled { window: u64 },
}

/// What the runtime has to carry out after the level manager handled an event.
#[derive(Clone, Debug)]
pub enum LevelCommand {
    /// Remove the level entity with this identity, and everything spawned under it.
    Despawn { id: u64 },
    /// Spawn a level entity with this identity, loading its asset from `locator`.
    Spawn { id: u64, locator: String },
    /// A file is hovering over the window: diagnostic only.
    Hovering { window: u64 },
    /// The hovering file left the window: diagnostic only.
    HoverCanceled { window: u64 },
}

/// The model of a command.
pub enum CommandModel {
    Despawn(u64),
    Spawn(u64, Seq<char>),
    Hovering(u64),
    HoverCanceled(u64),
}

impl LevelCommand {
    pub open spec fn model(self) -> CommandModel {
        match self {
            LevelCommand::Despawn { id } => CommandModel::Despawn(id),
            LevelCommand::Spawn { id, locator } => CommandModel::Spawn(id, locator@),
            LevelCommand::Hovering { window } => CommandModel::Hovering(window),
            LevelCommand::HoverCanceled { window } => CommandModel::HoverCanceled(window),
        }
    }
}

/// The models of a sequence of commands.
pub open spec fn commands_model(cs: Seq<LevelCommand>) -> Seq<CommandModel> {
    cs.map_values(|c: LevelCommand| c.model())
}

/// The models of a sequence of levels.
pub open spec fn levels_model(ls: Seq<Level>) -> Seq<(u64, Seq<char>)> {
    ls.map_values(|l: Level| l.model())
}

/// The despawn commands for every level in `ls`, in order.
pub open spec fn despawn_all(ls: Seq<(u64, Seq<char>)>) -> Seq<CommandModel> {
    ls.map_values(|l: (u64, Seq<char>)| CommandModel::Despawn(l.0))
}

/// The state of the level registry: the live levels and the next identity to hand out.
pub struct RegistryModel {
    pub levels: Seq<(u64, Seq<char>)>,
    pub next_id: int,
}

/// A drop of a file at `path` whose extension is `ext`: every live level goes, and a new one
/// comes from `path` only when the extension marks a level file.
pub open spec fn drop_step(s: RegistryModel, path: Seq<char>, ext: Option<Seq<char>>) -> (RegistryModel, Seq<CommandModel>) {
    if is_level_extension(ext) {
        (
            RegistryModel { levels: seq![(s.next_id as u64, path)], next_id: s.next_id + 1 },
            despawn_all(s.levels).push(CommandModel::Spawn(s.next_id as u64, path)),
        )
    } else {
        (RegistryModel { levels: Seq::empty(), next_id: s.next_id }, despawn_all(s.levels))
    }
}

/// One drag-and-drop event: drops swap the level, hovering only reports.
pub open spec fn event_step(s: RegistryModel, e: DragDropEvent) -> (RegistryModel, Seq<CommandModel>) {
    match e {
        DragDropEvent::DroppedFile { window, path } => drop_step(s, path@, path_extension(path@)),
        DragDropEvent::HoveredFile { window, path } => (s, seq![CommandModel::Hovering(window)]),
        DragDropEvent::HoveredFileCanceled { window } => (s, seq![CommandModel::HoverCanceled(window)]),
    }
}

/// A whole queue of events, handled in arrival order; the commands are concatenated.
pub open spec fn events_step(s: RegistryModel, es: Seq<DragDropEvent>) -> (RegistryModel, Seq<CommandModel>)
    decreases es.len(),
{
    if es.len() == 0 {
        (s, Seq::empty())
    } else {
        let before = events_step(s, es.drop_last());
        let last = event_step(before.0, es.last());
        (last.0, before.1 + last.1)
    }
}

/// A drop whose extension marks a level file, onto a registry holding one level, replaces that
/// level: afterwards exactly one level lives, it is loaded from the dropped path, and the old
/// one (with everything spawned under it) is despawned.
pub proof fn lemma_valid_swap(m: LevelManager, path: Seq<char>, ext: Option<Seq<char>>)
    requires
        m.wf(),
        m.levels@.len() == 1,
        m.next_id < u64::MAX,
        is_level_extension(ext),
    ensures
        ({
            let (s, cmds) = drop_step(m.model(), path, ext);
            &&& s.levels.len() == 1
            &&& s.levels[0].1 == path
            &&& s.levels[0].0 != m.levels@[0].id
            &&& cmds == seq![CommandModel::Despawn(m.levels@[0].id), CommandModel::Spawn(s.levels[0].0, path)]
        }),
{
    let (s, cmds) = drop_step(m.model(), path, ext);
    assert(despawn_all(m.model().levels) =~= seq![CommandModel::Despawn(m.levels@[0].id)]);
    assert(cmds =~= seq![CommandModel::Despawn(m.levels@[0].id), CommandModel::Spawn(s.levels[0].0, path)]);
}

/// A drop whose extension does not mark a level file, onto a registry holding one level,
/// still despawns that level and spawns none: no level is left.
pub proof fn lemma_invalid_swap(m: LevelManager, path: Seq<char>, ext: Option<Seq<char>>)
    requires
        m.wf(),
        m.levels@.len() == 1,
        !is_level_extension(ext),
    ensures
        ({
            let (s, cmds) = drop_step(m.model(), path, ext);
            &&& s.levels.len() == 0
            &&& s.next_id == m.next_id
            &&& cmds == seq![CommandModel::Despawn(m.levels@[0].id)]
        }),
{
    let (s, cmds) = drop_step(m.model(), path, ext);
    assert(cmds =~= seq![CommandModel::Despawn(m.levels@[0].id)]);
}

/// Owns the lifecycle of the current level.
#[derive(Clone, Debug)]
pub struct LevelManager {
    pub levels: Vec<Level>,
    pub next_id: u64,
    /// Which level of the world file is shown.
    pub selection: usize,
}

impl LevelManager {
    pub open spec fn model(self) -> RegistryModel {
        RegistryModel { levels: levels_model(self.levels@), next_id: self.next_id as int }
    }

    /// At most one level lives, and its identity was handed out before `next_id`.
    pub open spec fn wf(self) -> bool {
        &&& self.levels@.len() <= 1
        &&& forall|i: int| 0 <= i < self.levels@.len() ==> self.levels@[i].id < self.next_id
    }

    /// A registry with no level, showing level `selection` of whatever world comes.
    pub fn new(selection: usize) -> (r: Self)
        ensures
            r.wf(),
            r.levels@.len() == 0,
            r.next_id == 0,
            r.selection == selection,
    {
        LevelManager { levels: Vec::new(), next_id: 0, selection }
    }

    /// Spawns the level of the built-in world at startup.
    pub fn load_initial(&mut self) -> (cmds: Vec<LevelCommand>)
        requires
            old(self).wf(),
            old(self).levels@.len() == 0,
            old(self).next_id < u64::MAX,
        ensures
            final(self).wf(),
            final(self).levels@.len() == 1,
            final(self).model().levels == seq![(old(self).next_id, DEFAULT_WORLD@)],
            final(self).next_id == old(self).next_id + 1,
            final(self).selection == old(self).selection,
            commands_model(cmds@) == seq![CommandModel::Spawn(old(self).next_id, DEFAULT_WORLD@)],
    {
        let id = self.next_id;
        let locator = String::from_str(DEFAULT_WORLD);
        self.levels.push(Level { id, locator: locator.clone() });
        self.next_id = id + 1;
        let mut cmds: Vec<LevelCommand> = Vec::new();
        cmds.push(LevelCommand::Spawn { id, locator });
        proof {
            assert(levels_model(self.levels@) =~= seq![(id, DEFAULT_WORLD@)]);
            assert(commands_model(cmds@) =~= seq![CommandModel::Spawn(id, DEFAULT_WORLD@)]);
        }
        cmds
    }

    /// Handles the drop of a file at `path` whose extension is `extension`.
    /// Every live level is despawned first, whatever the file; a new level is spawned from
    /// `path` only when the extension is exactly `ldtk`.
    pub fn apply_drop(&mut self, path: String, extension: Option<String>) -> (cmds: Vec<LevelCommand>)
        requires
            old(self).wf(),
            old(self).next_id < u64::MAX,
        ensures
            final(self).wf(),
            (final(self).model(), commands_model(cmds@)) == drop_step(old(self).model(), path@, opt_text(extension)),
            final(self).selection == old(self).selection,
    {
        let mut cmds: Vec<LevelCommand> = Vec::new();
        let n = self.levels.len();
        let mut i: usize = 0;
        while i < n
            invariant
                n == self.levels@.len(),
                i <= n,
                cmds@.len() == i,
                commands_model(cmds@) == despawn_all(levels_model(self.levels@)).take(i as int),
            decreases n - i,
        {
            let id = self.levels[i].id;
            let ghost before = cmds@;
            cmds.push(LevelCommand::Despawn { id });
            proof {
                assert(cmds@ == before.push(LevelCommand::Despawn { id }));
                assert(levels_model(self.levels@)[i as int].0 == id);
                assert(commands_model(cmds@).len() == i + 1);
                assert(commands_model(cmds@)[i as int] == CommandModel::Despawn(id));
                assert(commands_model(cmds@) =~= despawn_all(levels_model(self.levels@)).take(i + 1));
            }
            i = i + 1;
        }
        proof {
            assert(despawn_all(levels_model(self.levels@)).take(n as int) =~= despawn_all(levels_model(self.levels@)));
        }
        let ghost old_model = self.model();
        self.levels = Vec::new();
        let level_ext = String::from_str(LEVEL_EXTENSION);
        let accepted = match &extension {
            Some(e) => *e == level_ext,
            None => false,
        };
        proof {
            assert(accepted == is_level_extension(opt_text(extension)));
        }
        if accepted {
            let id = self.next_id;
            self.levels.push(Level { id, locator: path.clone() });
            self.next_id = id + 1;
            cmds.push(LevelCommand::Spawn { id, locator: path });
            proof {
                assert(levels_model(self.levels@) =~= seq![(id, path@)]);
                assert(commands_model(cmds@) =~= despawn_all(old_model.levels).push(CommandModel::Spawn(id, path@)));
            }
        } else {
            proof {
                assert(levels_model(self.levels@) =~= Seq::<(u64, Seq<char>)>::empty());
            }
        }
        cmds
    }

    /// Handles the drop of a file at `path`, judging it by the extension of its final component.
    pub fn handle_drop(&mut self, path: String) -> (cmds: Vec<LevelCommand>)
        requires
            old(self).wf(),
            old(self).next_id < u64::MAX,
        ensures
            final(self).wf(),
            (final(self).model(), commands_model(cmds@)) == drop_step(old(self).model(), path@, path_extension(path@)),
            final(self).selection == old(self).selection,
    {
        let extension = file_extension(&path);
        self.apply_drop(path, extension)
    }

    /// Handles one drag-and-drop event: a drop swaps the level, hovering only reports.
    pub fn handle_event(&mut self, event: &DragDropEvent) -> (cmds: Vec<LevelCommand>)
        requires
            old(self).wf(),
            old(self).next_id < u64::MAX,
        ensures
            final(self).wf(),
            (final(self).model(), commands_model(cmds@)) == event_step(old(self).model(), *event),
            final(self).selection == old(self).selection,
    {
        match event {
            DragDropEvent::DroppedFile { window, path } => self.handle_drop(path.clone()),
            DragDropEvent::HoveredFile { window, path } => {
                let mut cmds: Vec<LevelCommand> = Vec::new();
                cmds.push(LevelCommand::Hovering { window: *window });
                proof {
                    assert(commands_model(cmds@) =~= seq![CommandModel::Hovering(*window)]);
                }
                cmds
            },
            DragDropEvent::HoveredFileCanceled { window } => {
                let mut cmds: Vec<LevelCommand> = Vec::new();
                cmds.push(LevelCommand::HoverCanceled { window: *window });
                proof {
                    assert(commands_model(cmds@) =~= seq![CommandModel::HoverCanceled(*window)]);
                }
                cmds
            },
        }
    }

    /// Drains a frame's queue of drag-and-drop events, in arrival order.
    pub fn handle_events(&mut self, events: Vec<DragDropEvent>) -> (cmds: Vec<LevelCommand>)
        requires
            old(self).wf(),
            old(self).next_id + events@.len() <= u64::MAX,
        ensures
            final(self).wf(),
            (final(self).model(), commands_model(cmds@)) == events_step(old(self).model(), events@),
            final(self).selection == old(self).selection,
    {
        let mut cmds: Vec<LevelCommand> = Vec::new();
        let n = events.len();
        let mut i: usize = 0;
        let ghost start = self.model();
        let ghost start_id = self.next_id;
        while i < n
            invariant
                n == events@.len(),
                i <= n,
                self.wf(),
                self.next_id <= start_id + i,
                start_id + n <= u64::MAX,
                self.selection == old(self).selection,
                (self.model(), commands_model(cmds@)) == events_step(start, events@.take(i as int)),
            decreases n - i,
        {
            let mut more = self.handle_event(&events[i]);
            let ghost prev = cmds@;
            let ghost added = more@;
            cmds.append(&mut more);
            proof {
                assert(events@.take(i + 1).drop_last() =~= events@.take(i as int));
                assert(commands_model(cmds@) =~= commands_model(prev) + commands_model(added));
            }
            i = i + 1;
        }
        proof {
            assert(events@.take(n as int) =~= events@);
        }
        cmds
    }
}

} // verus!
