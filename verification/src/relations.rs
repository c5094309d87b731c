//! The relational model of the store.
//!
//! `DatabaseView` is what a store holds: six tables, each a sequence of rows
//! in storage order. The operations of the store are stated here as functions
//! from one `DatabaseView` to the next. `wf` is the consistency that every
//! operation keeps: keys are unique, no subtask or tag is without its task,
//! and no folder or project has an id above the last one given out.

use crate::entities::{
    FolderView,
    ProjectView,
    SettingsView,
    SubtaskView,
    TagView,
    TaskView,
    TaskWithDetailsView,
};
use crate::sorting::sorted_positions;
use vstd::prelude::*;

verus! {

/// Why the store refused to write.
#[derive(Debug, Clone, Copy, PartialEq, Eq, Structural)]
pub enum StoreError {
    /// A project names a folder that is not stored.
    MissingFolder,
    /// A task names a project that is not stored.
    MissingProject,
    /// A subtask or a tag names a task that is not stored.
    MissingTask,
    /// No id is left to assign to a new folder or project.
    IdsExhausted,
}

impl StoreError {
    /// What `message` says.
    pub open spec fn message_text(self) -> Seq<char> {
        match self {
            StoreError::MissingFolder => "the folder does not exist"@,
            StoreError::MissingProject => "the project does not exist"@,
            StoreError::MissingTask => "the task does not exist"@,
            StoreError::IdsExhausted => "no id is left to assign"@,
        }
    }

    /// The error in words.
    pub fn message(&self) -> (r: String)
        ensures
            r@ == self.message_text(),
    {
        match self {
            StoreError::MissingFolder => "the folder does not exist".to_owned(),
            StoreError::MissingProject => "the project does not exist".to_owned(),
            StoreError::MissingTask => "the task does not exist".to_owned(),
            StoreError::IdsExhausted => "no id is left to assign".to_owned(),
        }
    }
}

/// What a store holds: its tables, each in storage order, and for folders
/// and projects the largest id that a row was ever written under. Deleting a
/// row does not lower it, so no id is given out twice.
pub struct DatabaseView {
    pub folders: Seq<FolderView>,
    pub projects: Seq<ProjectView>,
    pub tasks: Seq<TaskView>,
    pub subtasks: Seq<SubtaskView>,
    pub tags: Seq<TagView>,
    pub settings: Seq<SettingsView>,
    pub last_folder_id: i32,
    pub last_project_id: i32,
}

// ---------------------------------------------------------------------------
// Keyed tables
// ---------------------------------------------------------------------------

/// `rows` with `row` written under `key`: over the row that has the key, or
/// behind all rows if none has it. `keys` holds the key of each row.
pub open spec fn put<R, K>(rows: Seq<R>, keys: Seq<K>, row: R, key: K) -> Seq<R> {
    if keys.contains(key) {
        rows.update(keys.index_of(key), row)
    } else {
        rows.push(row)
    }
}

/// `rows` without the row that has `key`, if there is one.
pub open spec fn dropped<R, K>(rows: Seq<R>, keys: Seq<K>, key: K) -> Seq<R> {
    if keys.contains(key) {
        rows.remove(keys.index_of(key))
    } else {
        rows
    }
}

/// The larger of two ids.
pub open spec fn later_id(a: i32, b: i32) -> i32 {
    if a >= b {
        a
    } else {
        b
    }
}

/// The number of rows that an operation on one key touches: one where the
/// key is stored, none where it is not.
pub open spec fn rows_affected(stored: bool) -> usize {
    if stored {
        1
    } else {
        0
    }
}

/// `texts` with only the first occurrence of each text kept.
pub open spec fn distinct(texts: Seq<Seq<char>>) -> Seq<Seq<char>>
    decreases texts.len(),
{
    if texts.len() == 0 {
        texts
    } else {
        let front = distinct(texts.drop_last());
        if front.contains(texts.last()) {
            front
        } else {
            front.push(texts.last())
        }
    }
}

/// The subtask belongs to the task.
pub open spec fn subtask_of(task_id: Seq<char>) -> spec_fn(SubtaskView) -> bool {
    |s: SubtaskView| s.task_id == task_id
}

/// The subtask belongs to another task.
pub open spec fn subtask_not_of(task_id: Seq<char>) -> spec_fn(SubtaskView) -> bool {
    |s: SubtaskView| s.task_id != task_id
}

/// The tag belongs to the task.
pub open spec fn tag_of(task_id: Seq<char>) -> spec_fn(TagView) -> bool {
    |g: TagView| g.task_id == task_id
}

/// The tag belongs to another task.
pub open spec fn tag_not_of(task_id: Seq<char>) -> spec_fn(TagView) -> bool {
    |g: TagView| g.task_id != task_id
}

/// The tag of a task with this text.
pub open spec fn tag_for(task_id: Seq<char>) -> spec_fn(Seq<char>) -> TagView {
    |t: Seq<char>| TagView { task_id: task_id, tag: t }
}

/// The text of a tag.
pub open spec fn tag_text() -> spec_fn(TagView) -> Seq<char> {
    |g: TagView| g.tag
}

/// `texts` in ascending order, equal texts in the order given.
pub open spec fn ascending(texts: Seq<Seq<char>>) -> Seq<Seq<char>> {
    sorted_positions(texts, false).map_values(|i: int| texts[i])
}

// ---------------------------------------------------------------------------
// Starter data
// ---------------------------------------------------------------------------

/// The key of the theme setting.
pub open spec fn theme_key() -> Seq<char> {
    "theme"@
}

/// The key of the search-bar mode setting.
pub open spec fn searchbar_mode_key() -> Seq<char> {
    "searchbar_mode"@
}

/// The key of the mobile-mode setting.
pub open spec fn mobile_mode_key() -> Seq<char> {
    "mobile_mode"@
}

/// The folders that an empty store starts with.
pub open spec fn starter_folders() -> Seq<FolderView> {
    seq![
        FolderView {
            id: 1,
            name: "Work & Career"@,
            color: "bg-blue-600"@,
            description: Some("Professional projects and development"@),
        },
        FolderView {
            id: 2,
            name: "Life & Wellness"@,
            color: "bg-green-600"@,
            description: Some("Personal growth and health"@),
        },
    ]
}

/// The projects that an empty store starts with.
pub open spec fn starter_projects() -> Seq<ProjectView> {
    seq![
        ProjectView {
            id: 1,
            name: "Work"@,
            color: "bg-blue-500"@,
            description: Some("Work-related tasks"@),
            folder_id: Some(1i32),
        },
        ProjectView {
            id: 2,
            name: "Personal"@,
            color: "bg-green-500"@,
            description: Some("Personal tasks and errands"@),
            folder_id: Some(2i32),
        },
        ProjectView {
            id: 3,
            name: "Health"@,
            color: "bg-purple-500"@,
            description: Some("Health and fitness goals"@),
            folder_id: Some(2i32),
        },
    ]
}

impl DatabaseView {
    /// The store that holds nothing.
    pub open spec fn empty() -> DatabaseView {
        DatabaseView {
            folders: Seq::empty(),
            projects: Seq::empty(),
            tasks: Seq::empty(),
            subtasks: Seq::empty(),
            tags: Seq::empty(),
            settings: Seq::empty(),
            last_folder_id: 0,
            last_project_id: 0,
        }
    }

    // -----------------------------------------------------------------------
    // Keys
    // -----------------------------------------------------------------------
    /// The id of each folder, in storage order.
    pub open spec fn folder_ids(self) -> Seq<i32> {
        self.folders.map_values(|f: FolderView| f.id)
    }

    /// The id of each project, in storage order.
    pub open spec fn project_ids(self) -> Seq<i32> {
        self.projects.map_values(|p: ProjectView| p.id)
    }

    /// The id of each task, in storage order.
    pub open spec fn task_ids(self) -> Seq<Seq<char>> {
        self.tasks.map_values(|t: TaskView| t.id)
    }

    /// The id of each subtask, in storage order.
    pub open spec fn subtask_ids(self) -> Seq<Seq<char>> {
        self.subtasks.map_values(|s: SubtaskView| s.id)
    }

    /// The key of each setting, in storage order.
    pub open spec fn setting_keys(self) -> Seq<Seq<char>> {
        self.settings.map_values(|s: SettingsView| s.key)
    }

    /// A folder with this id is stored.
    pub open spec fn has_folder(self, id: i32) -> bool {
        self.folder_ids().contains(id)
    }

    /// A project with this id is stored.
    pub open spec fn has_project(self, id: i32) -> bool {
        self.project_ids().contains(id)
    }

    /// A task with this id is stored.
    pub open spec fn has_task(self, id: Seq<char>) -> bool {
        self.task_ids().contains(id)
    }

    /// A subtask with this id is stored.
    pub open spec fn has_subtask(self, id: Seq<char>) -> bool {
        self.subtask_ids().contains(id)
    }

    /// The stored task with this id, where `has_task` holds.
    pub open spec fn task(self, id: Seq<char>) -> TaskView {
        self.tasks[self.task_ids().index_of(id)]
    }

    /// The stored subtask with this id, where `has_subtask` holds.
    pub open spec fn subtask(self, id: Seq<char>) -> SubtaskView {
        self.subtasks[self.subtask_ids().index_of(id)]
    }

    // -----------------------------------------------------------------------
    // Consistency
    // -----------------------------------------------------------------------
    /// Keys are unique in every table, a tag text stands once in a task's tag
    /// set, every subtask and tag belongs to a stored task, and no folder or
    /// project has an id above the last one given out.
    pub open spec fn wf(self) -> bool {
        &&& 0 <= self.last_folder_id
        &&& 0 <= self.last_project_id
        &&& forall|i: int|
            0 <= i < self.folders.len() ==> (#[trigger] self.folders[i]).id <= self.last_folder_id
        &&& forall|i: int|
            0 <= i < self.projects.len() ==> (#[trigger] self.projects[i]).id
                <= self.last_project_id
        &&& self.folder_ids().no_duplicates()
        &&& self.project_ids().no_duplicates()
        &&& self.task_ids().no_duplicates()
        &&& self.subtask_ids().no_duplicates()
        &&& self.tags.no_duplicates()
        &&& self.setting_keys().no_duplicates()
        &&& forall|i: int|
            0 <= i < self.subtasks.len() ==> self.has_task(#[trigger] self.subtasks[i].task_id)
        &&& forall|i: int|
            0 <= i < self.tags.len() ==> self.has_task(#[trigger] self.tags[i].task_id)
    }

    // -----------------------------------------------------------------------
    // Tasks
    // -----------------------------------------------------------------------
    /// The task names no project, or one that is stored.
    pub open spec fn accepts_task(self, task: TaskView) -> bool {
        match task.project_id {
            Some(p) => self.has_project(p),
            None => true,
        }
    }

    /// The store after `task` is written under its id. Subtasks and tags of a
    /// task that was there before stay.
    pub open spec fn with_task(self, task: TaskView) -> DatabaseView {
        DatabaseView { tasks: put(self.tasks, self.task_ids(), task, task.id), ..self }
    }

    /// The store without the task `id`, its subtasks and its tags.
    pub open spec fn without_task(self, id: Seq<char>) -> DatabaseView {
        DatabaseView {
            tasks: dropped(self.tasks, self.task_ids(), id),
            subtasks: self.subtasks.filter(subtask_not_of(id)),
            tags: self.tags.filter(tag_not_of(id)),
            ..self
        }
    }

    /// The store after the task `id`, if stored, got the completion flag
    /// `completed` and the modification time `now`.
    pub open spec fn with_completion(
        self,
        id: Seq<char>,
        completed: bool,
        now: Seq<char>,
    ) -> DatabaseView {
        if self.has_task(id) {
            self.with_task(TaskView { completed: completed, updated_at: now, ..self.task(id) })
        } else {
            self
        }
    }

    /// The store without the subtasks of the task `task_id`.
    pub open spec fn without_subtasks_of(self, task_id: Seq<char>) -> DatabaseView {
        DatabaseView { subtasks: self.subtasks.filter(subtask_not_of(task_id)), ..self }
    }

    /// The subtasks of a task, in storage order.
    pub open spec fn subtasks_of(self, task_id: Seq<char>) -> Seq<SubtaskView> {
        self.subtasks.filter(subtask_of(task_id))
    }

    /// The tag texts of a task, in storage order.
    pub open spec fn tags_of(self, task_id: Seq<char>) -> Seq<Seq<char>> {
        self.tags.filter(tag_of(task_id)).map_values(tag_text())
    }

    /// A task with all that belongs to it.
    pub open spec fn details(self, task: TaskView) -> TaskWithDetailsView {
        TaskWithDetailsView {
            task: task,
            subtasks: self.subtasks_of(task.id),
            tags: self.tags_of(task.id),
        }
    }

    /// The creation time of each task, in storage order.
    pub open spec fn creation_times(self) -> Seq<Seq<char>> {
        self.tasks.map_values(|t: TaskView| t.created_at)
    }

    /// Every task with its details, the most recently created first; tasks
    /// created at the same time in storage order.
    pub open spec fn all_tasks(self) -> Seq<TaskWithDetailsView> {
        sorted_positions(self.creation_times(), true).map_values(
            |i: int| self.details(self.tasks[i]),
        )
    }

    // -----------------------------------------------------------------------
    // Subtasks
    // -----------------------------------------------------------------------
    /// The store after `subtask` is written under its id.
    pub open spec fn with_subtask(self, subtask: SubtaskView) -> DatabaseView {
        DatabaseView {
            subtasks: put(self.subtasks, self.subtask_ids(), subtask, subtask.id),
            ..self
        }
    }

    /// The store without the subtask `id`.
    pub open spec fn without_subtask(self, id: Seq<char>) -> DatabaseView {
        DatabaseView { subtasks: dropped(self.subtasks, self.subtask_ids(), id), ..self }
    }

    // -----------------------------------------------------------------------
    // Tags
    // -----------------------------------------------------------------------
    /// The store takes `tags` for the task: there is nothing to write, or the
    /// task is stored.
    pub open spec fn accepts_tags(self, task_id: Seq<char>, tags: Seq<Seq<char>>) -> bool {
        tags.len() == 0 || self.has_task(task_id)
    }

    /// The store after the tag set of the task is replaced by `tags`, each
    /// text once.
    pub open spec fn with_tags(self, task_id: Seq<char>, tags: Seq<Seq<char>>) -> DatabaseView {
        DatabaseView {
            tags: self.tags.filter(tag_not_of(task_id)) + distinct(tags).map_values(
                tag_for(task_id),
            ),
            ..self
        }
    }

    /// Every tag text in use, each once, in ascending order.
    pub open spec fn distinct_tags(self) -> Seq<Seq<char>> {
        ascending(distinct(self.tags.map_values(tag_text())))
    }

    // -----------------------------------------------------------------------
    // Projects
    // -----------------------------------------------------------------------
    /// Why the store refuses `project`, if it does.
    pub open spec fn refuses_project(self, project: ProjectView) -> Option<StoreError> {
        if project.folder_id is Some && !self.has_folder(project.folder_id->0) {
            Some(StoreError::MissingFolder)
        } else if project.id == 0 && self.last_project_id == i32::MAX {
            Some(StoreError::IdsExhausted)
        } else {
            None
        }
    }

    /// The store after `project` is written: as a new row under the id after
    /// the last one given out where its id is 0, else under its id.
    pub open spec fn with_project(self, project: ProjectView) -> DatabaseView {
        if project.id == 0 {
            DatabaseView {
                projects: self.projects.push(
                    ProjectView { id: (self.last_project_id + 1) as i32, ..project },
                ),
                last_project_id: (self.last_project_id + 1) as i32,
                ..self
            }
        } else {
            DatabaseView {
                projects: put(self.projects, self.project_ids(), project, project.id),
                last_project_id: later_id(self.last_project_id, project.id),
                ..self
            }
        }
    }

    /// The store without the project `id`. Tasks that name it keep naming it.
    pub open spec fn without_project(self, id: i32) -> DatabaseView {
        DatabaseView { projects: dropped(self.projects, self.project_ids(), id), ..self }
    }

    /// The projects by name, ascending; equal names in storage order.
    pub open spec fn projects_by_name(self) -> Seq<ProjectView> {
        sorted_positions(self.projects.map_values(|p: ProjectView| p.name), false).map_values(
            |i: int| self.projects[i],
        )
    }

    // -----------------------------------------------------------------------
    // Folders
    // -----------------------------------------------------------------------
    /// Why the store refuses `folder`, if it does.
    pub open spec fn refuses_folder(self, folder: FolderView) -> Option<StoreError> {
        if folder.id == 0 && self.last_folder_id == i32::MAX {
            Some(StoreError::IdsExhausted)
        } else {
            None
        }
    }

    /// The store after `folder` is written: as a new row under the id after
    /// the last one given out where its id is 0, else under its id.
    pub open spec fn with_folder(self, folder: FolderView) -> DatabaseView {
        if folder.id == 0 {
            DatabaseView {
                folders: self.folders.push(
                    FolderView { id: (self.last_folder_id + 1) as i32, ..folder },
                ),
                last_folder_id: (self.last_folder_id + 1) as i32,
                ..self
            }
        } else {
            DatabaseView {
                folders: put(self.folders, self.folder_ids(), folder, folder.id),
                last_folder_id: later_id(self.last_folder_id, folder.id),
                ..self
            }
        }
    }

    /// The store without the folder `id`. Projects that name it keep naming it.
    pub open spec fn without_folder(self, id: i32) -> DatabaseView {
        DatabaseView { folders: dropped(self.folders, self.folder_ids(), id), ..self }
    }

    /// The folders by name, ascending; equal names in storage order.
    pub open spec fn folders_by_name(self) -> Seq<FolderView> {
        sorted_positions(self.folders.map_values(|f: FolderView| f.name), false).map_values(
            |i: int| self.folders[i],
        )
    }

    // -----------------------------------------------------------------------
    // Settings
    // -----------------------------------------------------------------------
    /// The store after `value` is written under `key`.
    pub open spec fn with_setting(self, key: Seq<char>, value: Seq<char>) -> DatabaseView {
        DatabaseView {
            settings: put(
                self.settings,
                self.setting_keys(),
                SettingsView { key: key, value: value },
                key,
            ),
            ..self
        }
    }

    /// The value stored under `key`, if any.
    pub open spec fn setting(self, key: Seq<char>) -> Option<Seq<char>> {
        if self.setting_keys().contains(key) {
            Some(self.settings[self.setting_keys().index_of(key)].value)
        } else {
            None
        }
    }

    /// The store after `value` is written under `key` unless the key has a
    /// value already.
    pub open spec fn with_default_setting(self, key: Seq<char>, value: Seq<char>) -> DatabaseView {
        if self.setting_keys().contains(key) {
            self
        } else {
            self.with_setting(key, value)
        }
    }

    // -----------------------------------------------------------------------
    // Initialization
    // -----------------------------------------------------------------------
    /// The store after `project` is added as a new row, unless its id is in
    /// use.
    pub open spec fn with_new_project(self, project: ProjectView) -> DatabaseView {
        if self.has_project(project.id) {
            self
        } else {
            DatabaseView {
                projects: self.projects.push(project),
                last_project_id: later_id(self.last_project_id, project.id),
                ..self
            }
        }
    }

    /// The store after each of `projects` whose id is free is added as a new
    /// row, in order.
    pub open spec fn with_free_projects(self, projects: Seq<ProjectView>) -> DatabaseView
        decreases projects.len(),
    {
        if projects.len() == 0 {
            self
        } else {
            self.with_free_projects(projects.drop_last()).with_new_project(projects.last())
        }
    }

    /// The store after seeding: a store without folders gets the starter
    /// folders, and each starter project whose id is free; any other store is
    /// left as it is.
    pub open spec fn seeded(self) -> DatabaseView {
        if self.folders.len() > 0 {
            self
        } else {
            DatabaseView {
                folders: starter_folders(),
                last_folder_id: later_id(self.last_folder_id, 2),
                ..self
            }.with_free_projects(starter_projects())
        }
    }

    /// The store after initialization: the default settings where none is
    /// stored under their keys, then seeding.
    pub open spec fn initialized(self) -> DatabaseView {
        self.with_default_setting(theme_key(), "light"@).with_default_setting(
            searchbar_mode_key(),
            "search"@,
        ).seeded()
    }
}

} // verus!
