//! The rows of the store and their mathematical views.
//!
//! Text lives in `String`s, whose contents Verus sees as `Seq<char>`. Each row
//! type therefore has a view type with the same fields over `Seq<char>`, and
//! contracts speak of views only.

use vstd::prelude::*;

verus! {

// ---------------------------------------------------------------------------
// Folder
// ---------------------------------------------------------------------------

/// A top-level grouping of projects.
#[derive(Debug)]
pub struct Folder {
    pub id: i32,
    pub name: String,
    pub color: String,
    pub description: Option<String>,
}

/// What a `Folder` holds.
pub struct FolderView {
    pub id: i32,
    pub name: Seq<char>,
    pub color: Seq<char>,
    pub description: Option<Seq<char>>,
}

impl View for Folder {
    type V = FolderView;

    open spec fn view(&self) -> FolderView {
        FolderView {
            id: self.id,
            name: self.name@,
            color: self.color@,
            description: self.description.deep_view(),
        }
    }
}

impl DeepView for Folder {
    type V = FolderView;

    open spec fn deep_view(&self) -> FolderView {
        self@
    }
}

impl Clone for Folder {
    fn clone(&self) -> (r: Self)
        ensures
            r@ == self@,
    {
        Folder {
            id: self.id,
            name: self.name.clone(),
            color: self.color.clone(),
            description: clone_text(&self.description),
        }
    }
}

// ---------------------------------------------------------------------------
// Project
// ---------------------------------------------------------------------------

/// A project, which belongs to at most one folder.
#[derive(Debug)]
pub struct Project {
    pub id: i32,
    pub name: String,
    pub color: String,
    pub description: Option<String>,
    pub folder_id: Option<i32>,
}

/// What a `Project` holds.
pub struct ProjectView {
    pub id: i32,
    pub name: Seq<char>,
    pub color: Seq<char>,
    pub description: Option<Seq<char>>,
    pub folder_id: Option<i32>,
}

impl View for Project {
    type V = ProjectView;

    open spec fn view(&self) -> ProjectView {
        ProjectView {
            id: self.id,
            name: self.name@,
            color: self.color@,
            description: self.description.deep_view(),
            folder_id: self.folder_id,
        }
    }
}

impl DeepView for Project {
    type V = ProjectView;

    open spec fn deep_view(&self) -> ProjectView {
        self@
    }
}

impl Clone for Project {
    fn clone(&self) -> (r: Self)
        ensures
            r@ == self@,
    {
        Project {
            id: self.id,
            name: self.name.clone(),
            color: self.color.clone(),
            description: clone_text(&self.description),
            folder_id: self.folder_id,
        }
    }
}

// ---------------------------------------------------------------------------
// Task
// ---------------------------------------------------------------------------

/// A task. The store checks neither `priority` nor the form of the dates.
#[derive(Debug)]
pub struct Task {
    pub id: String,
    pub title: String,
    pub description: String,
    pub due_date: Option<String>,
    pub priority: String,
    pub completed: bool,
    pub project_id: Option<i32>,
    pub created_at: String,
    pub updated_at: String,
}

/// What a `Task` holds.
pub struct TaskView {
    pub id: Seq<char>,
    pub title: Seq<char>,
    pub description: Seq<char>,
    pub due_date: Option<Seq<char>>,
    pub priority: Seq<char>,
    pub completed: bool,
    pub project_id: Option<i32>,
    pub created_at: Seq<char>,
    pub updated_at: Seq<char>,
}

impl View for Task {
    type V = TaskView;

    open spec fn view(&self) -> TaskView {
        TaskView {
            id: self.id@,
            title: self.title@,
            description: self.description@,
            due_date: self.due_date.deep_view(),
            priority: self.priority@,
            completed: self.completed,
            project_id: self.project_id,
            created_at: self.created_at@,
            updated_at: self.updated_at@,
        }
    }
}

impl DeepView for Task {
    type V = TaskView;

    open spec fn deep_view(&self) -> TaskView {
        self@
    }
}

impl Clone for Task {
    fn clone(&self) -> (r: Self)
        ensures
            r@ == self@,
    {
        Task {
            id: self.id.clone(),
            title: self.title.clone(),
            description: self.description.clone(),
            due_date: clone_text(&self.due_date),
            priority: self.priority.clone(),
            completed: self.completed,
            project_id: self.project_id,
            created_at: self.created_at.clone(),
            updated_at: self.updated_at.clone(),
        }
    }
}

// ---------------------------------------------------------------------------
// Subtask
// ---------------------------------------------------------------------------

/// A step of a task. It belongs to exactly one task and goes when the task goes.
#[derive(Debug)]
pub struct Subtask {
    pub id: String,
    pub task_id: String,
    pub text: String,
    pub completed: bool,
}

/// What a `Subtask` holds.
pub struct SubtaskView {
    pub id: Seq<char>,
    pub task_id: Seq<char>,
    pub text: Seq<char>,
    pub completed: bool,
}

impl View for Subtask {
    type V = SubtaskView;

    open spec fn view(&self) -> SubtaskView {
        SubtaskView {
            id: self.id@,
            task_id: self.task_id@,
            text: self.text@,
            completed: self.completed,
        }
    }
}

impl DeepView for Subtask {
    type V = SubtaskView;

    open spec fn deep_view(&self) -> SubtaskView {
        self@
    }
}

impl Clone for Subtask {
    fn clone(&self) -> (r: Self)
        ensures
            r@ == self@,
    {
        Subtask {
            id: self.id.clone(),
            task_id: self.task_id.clone(),
            text: self.text.clone(),
            completed: self.completed,
        }
    }
}

// ---------------------------------------------------------------------------
// Tag
// ---------------------------------------------------------------------------

/// The membership of a tag text in a task's tag set.
#[derive(Debug)]
pub struct Tag {
    pub task_id: String,
    pub tag: String,
}

/// What a `Tag` holds.
pub struct TagView {
    pub task_id: Seq<char>,
    pub tag: Seq<char>,
}

impl View for Tag {
    type V = TagView;

    open spec fn view(&self) -> TagView {
        TagView { task_id: self.task_id@, tag: self.tag@ }
    }
}

impl DeepView for Tag {
    type V = TagView;

    open spec fn deep_view(&self) -> TagView {
        self@
    }
}

impl Clone for Tag {
    fn clone(&self) -> (r: Self)
        ensures
            r@ == self@,
    {
        Tag { task_id: self.task_id.clone(), tag: self.tag.clone() }
    }
}

// ---------------------------------------------------------------------------
// Settings
// ---------------------------------------------------------------------------

/// One entry of the key-value settings.
#[derive(Debug)]
pub struct Settings {
    pub key: String,
    pub value: String,
}

/// What a `Settings` entry holds.
pub struct SettingsView {
    pub key: Seq<char>,
    pub value: Seq<char>,
}

impl View for Settings {
    type V = SettingsView;

    open spec fn view(&self) -> SettingsView {
        SettingsView { key: self.key@, value: self.value@ }
    }
}

impl DeepView for Settings {
    type V = SettingsView;

    open spec fn deep_view(&self) -> SettingsView {
        self@
    }
}

impl Clone for Settings {
    fn clone(&self) -> (r: Self)
        ensures
            r@ == self@,
    {
        Settings { key: self.key.clone(), value: self.value.clone() }
    }
}

// ---------------------------------------------------------------------------
// TaskWithDetails
// ---------------------------------------------------------------------------

/// A task together with all its subtasks and all its tags.
#[derive(Debug)]
pub struct TaskWithDetails {
    pub task: Task,
    pub subtasks: Vec<Subtask>,
    pub tags: Vec<String>,
}

/// What a `TaskWithDetails` holds.
pub struct TaskWithDetailsView {
    pub task: TaskView,
    pub subtasks: Seq<SubtaskView>,
    pub tags: Seq<Seq<char>>,
}

impl View for TaskWithDetails {
    type V = TaskWithDetailsView;

    open spec fn view(&self) -> TaskWithDetailsView {
        TaskWithDetailsView {
            task: self.task@,
            subtasks: self.subtasks.deep_view(),
            tags: self.tags.deep_view(),
        }
    }
}

impl DeepView for TaskWithDetails {
    type V = TaskWithDetailsView;

    open spec fn deep_view(&self) -> TaskWithDetailsView {
        self@
    }
}

// ---------------------------------------------------------------------------
// Helpers
// ---------------------------------------------------------------------------

/// Copies an optional text.
pub fn clone_text(text: &Option<String>) -> (r: Option<String>)
    ensures
        r.deep_view() == text.deep_view(),
{
    match text {
        Some(s) => Some(s.clone()),
        None => None,
    }
}

} // verus!
