//! The operations that a caller asks for, each on a store handed in.
//!
//! An operation that needs the time or new identifiers reads them first and
//! hands them to a function that takes them as arguments and whose contract is
//! exact; its own contract then holds for whatever was read.

use crate::clock::read_clock;
use crate::database::Database;
use crate::entities::{
    clone_text,
    Folder,
    Project,
    Subtask,
    Task,
    TaskView,
    TaskWithDetails,
};
use crate::identifiers::new_identifier;
use crate::laws::law_created_task_is_listed;
use crate::relations::{
    mobile_mode_key,
    rows_affected,
    searchbar_mode_key,
    theme_key,
    DatabaseView,
    StoreError,
};
use crate::sorting::{lemma_sorted_positions, positions, sort_positions, sorted_positions};
use vstd::prelude::*;
use vstd::string::StringExecFns;

verus! {

// ---------------------------------------------------------------------------
// Requests
// ---------------------------------------------------------------------------

/// What is needed to create a task.
#[derive(Debug)]
pub struct CreateTaskRequest {
    pub title: String,
    pub description: String,
    pub due_date: Option<String>,
    pub priority: String,
    pub project_id: Option<i32>,
    pub subtasks: Vec<String>,
    pub tags: Vec<String>,
}

/// What a `CreateTaskRequest` holds.
pub struct CreateTaskRequestView {
    pub title: Seq<char>,
    pub description: Seq<char>,
    pub due_date: Option<Seq<char>>,
    pub priority: Seq<char>,
    pub project_id: Option<i32>,
    pub subtasks: Seq<Seq<char>>,
    pub tags: Seq<Seq<char>>,
}

impl View for CreateTaskRequest {
    type V = CreateTaskRequestView;

    open spec fn view(&self) -> CreateTaskRequestView {
        CreateTaskRequestView {
            title: self.title@,
            description: self.description@,
            due_date: self.due_date.deep_view(),
            priority: self.priority@,
            project_id: self.project_id,
            subtasks: self.subtasks.deep_view(),
            tags: self.tags.deep_view(),
        }
    }
}

/// What to change in a task. An absent field leaves the task's field as it is.
#[derive(Debug)]
pub struct UpdateTaskRequest {
    pub id: String,
    pub title: Option<String>,
    pub description: Option<String>,
    pub due_date: Option<String>,
    pub priority: Option<String>,
    pub project_id: Option<i32>,
    pub completed: Option<bool>,
    pub subtasks: Option<Vec<String>>,
    pub tags: Option<Vec<String>>,
}

/// What an `UpdateTaskRequest` holds.
pub struct UpdateTaskRequestView {
    pub id: Seq<char>,
    pub title: Option<Seq<char>>,
    pub description: Option<Seq<char>>,
    pub due_date: Option<Seq<char>>,
    pub priority: Option<Seq<char>>,
    pub project_id: Option<i32>,
    pub completed: Option<bool>,
    pub subtasks: Option<Seq<Seq<char>>>,
    pub tags: Option<Seq<Seq<char>>>,
}

impl View for UpdateTaskRequest {
    type V = UpdateTaskRequestView;

    open spec fn view(&self) -> UpdateTaskRequestView {
        UpdateTaskRequestView {
            id: self.id@,
            title: self.title.deep_view(),
            description: self.description.deep_view(),
            due_date: self.due_date.deep_view(),
            priority: self.priority.deep_view(),
            project_id: self.project_id,
            completed: self.completed,
            subtasks: self.subtasks.deep_view(),
            tags: self.tags.deep_view(),
        }
    }
}

/// One record of the application log.
#[derive(Debug)]
pub struct LogEntry {
    pub timestamp: String,
    pub level: String,
    pub message: String,
    pub target: Option<String>,
}

/// What a `LogEntry` holds.
pub struct LogEntryView {
    pub timestamp: Seq<char>,
    pub level: Seq<char>,
    pub message: Seq<char>,
    pub target: Option<Seq<char>>,
}

impl View for LogEntry {
    type V = LogEntryView;

    open spec fn view(&self) -> LogEntryView {
        LogEntryView {
            timestamp: self.timestamp@,
            level: self.level@,
            message: self.message@,
            target: self.target.deep_view(),
        }
    }
}

impl DeepView for LogEntry {
    type V = LogEntryView;

    open spec fn deep_view(&self) -> LogEntryView {
        self@
    }
}

impl Clone for LogEntry {
    fn clone(&self) -> (r: Self)
        ensures
            r@ == self@,
    {
        LogEntry {
            timestamp: self.timestamp.clone(),
            level: self.level.clone(),
            message: self.message.clone(),
            target: clone_text(&self.target),
        }
    }
}

// ---------------------------------------------------------------------------
// What the operations do
// ---------------------------------------------------------------------------

/// The message of a failed operation: what failed, then why.
pub open spec fn failure(what: Seq<char>, why: StoreError) -> Seq<char> {
    what + why.message_text()
}

/// The task that a request creates under `id` at the time `now`.
pub open spec fn new_task(
    request: CreateTaskRequestView,
    id: Seq<char>,
    now: Seq<char>,
) -> TaskView {
    TaskView {
        id: id,
        title: request.title,
        description: request.description,
        due_date: request.due_date,
        priority: request.priority,
        completed: false,
        project_id: request.project_id,
        created_at: now,
        updated_at: now,
    }
}

/// The store after one open subtask of `task_id` is written for each text,
/// in order, the subtask of `texts[i]` under `ids[i]`.
pub open spec fn with_new_subtasks(
    db: DatabaseView,
    task_id: Seq<char>,
    texts: Seq<Seq<char>>,
    ids: Seq<Seq<char>>,
) -> DatabaseView
    decreases texts.len(),
{
    if texts.len() == 0 {
        db
    } else {
        with_new_subtasks(db, task_id, texts.drop_last(), ids.drop_last()).with_subtask(
            crate::entities::SubtaskView {
                id: ids[texts.len() - 1],
                task_id: task_id,
                text: texts.last(),
                completed: false,
            },
        )
    }
}

/// The store after a task is created: the task, its subtasks, its tags.
pub open spec fn task_created(
    db: DatabaseView,
    request: CreateTaskRequestView,
    id: Seq<char>,
    now: Seq<char>,
    subtask_ids: Seq<Seq<char>>,
) -> DatabaseView {
    with_new_subtasks(
        db.with_task(new_task(request, id, now)),
        id,
        request.subtasks,
        subtask_ids,
    ).with_tags(id, request.tags)
}

/// How creating a task ends: with the task's id and the store holding it, or,
/// where the task names a project that is not stored, with a message and the
/// store as it was.
pub open spec fn creates_task(
    before: DatabaseView,
    request: CreateTaskRequestView,
    id: Seq<char>,
    now: Seq<char>,
    subtask_ids: Seq<Seq<char>>,
    after: DatabaseView,
    result: Result<String, String>,
) -> bool {
    if before.accepts_task(new_task(request, id, now)) {
        &&& result is Ok
        &&& result->Ok_0@ == id
        &&& after == task_created(before, request, id, now, subtask_ids)
    } else {
        &&& result is Err
        &&& result->Err_0@ == failure("Failed to save task: "@, StoreError::MissingProject)
        &&& after == before
    }
}

/// `task` with the fields that the request names replaced, modified at `now`.
pub open spec fn merged(
    task: TaskView,
    request: UpdateTaskRequestView,
    now: Seq<char>,
) -> TaskView {
    TaskView {
        id: task.id,
        title: if request.title is Some {
            request.title->0
        } else {
            task.title
        },
        description: if request.description is Some {
            request.description->0
        } else {
            task.description
        },
        due_date: if request.due_date is Some {
            request.due_date
        } else {
            task.due_date
        },
        priority: if request.priority is Some {
            request.priority->0
        } else {
            task.priority
        },
        completed: if request.completed is Some {
            request.completed->0
        } else {
            task.completed
        },
        project_id: if request.project_id is Some {
            request.project_id
        } else {
            task.project_id
        },
        created_at: task.created_at,
        updated_at: now,
    }
}

/// The store after a task is updated: the merged task; its subtasks replaced
/// where the request names subtasks; its tags replaced where it names tags.
pub open spec fn task_updated(
    db: DatabaseView,
    request: UpdateTaskRequestView,
    now: Seq<char>,
    subtask_ids: Seq<Seq<char>>,
) -> DatabaseView {
    let written = db.with_task(merged(db.task(request.id), request, now));
    let resplit = if request.subtasks is Some {
        with_new_subtasks(
            written.without_subtasks_of(request.id),
            request.id,
            request.subtasks->0,
            subtask_ids,
        )
    } else {
        written
    };
    if request.tags is Some {
        resplit.with_tags(request.id, request.tags->0)
    } else {
        resplit
    }
}

/// How updating a task ends: with the store updated; or with a message and
/// the store as it was, where the task is not stored, or where the merged
/// task names a project that is not stored.
pub open spec fn updates_task(
    before: DatabaseView,
    request: UpdateTaskRequestView,
    now: Seq<char>,
    subtask_ids: Seq<Seq<char>>,
    after: DatabaseView,
    result: Result<(), String>,
) -> bool {
    if !before.has_task(request.id) {
        &&& result is Err
        &&& result->Err_0@ == "Task not found"@
        &&& after == before
    } else if !before.accepts_task(merged(before.task(request.id), request, now)) {
        &&& result is Err
        &&& result->Err_0@ == failure("Failed to update task: "@, StoreError::MissingProject)
        &&& after == before
    } else {
        &&& result is Ok
        &&& after == task_updated(before, request, now, subtask_ids)
    }
}

// ---------------------------------------------------------------------------
// Helpers
// ---------------------------------------------------------------------------

/// Writes the message of a failed operation.
fn failure_message(what: &str, why: StoreError) -> (r: String)
    ensures
        r@ == failure(what@, why),
{
    what.to_owned().concat(why.message().as_str())
}

/// Draws one identifier for each of `n` rows.
fn new_identifiers(n: usize) -> (r: Vec<String>)
    ensures
        r.len() == n,
{
    let mut ids: Vec<String> = Vec::new();
    let mut i: usize = 0;
    while i < n
        invariant
            i <= n,
            ids.len() == i,
        decreases n - i,
    {
        ids.push(new_identifier());
        i += 1;
    }
    ids
}

/// Writes one open subtask of `task_id` for each text, in order.
fn add_subtasks(db: &mut Database, task_id: &String, texts: &Vec<String>, ids: &Vec<String>)
    requires
        old(db)@.wf(),
        ids.len() == texts.len(),
        old(db)@.has_task(task_id@),
    ensures
        final(db)@ == with_new_subtasks(
            old(db)@,
            task_id@,
            texts.deep_view(),
            ids.deep_view(),
        ),
        final(db)@.tasks == old(db)@.tasks,
        final(db)@.wf(),
{
    let ghost start = db@;
    let ghost all = texts.deep_view();
    let ghost names = ids.deep_view();
    let mut i: usize = 0;
    while i < texts.len()
        invariant
            i <= texts.len(),
            db@.wf(),
            ids.len() == texts.len(),
            all == texts.deep_view(),
            names == ids.deep_view(),
            db@.tasks == start.tasks,
            start.has_task(task_id@),
            db@ == with_new_subtasks(start, task_id@, all.take(i as int), names.take(i as int)),
        decreases texts.len() - i,
    {
        let subtask = Subtask {
            id: ids[i].clone(),
            task_id: task_id.clone(),
            text: texts[i].clone(),
            completed: false,
        };
        proof {
            assert(all.take(i + 1).drop_last() =~= all.take(i as int));
            assert(names.take(i + 1).drop_last() =~= names.take(i as int));
        }
        // The task is stored, so the subtask is taken.
        let saved = db.save_subtask(&subtask);
        assert(saved is Ok);
        i += 1;
    }
    proof {
        assert(all.take(i as int) =~= all);
        assert(names.take(i as int) =~= names);
    }
}

// ---------------------------------------------------------------------------
// Tasks
// ---------------------------------------------------------------------------

/// Creates a task under the id `task_id` at the time `now`, with one open
/// subtask for each text of the request, the i-th under `subtask_ids[i]`, and
/// with the request's tags.
pub fn create_task_with(
    request: CreateTaskRequest,
    db: &mut Database,
    task_id: String,
    now: String,
    subtask_ids: Vec<String>,
) -> (r: Result<String, String>)
    requires
        subtask_ids.len() == request.subtasks.len(),
    ensures
        creates_task(
            old(db)@,
            request@,
            task_id@,
            now@,
            subtask_ids.deep_view(),
            final(db)@,
            r,
        ),
        r is Ok ==> final(db)@.all_tasks().contains(
            final(db)@.details(new_task(request@, task_id@, now@)),
        ),
        old(db)@.wf(),
        final(db)@.wf(),
{
    let task = Task {
        id: task_id.clone(),
        title: request.title,
        description: request.description,
        due_date: request.due_date,
        priority: request.priority,
        completed: false,
        project_id: request.project_id,
        created_at: now.clone(),
        updated_at: now,
    };
    match db.save_task(&task) {
        Ok(()) => {
            proof {
                law_created_task_is_listed(
                    old(db)@,
                    request@,
                    task_id@,
                    now@,
                    subtask_ids.deep_view(),
                );
            }
            add_subtasks(db, &task_id, &request.subtasks, &subtask_ids);
            // The task is stored, so the tags are taken.
            let tagged = db.save_tags_for_task(task_id.as_str(), request.tags.as_slice());
            assert(tagged is Ok);
            Ok(task_id)
        },
        Err(e) => Err(failure_message("Failed to save task: ", e)),
    }
}

/// Creates a task under a new identifier at the time of the call, with one
/// open subtask for each text of the request and with the request's tags.
/// Returns the identifier.
pub fn create_task(request: CreateTaskRequest, db: &mut Database) -> (r: Result<String, String>)
    ensures
        r is Ok <==> (request.project_id is None || old(db)@.has_project(request.project_id->0)),
        r is Err ==> final(db)@ == old(db)@ && r->Err_0@ == failure(
            "Failed to save task: "@,
            StoreError::MissingProject,
        ),
        r is Ok ==> exists|now: Seq<char>| #[trigger]
            final(db)@.all_tasks().contains(
                final(db)@.details(new_task(request@, r->Ok_0@, now)),
            ),
        exists|id: Seq<char>, now: Seq<char>, subtask_ids: Seq<Seq<char>>|
            subtask_ids.len() == request@.subtasks.len() && #[trigger] creates_task(
                old(db)@,
                request@,
                id,
                now,
                subtask_ids,
                final(db)@,
                r,
            ),
        old(db)@.wf(),
        final(db)@.wf(),
{
    let task_id = new_identifier();
    let now = read_clock().timestamp;
    let subtask_ids = new_identifiers(request.subtasks.len());
    let r = create_task_with(request, db, task_id, now, subtask_ids);
    r
}

/// Updates the task that the request names, at the time `now`. Where the
/// request names subtasks, the task's subtasks are replaced by one open
/// subtask for each text, the i-th under `subtask_ids[i]`.
pub fn update_task_with(
    request: UpdateTaskRequest,
    db: &mut Database,
    now: String,
    subtask_ids: Vec<String>,
) -> (r: Result<(), String>)
    requires
        request.subtasks is Some ==> subtask_ids.len() == request.subtasks->0.len(),
    ensures
        updates_task(old(db)@, request@, now@, subtask_ids.deep_view(), final(db)@, r),
        old(db)@.wf(),
        final(db)@.wf(),
{
    let stored = db.get_task(request.id.as_str());
    let mut task = match stored {
        Some(task) => task,
        None => {
            return Err("Task not found".to_owned());
        },
    };
    if let Some(title) = request.title {
        task.title = title;
    }
    if let Some(description) = request.description {
        task.description = description;
    }
    if let Some(due_date) = request.due_date {
        task.due_date = Some(due_date);
    }
    if let Some(priority) = request.priority {
        task.priority = priority;
    }
    if let Some(project_id) = request.project_id {
        task.project_id = Some(project_id);
    }
    if let Some(completed) = request.completed {
        task.completed = completed;
    }
    task.updated_at = now;
    match db.save_task(&task) {
        Ok(()) => {},
        Err(e) => {
            return Err(failure_message("Failed to update task: ", e));
        },
    }
    if let Some(texts) = request.subtasks {
        db.delete_subtasks_for_task(task.id.as_str());
        add_subtasks(db, &task.id, &texts, &subtask_ids);
    }
    if let Some(tags) = request.tags {
        // The task is stored, so the tags are taken.
        let tagged = db.save_tags_for_task(task.id.as_str(), tags.as_slice());
        assert(tagged is Ok);
    }
    Ok(())
}

/// Updates the task that the request names, at the time of the call, with
/// new identifiers for the subtasks that the request names.
pub fn update_task(request: UpdateTaskRequest, db: &mut Database) -> (r: Result<(), String>)
    ensures
        !old(db)@.has_task(request.id@) ==> r is Err && r->Err_0@ == "Task not found"@,
        r is Err ==> final(db)@ == old(db)@,
        exists|now: Seq<char>, subtask_ids: Seq<Seq<char>>|
            (request.subtasks is Some ==> subtask_ids.len() == request.subtasks->0.len())
                && #[trigger] updates_task(old(db)@, request@, now, subtask_ids, final(db)@, r),
        old(db)@.wf(),
        final(db)@.wf(),
{
    let now = read_clock().timestamp;
    let subtask_ids = match &request.subtasks {
        Some(texts) => new_identifiers(texts.len()),
        None => Vec::new(),
    };
    let r = update_task_with(request, db, now, subtask_ids);
    r
}

/// Every task with its subtasks and tags, the most recently created first.
pub fn get_all_tasks(db: &Database) -> (r: Result<Vec<TaskWithDetails>, String>)
    ensures
        r is Ok,
        r->Ok_0.deep_view() == db@.all_tasks(),
        db@.wf(),
{
    Ok(db.get_all_tasks())
}

/// Deletes the task `task_id` with its subtasks and tags and returns the
/// number of tasks deleted. Where no such task is stored, nothing changes.
pub fn delete_task(task_id: String, db: &mut Database) -> (r: Result<usize, String>)
    ensures
        r == Ok::<usize, String>(rows_affected(old(db)@.has_task(task_id@))),
        final(db)@ == old(db)@.without_task(task_id@),
        old(db)@.wf(),
        final(db)@.wf(),
{
    Ok(db.delete_task(task_id.as_str()))
}

/// Gives the task `task_id` the completion flag `completed` and the time of
/// the call as its modification time, and returns the number of tasks
/// changed. Where no such task is stored, nothing changes.
pub fn toggle_task_completion(task_id: String, completed: bool, db: &mut Database) -> (r: Result<
    usize,
    String,
>)
    ensures
        r == Ok::<usize, String>(rows_affected(old(db)@.has_task(task_id@))),
        exists|now: Seq<char>| final(db)@ == old(db)@.with_completion(task_id@, completed, now),
        old(db)@.wf(),
        final(db)@.wf(),
{
    Ok(db.update_task_completion(task_id.as_str(), completed))
}

// ---------------------------------------------------------------------------
// Subtasks
// ---------------------------------------------------------------------------

/// Gives the subtask `subtask_id` the completion flag `completed`. Fails with
/// a message where no such subtask is stored.
pub fn toggle_subtask_completion(subtask_id: String, completed: bool, db: &mut Database) -> (r:
    Result<(), String>)
    ensures
        old(db)@.has_subtask(subtask_id@) ==> r is Ok && final(db)@ == old(db)@.with_subtask(
            crate::entities::SubtaskView { completed: completed, ..old(db)@.subtask(subtask_id@) },
        ),
        !old(db)@.has_subtask(subtask_id@) ==> r is Err && r->Err_0@ == "Subtask not found"@
            && final(db)@ == old(db)@,
        old(db)@.wf(),
        final(db)@.wf(),
{
    match db.get_subtask(subtask_id.as_str()) {
        Some(subtask) => {
            let changed = Subtask {
                id: subtask.id,
                task_id: subtask.task_id,
                text: subtask.text,
                completed: completed,
            };
            // A stored subtask names a stored task, so the subtask is taken.
            let saved = db.save_subtask(&changed);
            assert(saved is Ok);
            Ok(())
        },
        None => Err("Subtask not found".to_owned()),
    }
}

// ---------------------------------------------------------------------------
// Projects and folders
// ---------------------------------------------------------------------------

/// The project that `create_project` writes: a new row, its id to be assigned.
pub open spec fn project_draft(
    name: Seq<char>,
    color: Seq<char>,
    description: Option<Seq<char>>,
    folder_id: Option<i32>,
) -> crate::entities::ProjectView {
    crate::entities::ProjectView {
        id: 0,
        name: name,
        color: color,
        description: description,
        folder_id: folder_id,
    }
}

/// Creates a project under the next id. Fails with a message where the store
/// refuses the project.
pub fn create_project(
    name: String,
    color: String,
    description: Option<String>,
    folder_id: Option<i32>,
    db: &mut Database,
) -> (r: Result<(), String>)
    ensures
        match old(db)@.refuses_project(
            project_draft(name@, color@, description.deep_view(), folder_id),
        ) {
            None => r is Ok && final(db)@ == old(db)@.with_project(
                project_draft(name@, color@, description.deep_view(), folder_id),
            ),
            Some(e) => r is Err && r->Err_0@ == failure("Failed to save project: "@, e)
                && final(db)@ == old(db)@,
        },
        old(db)@.wf(),
        final(db)@.wf(),
{
    let project = Project {
        id: 0,
        name: name,
        color: color,
        description: description,
        folder_id: folder_id,
    };
    match db.save_project(&project) {
        Ok(()) => Ok(()),
        Err(e) => Err(failure_message("Failed to save project: ", e)),
    }
}

/// The folder that `create_folder` writes: a new row, its id to be assigned.
pub open spec fn folder_draft(
    name: Seq<char>,
    color: Seq<char>,
    description: Option<Seq<char>>,
) -> crate::entities::FolderView {
    crate::entities::FolderView { id: 0, name: name, color: color, description: description }
}

/// Creates a folder under the next id. Fails with a message where the store
/// refuses the folder.
pub fn create_folder(
    name: String,
    color: String,
    description: Option<String>,
    db: &mut Database,
) -> (r: Result<(), String>)
    ensures
        match old(db)@.refuses_folder(folder_draft(name@, color@, description.deep_view())) {
            None => r is Ok && final(db)@ == old(db)@.with_folder(
                folder_draft(name@, color@, description.deep_view()),
            ),
            Some(e) => r is Err && r->Err_0@ == failure("Failed to save folder: "@, e)
                && final(db)@ == old(db)@,
        },
        old(db)@.wf(),
        final(db)@.wf(),
{
    let folder = Folder { id: 0, name: name, color: color, description: description };
    match db.save_folder(&folder) {
        Ok(()) => Ok(()),
        Err(e) => Err(failure_message("Failed to save folder: ", e)),
    }
}

/// The projects by name, ascending.
pub fn get_all_projects(db: &Database) -> (r: Result<Vec<Project>, String>)
    ensures
        r is Ok,
        r->Ok_0.deep_view() == db@.projects_by_name(),
        db@.wf(),
{
    Ok(db.get_all_projects())
}

/// Deletes the project `project_id` and returns the number of projects
/// deleted. Where no such project is stored, nothing changes.
pub fn delete_project(project_id: i32, db: &mut Database) -> (r: Result<usize, String>)
    ensures
        r == Ok::<usize, String>(rows_affected(old(db)@.has_project(project_id))),
        final(db)@ == old(db)@.without_project(project_id),
        old(db)@.wf(),
        final(db)@.wf(),
{
    Ok(db.delete_project(project_id))
}

/// The folders by name, ascending.
pub fn get_all_folders(db: &Database) -> (r: Result<Vec<Folder>, String>)
    ensures
        r is Ok,
        r->Ok_0.deep_view() == db@.folders_by_name(),
        db@.wf(),
{
    Ok(db.get_all_folders())
}

/// Deletes the folder `folder_id` and returns the number of folders deleted.
/// Where no such folder is stored, nothing changes.
pub fn delete_folder(folder_id: i32, db: &mut Database) -> (r: Result<usize, String>)
    ensures
        r == Ok::<usize, String>(rows_affected(old(db)@.has_folder(folder_id))),
        final(db)@ == old(db)@.without_folder(folder_id),
        old(db)@.wf(),
        final(db)@.wf(),
{
    Ok(db.delete_folder(folder_id))
}

// ---------------------------------------------------------------------------
// Tags
// ---------------------------------------------------------------------------

/// Every tag text in use, each once, in ascending order.
pub fn get_all_tags(db: &Database) -> (r: Result<Vec<String>, String>)
    ensures
        r is Ok,
        r->Ok_0.deep_view() == db@.distinct_tags(),
        db@.wf(),
{
    Ok(db.get_all_tags())
}

// ---------------------------------------------------------------------------
// Settings
// ---------------------------------------------------------------------------

/// Stores the theme.
pub fn set_theme(theme: String, db: &mut Database) -> (r: Result<(), String>)
    ensures
        r is Ok,
        final(db)@ == old(db)@.with_setting(theme_key(), theme@),
        old(db)@.wf(),
        final(db)@.wf(),
{
    db.set_theme(theme.as_str());
    Ok(())
}

/// The stored theme, or `light` where none is stored.
pub fn get_theme(db: &Database) -> (r: Result<String, String>)
    ensures
        r is Ok,
        r->Ok_0@ == match db@.setting(theme_key()) {
            Some(theme) => theme,
            None => "light"@,
        },
        db@.wf(),
{
    Ok(db.get_theme())
}

/// Stores the mobile-mode flag as `true` or `false`.
pub fn set_mobile_mode(enabled: bool, db: &mut Database) -> (r: Result<(), String>)
    ensures
        r is Ok,
        final(db)@ == old(db)@.with_setting(
            mobile_mode_key(),
            if enabled {
                "true"@
            } else {
                "false"@
            },
        ),
        old(db)@.wf(),
        final(db)@.wf(),
{
    db.set_mobile_mode(enabled);
    Ok(())
}

/// The mobile-mode flag: set where the stored value is `true`.
pub fn get_mobile_mode(db: &Database) -> (r: Result<bool, String>)
    ensures
        r is Ok,
        r->Ok_0 == (db@.setting(mobile_mode_key()) == Some("true"@)),
        db@.wf(),
{
    Ok(db.get_mobile_mode())
}

/// Writes `value` under `key`.
pub fn save_setting(key: String, value: String, db: &mut Database) -> (r: Result<(), String>)
    ensures
        r is Ok,
        final(db)@ == old(db)@.with_setting(key@, value@),
        old(db)@.wf(),
        final(db)@.wf(),
{
    db.save_setting(key.as_str(), value.as_str());
    Ok(())
}

/// The value stored under `key`, if any.
pub fn get_setting(key: String, db: &Database) -> (r: Result<Option<String>, String>)
    ensures
        r is Ok,
        r->Ok_0.deep_view() == db@.setting(key@),
        db@.wf(),
{
    Ok(db.get_setting(key.as_str()))
}

// ---------------------------------------------------------------------------
// Search-bar mode
// ---------------------------------------------------------------------------

/// Stores the search-bar mode.
pub fn set_searchbar_mode(mode: String, db: &mut Database) -> (r: Result<(), String>)
    ensures
        r is Ok,
        final(db)@ == old(db)@.with_setting(searchbar_mode_key(), mode@),
        old(db)@.wf(),
        final(db)@.wf(),
{
    db.save_setting("searchbar_mode", mode.as_str());
    Ok(())
}

/// The stored search-bar mode, or `search` where none is stored.
pub fn get_searchbar_mode(db: &Database) -> (r: Result<String, String>)
    ensures
        r is Ok,
        r->Ok_0@ == match db@.setting(searchbar_mode_key()) {
            Some(mode) => mode,
            None => "search"@,
        },
        db@.wf(),
{
    match db.get_setting("searchbar_mode") {
        Some(mode) => Ok(mode),
        None => Ok("search".to_owned()),
    }
}

// ---------------------------------------------------------------------------
// The log
// ---------------------------------------------------------------------------

/// Log records by timestamp, ascending; records of the same timestamp in
/// the order given.
pub open spec fn in_time_order(entries: Seq<LogEntryView>) -> Seq<LogEntryView> {
    sorted_positions(entries.map_values(|e: LogEntryView| e.timestamp), false).map_values(
        |i: int| entries[i],
    )
}

/// Puts log records in the order of their timestamps.
pub fn order_log_entries(entries: &Vec<LogEntry>) -> (r: Vec<LogEntry>)
    ensures
        r.deep_view() == in_time_order(entries.deep_view()),
{
    let ghost all = entries.deep_view();
    let ghost keys = all.map_values(|e: LogEntryView| e.timestamp);
    let mut stamps: Vec<String> = Vec::new();
    let mut i: usize = 0;
    while i < entries.len()
        invariant
            i <= entries.len(),
            all == entries.deep_view(),
            stamps.len() == i,
            forall|j: int| 0 <= j < i ==> stamps.deep_view()[j] == all[j].timestamp,
        decreases entries.len() - i,
    {
        let ghost so_far = stamps.deep_view();
        stamps.push(entries[i].timestamp.clone());
        proof {
            assert(stamps.deep_view() =~= so_far.push(all[i as int].timestamp));
        }
        i += 1;
    }
    proof {
        assert(stamps.deep_view() =~= keys);
    }
    let order = sort_positions(&stamps, false);
    proof {
        lemma_sorted_positions(keys, false);
        assert forall|k: int| 0 <= k < order.len() implies order[k] < entries.len() by {
            assert(positions(order@)[k] == order[k] as int);
        }
    }
    let mut out: Vec<LogEntry> = Vec::new();
    let mut k: usize = 0;
    while k < order.len()
        invariant
            k <= order.len(),
            out.len() == k,
            all == entries.deep_view(),
            forall|j: int| 0 <= j < order.len() ==> order[j] < entries.len(),
            forall|j: int| 0 <= j < k ==> out.deep_view()[j] == all[order[j] as int],
        decreases order.len() - k,
    {
        let ghost so_far = out.deep_view();
        out.push(entries[order[k]].clone());
        proof {
            assert(out.deep_view() =~= so_far.push(all[order[k as int] as int]));
        }
        k += 1;
    }
    out
}

} // verus!
