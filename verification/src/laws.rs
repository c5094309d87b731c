//! What holds of the store and of the operations on it, whatever it holds.
//!
//! Each law is a theorem about the functions of `DatabaseView` that the
//! contracts of the store's operations are stated with.

use crate::commands::{new_task, task_created, with_new_subtasks, CreateTaskRequestView};
use crate::consistency::{
    lemma_with_new_project,
    lemma_distinct,
    lemma_distinct_of_distinct,
    lemma_index_of,
    lemma_put_contains,
    lemma_with_folder,
    lemma_with_project,
    lemma_with_task,
    lemma_without_task,
};
use crate::entities::{FolderView, ProjectView, TaskView, TaskWithDetailsView};
use crate::interpreter::{
    final_title,
    hashtag_pattern,
    interpreted,
    project_pattern,
    relative_date_of,
    time_pattern,
    urgency_of,
    ParsedTaskView,
};
use crate::patterns::{first_group, first_groups, first_match, without_matches};
use crate::relations::{
    distinct,
    later_id,
    put,
    searchbar_mode_key,
    starter_folders,
    starter_projects,
    subtask_of,
    tag_for,
    tag_not_of,
    tag_of,
    tag_text,
    theme_key,
    DatabaseView,
};
use crate::sorting::{lemma_sorted_positions, sorted_positions};
use crate::text::{lex_le, lowercase_of};
use vstd::prelude::*;

verus! {

// ---------------------------------------------------------------------------
// Filters
// ---------------------------------------------------------------------------

/// A filter that every row meets keeps all rows.
pub proof fn lemma_filter_keeps_all<R>(rows: Seq<R>, pred: spec_fn(R) -> bool)
    requires
        forall|i: int| 0 <= i < rows.len() ==> pred(#[trigger] rows[i]),
    ensures
        rows.filter(pred) == rows,
    decreases rows.len(),
{
    reveal(Seq::filter);
    if rows.len() > 0 {
        let front = rows.drop_last();
        lemma_filter_keeps_all(front, pred);
    }
}

/// A filter that no row meets keeps no row.
pub proof fn lemma_filter_keeps_none<R>(rows: Seq<R>, pred: spec_fn(R) -> bool)
    requires
        forall|i: int| 0 <= i < rows.len() ==> !pred(#[trigger] rows[i]),
    ensures
        rows.filter(pred) == Seq::<R>::empty(),
    decreases rows.len(),
{
    reveal(Seq::filter);
    if rows.len() > 0 {
        let front = rows.drop_last();
        lemma_filter_keeps_none(front, pred);
    }
}

// ---------------------------------------------------------------------------
// The listing of tasks
// ---------------------------------------------------------------------------

/// The listing of all tasks holds every stored task once, each with its own
/// subtasks and tags, the most recently created first.
pub proof fn law_listing_holds_every_task(db: DatabaseView)
    ensures
        db.all_tasks().len() == db.tasks.len(),
        forall|i: int|
            0 <= i < db.tasks.len() ==> db.all_tasks().contains(
                db.details(#[trigger] db.tasks[i]),
            ),
        forall|k: int|
            0 <= k < db.all_tasks().len() ==> exists|i: int|
                0 <= i < db.tasks.len() && #[trigger] db.all_tasks()[k] == db.details(db.tasks[i]),
        forall|a: int, b: int|
            0 <= a < b < db.all_tasks().len() ==> lex_le(
                (#[trigger] db.all_tasks()[b]).task.created_at,
                (#[trigger] db.all_tasks()[a]).task.created_at,
            ),
{
    let keys = db.creation_times();
    let order = sorted_positions(keys, true);
    let all = db.all_tasks();
    lemma_sorted_positions(keys, true);
    assert forall|i: int| 0 <= i < db.tasks.len() implies all.contains(
        db.details(#[trigger] db.tasks[i]),
    ) by {
        assert(order.contains(i));
        let k = choose|k: int| 0 <= k < order.len() && order[k] == i;
        assert(all[k] == db.details(db.tasks[i]));
    }
    assert forall|a: int, b: int| 0 <= a < b < all.len() implies lex_le(
        (#[trigger] all[b]).task.created_at,
        (#[trigger] all[a]).task.created_at,
    ) by {
    }
}

/// A task created and then listed is in the listing, created and modified at
/// the same time. Where its id was not in use and the request names neither
/// subtasks nor tags, it is listed with no subtasks and no tags.
pub proof fn law_created_task_is_listed(
    db: DatabaseView,
    request: CreateTaskRequestView,
    id: Seq<char>,
    now: Seq<char>,
    subtask_ids: Seq<Seq<char>>,
)
    requires
        db.wf(),
    ensures
        new_task(request, id, now).created_at == new_task(request, id, now).updated_at,
        ({
            let after = task_created(db, request, id, now, subtask_ids);
            after.all_tasks().contains(after.details(new_task(request, id, now)))
        }),
        !db.has_task(id) && request.subtasks.len() == 0 && request.tags.len() == 0 ==> ({
            let after = task_created(db, request, id, now, subtask_ids);
            after.details(new_task(request, id, now)) == TaskWithDetailsView {
                task: new_task(request, id, now),
                subtasks: Seq::empty(),
                tags: Seq::empty(),
            }
        }),
{
    let task = new_task(request, id, now);
    let written = db.with_task(task);
    let after = task_created(db, request, id, now, subtask_ids);
    lemma_new_subtasks_keep_tasks(written, id, request.subtasks, subtask_ids);
    // the task is stored
    let ids = db.task_ids();
    let at = if ids.contains(id) {
        ids.index_of(id)
    } else {
        db.tasks.len() as int
    };
    assert(0 <= at < after.tasks.len() && after.tasks[at] == task);
    law_listing_holds_every_task(after);
    if !db.has_task(id) && request.subtasks.len() == 0 && request.tags.len() == 0 {
        let kept = db.tags.filter(tag_not_of(id));
        lemma_filter_keeps_none(kept, tag_of(id));
        assert(after.tags_of(id) =~= Seq::empty());
        assert forall|i: int| 0 <= i < db.subtasks.len() implies !subtask_of(id)(
            #[trigger] db.subtasks[i],
        ) by {
        }
        lemma_filter_keeps_none(db.subtasks, subtask_of(id));
    }
}

/// Writing subtasks leaves the other tables as they are.
pub proof fn lemma_new_subtasks_keep_tasks(
    db: DatabaseView,
    task_id: Seq<char>,
    texts: Seq<Seq<char>>,
    ids: Seq<Seq<char>>,
)
    ensures
        with_new_subtasks(db, task_id, texts, ids).tasks == db.tasks,
        with_new_subtasks(db, task_id, texts, ids).tags == db.tags,
        with_new_subtasks(db, task_id, texts, ids).projects == db.projects,
        with_new_subtasks(db, task_id, texts, ids).folders == db.folders,
        with_new_subtasks(db, task_id, texts, ids).settings == db.settings,
    decreases texts.len(),
{
    if texts.len() > 0 {
        lemma_new_subtasks_keep_tasks(db, task_id, texts.drop_last(), ids.drop_last());
    }
}

/// A task that was written is stored as it was written, and writing it again
/// changes nothing.
pub proof fn law_task_upsert_is_idempotent(db: DatabaseView, task: TaskView)
    requires
        db.wf(),
    ensures
        db.with_task(task).has_task(task.id),
        db.with_task(task).task(task.id) == task,
        db.with_task(task).with_task(task) == db.with_task(task),
        db.has_task(task.id) ==> db.with_task(task).tasks.len() == db.tasks.len(),
        !db.has_task(task.id) ==> db.with_task(task).tasks == db.tasks.push(task),
{
    let once = db.with_task(task);
    let ids = db.task_ids();
    lemma_with_task(db, task);
    let at = if ids.contains(task.id) {
        ids.index_of(task.id)
    } else {
        ids.len() as int
    };
    lemma_put_contains(ids, task.id);
    assert(once.task_ids()[at] == task.id);
    lemma_index_of(once.task_ids(), at);
    assert(once.tasks[at] == task);
    assert(once.tasks.update(at, task) =~= once.tasks);
}

// ---------------------------------------------------------------------------
// Tags
// ---------------------------------------------------------------------------

/// Replacing the tag set of a task twice by the same tags gives what
/// replacing it once gives. The task then has each text of the input once,
/// in the order of first occurrence: as a set, what the input holds, however
/// often and in whatever order.
pub proof fn law_replacing_tags_is_idempotent(
    db: DatabaseView,
    task_id: Seq<char>,
    tags: Seq<Seq<char>>,
)
    ensures
        db.with_tags(task_id, tags).with_tags(task_id, tags) == db.with_tags(task_id, tags),
        db.with_tags(task_id, tags).tags_of(task_id) == distinct(tags),
        db.with_tags(task_id, tags).tags_of(task_id).no_duplicates(),
        db.with_tags(task_id, tags).tags_of(task_id).to_set() == tags.to_set(),
{
    let kept = db.tags.filter(tag_not_of(task_id));
    let fresh = distinct(tags).map_values(tag_for(task_id));
    lemma_filter_keeps_all(kept, tag_not_of(task_id));
    lemma_filter_keeps_none(kept, tag_of(task_id));
    lemma_filter_keeps_none(fresh, tag_not_of(task_id));
    lemma_filter_keeps_all(fresh, tag_of(task_id));
    lemma_distinct(tags);
}

/// Tags given without repetition are stored as they are given.
pub proof fn law_tags_without_repetition_are_kept(
    db: DatabaseView,
    task_id: Seq<char>,
    tags: Seq<Seq<char>>,
)
    requires
        tags.no_duplicates(),
    ensures
        db.with_tags(task_id, tags).tags_of(task_id) == tags,
{
    law_replacing_tags_is_idempotent(db, task_id, tags);
    lemma_distinct_of_distinct(tags);
}

/// The tag set that a task gets depends only on which texts the input holds.
pub proof fn law_tag_set_ignores_order(
    db: DatabaseView,
    task_id: Seq<char>,
    tags: Seq<Seq<char>>,
    others: Seq<Seq<char>>,
)
    requires
        tags.to_set() == others.to_set(),
    ensures
        db.with_tags(task_id, tags).tags_of(task_id).to_set() == db.with_tags(
            task_id,
            others,
        ).tags_of(task_id).to_set(),
{
    law_replacing_tags_is_idempotent(db, task_id, tags);
    law_replacing_tags_is_idempotent(db, task_id, others);
}

// ---------------------------------------------------------------------------
// Deleting a task
// ---------------------------------------------------------------------------

/// After a task is deleted it has no subtasks and no tags, it is not stored,
/// and the listing of all tasks does not hold it. Deleting it again changes
/// nothing.
pub proof fn law_deleted_task_is_gone(db: DatabaseView, id: Seq<char>)
    requires
        db.wf(),
    ensures
        db.without_task(id).subtasks_of(id) == Seq::<crate::entities::SubtaskView>::empty(),
        db.without_task(id).tags_of(id) == Seq::<Seq<char>>::empty(),
        !db.without_task(id).has_task(id),
        forall|k: int|
            0 <= k < db.without_task(id).all_tasks().len() ==> (
            #[trigger] db.without_task(id).all_tasks()[k]).task.id != id,
        db.without_task(id).without_task(id) == db.without_task(id),
{
    let after = db.without_task(id);
    lemma_without_task(db, id);
    assert forall|i: int| 0 <= i < after.subtasks.len() implies !subtask_of(id)(
        #[trigger] after.subtasks[i],
    ) && crate::relations::subtask_not_of(id)(after.subtasks[i]) by {
    }
    lemma_filter_keeps_none(after.subtasks, subtask_of(id));
    lemma_filter_keeps_all(after.subtasks, crate::relations::subtask_not_of(id));
    lemma_filter_keeps_none(after.tags, tag_of(id));
    lemma_filter_keeps_all(after.tags, tag_not_of(id));
    law_listing_holds_every_task(after);
    assert forall|k: int| 0 <= k < after.all_tasks().len() implies (
    #[trigger] after.all_tasks()[k]).task.id != id by {
        let i = choose|i: int|
            0 <= i < after.tasks.len() && after.all_tasks()[k] == after.details(after.tasks[i]);
        assert(after.task_ids()[i] == after.tasks[i].id);
        assert(after.has_task(after.tasks[i].id));
    }
}

// ---------------------------------------------------------------------------
// Completion
// ---------------------------------------------------------------------------

/// Setting the completion flag of a stored task changes the flag and the
/// modification time of that task and nothing else in the store.
pub proof fn law_completion_changes_two_fields(
    db: DatabaseView,
    id: Seq<char>,
    completed: bool,
    now: Seq<char>,
)
    requires
        db.wf(),
        db.has_task(id),
    ensures
        ({
            let after = db.with_completion(id, completed, now);
            let at = db.task_ids().index_of(id);
            let was = db.tasks[at];
            &&& after.tasks == db.tasks.update(
                at,
                TaskView {
                    id: was.id,
                    title: was.title,
                    description: was.description,
                    due_date: was.due_date,
                    priority: was.priority,
                    completed: completed,
                    project_id: was.project_id,
                    created_at: was.created_at,
                    updated_at: now,
                },
            )
            &&& after.task(id).completed == completed
            &&& after.task(id).updated_at == now
            &&& forall|other: Seq<char>|
                other != id && db.has_task(other) ==> #[trigger] after.task(other) == db.task(other)
            &&& after.subtasks == db.subtasks
            &&& after.tags == db.tags
            &&& after.projects == db.projects
            &&& after.folders == db.folders
            &&& after.settings == db.settings
        }),
{
    let after = db.with_completion(id, completed, now);
    let ids = db.task_ids();
    assert(after.task_ids() =~= ids);
    assert forall|other: Seq<char>| other != id && db.has_task(other) implies #[trigger] after.task(
        other,
    ) == db.task(other) by {
    }
}

/// Setting the completion flag of a task that is not stored changes nothing.
pub proof fn law_completion_of_missing_task_is_void(
    db: DatabaseView,
    id: Seq<char>,
    completed: bool,
    now: Seq<char>,
)
    requires
        !db.has_task(id),
    ensures
        db.with_completion(id, completed, now) == db,
{
}

// ---------------------------------------------------------------------------
// Initialization
// ---------------------------------------------------------------------------

/// Initializing a store that was initialized changes nothing: no starter row
/// and no default setting is written twice.
pub proof fn law_initialization_is_idempotent(db: DatabaseView)
    ensures
        db.initialized().initialized() == db.initialized(),
{
    let themed = db.with_default_setting(theme_key(), "light"@);
    let moded = themed.with_default_setting(searchbar_mode_key(), "search"@);
    let once = moded.seeded();
    lemma_put_contains(db.setting_keys(), theme_key());
    assert(themed.setting_keys().contains(theme_key())) by {
        if !db.setting_keys().contains(theme_key()) {
            assert(themed.setting_keys() =~= put(
                db.setting_keys(),
                db.setting_keys(),
                theme_key(),
                theme_key(),
            ));
        }
    }
    lemma_put_contains(themed.setting_keys(), searchbar_mode_key());
    assert(moded.setting_keys().contains(searchbar_mode_key())) by {
        if !themed.setting_keys().contains(searchbar_mode_key()) {
            assert(moded.setting_keys() =~= put(
                themed.setting_keys(),
                themed.setting_keys(),
                searchbar_mode_key(),
                searchbar_mode_key(),
            ));
        }
    }
    assert(moded.setting_keys().contains(theme_key())) by {
        if !themed.setting_keys().contains(searchbar_mode_key()) {
            let at = themed.setting_keys().index_of(theme_key());
            assert(moded.setting_keys()[at] == theme_key());
        }
    }
    lemma_seeded_keeps(moded);
    assert(once.settings == moded.settings);
    assert(once.folders.len() > 0);
}

/// Seeding leaves a store with folders, and its tasks, subtasks, tags and
/// settings as they were.
pub proof fn lemma_seeded_keeps(db: DatabaseView)
    ensures
        db.seeded().folders.len() > 0,
        db.seeded().settings == db.settings,
        db.seeded().tasks == db.tasks,
        db.seeded().subtasks == db.subtasks,
        db.seeded().tags == db.tags,
{
    if db.folders.len() == 0 {
        let start = DatabaseView {
            folders: starter_folders(),
            last_folder_id: later_id(db.last_folder_id, 2),
            ..db
        };
        lemma_free_projects_keep(start, starter_projects());
        assert(starter_folders().len() == 2);
    }
}

/// Adding projects leaves the other tables as they are, and every project
/// given is stored afterwards.
pub proof fn lemma_free_projects_keep(db: DatabaseView, projects: Seq<ProjectView>)
    ensures
        db.with_free_projects(projects).folders == db.folders,
        db.with_free_projects(projects).settings == db.settings,
        db.with_free_projects(projects).tasks == db.tasks,
        db.with_free_projects(projects).subtasks == db.subtasks,
        db.with_free_projects(projects).tags == db.tags,
        db.with_free_projects(projects).last_folder_id == db.last_folder_id,
    decreases projects.len(),
{
    if projects.len() > 0 {
        lemma_free_projects_keep(db, projects.drop_last());
    }
}

/// Seeding a store without folders whose starter project ids are partly in
/// use keeps the projects stored and adds the starter projects whose ids are
/// free: it does not fail, and no stored project is overwritten.
pub proof fn law_seeding_keeps_stored_projects(db: DatabaseView)
    requires
        db.wf(),
    ensures
        db.seeded().wf(),
        forall|i: int|
            0 <= i < db.projects.len() ==> i < db.seeded().projects.len()
                && #[trigger] db.seeded().projects[i] == db.projects[i],
        db.folders.len() == 0 ==> db.seeded().has_project(1) && db.seeded().has_project(2)
            && db.seeded().has_project(3),
{
    if db.folders.len() == 0 {
        let start = DatabaseView {
            folders: starter_folders(),
            last_folder_id: later_id(db.last_folder_id, 2),
            ..db
        };
        assert(start.folder_ids() =~= seq![1i32, 2i32]);
        assert(start.project_ids() =~= db.project_ids());
        assert(start.wf());
        let all = starter_projects();
        let none = start.with_free_projects(all.take(0));
        assert(all.take(0) =~= Seq::empty());
        assert(all.take(1).drop_last() =~= all.take(0));
        assert(all.take(2).drop_last() =~= all.take(1));
        assert(all.take(3).drop_last() =~= all.take(2));
        assert(all.take(3) =~= all);
        assert(all.take(1).last() == all[0]);
        assert(all.take(2).last() == all[1]);
        assert(all.take(3).last() == all[2]);
        assert(none == start);
        let one = start.with_free_projects(all.take(1));
        let two = start.with_free_projects(all.take(2));
        let three = start.with_free_projects(all.take(3));
        assert(one == none.with_new_project(all[0]));
        assert(two == one.with_new_project(all[1]));
        assert(three == two.with_new_project(all[2]));
        lemma_with_new_project(start, all[0]);
        lemma_with_new_project(one, all[1]);
        lemma_with_new_project(two, all[2]);
        lemma_new_project_keeps(start, all[0]);
        lemma_new_project_keeps(one, all[1]);
        lemma_new_project_keeps(two, all[2]);
    }
}

/// Adding a project under a free id keeps every stored project in its place
/// and stored.
pub proof fn lemma_new_project_keeps(db: DatabaseView, project: ProjectView)
    ensures
        db.projects.len() <= db.with_new_project(project).projects.len(),
        forall|i: int|
            0 <= i < db.projects.len() ==> #[trigger] db.with_new_project(project).projects[i]
                == db.projects[i],
        forall|id: i32|
            db.has_project(id) ==> #[trigger] db.with_new_project(project).has_project(id),
{
    let out = db.with_new_project(project);
    assert forall|id: i32| db.has_project(id) implies #[trigger] out.has_project(id) by {
        let i = choose|i: int| 0 <= i < db.project_ids().len() && db.project_ids()[i] == id;
        assert(out.project_ids()[i] == id);
    }
}

/// A new store holds the starter folders and projects and the two default
/// settings.
pub proof fn law_new_store_holds_the_starter_data()
    ensures
        DatabaseView::empty().initialized().folders == starter_folders(),
        DatabaseView::empty().initialized().projects == starter_projects(),
        DatabaseView::empty().initialized().setting(theme_key()) == Some("light"@),
        DatabaseView::empty().initialized().setting(searchbar_mode_key()) == Some("search"@),
        DatabaseView::empty().initialized().tasks.len() == 0,
        DatabaseView::empty().initialized().last_folder_id == 2,
        DatabaseView::empty().initialized().last_project_id == 3,
        DatabaseView::empty().initialized().wf(),
{
    reveal_strlit("theme");
    reveal_strlit("searchbar_mode");
    let empty = DatabaseView::empty();
    let themed = empty.with_default_setting(theme_key(), "light"@);
    assert(empty.setting_keys() =~= Seq::empty());
    assert(themed.setting_keys() =~= seq![theme_key()]);
    assert(theme_key() != searchbar_mode_key()) by {
        assert(theme_key().len() == 5);
        assert(searchbar_mode_key().len() == 14);
    }
    assert(!themed.setting_keys().contains(searchbar_mode_key()));
    let moded = themed.with_default_setting(searchbar_mode_key(), "search"@);
    assert(moded.setting_keys() =~= seq![theme_key(), searchbar_mode_key()]);
    let start = DatabaseView { folders: starter_folders(), last_folder_id: 2, ..moded };
    let all = starter_projects();
    assert(start.project_ids() =~= Seq::empty());
    assert(all.take(0) =~= Seq::empty());
    assert(all.take(1).drop_last() =~= all.take(0));
    assert(all.take(2).drop_last() =~= all.take(1));
    assert(all.take(3).drop_last() =~= all.take(2));
    assert(all.take(3) =~= all);
    assert(all.take(1).last() == all[0]);
    assert(all.take(2).last() == all[1]);
    assert(all.take(3).last() == all[2]);
    assert(start.with_free_projects(all.take(0)) == start);
    let one = start.with_free_projects(all.take(1));
    assert(one == start.with_new_project(all[0]));
    assert(one.project_ids() =~= seq![1i32]);
    let two = start.with_free_projects(all.take(2));
    assert(two == one.with_new_project(all[1]));
    assert(two.project_ids() =~= seq![1i32, 2i32]);
    let three = start.with_free_projects(all.take(3));
    assert(three == two.with_new_project(all[2]));
    assert(three.project_ids() =~= seq![1i32, 2i32, 3i32]);
    let ready = empty.initialized();
    assert(ready == three);
    assert(ready.projects =~= all);
    assert(ready.folder_ids() =~= seq![1i32, 2i32]);
    assert(ready.setting_keys()[0] == theme_key());
    assert(ready.setting_keys()[1] == searchbar_mode_key());
    lemma_index_of(ready.setting_keys(), 0);
    lemma_index_of(ready.setting_keys(), 1);
    assert(ready.task_ids() =~= Seq::empty());
    assert(ready.subtask_ids() =~= Seq::empty());
}

// ---------------------------------------------------------------------------
// Ids of projects and folders
// ---------------------------------------------------------------------------

/// A folder written with the id 0 becomes a new row under an id that is not
/// 0, that is above the id of every stored folder and above every id given
/// out before; all other rows stay.
pub proof fn law_new_folder_gets_fresh_id(db: DatabaseView, folder: FolderView)
    requires
        db.wf(),
        folder.id == 0,
        db.refuses_folder(folder) is None,
    ensures
        ({
            let after = db.with_folder(folder);
            let row = after.folders.last();
            &&& after.folders == db.folders.push(row)
            &&& row == FolderView { id: row.id, ..folder }
            &&& row.id != 0
            &&& row.id > db.last_folder_id
            &&& !db.has_folder(row.id)
            &&& forall|i: int| 0 <= i < db.folders.len() ==> (#[trigger] db.folders[i]).id < row.id
            &&& after.folder_ids().no_duplicates()
        }),
{
    lemma_with_folder(db, folder);
}

/// A folder written with an id other than 0 takes the place of the row with
/// that id, or becomes a new row where there is none: no id is then held by
/// two rows.
pub proof fn law_folder_upsert_keeps_ids_unique(db: DatabaseView, folder: FolderView)
    requires
        db.wf(),
        folder.id != 0,
    ensures
        db.with_folder(folder).folder_ids().no_duplicates(),
        db.with_folder(folder).has_folder(folder.id),
        db.has_folder(folder.id) ==> db.with_folder(folder).folders.len() == db.folders.len(),
        !db.has_folder(folder.id) ==> db.with_folder(folder).folders == db.folders.push(folder),
{
    lemma_with_folder(db, folder);
    lemma_put_contains(db.folder_ids(), folder.id);
}

/// A project written with the id 0 becomes a new row under an id that is not
/// 0, that is above the id of every stored project and above every id given
/// out before; all other rows stay.
pub proof fn law_new_project_gets_fresh_id(db: DatabaseView, project: ProjectView)
    requires
        db.wf(),
        project.id == 0,
        db.refuses_project(project) is None,
    ensures
        ({
            let after = db.with_project(project);
            let row = after.projects.last();
            &&& after.projects == db.projects.push(row)
            &&& row == ProjectView { id: row.id, ..project }
            &&& row.id != 0
            &&& row.id > db.last_project_id
            &&& !db.has_project(row.id)
            &&& forall|i: int|
                0 <= i < db.projects.len() ==> (#[trigger] db.projects[i]).id < row.id
            &&& after.project_ids().no_duplicates()
        }),
{
    lemma_with_project(db, project);
}

/// A project written with an id other than 0 takes the place of the row with
/// that id, or becomes a new row where there is none: no id is then held by
/// two rows.
pub proof fn law_project_upsert_keeps_ids_unique(db: DatabaseView, project: ProjectView)
    requires
        db.wf(),
        project.id != 0,
    ensures
        db.with_project(project).project_ids().no_duplicates(),
        db.with_project(project).has_project(project.id),
        db.has_project(project.id) ==> db.with_project(project).projects.len()
            == db.projects.len(),
        !db.has_project(project.id) ==> db.with_project(project).projects == db.projects.push(
            project,
        ),
{
    lemma_with_project(db, project);
    lemma_put_contains(db.project_ids(), project.id);
}

/// The id of a deleted folder or project is not given out again: deleting
/// leaves the last id given out as it is, so the next new row gets the id
/// after it, which the deleted row did not have.
pub proof fn law_deleted_ids_are_not_reused(
    db: DatabaseView,
    id: i32,
    folder: FolderView,
    project: ProjectView,
)
    requires
        db.wf(),
        folder.id == 0,
        project.id == 0,
    ensures
        db.without_folder(id).last_folder_id == db.last_folder_id,
        db.without_project(id).last_project_id == db.last_project_id,
        db.has_folder(id) && db.last_folder_id < i32::MAX ==> db.without_folder(id).with_folder(
            folder,
        ).folders.last().id > id,
        db.has_project(id) && db.last_project_id < i32::MAX ==> db.without_project(
            id,
        ).with_project(project).projects.last().id > id,
{
    if db.has_folder(id) {
        let at = choose|i: int| 0 <= i < db.folder_ids().len() && db.folder_ids()[i] == id;
        assert(db.folders[at].id <= db.last_folder_id);
    }
    if db.has_project(id) {
        let at = choose|i: int| 0 <= i < db.project_ids().len() && db.project_ids()[i] == id;
        assert(db.projects[at].id <= db.last_project_id);
    }
}

// ---------------------------------------------------------------------------
// Listings
// ---------------------------------------------------------------------------

/// The listing of all tags holds every tag text in use once, in strictly
/// ascending order.
pub proof fn law_tags_are_listed_once_in_order(db: DatabaseView)
    ensures
        forall|t: Seq<char>|
            #[trigger] db.distinct_tags().contains(t) <==> exists|i: int|
                0 <= i < db.tags.len() && db.tags[i].tag == t,
        forall|a: int, b: int|
            0 <= a < b < db.distinct_tags().len() ==> lex_le(
                #[trigger] db.distinct_tags()[a],
                #[trigger] db.distinct_tags()[b],
            ) && !lex_le(db.distinct_tags()[b], db.distinct_tags()[a]),
{
    let texts = db.tags.map_values(tag_text());
    let once = distinct(texts);
    let order = sorted_positions(once, false);
    let listed = db.distinct_tags();
    lemma_distinct(texts);
    lemma_sorted_positions(once, false);
    assert forall|t: Seq<char>| #[trigger] listed.contains(t) <==> exists|i: int|
        0 <= i < db.tags.len() && db.tags[i].tag == t by {
        if listed.contains(t) {
            let k = choose|k: int| 0 <= k < listed.len() && listed[k] == t;
            assert(once.contains(once[order[k]]));
        }
        if exists|i: int| 0 <= i < db.tags.len() && db.tags[i].tag == t {
            let i = choose|i: int| 0 <= i < db.tags.len() && db.tags[i].tag == t;
            assert(texts[i] == t);
            assert(once.contains(t));
            let j = choose|j: int| 0 <= j < once.len() && once[j] == t;
            assert(order.contains(j));
            let k = choose|k: int| 0 <= k < order.len() && order[k] == j;
            assert(listed[k] == t);
        }
    }
    assert forall|a: int, b: int| 0 <= a < b < listed.len() implies lex_le(
        #[trigger] listed[a],
        #[trigger] listed[b],
    ) && !lex_le(listed[b], listed[a]) by {
        if lex_le(listed[b], listed[a]) {
            crate::text::lemma_lex_le_antisymmetric(listed[a], listed[b]);
        }
    }
}

/// The listing of projects holds every stored project once, by name in
/// ascending order.
pub proof fn law_projects_are_listed_by_name(db: DatabaseView)
    ensures
        db.projects_by_name().len() == db.projects.len(),
        forall|i: int|
            0 <= i < db.projects.len() ==> db.projects_by_name().contains(
                #[trigger] db.projects[i],
            ),
        forall|k: int|
            0 <= k < db.projects_by_name().len() ==> db.projects.contains(
                #[trigger] db.projects_by_name()[k],
            ),
        forall|a: int, b: int|
            0 <= a < b < db.projects_by_name().len() ==> lex_le(
                (#[trigger] db.projects_by_name()[a]).name,
                (#[trigger] db.projects_by_name()[b]).name,
            ),
{
    let keys = db.projects.map_values(|p: ProjectView| p.name);
    let order = sorted_positions(keys, false);
    let listed = db.projects_by_name();
    lemma_sorted_positions(keys, false);
    assert forall|i: int| 0 <= i < db.projects.len() implies listed.contains(
        #[trigger] db.projects[i],
    ) by {
        assert(order.contains(i));
        let k = choose|k: int| 0 <= k < order.len() && order[k] == i;
        assert(listed[k] == db.projects[i]);
    }
    assert forall|k: int| 0 <= k < listed.len() implies db.projects.contains(
        #[trigger] listed[k],
    ) by {
    }
    assert forall|a: int, b: int| 0 <= a < b < listed.len() implies lex_le(
        (#[trigger] listed[a]).name,
        (#[trigger] listed[b]).name,
    ) by {
    }
}

/// The listing of folders holds every stored folder once, by name in
/// ascending order.
pub proof fn law_folders_are_listed_by_name(db: DatabaseView)
    ensures
        db.folders_by_name().len() == db.folders.len(),
        forall|i: int|
            0 <= i < db.folders.len() ==> db.folders_by_name().contains(#[trigger] db.folders[i]),
        forall|k: int|
            0 <= k < db.folders_by_name().len() ==> db.folders.contains(
                #[trigger] db.folders_by_name()[k],
            ),
        forall|a: int, b: int|
            0 <= a < b < db.folders_by_name().len() ==> lex_le(
                (#[trigger] db.folders_by_name()[a]).name,
                (#[trigger] db.folders_by_name()[b]).name,
            ),
{
    let keys = db.folders.map_values(|f: FolderView| f.name);
    let order = sorted_positions(keys, false);
    let listed = db.folders_by_name();
    lemma_sorted_positions(keys, false);
    assert forall|i: int| 0 <= i < db.folders.len() implies listed.contains(
        #[trigger] db.folders[i],
    ) by {
        assert(order.contains(i));
        let k = choose|k: int| 0 <= k < order.len() && order[k] == i;
        assert(listed[k] == db.folders[i]);
    }
    assert forall|k: int| 0 <= k < listed.len() implies db.folders.contains(
        #[trigger] listed[k],
    ) by {
    }
    assert forall|a: int, b: int| 0 <= a < b < listed.len() implies lex_le(
        (#[trigger] listed[a]).name,
        (#[trigger] listed[b]).name,
    ) by {
    }
}

// ---------------------------------------------------------------------------
// Reading a line
// ---------------------------------------------------------------------------

/// A line in which nothing is found gives the defaults: the line itself,
/// trimmed, as the title, medium priority, and nothing else.
pub proof fn law_plain_line_gives_the_defaults(input: Seq<char>, seconds: i64)
    ensures
        ({
            let lower = lowercase_of(input);
            &&& urgency_of(lower) is Medium
            &&& relative_date_of(lower) is None
            &&& first_match(time_pattern(), lower) is None
            &&& first_groups(hashtag_pattern(), lower).len() == 0
            &&& without_matches(hashtag_pattern(), input) == input
            &&& first_group(project_pattern(), lower) is None
        }) ==> interpreted(input, seconds) == (ParsedTaskView {
            title: final_title(input),
            description: Seq::empty(),
            due_date: None,
            priority: "medium"@,
            tags: Seq::empty(),
            project_name: None,
        }),
{
}

} // verus!
