//! Every operation of the store keeps it consistent.
//!
//! For each operation of `DatabaseView` a lemma shows that the result is `wf`
//! where the store was, together with the facts about keys that the store's
//! code and the laws build on.

use crate::entities::{FolderView, ProjectView, SubtaskView, TaskView};
use crate::relations::{
    distinct,
    dropped,
    put,
    subtask_not_of,
    tag_not_of,
    DatabaseView,
};
use vstd::prelude::*;

verus! {

// ---------------------------------------------------------------------------
// Keyed tables
// ---------------------------------------------------------------------------

/// Where keys are unique, a key is found at its own position.
pub proof fn lemma_index_of<K>(keys: Seq<K>, i: int)
    requires
        keys.no_duplicates(),
        0 <= i < keys.len(),
    ensures
        keys.contains(keys[i]),
        keys.index_of(keys[i]) == i,
{
}

/// Writing under a key keeps keys unique and adds at most that key.
pub proof fn lemma_put_keys<K>(keys: Seq<K>, key: K)
    requires
        keys.no_duplicates(),
    ensures
        put(keys, keys, key, key).no_duplicates(),
        keys.contains(key) ==> put(keys, keys, key, key) == keys,
        !keys.contains(key) ==> put(keys, keys, key, key) == keys.push(key),
        forall|k: K|
            #![trigger put(keys, keys, key, key).contains(k)]
            put(keys, keys, key, key).contains(k) <==> (keys.contains(k) || k == key),
{
    let out = put(keys, keys, key, key);
    if !keys.contains(key) {
        assert forall|k: K| out.contains(k) <==> (keys.contains(k) || k == key) by {
            if keys.contains(k) {
                let i = choose|i: int| 0 <= i < keys.len() && keys[i] == k;
                assert(out[i] == k);
            }
            if k == key {
                assert(out[keys.len() as int] == k);
            }
        }
    }
}

/// After a row is written under a key, the key is there.
pub proof fn lemma_put_contains<K>(keys: Seq<K>, key: K)
    ensures
        put(keys, keys, key, key).contains(key),
{
    let out = put(keys, keys, key, key);
    if keys.contains(key) {
        let at = keys.index_of(key);
        assert(out[at] == key);
    } else {
        assert(out[keys.len() as int] == key);
    }
}

/// Dropping a key keeps keys unique and takes away exactly that key.
pub proof fn lemma_dropped_keys<K>(keys: Seq<K>, key: K)
    requires
        keys.no_duplicates(),
    ensures
        dropped(keys, keys, key).no_duplicates(),
        forall|k: K|
            #![trigger dropped(keys, keys, key).contains(k)]
            dropped(keys, keys, key).contains(k) <==> (keys.contains(k) && k != key),
{
    let out = dropped(keys, keys, key);
    if keys.contains(key) {
        let at = keys.index_of(key);
        assert forall|k: K| out.contains(k) <==> (keys.contains(k) && k != key) by {
            if keys.contains(k) && k != key {
                let i = choose|i: int| 0 <= i < keys.len() && keys[i] == k;
                if i < at {
                    assert(out[i] == k);
                } else {
                    assert(out[i - 1] == k);
                }
            }
        }
    }
}

/// Keeping the first occurrence of each text repeats nothing and loses no text.
pub proof fn lemma_distinct(texts: Seq<Seq<char>>)
    ensures
        distinct(texts).no_duplicates(),
        forall|t: Seq<char>| #[trigger] distinct(texts).contains(t) <==> texts.contains(t),
    decreases texts.len(),
{
    if texts.len() > 0 {
        let front = texts.drop_last();
        lemma_distinct(front);
        let d = distinct(front);
        let out = distinct(texts);
        assert forall|t: Seq<char>| #[trigger] out.contains(t) <==> texts.contains(t) by {
            if out.contains(t) {
                let i = choose|i: int| 0 <= i < out.len() && out[i] == t;
                if i < d.len() {
                    assert(d.contains(t));
                }
            }
            if texts.contains(t) {
                let j = choose|j: int| 0 <= j < texts.len() && texts[j] == t;
                if j < front.len() {
                    assert(front[j] == t);
                    assert(d.contains(t));
                    let i = choose|i: int| 0 <= i < d.len() && d[i] == t;
                    assert(out[i] == t);
                } else if !d.contains(t) {
                    assert(out[d.len() as int] == t);
                }
            }
        }
    }
}

/// A text list without repetition is its own list of first occurrences.
pub proof fn lemma_distinct_of_distinct(texts: Seq<Seq<char>>)
    requires
        texts.no_duplicates(),
    ensures
        distinct(texts) == texts,
    decreases texts.len(),
{
    if texts.len() > 0 {
        let front = texts.drop_last();
        lemma_distinct_of_distinct(front);
    }
}

/// What a filter keeps: the rows that meet the predicate, in their order,
/// and so without repetition where there was none.
pub proof fn lemma_filter<R>(rows: Seq<R>, pred: spec_fn(R) -> bool)
    ensures
        forall|r: R| #[trigger] rows.filter(pred).contains(r) <==> (rows.contains(r) && pred(r)),
        rows.no_duplicates() ==> rows.filter(pred).no_duplicates(),
    decreases rows.len(),
{
    reveal(Seq::filter);
    let out = rows.filter(pred);
    if rows.len() > 0 {
        let front = rows.drop_last();
        let last = rows.last();
        lemma_filter(front, pred);
        let sub = front.filter(pred);
        assert forall|r: R| #[trigger] out.contains(r) <==> (rows.contains(r) && pred(r)) by {
            if out.contains(r) {
                let i = choose|i: int| 0 <= i < out.len() && out[i] == r;
                if i < sub.len() {
                    assert(sub.contains(r));
                }
            }
        }
        if rows.no_duplicates() {
            if pred(last) {
                assert forall|a: int, b: int|
                    0 <= a < out.len() && 0 <= b < out.len() && a != b implies out[a] != out[b] by {
                    if a == sub.len() {
                        assert(sub.contains(out[b]));
                    }
                    if b == sub.len() {
                        assert(sub.contains(out[a]));
                    }
                }
            }
        }
    }
}

/// A filter keeps the keys of the rows it keeps unique.
pub proof fn lemma_filter_keys<R, K>(rows: Seq<R>, pred: spec_fn(R) -> bool, key: spec_fn(R) -> K)
    requires
        rows.map_values(key).no_duplicates(),
    ensures
        rows.filter(pred).map_values(key).no_duplicates(),
    decreases rows.len(),
{
    reveal(Seq::filter);
    let out = rows.filter(pred);
    if rows.len() > 0 {
        let front = rows.drop_last();
        let last = rows.last();
        assert(front.map_values(key).no_duplicates()) by {
            assert forall|a: int, b: int|
                0 <= a < front.len() && 0 <= b < front.len() && a != b implies front.map_values(
                key,
            )[a] != front.map_values(key)[b] by {
                assert(rows.map_values(key)[a] != rows.map_values(key)[b]);
            }
        }
        lemma_filter_keys(front, pred, key);
        lemma_filter(front, pred);
        let sub = front.filter(pred);
        if pred(last) {
            assert forall|a: int, b: int|
                0 <= a < out.len() && 0 <= b < out.len() && a != b implies out.map_values(key)[a]
                != out.map_values(key)[b] by {
                if a < sub.len() && b < sub.len() {
                    assert(sub.map_values(key)[a] != sub.map_values(key)[b]);
                } else {
                    let other = if a == sub.len() {
                        b
                    } else {
                        a
                    };
                    assert(sub.contains(sub[other]));
                    let j = choose|j: int| 0 <= j < front.len() && front[j] == sub[other];
                    assert(rows.map_values(key)[j] != rows.map_values(key)[rows.len() - 1]);
                }
            }
        }
    }
}

// ---------------------------------------------------------------------------
// Tasks
// ---------------------------------------------------------------------------

/// Writing a task keeps the store consistent and adds at most its id.
pub proof fn lemma_with_task(db: DatabaseView, task: TaskView)
    requires
        db.wf(),
    ensures
        db.with_task(task).wf(),
        db.with_task(task).task_ids() == put(db.task_ids(), db.task_ids(), task.id, task.id),
        forall|id: Seq<char>|
            #![trigger db.with_task(task).has_task(id)]
            db.with_task(task).has_task(id) <==> (db.has_task(id) || id == task.id),
{
    let out = db.with_task(task);
    assert(out.task_ids() =~= put(db.task_ids(), db.task_ids(), task.id, task.id));
    lemma_put_keys(db.task_ids(), task.id);
    assert forall|i: int| 0 <= i < out.subtasks.len() implies out.has_task(
        #[trigger] out.subtasks[i].task_id,
    ) by {
    }
    assert forall|i: int| 0 <= i < out.tags.len() implies out.has_task(
        #[trigger] out.tags[i].task_id,
    ) by {
    }
}

/// Deleting a task keeps the store consistent, takes away exactly its id, and
/// leaves no subtask or tag of it.
pub proof fn lemma_without_task(db: DatabaseView, id: Seq<char>)
    requires
        db.wf(),
    ensures
        db.without_task(id).wf(),
        forall|other: Seq<char>|
            #![trigger db.without_task(id).has_task(other)]
            db.without_task(id).has_task(other) <==> (db.has_task(other) && other != id),
        forall|i: int|
            0 <= i < db.without_task(id).subtasks.len() ==> (
            #[trigger] db.without_task(id).subtasks[i]).task_id != id,
        forall|i: int|
            0 <= i < db.without_task(id).tags.len() ==> (
            #[trigger] db.without_task(id).tags[i]).task_id != id,
{
    let out = db.without_task(id);
    assert(out.task_ids() =~= dropped(db.task_ids(), db.task_ids(), id));
    lemma_dropped_keys(db.task_ids(), id);
    let key = |s: SubtaskView| s.id;
    lemma_filter_keys(db.subtasks, subtask_not_of(id), key);
    lemma_filter(db.subtasks, subtask_not_of(id));
    lemma_filter(db.tags, tag_not_of(id));
    assert forall|i: int| 0 <= i < out.subtasks.len() implies out.has_task(
        #[trigger] out.subtasks[i].task_id,
    ) && out.subtasks[i].task_id != id by {
        let s = out.subtasks[i];
        assert(out.subtasks.contains(s));
    }
    assert forall|i: int| 0 <= i < out.tags.len() implies out.has_task(
        #[trigger] out.tags[i].task_id,
    ) && out.tags[i].task_id != id by {
        let g = out.tags[i];
        assert(out.tags.contains(g));
    }
}

/// Setting a completion flag keeps the store consistent and the task ids as
/// they are.
pub proof fn lemma_with_completion(db: DatabaseView, id: Seq<char>, completed: bool, now: Seq<char>)
    requires
        db.wf(),
    ensures
        db.with_completion(id, completed, now).wf(),
        db.with_completion(id, completed, now).task_ids() == db.task_ids(),
{
    if db.has_task(id) {
        let task = TaskView { completed: completed, updated_at: now, ..db.task(id) };
        lemma_with_task(db, task);
    }
}

// ---------------------------------------------------------------------------
// Subtasks
// ---------------------------------------------------------------------------

/// Writing a subtask of a stored task keeps the store consistent.
pub proof fn lemma_with_subtask(db: DatabaseView, subtask: SubtaskView)
    requires
        db.wf(),
        db.has_task(subtask.task_id),
    ensures
        db.with_subtask(subtask).wf(),
        db.with_subtask(subtask).subtask_ids() == put(
            db.subtask_ids(),
            db.subtask_ids(),
            subtask.id,
            subtask.id,
        ),
{
    let out = db.with_subtask(subtask);
    assert(out.subtask_ids() =~= put(db.subtask_ids(), db.subtask_ids(), subtask.id, subtask.id));
    assert forall|i: int| 0 <= i < out.subtasks.len() implies out.has_task(
        #[trigger] out.subtasks[i].task_id,
    ) by {
    }
}

/// Deleting the subtasks of a task keeps the store consistent.
pub proof fn lemma_without_subtasks_of(db: DatabaseView, task_id: Seq<char>)
    requires
        db.wf(),
    ensures
        db.without_subtasks_of(task_id).wf(),
{
    let out = db.without_subtasks_of(task_id);
    let key = |s: SubtaskView| s.id;
    lemma_filter_keys(db.subtasks, subtask_not_of(task_id), key);
    lemma_filter(db.subtasks, subtask_not_of(task_id));
    assert forall|i: int| 0 <= i < out.subtasks.len() implies out.has_task(
        #[trigger] out.subtasks[i].task_id,
    ) by {
        let s = out.subtasks[i];
        assert(out.subtasks.contains(s));
    }
}

/// Deleting a subtask keeps the store consistent.
pub proof fn lemma_without_subtask(db: DatabaseView, id: Seq<char>)
    requires
        db.wf(),
    ensures
        db.without_subtask(id).wf(),
        forall|other: Seq<char>|
            #![trigger db.without_subtask(id).has_subtask(other)]
            db.without_subtask(id).has_subtask(other) <==> (db.has_subtask(other) && other != id),
{
    let out = db.without_subtask(id);
    assert(out.subtask_ids() =~= dropped(db.subtask_ids(), db.subtask_ids(), id));
    lemma_dropped_keys(db.subtask_ids(), id);
    assert forall|i: int| 0 <= i < out.subtasks.len() implies out.has_task(
        #[trigger] out.subtasks[i].task_id,
    ) by {
    }
}

// ---------------------------------------------------------------------------
// Tags
// ---------------------------------------------------------------------------

/// Replacing the tag set of a task keeps the store consistent.
pub proof fn lemma_with_tags(db: DatabaseView, task_id: Seq<char>, tags: Seq<Seq<char>>)
    requires
        db.wf(),
        db.accepts_tags(task_id, tags),
    ensures
        db.with_tags(task_id, tags).wf(),
{
    let out = db.with_tags(task_id, tags);
    let kept = db.tags.filter(tag_not_of(task_id));
    lemma_filter(db.tags, tag_not_of(task_id));
    lemma_distinct(tags);
    assert forall|i: int| 0 <= i < kept.len() implies (#[trigger] kept[i]).task_id != task_id
        && db.has_task(kept[i].task_id) by {
        assert(kept.contains(kept[i]));
    }
    assert forall|i: int| 0 <= i < out.tags.len() implies out.has_task(
        #[trigger] out.tags[i].task_id,
    ) by {
    }
}

// ---------------------------------------------------------------------------
// Projects and folders
// ---------------------------------------------------------------------------

/// Writing a project keeps the store consistent; a new project gets an id
/// that no stored project has.
pub proof fn lemma_with_project(db: DatabaseView, project: ProjectView)
    requires
        db.wf(),
        project.id == 0 ==> db.last_project_id < i32::MAX,
    ensures
        db.with_project(project).wf(),
        project.id == 0 ==> !db.has_project((db.last_project_id + 1) as i32),
        project.id == 0 ==> db.with_project(project).project_ids() == db.project_ids().push(
            (db.last_project_id + 1) as i32,
        ),
        project.id != 0 ==> db.with_project(project).project_ids() == put(
            db.project_ids(),
            db.project_ids(),
            project.id,
            project.id,
        ),
{
    let out = db.with_project(project);
    let ids = db.project_ids();
    if project.id == 0 {
        let id = (db.last_project_id + 1) as i32;
        assert(!ids.contains(id)) by {
            if ids.contains(id) {
                let i = choose|i: int| 0 <= i < ids.len() && ids[i] == id;
                assert(db.projects[i].id <= db.last_project_id);
            }
        }
        assert(out.project_ids() =~= ids.push(id));
        assert(ids.push(id) == put(ids, ids, id, id));
        lemma_put_keys(ids, id);
        assert forall|i: int| 0 <= i < out.projects.len() implies (#[trigger] out.projects[i]).id
            <= out.last_project_id by {
            if i < db.projects.len() {
                assert(db.projects[i].id <= db.last_project_id);
            }
        }
    } else {
        assert(out.project_ids() =~= put(ids, ids, project.id, project.id));
        lemma_put_keys(ids, project.id);
        assert forall|i: int| 0 <= i < out.projects.len() implies (#[trigger] out.projects[i]).id
            <= out.last_project_id by {
            if i < db.projects.len() && out.projects[i] == db.projects[i] {
                assert(db.projects[i].id <= db.last_project_id);
            }
        }
    }
}

/// Adding a project under a free id keeps the store consistent.
pub proof fn lemma_with_new_project(db: DatabaseView, project: ProjectView)
    requires
        db.wf(),
    ensures
        db.with_new_project(project).wf(),
        db.with_new_project(project).has_project(project.id),
        db.with_new_project(project).folders == db.folders,
{
    let out = db.with_new_project(project);
    let ids = db.project_ids();
    if !db.has_project(project.id) {
        assert(out.project_ids() =~= ids.push(project.id));
        assert(ids.push(project.id) == put(ids, ids, project.id, project.id));
        lemma_put_keys(ids, project.id);
        lemma_put_contains(ids, project.id);
        assert forall|i: int| 0 <= i < out.projects.len() implies (#[trigger] out.projects[i]).id
            <= out.last_project_id by {
            if i < db.projects.len() {
                assert(db.projects[i].id <= db.last_project_id);
            }
        }
    }
}

/// Deleting a project keeps the store consistent.
pub proof fn lemma_without_project(db: DatabaseView, id: i32)
    requires
        db.wf(),
    ensures
        db.without_project(id).wf(),
        forall|other: i32|
            #![trigger db.without_project(id).has_project(other)]
            db.without_project(id).has_project(other) <==> (db.has_project(other) && other != id),
{
    let out = db.without_project(id);
    assert(out.project_ids() =~= dropped(db.project_ids(), db.project_ids(), id));
    lemma_dropped_keys(db.project_ids(), id);
    assert forall|i: int| 0 <= i < out.projects.len() implies (#[trigger] out.projects[i]).id
        <= out.last_project_id by {
        if db.project_ids().contains(id) {
            let at = db.project_ids().index_of(id);
            if i < at {
                assert(db.projects[i].id <= db.last_project_id);
            } else {
                assert(db.projects[i + 1].id <= db.last_project_id);
            }
        } else {
            assert(db.projects[i].id <= db.last_project_id);
        }
    }
}

/// Writing a folder keeps the store consistent; a new folder gets an id that
/// no stored folder has.
pub proof fn lemma_with_folder(db: DatabaseView, folder: FolderView)
    requires
        db.wf(),
        folder.id == 0 ==> db.last_folder_id < i32::MAX,
    ensures
        db.with_folder(folder).wf(),
        folder.id == 0 ==> !db.has_folder((db.last_folder_id + 1) as i32),
        folder.id == 0 ==> db.with_folder(folder).folder_ids() == db.folder_ids().push(
            (db.last_folder_id + 1) as i32,
        ),
        folder.id != 0 ==> db.with_folder(folder).folder_ids() == put(
            db.folder_ids(),
            db.folder_ids(),
            folder.id,
            folder.id,
        ),
{
    let out = db.with_folder(folder);
    let ids = db.folder_ids();
    if folder.id == 0 {
        let id = (db.last_folder_id + 1) as i32;
        assert(!ids.contains(id)) by {
            if ids.contains(id) {
                let i = choose|i: int| 0 <= i < ids.len() && ids[i] == id;
                assert(db.folders[i].id <= db.last_folder_id);
            }
        }
        assert(out.folder_ids() =~= ids.push(id));
        assert(ids.push(id) == put(ids, ids, id, id));
        lemma_put_keys(ids, id);
        assert forall|i: int| 0 <= i < out.folders.len() implies (#[trigger] out.folders[i]).id
            <= out.last_folder_id by {
            if i < db.folders.len() {
                assert(db.folders[i].id <= db.last_folder_id);
            }
        }
    } else {
        assert(out.folder_ids() =~= put(ids, ids, folder.id, folder.id));
        lemma_put_keys(ids, folder.id);
        assert forall|i: int| 0 <= i < out.folders.len() implies (#[trigger] out.folders[i]).id
            <= out.last_folder_id by {
            if i < db.folders.len() && out.folders[i] == db.folders[i] {
                assert(db.folders[i].id <= db.last_folder_id);
            }
        }
    }
}

/// Deleting a folder keeps the store consistent.
pub proof fn lemma_without_folder(db: DatabaseView, id: i32)
    requires
        db.wf(),
    ensures
        db.without_folder(id).wf(),
        forall|other: i32|
            #![trigger db.without_folder(id).has_folder(other)]
            db.without_folder(id).has_folder(other) <==> (db.has_folder(other) && other != id),
{
    let out = db.without_folder(id);
    assert(out.folder_ids() =~= dropped(db.folder_ids(), db.folder_ids(), id));
    lemma_dropped_keys(db.folder_ids(), id);
    assert forall|i: int| 0 <= i < out.folders.len() implies (#[trigger] out.folders[i]).id
        <= out.last_folder_id by {
        if db.folder_ids().contains(id) {
            let at = db.folder_ids().index_of(id);
            if i < at {
                assert(db.folders[i].id <= db.last_folder_id);
            } else {
                assert(db.folders[i + 1].id <= db.last_folder_id);
            }
        } else {
            assert(db.folders[i].id <= db.last_folder_id);
        }
    }
}

// ---------------------------------------------------------------------------
// Settings
// ---------------------------------------------------------------------------

/// Writing a setting keeps the store consistent; the key then has the value.
pub proof fn lemma_with_setting(db: DatabaseView, key: Seq<char>, value: Seq<char>)
    requires
        db.wf(),
    ensures
        db.with_setting(key, value).wf(),
        db.with_setting(key, value).setting_keys() == put(
            db.setting_keys(),
            db.setting_keys(),
            key,
            key,
        ),
        db.with_setting(key, value).setting(key) == Some(value),
        forall|other: Seq<char>|
            other != key ==> #[trigger] db.with_setting(key, value).setting(other) == db.setting(
                other,
            ),
{
    let out = db.with_setting(key, value);
    let keys = db.setting_keys();
    assert(out.setting_keys() =~= put(keys, keys, key, key));
    lemma_put_keys(keys, key);
}

} // verus!
