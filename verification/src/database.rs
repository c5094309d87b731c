//! The store.
//!
//! A `Database` holds the six tables and keeps them consistent: whatever is
//! done to a store, its keys stay unique and its subtasks and tags stay with
//! their tasks. Each operation's contract gives the store afterwards as a
//! function of the store before, over `DatabaseView`, and says that the store
//! is consistent (`wf`) before and after.

use crate::clock::read_clock;
use crate::consistency::{
    lemma_put_contains,
    lemma_with_completion,
    lemma_with_folder,
    lemma_with_new_project,
    lemma_with_project,
    lemma_with_setting,
    lemma_with_subtask,
    lemma_with_tags,
    lemma_with_task,
    lemma_without_folder,
    lemma_without_project,
    lemma_without_subtask,
    lemma_without_subtasks_of,
    lemma_without_task,
};
use crate::entities::{
    clone_text,
    Folder,
    Project,
    Settings,
    Subtask,
    Tag,
    Task,
    TaskWithDetails,
};
use crate::laws::{
    law_deleted_task_is_gone,
    law_initialization_is_idempotent,
    law_new_store_holds_the_starter_data,
    law_replacing_tags_is_idempotent,
};
use crate::relations::{
    distinct,
    later_id,
    mobile_mode_key,
    put,
    rows_affected,
    searchbar_mode_key,
    starter_folders,
    starter_projects,
    subtask_of,
    tag_for,
    tag_of,
    tag_text,
    theme_key,
    DatabaseView,
    StoreError,
};
use crate::sorting::{lemma_sorted_positions, positions, sort_positions};
use crate::tables::{
    distinct_texts,
    drop_subtasks_of,
    drop_tags_of,
    starter_folder_rows,
    starter_project_rows,
    texts_at,
    Tables,
};
use vstd::prelude::*;

verus! {

/// A task store. Its rows can be reached through its operations only, which
/// is what keeps it consistent.
pub struct Database {
    tables: Tables,
}

impl View for Database {
    type V = DatabaseView;

    closed spec fn view(&self) -> DatabaseView {
        self.tables@
    }
}

impl Database {
    /// What holds of every store.
    #[verifier::type_invariant]
    spec fn consistent(&self) -> bool {
        self.tables@.wf()
    }

    /// Takes the tables out to work on them; they are put back by assignment.
    fn take(&mut self) -> (t: Tables)
        ensures
            t@ == old(self)@,
            t@.wf(),
    {
        proof {
            use_type_invariant(&*self);
        }
        let mut t = Tables::empty();
        core::mem::swap(&mut self.tables, &mut t);
        t
    }

    /// The store that the rows make, where they are consistent.
    pub fn from_tables(tables: Tables) -> (r: Option<Database>)
        ensures
            tables@.wf() ==> r is Some && r->0@ == tables@ && r->0@.wf(),
            !tables@.wf() ==> r is None,
    {
        if tables.is_consistent() {
            Some(Database { tables: tables })
        } else {
            None
        }
    }

    /// A copy of the rows of the store.
    pub fn tables(&self) -> (r: Tables)
        ensures
            r@ == self@,
            self@.wf(),
    {
        proof {
            use_type_invariant(self);
        }
        self.tables.clone()
    }

    /// A store that holds nothing.
    pub fn empty() -> (db: Database)
        ensures
            db@ == DatabaseView::empty(),
            db@.wf(),
    {
        Database { tables: Tables::empty() }
    }

    /// Writes `task` under its id: a new row, or over the row with that id.
    /// Refused where the task names a project that is not stored.
    pub fn save_task(&mut self, task: &Task) -> (r: Result<(), StoreError>)
        ensures
            old(self)@.accepts_task(task@) ==> r is Ok && final(self)@ == old(self)@.with_task(
                task@,
            ),
            !old(self)@.accepts_task(task@) ==> r == Err::<(), StoreError>(
                StoreError::MissingProject,
            ) && final(self)@ == old(self)@,
            r is Ok ==> final(self)@.has_task(task@.id),
            old(self)@.wf(),
            final(self)@.wf(),
    {
        let mut t = self.take();
        let ghost before = t@;
        proof {
            lemma_with_task(before, task@);
        }
        let accepted = match task.project_id {
            Some(p) => t.find_project(p).is_some(),
            None => true,
        };
        if accepted {
            match t.find_task(&task.id) {
                Some(i) => {
                    t.tasks.set(i, task.clone());
                    proof {
                        assert(t@.tasks =~= before.tasks.update(i as int, task@));
                    }
                },
                None => {
                    t.tasks.push(task.clone());
                    proof {
                        assert(t@.tasks =~= before.tasks.push(task@));
                    }
                },
            }
        }
        self.tables = t;
        if accepted {
            Ok(())
        } else {
            Err(StoreError::MissingProject)
        }
    }

    /// Deletes the task `task_id` with its subtasks and tags and returns the
    /// number of tasks deleted. Where no such task is stored, nothing changes.
    pub fn delete_task(&mut self, task_id: &str) -> (r: usize)
        ensures
            r == rows_affected(old(self)@.has_task(task_id@)),
            final(self)@ == old(self)@.without_task(task_id@),
            !final(self)@.has_task(task_id@),
            final(self)@.subtasks_of(task_id@).len() == 0,
            final(self)@.tags_of(task_id@).len() == 0,
            old(self)@.wf(),
            final(self)@.wf(),
    {
        let id = task_id.to_owned();
        let mut t = self.take();
        let ghost before = t@;
        proof {
            lemma_without_task(before, id@);
            law_deleted_task_is_gone(before, id@);
        }
        drop_subtasks_of(&mut t.subtasks, &id);
        drop_tags_of(&mut t.tags, &id);
        let affected: usize = match t.find_task(&id) {
            Some(i) => {
                t.tasks.remove(i);
                proof {
                    assert(t@.tasks =~= before.tasks.remove(i as int));
                }
                1
            },
            None => 0,
        };
        self.tables = t;
        affected
    }

    /// Gives the task `task_id` the completion flag `completed` and the
    /// modification time `now`, and returns the number of tasks changed. Where
    /// no such task is stored, nothing changes.
    pub fn set_task_completion(&mut self, task_id: &str, completed: bool, now: String) -> (r: usize)
        ensures
            r == rows_affected(old(self)@.has_task(task_id@)),
            final(self)@ == old(self)@.with_completion(task_id@, completed, now@),
            old(self)@.wf(),
            final(self)@.wf(),
    {
        let id = task_id.to_owned();
        let mut t = self.take();
        let ghost before = t@;
        proof {
            lemma_with_completion(before, id@, completed, now@);
        }
        let affected: usize = match t.find_task(&id) {
            Some(i) => {
                let row = &t.tasks[i];
                let changed = Task {
                    id: row.id.clone(),
                    title: row.title.clone(),
                    description: row.description.clone(),
                    due_date: clone_text(&row.due_date),
                    priority: row.priority.clone(),
                    completed: completed,
                    project_id: row.project_id,
                    created_at: row.created_at.clone(),
                    updated_at: now,
                };
                t.tasks.set(i, changed);
                proof {
                    assert(t@.tasks =~= before.tasks.update(i as int, changed@));
                }
                1
            },
            None => 0,
        };
        self.tables = t;
        affected
    }

    /// Gives the task `task_id` the completion flag `completed` and the time
    /// of the call as its modification time, and returns the number of tasks
    /// changed. Where no such task is stored, nothing changes.
    pub fn update_task_completion(&mut self, task_id: &str, completed: bool) -> (r: usize)
        ensures
            r == rows_affected(old(self)@.has_task(task_id@)),
            exists|now: Seq<char>|
                final(self)@ == old(self)@.with_completion(task_id@, completed, now),
            old(self)@.wf(),
            final(self)@.wf(),
    {
        let now = read_clock().timestamp;
        self.set_task_completion(task_id, completed, now)
    }

    /// Writes `subtask` under its id: a new row, or over the row with that id.
    /// Refused where its task is not stored.
    pub fn save_subtask(&mut self, subtask: &Subtask) -> (r: Result<(), StoreError>)
        ensures
            old(self)@.has_task(subtask@.task_id) ==> r is Ok && final(self)@
                == old(self)@.with_subtask(subtask@),
            !old(self)@.has_task(subtask@.task_id) ==> r == Err::<(), StoreError>(
                StoreError::MissingTask,
            ) && final(self)@ == old(self)@,
            r is Ok ==> final(self)@.has_subtask(subtask@.id),
            old(self)@.wf(),
            final(self)@.wf(),
    {
        let mut t = self.take();
        let ghost before = t@;
        let accepted = t.find_task(&subtask.task_id).is_some();
        if accepted {
            proof {
                lemma_with_subtask(before, subtask@);
                lemma_put_contains(before.subtask_ids(), subtask@.id);
            }
            match t.find_subtask(&subtask.id) {
                Some(i) => {
                    t.subtasks.set(i, subtask.clone());
                    proof {
                        assert(t@.subtasks =~= before.subtasks.update(i as int, subtask@));
                    }
                },
                None => {
                    t.subtasks.push(subtask.clone());
                    proof {
                        assert(t@.subtasks =~= before.subtasks.push(subtask@));
                    }
                },
            }
        }
        self.tables = t;
        if accepted {
            Ok(())
        } else {
            Err(StoreError::MissingTask)
        }
    }

    /// The subtasks of the task `task_id`, in storage order.
    pub fn get_subtasks_for_task(&self, task_id: &str) -> (r: Vec<Subtask>)
        ensures
            r.deep_view() == self@.subtasks_of(task_id@),
            self@.wf(),
    {
        proof {
            use_type_invariant(self);
        }
        let id = task_id.to_owned();
        let rows = &self.tables.subtasks;
        let ghost all = rows.deep_view();
        let mut out: Vec<Subtask> = Vec::new();
        let mut i: usize = 0;
        while i < rows.len()
            invariant
                i <= rows.len(),
                all == rows.deep_view(),
                out.deep_view() == all.take(i as int).filter(subtask_of(id@)),
            decreases rows.len() - i,
        {
            proof {
                assert(all.take(i + 1) =~= all.take(i as int).push(all[i as int]));
                all.take(i as int).lemma_filter_push(all[i as int], subtask_of(id@));
            }
            if rows[i].task_id == id {
                out.push(rows[i].clone());
            }
            i += 1;
        }
        proof {
            assert(all.take(i as int) =~= all);
        }
        out
    }

    /// The task `task_id`, if stored.
    pub fn get_task(&self, task_id: &str) -> (r: Option<Task>)
        ensures
            self@.has_task(task_id@) ==> r.deep_view() == Some(self@.task(task_id@)),
            !self@.has_task(task_id@) ==> r is None,
            self@.wf(),
    {
        proof {
            use_type_invariant(self);
        }
        let id = task_id.to_owned();
        match self.tables.find_task(&id) {
            Some(i) => Some(self.tables.tasks[i].clone()),
            None => None,
        }
    }

    /// The subtask `subtask_id`, if stored.
    pub fn get_subtask(&self, subtask_id: &str) -> (r: Option<Subtask>)
        ensures
            self@.has_subtask(subtask_id@) ==> r.deep_view() == Some(self@.subtask(subtask_id@)),
            self@.has_subtask(subtask_id@) ==> self@.has_task(self@.subtask(subtask_id@).task_id),
            !self@.has_subtask(subtask_id@) ==> r is None,
            self@.wf(),
    {
        proof {
            use_type_invariant(self);
        }
        let id = subtask_id.to_owned();
        match self.tables.find_subtask(&id) {
            Some(i) => Some(self.tables.subtasks[i].clone()),
            None => None,
        }
    }

    /// Deletes the subtasks of the task `task_id`.
    pub fn delete_subtasks_for_task(&mut self, task_id: &str)
        ensures
            final(self)@ == old(self)@.without_subtasks_of(task_id@),
            old(self)@.wf(),
            final(self)@.wf(),
    {
        let id = task_id.to_owned();
        let mut t = self.take();
        proof {
            lemma_without_subtasks_of(t@, id@);
        }
        drop_subtasks_of(&mut t.subtasks, &id);
        self.tables = t;
    }

    /// Deletes the subtask `subtask_id` and returns the number of subtasks
    /// deleted. Where no such subtask is stored, nothing changes.
    pub fn delete_subtask(&mut self, subtask_id: &str) -> (r: usize)
        ensures
            r == rows_affected(old(self)@.has_subtask(subtask_id@)),
            final(self)@ == old(self)@.without_subtask(subtask_id@),
            old(self)@.wf(),
            final(self)@.wf(),
    {
        let id = subtask_id.to_owned();
        let mut t = self.take();
        let ghost before = t@;
        proof {
            lemma_without_subtask(before, id@);
        }
        let affected: usize = match t.find_subtask(&id) {
            Some(i) => {
                t.subtasks.remove(i);
                proof {
                    assert(t@.subtasks =~= before.subtasks.remove(i as int));
                }
                1
            },
            None => 0,
        };
        self.tables = t;
        affected
    }

    /// Replaces the tag set of the task `task_id` by `tags`, each text once.
    /// Refused where there are tags to write and the task is not stored.
    pub fn save_tags_for_task(&mut self, task_id: &str, tags: &[String]) -> (r: Result<
        (),
        StoreError,
    >)
        ensures
            old(self)@.accepts_tags(task_id@, tags.deep_view()) ==> r is Ok && final(self)@
                == old(self)@.with_tags(task_id@, tags.deep_view()),
            !old(self)@.accepts_tags(task_id@, tags.deep_view()) ==> r == Err::<(), StoreError>(
                StoreError::MissingTask,
            ) && final(self)@ == old(self)@,
            r is Ok ==> final(self)@.tags_of(task_id@) == distinct(tags.deep_view()),
            old(self)@.wf(),
            final(self)@.wf(),
    {
        let id = task_id.to_owned();
        let mut t = self.take();
        let ghost before = t@;
        let accepted = tags.len() == 0 || t.find_task(&id).is_some();
        if accepted {
            proof {
                lemma_with_tags(before, id@, tags.deep_view());
            }
            drop_tags_of(&mut t.tags, &id);
            let fresh = distinct_texts(tags);
            let ghost kept = t.tags.deep_view();
            let ghost wanted = fresh.deep_view();
            let mut i: usize = 0;
            while i < fresh.len()
                invariant
                    i <= fresh.len(),
                    wanted == fresh.deep_view(),
                    t.tags.deep_view() == kept + wanted.take(i as int).map_values(tag_for(id@)),
                    t@.folders == before.folders,
                    t@.projects == before.projects,
                    t@.tasks == before.tasks,
                    t@.subtasks == before.subtasks,
                    t@.settings == before.settings,
                    t@.last_folder_id == before.last_folder_id,
                    t@.last_project_id == before.last_project_id,
                decreases fresh.len() - i,
            {
                let ghost so_far = t.tags.deep_view();
                let tag = Tag { task_id: id.clone(), tag: fresh[i].clone() };
                t.tags.push(tag);
                proof {
                    assert(t.tags.deep_view() =~= so_far.push(tag@));
                    assert(t.tags.deep_view() =~= kept + wanted.take(i + 1).map_values(
                        tag_for(id@),
                    ));
                }
                i += 1;
            }
            proof {
                assert(wanted.take(i as int) =~= wanted);
                assert(t@.tags_of(id@) == distinct(tags.deep_view())) by {
                    law_replacing_tags_is_idempotent(before, id@, tags.deep_view());
                }
            }
        }
        self.tables = t;
        if accepted {
            Ok(())
        } else {
            Err(StoreError::MissingTask)
        }
    }

    /// The tag texts of the task `task_id`, in storage order.
    pub fn get_tags_for_task(&self, task_id: &str) -> (r: Vec<String>)
        ensures
            r.deep_view() == self@.tags_of(task_id@),
            self@.wf(),
    {
        proof {
            use_type_invariant(self);
        }
        let id = task_id.to_owned();
        let rows = &self.tables.tags;
        let ghost all = rows.deep_view();
        let mut out: Vec<String> = Vec::new();
        let mut i: usize = 0;
        while i < rows.len()
            invariant
                i <= rows.len(),
                all == rows.deep_view(),
                out.deep_view() == all.take(i as int).filter(tag_of(id@)).map_values(tag_text()),
            decreases rows.len() - i,
        {
            let ghost kept = all.take(i as int).filter(tag_of(id@));
            proof {
                assert(all.take(i + 1) =~= all.take(i as int).push(all[i as int]));
                all.take(i as int).lemma_filter_push(all[i as int], tag_of(id@));
            }
            if rows[i].task_id == id {
                out.push(rows[i].tag.clone());
                proof {
                    assert(kept.push(all[i as int]).map_values(tag_text()) =~= kept.map_values(
                        tag_text(),
                    ).push(all[i as int].tag));
                }
            }
            i += 1;
        }
        proof {
            assert(all.take(i as int) =~= all);
        }
        out
    }

    /// Every tag text in use, each once, in ascending order.
    pub fn get_all_tags(&self) -> (r: Vec<String>)
        ensures
            r.deep_view() == self@.distinct_tags(),
            self@.wf(),
    {
        proof {
            use_type_invariant(self);
        }
        let rows = &self.tables.tags;
        let ghost all = rows.deep_view();
        let mut texts: Vec<String> = Vec::new();
        let mut i: usize = 0;
        while i < rows.len()
            invariant
                i <= rows.len(),
                all == rows.deep_view(),
                texts.len() == i,
                forall|j: int| 0 <= j < i ==> texts.deep_view()[j] == all[j].tag,
            decreases rows.len() - i,
        {
            let ghost so_far = texts.deep_view();
            texts.push(rows[i].tag.clone());
            proof {
                assert(texts.deep_view() =~= so_far.push(all[i as int].tag));
            }
            i += 1;
        }
        proof {
            assert(texts.deep_view() =~= all.map_values(tag_text()));
        }
        let once = distinct_texts(texts.as_slice());
        let order = sort_positions(&once, false);
        proof {
            lemma_sorted_positions(once.deep_view(), false);
            assert forall|k: int| 0 <= k < order.len() implies order[k] < once.len() by {
                assert(positions(order@)[k] == order[k] as int);
            }
        }
        texts_at(&once, &order)
    }

    /// Every task with its subtasks and tags, the most recently created first.
    pub fn get_all_tasks(&self) -> (r: Vec<TaskWithDetails>)
        ensures
            r.deep_view() == self@.all_tasks(),
            r.len() == self@.tasks.len(),
            self@.wf(),
    {
        proof {
            use_type_invariant(self);
        }
        let rows = &self.tables.tasks;
        let ghost all = rows.deep_view();
        let mut times: Vec<String> = Vec::new();
        let mut i: usize = 0;
        while i < rows.len()
            invariant
                i <= rows.len(),
                all == rows.deep_view(),
                times.len() == i,
                forall|j: int| 0 <= j < i ==> times.deep_view()[j] == all[j].created_at,
            decreases rows.len() - i,
        {
            let ghost so_far = times.deep_view();
            times.push(rows[i].created_at.clone());
            proof {
                assert(times.deep_view() =~= so_far.push(all[i as int].created_at));
            }
            i += 1;
        }
        proof {
            assert(times.deep_view() =~= self@.creation_times());
        }
        let order = sort_positions(&times, true);
        proof {
            lemma_sorted_positions(times.deep_view(), true);
            assert forall|k: int| 0 <= k < order.len() implies order[k] < rows.len() by {
                assert(positions(order@)[k] == order[k] as int);
            }
        }
        let mut out: Vec<TaskWithDetails> = Vec::new();
        let mut k: usize = 0;
        while k < order.len()
            invariant
                k <= order.len(),
                out.len() == k,
                all == rows.deep_view(),
                rows == &self.tables.tasks,
                forall|j: int| 0 <= j < order.len() ==> order[j] < rows.len(),
                forall|j: int|
                    0 <= j < k ==> out.deep_view()[j] == self@.details(all[order[j] as int]),
            decreases order.len() - k,
        {
            let ghost so_far = out.deep_view();
            let task = rows[order[k]].clone();
            let subtasks = self.get_subtasks_for_task(task.id.as_str());
            let tags = self.get_tags_for_task(task.id.as_str());
            let entry = TaskWithDetails { task: task, subtasks: subtasks, tags: tags };
            out.push(entry);
            proof {
                assert(out.deep_view() =~= so_far.push(entry@));
            }
            k += 1;
        }
        out
    }

    /// Writes `project`: as a new row with the next id where its id is 0, else
    /// under its id. Refused where it names a folder that is not stored, or
    /// where no id is left for a new row.
    pub fn save_project(&mut self, project: &Project) -> (r: Result<(), StoreError>)
        ensures
            match old(self)@.refuses_project(project@) {
                None => r is Ok && final(self)@ == old(self)@.with_project(project@),
                Some(e) => r == Err::<(), StoreError>(e) && final(self)@ == old(self)@,
            },
            r is Ok && project.id == 0 ==> final(self)@.projects.len() == old(self)@.projects.len()
                + 1 && final(self)@.projects.last().id != 0 && !old(self)@.has_project(
                final(self)@.projects.last().id,
            ),
            old(self)@.wf(),
            final(self)@.wf(),
    {
        let mut t = self.take();
        let ghost before = t@;
        let folder_missing = match project.folder_id {
            Some(f) => t.find_folder(f).is_none(),
            None => false,
        };
        let r = if folder_missing {
            Err(StoreError::MissingFolder)
        } else if project.id == 0 {
            if t.last_project_id == i32::MAX {
                Err(StoreError::IdsExhausted)
            } else {
                proof {
                    lemma_with_project(before, project@);
                }
                let row = Project {
                    id: t.last_project_id + 1,
                    name: project.name.clone(),
                    color: project.color.clone(),
                    description: clone_text(&project.description),
                    folder_id: project.folder_id,
                };
                t.projects.push(row);
                t.last_project_id = t.last_project_id + 1;
                proof {
                    assert(t@.projects =~= before.projects.push(row@));
                }
                Ok(())
            }
        } else {
            proof {
                lemma_with_project(before, project@);
            }
            match t.find_project(project.id) {
                Some(i) => {
                    t.projects.set(i, project.clone());
                    proof {
                        assert(t@.projects =~= before.projects.update(i as int, project@));
                    }
                },
                None => {
                    t.projects.push(project.clone());
                    proof {
                        assert(t@.projects =~= before.projects.push(project@));
                    }
                },
            }
            if project.id > t.last_project_id {
                t.last_project_id = project.id;
            }
            Ok(())
        };
        self.tables = t;
        r
    }

    /// The projects by name, ascending.
    pub fn get_all_projects(&self) -> (r: Vec<Project>)
        ensures
            r.deep_view() == self@.projects_by_name(),
            r.len() == self@.projects.len(),
            self@.wf(),
    {
        proof {
            use_type_invariant(self);
        }
        let rows = &self.tables.projects;
        let ghost all = rows.deep_view();
        let mut names: Vec<String> = Vec::new();
        let mut i: usize = 0;
        while i < rows.len()
            invariant
                i <= rows.len(),
                all == rows.deep_view(),
                names.len() == i,
                forall|j: int| 0 <= j < i ==> names.deep_view()[j] == all[j].name,
            decreases rows.len() - i,
        {
            let ghost so_far = names.deep_view();
            names.push(rows[i].name.clone());
            proof {
                assert(names.deep_view() =~= so_far.push(all[i as int].name));
            }
            i += 1;
        }
        let ghost keys = self@.projects.map_values(|p: crate::entities::ProjectView| p.name);
        proof {
            assert(names.deep_view() =~= keys);
        }
        let order = sort_positions(&names, false);
        proof {
            lemma_sorted_positions(keys, false);
            assert forall|k: int| 0 <= k < order.len() implies order[k] < rows.len() by {
                assert(positions(order@)[k] == order[k] as int);
            }
        }
        let mut out: Vec<Project> = Vec::new();
        let mut k: usize = 0;
        while k < order.len()
            invariant
                k <= order.len(),
                out.len() == k,
                all == rows.deep_view(),
                forall|j: int| 0 <= j < order.len() ==> order[j] < rows.len(),
                forall|j: int| 0 <= j < k ==> out.deep_view()[j] == all[order[j] as int],
            decreases order.len() - k,
        {
            let ghost so_far = out.deep_view();
            out.push(rows[order[k]].clone());
            proof {
                assert(out.deep_view() =~= so_far.push(all[order[k as int] as int]));
            }
            k += 1;
        }
        out
    }

    /// Deletes the project `project_id` and returns the number of projects
    /// deleted. Tasks that name it keep naming it. Where no such project is
    /// stored, nothing changes.
    pub fn delete_project(&mut self, project_id: i32) -> (r: usize)
        ensures
            r == rows_affected(old(self)@.has_project(project_id)),
            final(self)@ == old(self)@.without_project(project_id),
            old(self)@.wf(),
            final(self)@.wf(),
    {
        let mut t = self.take();
        let ghost before = t@;
        proof {
            lemma_without_project(before, project_id);
        }
        let affected: usize = match t.find_project(project_id) {
            Some(i) => {
                t.projects.remove(i);
                proof {
                    assert(t@.projects =~= before.projects.remove(i as int));
                }
                1
            },
            None => 0,
        };
        self.tables = t;
        affected
    }

    /// Writes `folder`: as a new row with the next id where its id is 0, else
    /// under its id. Refused where no id is left for a new row.
    pub fn save_folder(&mut self, folder: &Folder) -> (r: Result<(), StoreError>)
        ensures
            match old(self)@.refuses_folder(folder@) {
                None => r is Ok && final(self)@ == old(self)@.with_folder(folder@),
                Some(e) => r == Err::<(), StoreError>(e) && final(self)@ == old(self)@,
            },
            r is Ok && folder.id == 0 ==> final(self)@.folders.len() == old(self)@.folders.len() + 1
                && final(self)@.folders.last().id != 0 && !old(self)@.has_folder(
                final(self)@.folders.last().id,
            ),
            old(self)@.wf(),
            final(self)@.wf(),
    {
        let mut t = self.take();
        let ghost before = t@;
        let r = if folder.id == 0 {
            if t.last_folder_id == i32::MAX {
                Err(StoreError::IdsExhausted)
            } else {
                proof {
                    lemma_with_folder(before, folder@);
                }
                let row = Folder {
                    id: t.last_folder_id + 1,
                    name: folder.name.clone(),
                    color: folder.color.clone(),
                    description: clone_text(&folder.description),
                };
                t.folders.push(row);
                t.last_folder_id = t.last_folder_id + 1;
                proof {
                    assert(t@.folders =~= before.folders.push(row@));
                }
                Ok(())
            }
        } else {
            proof {
                lemma_with_folder(before, folder@);
            }
            match t.find_folder(folder.id) {
                Some(i) => {
                    t.folders.set(i, folder.clone());
                    proof {
                        assert(t@.folders =~= before.folders.update(i as int, folder@));
                    }
                },
                None => {
                    t.folders.push(folder.clone());
                    proof {
                        assert(t@.folders =~= before.folders.push(folder@));
                    }
                },
            }
            if folder.id > t.last_folder_id {
                t.last_folder_id = folder.id;
            }
            Ok(())
        };
        self.tables = t;
        r
    }

    /// The folders by name, ascending.
    pub fn get_all_folders(&self) -> (r: Vec<Folder>)
        ensures
            r.deep_view() == self@.folders_by_name(),
            r.len() == self@.folders.len(),
            self@.wf(),
    {
        proof {
            use_type_invariant(self);
        }
        let rows = &self.tables.folders;
        let ghost all = rows.deep_view();
        let mut names: Vec<String> = Vec::new();
        let mut i: usize = 0;
        while i < rows.len()
            invariant
                i <= rows.len(),
                all == rows.deep_view(),
                names.len() == i,
                forall|j: int| 0 <= j < i ==> names.deep_view()[j] == all[j].name,
            decreases rows.len() - i,
        {
            let ghost so_far = names.deep_view();
            names.push(rows[i].name.clone());
            proof {
                assert(names.deep_view() =~= so_far.push(all[i as int].name));
            }
            i += 1;
        }
        let ghost keys = self@.folders.map_values(|f: crate::entities::FolderView| f.name);
        proof {
            assert(names.deep_view() =~= keys);
        }
        let order = sort_positions(&names, false);
        proof {
            lemma_sorted_positions(keys, false);
            assert forall|k: int| 0 <= k < order.len() implies order[k] < rows.len() by {
                assert(positions(order@)[k] == order[k] as int);
            }
        }
        let mut out: Vec<Folder> = Vec::new();
        let mut k: usize = 0;
        while k < order.len()
            invariant
                k <= order.len(),
                out.len() == k,
                all == rows.deep_view(),
                forall|j: int| 0 <= j < order.len() ==> order[j] < rows.len(),
                forall|j: int| 0 <= j < k ==> out.deep_view()[j] == all[order[j] as int],
            decreases order.len() - k,
        {
            let ghost so_far = out.deep_view();
            out.push(rows[order[k]].clone());
            proof {
                assert(out.deep_view() =~= so_far.push(all[order[k as int] as int]));
            }
            k += 1;
        }
        out
    }

    /// Deletes the folder `folder_id` and returns the number of folders
    /// deleted. Projects that name it keep naming it. Where no such folder is
    /// stored, nothing changes.
    pub fn delete_folder(&mut self, folder_id: i32) -> (r: usize)
        ensures
            r == rows_affected(old(self)@.has_folder(folder_id)),
            final(self)@ == old(self)@.without_folder(folder_id),
            old(self)@.wf(),
            final(self)@.wf(),
    {
        let mut t = self.take();
        let ghost before = t@;
        proof {
            lemma_without_folder(before, folder_id);
        }
        let affected: usize = match t.find_folder(folder_id) {
            Some(i) => {
                t.folders.remove(i);
                proof {
                    assert(t@.folders =~= before.folders.remove(i as int));
                }
                1
            },
            None => 0,
        };
        self.tables = t;
        affected
    }

    /// Writes `value` under `key`.
    pub fn save_setting(&mut self, key: &str, value: &str)
        ensures
            final(self)@ == old(self)@.with_setting(key@, value@),
            old(self)@.wf(),
            final(self)@.wf(),
    {
        let row = Settings { key: key.to_owned(), value: value.to_owned() };
        let mut t = self.take();
        let ghost before = t@;
        proof {
            lemma_with_setting(before, key@, value@);
        }
        match t.find_setting(&row.key) {
            Some(i) => {
                t.settings.set(i, row);
                proof {
                    assert(t@.settings =~= before.settings.update(i as int, row@));
                }
            },
            None => {
                t.settings.push(row);
                proof {
                    assert(t@.settings =~= before.settings.push(row@));
                }
            },
        }
        self.tables = t;
    }

    /// The value stored under `key`, if any.
    pub fn get_setting(&self, key: &str) -> (r: Option<String>)
        ensures
            r.deep_view() == self@.setting(key@),
            self@.wf(),
    {
        proof {
            use_type_invariant(self);
        }
        let k = key.to_owned();
        match self.tables.find_setting(&k) {
            Some(i) => Some(self.tables.settings[i].value.clone()),
            None => None,
        }
    }

    /// Stores the theme.
    pub fn set_theme(&mut self, theme: &str)
        ensures
            final(self)@ == old(self)@.with_setting(theme_key(), theme@),
            old(self)@.wf(),
            final(self)@.wf(),
    {
        self.save_setting("theme", theme)
    }

    /// The stored theme, or `light` where none is stored.
    pub fn get_theme(&self) -> (r: String)
        ensures
            r@ == match self@.setting(theme_key()) {
                Some(theme) => theme,
                None => "light"@,
            },
            self@.wf(),
    {
        proof {
            use_type_invariant(self);
        }
        match self.get_setting("theme") {
            Some(theme) => theme,
            None => "light".to_owned(),
        }
    }

    /// Stores the mobile-mode flag as `true` or `false`.
    pub fn set_mobile_mode(&mut self, enabled: bool)
        ensures
            final(self)@ == old(self)@.with_setting(
                mobile_mode_key(),
                if enabled {
                    "true"@
                } else {
                    "false"@
                },
            ),
            old(self)@.wf(),
            final(self)@.wf(),
    {
        let value = if enabled {
            "true"
        } else {
            "false"
        };
        self.save_setting("mobile_mode", value)
    }

    /// The mobile-mode flag: set where the stored value is `true`.
    pub fn get_mobile_mode(&self) -> (r: bool)
        ensures
            r == (self@.setting(mobile_mode_key()) == Some("true"@)),
            self@.wf(),
    {
        proof {
            use_type_invariant(self);
        }
        match self.get_setting("mobile_mode") {
            Some(value) => value == "true".to_owned(),
            None => false,
        }
    }

    /// Seeds a store without folders with the starter folders and with each
    /// starter project whose id is free; any other store is left as it is.
    pub fn seed_initial_data(&mut self)
        ensures
            final(self)@ == old(self)@.seeded(),
            old(self)@.wf(),
            final(self)@.wf(),
    {
        let mut t = self.take();
        let ghost before = t@;
        if t.folders.len() == 0 {
            t.folders = starter_folder_rows();
            if t.last_folder_id < 2 {
                t.last_folder_id = 2;
            }
            let projects = starter_project_rows();
            let ghost start = t@;
            let ghost wanted = starter_projects();
            let mut i: usize = 0;
            proof {
                assert(before.folders =~= Seq::empty());
                assert(start.folder_ids() =~= seq![1i32, 2i32]);
                assert(start.project_ids() =~= before.project_ids());
                assert(start == DatabaseView {
                    folders: starter_folders(),
                    last_folder_id: later_id(before.last_folder_id, 2),
                    ..before
                });
                assert(start.wf());
                assert(wanted.take(0) =~= Seq::empty());
            }
            while i < projects.len()
                invariant
                    i <= projects.len(),
                    projects.deep_view() == wanted,
                    t@.wf(),
                    t@ == start.with_free_projects(wanted.take(i as int)),
                decreases projects.len() - i,
            {
                let ghost now = t@;
                proof {
                    assert(wanted.take(i + 1).drop_last() =~= wanted.take(i as int));
                    assert(wanted.take(i + 1).last() == wanted[i as int]);
                    lemma_with_new_project(now, wanted[i as int]);
                }
                if t.find_project(projects[i].id).is_none() {
                    t.projects.push(projects[i].clone());
                    if projects[i].id > t.last_project_id {
                        t.last_project_id = projects[i].id;
                    }
                    proof {
                        assert(t@.projects =~= now.projects.push(wanted[i as int]));
                    }
                }
                i += 1;
            }
            proof {
                assert(wanted.take(i as int) =~= wanted);
            }
        }
        self.tables = t;
    }

    /// Makes a store ready for use: writes the default theme and search-bar
    /// mode where none is stored, then seeds the store. Doing so again changes
    /// nothing.
    pub fn init_tables(&mut self)
        ensures
            final(self)@ == old(self)@.initialized(),
            final(self)@.initialized() == final(self)@,
            old(self)@.wf(),
            final(self)@.wf(),
    {
        proof {
            law_initialization_is_idempotent(self@);
        }
        if self.get_setting("theme").is_none() {
            self.save_setting("theme", "light");
        }
        if self.get_setting("searchbar_mode").is_none() {
            self.save_setting("searchbar_mode", "search");
        }
        self.seed_initial_data()
    }

    /// A new store, ready for use: it holds the starter folders and projects
    /// and the default settings.
    pub fn new() -> (db: Database)
        ensures
            db@ == DatabaseView::empty().initialized(),
            db@.folders == starter_folders(),
            db@.projects == starter_projects(),
            db@.setting(theme_key()) == Some("light"@),
            db@.setting(searchbar_mode_key()) == Some("search"@),
            db@.tasks.len() == 0,
            db@.wf(),
    {
        proof {
            law_new_store_holds_the_starter_data();
        }
        let mut db = Database::empty();
        db.init_tables();
        db
    }
}

} // verus!
