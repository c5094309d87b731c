//! The tables of a store as plain rows.
//!
//! `Tables` is what a store is made of and what it can be saved as. It keeps
//! no promise by itself: `is_consistent` decides whether rows read from
//! elsewhere can make a store.

use crate::consistency::lemma_index_of;
use crate::entities::{Folder, Project, Settings, Subtask, Tag, Task};
use crate::relations::{
    distinct,
    starter_folders,
    starter_projects,
    subtask_not_of,
    tag_not_of,
    DatabaseView,
};
use crate::sorting::positions;
use vstd::prelude::*;

verus! {

/// The tables of a store, in storage order.
pub struct Tables {
    pub folders: Vec<Folder>,
    pub projects: Vec<Project>,
    pub tasks: Vec<Task>,
    pub subtasks: Vec<Subtask>,
    pub tags: Vec<Tag>,
    pub settings: Vec<Settings>,
    /// The largest id that a folder was ever written under.
    pub last_folder_id: i32,
    /// The largest id that a project was ever written under.
    pub last_project_id: i32,
}

impl View for Tables {
    type V = DatabaseView;

    open spec fn view(&self) -> DatabaseView {
        DatabaseView {
            folders: self.folders.deep_view(),
            projects: self.projects.deep_view(),
            tasks: self.tasks.deep_view(),
            subtasks: self.subtasks.deep_view(),
            tags: self.tags.deep_view(),
            settings: self.settings.deep_view(),
            last_folder_id: self.last_folder_id,
            last_project_id: self.last_project_id,
        }
    }
}

impl Tables {
    /// Tables without rows.
    pub fn empty() -> (t: Tables)
        ensures
            t@ == DatabaseView::empty(),
    {
        let t = Tables {
            folders: Vec::new(),
            projects: Vec::new(),
            tasks: Vec::new(),
            subtasks: Vec::new(),
            tags: Vec::new(),
            settings: Vec::new(),
            last_folder_id: 0,
            last_project_id: 0,
        };
        proof {
            assert(t@.folders =~= Seq::empty());
            assert(t@.projects =~= Seq::empty());
            assert(t@.tasks =~= Seq::empty());
            assert(t@.subtasks =~= Seq::empty());
            assert(t@.tags =~= Seq::empty());
            assert(t@.settings =~= Seq::empty());
        }
        t
    }

    /// The position of the task `id`.
    pub(crate) fn find_task(&self, id: &String) -> (r: Option<usize>)
        requires
            self@.wf(),
        ensures
            match r {
                Some(i) => i < self.tasks.len() && self@.has_task(id@)
                    && self@.task_ids().index_of(id@) == i,
                None => !self@.has_task(id@),
            },
    {
        let mut i: usize = 0;
        while i < self.tasks.len()
            invariant
                i <= self.tasks.len(),
                self@.wf(),
                forall|j: int| 0 <= j < i ==> self@.task_ids()[j] != id@,
            decreases self.tasks.len() - i,
        {
            if self.tasks[i].id == *id {
                proof {
                    lemma_index_of(self@.task_ids(), i as int);
                }
                return Some(i);
            }
            i += 1;
        }
        None
    }

    /// The position of the project `id`.
    pub(crate) fn find_project(&self, id: i32) -> (r: Option<usize>)
        requires
            self@.wf(),
        ensures
            match r {
                Some(i) => i < self.projects.len() && self@.has_project(id)
                    && self@.project_ids().index_of(id) == i,
                None => !self@.has_project(id),
            },
    {
        let mut i: usize = 0;
        while i < self.projects.len()
            invariant
                i <= self.projects.len(),
                self@.wf(),
                forall|j: int| 0 <= j < i ==> self@.project_ids()[j] != id,
            decreases self.projects.len() - i,
        {
            if self.projects[i].id == id {
                proof {
                    lemma_index_of(self@.project_ids(), i as int);
                }
                return Some(i);
            }
            i += 1;
        }
        None
    }

    /// The position of the folder `id`.
    pub(crate) fn find_folder(&self, id: i32) -> (r: Option<usize>)
        requires
            self@.wf(),
        ensures
            match r {
                Some(i) => i < self.folders.len() && self@.has_folder(id)
                    && self@.folder_ids().index_of(id) == i,
                None => !self@.has_folder(id),
            },
    {
        let mut i: usize = 0;
        while i < self.folders.len()
            invariant
                i <= self.folders.len(),
                self@.wf(),
                forall|j: int| 0 <= j < i ==> self@.folder_ids()[j] != id,
            decreases self.folders.len() - i,
        {
            if self.folders[i].id == id {
                proof {
                    lemma_index_of(self@.folder_ids(), i as int);
                }
                return Some(i);
            }
            i += 1;
        }
        None
    }

    /// The position of the setting `key`.
    pub(crate) fn find_setting(&self, key: &String) -> (r: Option<usize>)
        requires
            self@.wf(),
        ensures
            match r {
                Some(i) => i < self.settings.len() && self@.setting_keys().contains(key@)
                    && self@.setting_keys().index_of(key@) == i,
                None => !self@.setting_keys().contains(key@),
            },
    {
        let mut i: usize = 0;
        while i < self.settings.len()
            invariant
                i <= self.settings.len(),
                self@.wf(),
                forall|j: int| 0 <= j < i ==> self@.setting_keys()[j] != key@,
            decreases self.settings.len() - i,
        {
            if self.settings[i].key == *key {
                proof {
                    lemma_index_of(self@.setting_keys(), i as int);
                }
                return Some(i);
            }
            i += 1;
        }
        None
    }

    /// The position of the subtask `id`.
    pub(crate) fn find_subtask(&self, id: &String) -> (r: Option<usize>)
        requires
            self@.wf(),
        ensures
            match r {
                Some(i) => i < self.subtasks.len() && self@.has_subtask(id@)
                    && self@.subtask_ids().index_of(id@) == i,
                None => !self@.has_subtask(id@),
            },
    {
        let mut i: usize = 0;
        while i < self.subtasks.len()
            invariant
                i <= self.subtasks.len(),
                self@.wf(),
                forall|j: int| 0 <= j < i ==> self@.subtask_ids()[j] != id@,
            decreases self.subtasks.len() - i,
        {
            if self.subtasks[i].id == *id {
                proof {
                    lemma_index_of(self@.subtask_ids(), i as int);
                }
                return Some(i);
            }
            i += 1;
        }
        None
    }
}

/// Takes the subtasks of the task `id` out of `rows`.
pub(crate) fn drop_subtasks_of(rows: &mut Vec<Subtask>, id: &String)
    ensures
        final(rows).deep_view() == old(rows).deep_view().filter(subtask_not_of(id@)),
{
    let ghost before = rows.deep_view();
    let ghost mut seen: int = 0;
    let mut i: usize = 0;
    while i < rows.len()
        invariant
            i <= rows.len(),
            0 <= seen <= before.len(),
            rows.len() - i == before.len() - seen,
            rows.deep_view().take(i as int) == before.take(seen).filter(subtask_not_of(id@)),
            rows.deep_view().skip(i as int) == before.skip(seen),
        decreases rows.len() - i,
    {
        let ghost now = rows.deep_view();
        proof {
            assert(now[i as int] == now.skip(i as int)[0]);
            assert(before.take(seen + 1) =~= before.take(seen).push(before[seen]));
            before.take(seen).lemma_filter_push(before[seen], subtask_not_of(id@));
        }
        if rows[i].task_id == *id {
            rows.remove(i);
            proof {
                assert(rows.deep_view().skip(i as int) =~= now.skip(i as int).skip(1));
            }
        } else {
            proof {
                assert(now.skip(i + 1) =~= now.skip(i as int).skip(1));
            }
            i += 1;
        }
        proof {
            seen = seen + 1;
        }
    }
    proof {
        assert(before.take(seen) =~= before);
    }
}

/// Takes the tags of the task `id` out of `rows`.
pub(crate) fn drop_tags_of(rows: &mut Vec<Tag>, id: &String)
    ensures
        final(rows).deep_view() == old(rows).deep_view().filter(tag_not_of(id@)),
{
    let ghost before = rows.deep_view();
    let ghost mut seen: int = 0;
    let mut i: usize = 0;
    while i < rows.len()
        invariant
            i <= rows.len(),
            0 <= seen <= before.len(),
            rows.len() - i == before.len() - seen,
            rows.deep_view().take(i as int) == before.take(seen).filter(tag_not_of(id@)),
            rows.deep_view().skip(i as int) == before.skip(seen),
        decreases rows.len() - i,
    {
        let ghost now = rows.deep_view();
        proof {
            assert(now[i as int] == now.skip(i as int)[0]);
            assert(before.take(seen + 1) =~= before.take(seen).push(before[seen]));
            before.take(seen).lemma_filter_push(before[seen], tag_not_of(id@));
        }
        if rows[i].task_id == *id {
            rows.remove(i);
            proof {
                assert(rows.deep_view().skip(i as int) =~= now.skip(i as int).skip(1));
            }
        } else {
            proof {
                assert(now.skip(i + 1) =~= now.skip(i as int).skip(1));
            }
            i += 1;
        }
        proof {
            seen = seen + 1;
        }
    }
    proof {
        assert(before.take(seen) =~= before);
    }
}

/// Decides whether `text` is among `texts`.
pub(crate) fn holds_text(texts: &Vec<String>, text: &String) -> (r: bool)
    ensures
        r == texts.deep_view().contains(text@),
{
    let mut i: usize = 0;
    while i < texts.len()
        invariant
            i <= texts.len(),
            forall|j: int| 0 <= j < i ==> texts.deep_view()[j] != text@,
        decreases texts.len() - i,
    {
        if texts[i] == *text {
            proof {
                assert(texts.deep_view()[i as int] == text@);
            }
            return true;
        }
        i += 1;
    }
    false
}

/// The first occurrence of each text of `texts`, in order.
pub(crate) fn distinct_texts(texts: &[String]) -> (r: Vec<String>)
    ensures
        r.deep_view() == distinct(texts.deep_view()),
{
    let ghost all = texts.deep_view();
    let mut out: Vec<String> = Vec::new();
    let mut i: usize = 0;
    while i < texts.len()
        invariant
            i <= texts.len(),
            all == texts.deep_view(),
            out.deep_view() == distinct(all.take(i as int)),
        decreases texts.len() - i,
    {
        proof {
            assert(all.take(i + 1).drop_last() =~= all.take(i as int));
        }
        if !holds_text(&out, &texts[i]) {
            out.push(texts[i].clone());
        }
        i += 1;
    }
    proof {
        assert(all.take(i as int) =~= all);
    }
    out
}

/// The texts at the positions of `order`, in that order.
pub(crate) fn texts_at(texts: &Vec<String>, order: &Vec<usize>) -> (r: Vec<String>)
    requires
        forall|k: int| 0 <= k < order.len() ==> order[k] < texts.len(),
    ensures
        r.deep_view() == positions(order@).map_values(|i: int| texts.deep_view()[i]),
{
    let mut out: Vec<String> = Vec::new();
    let mut k: usize = 0;
    while k < order.len()
        invariant
            k <= order.len(),
            out.len() == k,
            forall|j: int| 0 <= j < order.len() ==> order[j] < texts.len(),
            forall|j: int| 0 <= j < k ==> out.deep_view()[j] == texts.deep_view()[order[j] as int],
        decreases order.len() - k,
    {
        let ghost so_far = out.deep_view();
        out.push(texts[order[k]].clone());
        proof {
            assert(out.deep_view() =~= so_far.push(texts.deep_view()[order[k as int] as int]));
        }
        k += 1;
    }
    out
}

/// The folders that an empty store starts with.
pub(crate) fn starter_folder_rows() -> (r: Vec<Folder>)
    ensures
        r.deep_view() == starter_folders(),
{
    let mut rows: Vec<Folder> = Vec::new();
    rows.push(
        Folder {
            id: 1,
            name: "Work & Career".to_owned(),
            color: "bg-blue-600".to_owned(),
            description: Some("Professional projects and development".to_owned()),
        },
    );
    rows.push(
        Folder {
            id: 2,
            name: "Life & Wellness".to_owned(),
            color: "bg-green-600".to_owned(),
            description: Some("Personal growth and health".to_owned()),
        },
    );
    rows
}

/// The projects that an empty store starts with.
pub(crate) fn starter_project_rows() -> (r: Vec<Project>)
    ensures
        r.deep_view() == starter_projects(),
{
    let mut rows: Vec<Project> = Vec::new();
    rows.push(
        Project {
            id: 1,
            name: "Work".to_owned(),
            color: "bg-blue-500".to_owned(),
            description: Some("Work-related tasks".to_owned()),
            folder_id: Some(1),
        },
    );
    rows.push(
        Project {
            id: 2,
            name: "Personal".to_owned(),
            color: "bg-green-500".to_owned(),
            description: Some("Personal tasks and errands".to_owned()),
            folder_id: Some(2),
        },
    );
    rows.push(
        Project {
            id: 3,
            name: "Health".to_owned(),
            color: "bg-purple-500".to_owned(),
            description: Some("Health and fitness goals".to_owned()),
            folder_id: Some(2),
        },
    );
    rows
}

/// Decides whether no number stands twice in `ids`.
fn distinct_numbers(ids: &Vec<i32>) -> (r: bool)
    ensures
        r == ids@.no_duplicates(),
{
    let mut i: usize = 0;
    while i < ids.len()
        invariant
            i <= ids.len(),
            forall|a: int, b: int| 0 <= a < b < i ==> ids@[a] != ids@[b],
        decreases ids.len() - i,
    {
        let mut j: usize = 0;
        while j < i
            invariant
                j <= i < ids.len(),
                forall|a: int| 0 <= a < j ==> ids@[a] != ids@[i as int],
            decreases i - j,
        {
            if ids[j] == ids[i] {
                return false;
            }
            j += 1;
        }
        i += 1;
    }
    true
}

/// Decides whether no text stands twice in `keys`.
fn distinct_keys(keys: &Vec<String>) -> (r: bool)
    ensures
        r == keys.deep_view().no_duplicates(),
{
    let ghost all = keys.deep_view();
    let mut i: usize = 0;
    while i < keys.len()
        invariant
            i <= keys.len(),
            all == keys.deep_view(),
            forall|a: int, b: int| 0 <= a < b < i ==> all[a] != all[b],
        decreases keys.len() - i,
    {
        let mut j: usize = 0;
        while j < i
            invariant
                j <= i < keys.len(),
                all == keys.deep_view(),
                forall|a: int| 0 <= a < j ==> all[a] != all[i as int],
            decreases i - j,
        {
            if keys[j] == keys[i] {
                proof {
                    assert(all[j as int] == all[i as int]);
                }
                return false;
            }
            j += 1;
        }
        i += 1;
    }
    true
}

/// Decides whether no tag stands twice in `tags`.
fn distinct_tags(tags: &Vec<Tag>) -> (r: bool)
    ensures
        r == tags.deep_view().no_duplicates(),
{
    let ghost all = tags.deep_view();
    let mut i: usize = 0;
    while i < tags.len()
        invariant
            i <= tags.len(),
            all == tags.deep_view(),
            forall|a: int, b: int| 0 <= a < b < i ==> all[a] != all[b],
        decreases tags.len() - i,
    {
        let mut j: usize = 0;
        while j < i
            invariant
                j <= i < tags.len(),
                all == tags.deep_view(),
                forall|a: int| 0 <= a < j ==> all[a] != all[i as int],
            decreases i - j,
        {
            if tags[j].task_id == tags[i].task_id && tags[j].tag == tags[i].tag {
                proof {
                    assert(all[j as int] == all[i as int]);
                }
                return false;
            }
            j += 1;
        }
        i += 1;
    }
    true
}

/// Decides whether no number of `ids` is above `last`.
fn none_above(ids: &Vec<i32>, last: i32) -> (r: bool)
    ensures
        r == forall|i: int| 0 <= i < ids.len() ==> #[trigger] ids@[i] <= last,
{
    let mut i: usize = 0;
    while i < ids.len()
        invariant
            i <= ids.len(),
            forall|j: int| 0 <= j < i ==> #[trigger] ids@[j] <= last,
        decreases ids.len() - i,
    {
        if ids[i] > last {
            return false;
        }
        i += 1;
    }
    true
}

/// Decides whether every text of `owners` is among `keys`.
fn all_among(owners: &Vec<String>, keys: &Vec<String>) -> (r: bool)
    ensures
        r == forall|i: int|
            0 <= i < owners.len() ==> keys.deep_view().contains(#[trigger] owners.deep_view()[i]),
{
    let mut i: usize = 0;
    while i < owners.len()
        invariant
            i <= owners.len(),
            forall|j: int|
                0 <= j < i ==> keys.deep_view().contains(#[trigger] owners.deep_view()[j]),
        decreases owners.len() - i,
    {
        if !holds_text(keys, &owners[i]) {
            proof {
                assert(!keys.deep_view().contains(owners.deep_view()[i as int]));
            }
            return false;
        }
        i += 1;
    }
    true
}

impl Tables {
    /// The id of each folder, in storage order.
    fn folder_ids(&self) -> (r: Vec<i32>)
        ensures
            r@ == self@.folder_ids(),
    {
        let mut out: Vec<i32> = Vec::new();
        let mut i: usize = 0;
        while i < self.folders.len()
            invariant
                i <= self.folders.len(),
                out.len() == i,
                forall|j: int| 0 <= j < i ==> out@[j] == self@.folder_ids()[j],
            decreases self.folders.len() - i,
        {
            out.push(self.folders[i].id);
            i += 1;
        }
        out
    }

    /// The id of each project, in storage order.
    fn project_ids(&self) -> (r: Vec<i32>)
        ensures
            r@ == self@.project_ids(),
    {
        let mut out: Vec<i32> = Vec::new();
        let mut i: usize = 0;
        while i < self.projects.len()
            invariant
                i <= self.projects.len(),
                out.len() == i,
                forall|j: int| 0 <= j < i ==> out@[j] == self@.project_ids()[j],
            decreases self.projects.len() - i,
        {
            out.push(self.projects[i].id);
            i += 1;
        }
        out
    }

    /// The id of each task, in storage order.
    fn task_ids(&self) -> (r: Vec<String>)
        ensures
            r.deep_view() == self@.task_ids(),
    {
        let mut out: Vec<String> = Vec::new();
        let mut i: usize = 0;
        while i < self.tasks.len()
            invariant
                i <= self.tasks.len(),
                out.len() == i,
                forall|j: int| 0 <= j < i ==> out.deep_view()[j] == self@.task_ids()[j],
            decreases self.tasks.len() - i,
        {
            let ghost so_far = out.deep_view();
            out.push(self.tasks[i].id.clone());
            proof {
                assert(out.deep_view() =~= so_far.push(self.tasks[i as int].id@));
            }
            i += 1;
        }
        out
    }

    /// The id of each subtask, in storage order.
    fn subtask_ids(&self) -> (r: Vec<String>)
        ensures
            r.deep_view() == self@.subtask_ids(),
    {
        let mut out: Vec<String> = Vec::new();
        let mut i: usize = 0;
        while i < self.subtasks.len()
            invariant
                i <= self.subtasks.len(),
                out.len() == i,
                forall|j: int| 0 <= j < i ==> out.deep_view()[j] == self@.subtask_ids()[j],
            decreases self.subtasks.len() - i,
        {
            let ghost so_far = out.deep_view();
            out.push(self.subtasks[i].id.clone());
            proof {
                assert(out.deep_view() =~= so_far.push(self.subtasks[i as int].id@));
            }
            i += 1;
        }
        out
    }

    /// The key of each setting, in storage order.
    fn setting_keys(&self) -> (r: Vec<String>)
        ensures
            r.deep_view() == self@.setting_keys(),
    {
        let mut out: Vec<String> = Vec::new();
        let mut i: usize = 0;
        while i < self.settings.len()
            invariant
                i <= self.settings.len(),
                out.len() == i,
                forall|j: int| 0 <= j < i ==> out.deep_view()[j] == self@.setting_keys()[j],
            decreases self.settings.len() - i,
        {
            let ghost so_far = out.deep_view();
            out.push(self.settings[i].key.clone());
            proof {
                assert(out.deep_view() =~= so_far.push(self.settings[i as int].key@));
            }
            i += 1;
        }
        out
    }

    /// The task that each subtask names, in storage order.
    fn subtask_owners(&self) -> (r: Vec<String>)
        ensures
            r.len() == self.subtasks.len(),
            forall|j: int|
                0 <= j < r.len() ==> #[trigger] r.deep_view()[j] == self@.subtasks[j].task_id,
    {
        let mut out: Vec<String> = Vec::new();
        let mut i: usize = 0;
        while i < self.subtasks.len()
            invariant
                i <= self.subtasks.len(),
                out.len() == i,
                forall|j: int|
                    0 <= j < i ==> #[trigger] out.deep_view()[j] == self@.subtasks[j].task_id,
            decreases self.subtasks.len() - i,
        {
            let ghost so_far = out.deep_view();
            out.push(self.subtasks[i].task_id.clone());
            proof {
                assert(out.deep_view() =~= so_far.push(self.subtasks[i as int].task_id@));
            }
            i += 1;
        }
        out
    }

    /// The task that each tag names, in storage order.
    fn tag_owners(&self) -> (r: Vec<String>)
        ensures
            r.len() == self.tags.len(),
            forall|j: int|
                0 <= j < r.len() ==> #[trigger] r.deep_view()[j] == self@.tags[j].task_id,
    {
        let mut out: Vec<String> = Vec::new();
        let mut i: usize = 0;
        while i < self.tags.len()
            invariant
                i <= self.tags.len(),
                out.len() == i,
                forall|j: int|
                    0 <= j < i ==> #[trigger] out.deep_view()[j] == self@.tags[j].task_id,
            decreases self.tags.len() - i,
        {
            let ghost so_far = out.deep_view();
            out.push(self.tags[i].task_id.clone());
            proof {
                assert(out.deep_view() =~= so_far.push(self.tags[i as int].task_id@));
            }
            i += 1;
        }
        out
    }

    /// Decides whether the rows can make a store: keys are unique in every
    /// table, every subtask and tag names a task among the rows, and no folder
    /// or project has an id above the last one given out.
    pub fn is_consistent(&self) -> (r: bool)
        ensures
            r == self@.wf(),
    {
        let task_ids = self.task_ids();
        let subtask_owners = self.subtask_owners();
        let tag_owners = self.tag_owners();
        let folder_ids = self.folder_ids();
        let project_ids = self.project_ids();
        let marked = 0 <= self.last_folder_id && 0 <= self.last_project_id && none_above(
            &folder_ids,
            self.last_folder_id,
        ) && none_above(&project_ids, self.last_project_id);
        let unique = distinct_numbers(&folder_ids) && distinct_numbers(&project_ids)
            && distinct_keys(&task_ids) && distinct_keys(&self.subtask_ids()) && distinct_tags(
            &self.tags,
        ) && distinct_keys(&self.setting_keys());
        let subtasks_owned = all_among(&subtask_owners, &task_ids);
        let tags_owned = all_among(&tag_owners, &task_ids);
        proof {
            let db = self@;
            if marked {
                assert forall|i: int| 0 <= i < db.folders.len() implies (
                #[trigger] db.folders[i]).id <= db.last_folder_id by {
                    assert(folder_ids@[i] <= self.last_folder_id);
                }
                assert forall|i: int| 0 <= i < db.projects.len() implies (
                #[trigger] db.projects[i]).id <= db.last_project_id by {
                    assert(project_ids@[i] <= self.last_project_id);
                }
            } else if 0 <= self.last_folder_id && 0 <= self.last_project_id {
                if !(forall|i: int|
                    0 <= i < folder_ids.len() ==> #[trigger] folder_ids@[i]
                        <= self.last_folder_id) {
                    let i = choose|i: int|
                        0 <= i < folder_ids.len() && !(#[trigger] folder_ids@[i]
                            <= self.last_folder_id);
                    assert(db.folders[i].id > db.last_folder_id);
                } else {
                    let i = choose|i: int|
                        0 <= i < project_ids.len() && !(#[trigger] project_ids@[i]
                            <= self.last_project_id);
                    assert(db.projects[i].id > db.last_project_id);
                }
            }
            if subtasks_owned {
                assert forall|i: int| 0 <= i < db.subtasks.len() implies db.has_task(
                    #[trigger] db.subtasks[i].task_id,
                ) by {
                    assert(task_ids.deep_view().contains(subtask_owners.deep_view()[i]));
                }
            } else {
                let i = choose|i: int|
                    0 <= i < subtask_owners.len() && !task_ids.deep_view().contains(
                        #[trigger] subtask_owners.deep_view()[i],
                    );
            }
            if tags_owned {
                assert forall|i: int| 0 <= i < db.tags.len() implies db.has_task(
                    #[trigger] db.tags[i].task_id,
                ) by {
                    assert(task_ids.deep_view().contains(tag_owners.deep_view()[i]));
                }
            } else {
                let i = choose|i: int|
                    0 <= i < tag_owners.len() && !task_ids.deep_view().contains(
                        #[trigger] tag_owners.deep_view()[i],
                    );
            }
        }
        marked && unique && subtasks_owned && tags_owned
    }
}

impl Clone for Tables {
    fn clone(&self) -> (r: Self)
        ensures
            r@ == self@,
    {
        let mut folders: Vec<Folder> = Vec::new();
        let mut i: usize = 0;
        while i < self.folders.len()
            invariant
                i <= self.folders.len(),
                folders.len() == i,
                forall|j: int| 0 <= j < i ==> folders.deep_view()[j] == self@.folders[j],
            decreases self.folders.len() - i,
        {
            let ghost so_far = folders.deep_view();
            folders.push(self.folders[i].clone());
            proof {
                assert(folders.deep_view() =~= so_far.push(self@.folders[i as int]));
            }
            i += 1;
        }
        proof {
            assert(folders.deep_view() =~= self@.folders);
        }
        let mut projects: Vec<Project> = Vec::new();
        let mut i: usize = 0;
        while i < self.projects.len()
            invariant
                i <= self.projects.len(),
                projects.len() == i,
                forall|j: int| 0 <= j < i ==> projects.deep_view()[j] == self@.projects[j],
            decreases self.projects.len() - i,
        {
            let ghost so_far = projects.deep_view();
            projects.push(self.projects[i].clone());
            proof {
                assert(projects.deep_view() =~= so_far.push(self@.projects[i as int]));
            }
            i += 1;
        }
        proof {
            assert(projects.deep_view() =~= self@.projects);
        }
        let mut tasks: Vec<Task> = Vec::new();
        let mut i: usize = 0;
        while i < self.tasks.len()
            invariant
                i <= self.tasks.len(),
                tasks.len() == i,
                forall|j: int| 0 <= j < i ==> tasks.deep_view()[j] == self@.tasks[j],
            decreases self.tasks.len() - i,
        {
            let ghost so_far = tasks.deep_view();
            tasks.push(self.tasks[i].clone());
            proof {
                assert(tasks.deep_view() =~= so_far.push(self@.tasks[i as int]));
            }
            i += 1;
        }
        proof {
            assert(tasks.deep_view() =~= self@.tasks);
        }
        let mut subtasks: Vec<Subtask> = Vec::new();
        let mut i: usize = 0;
        while i < self.subtasks.len()
            invariant
                i <= self.subtasks.len(),
                subtasks.len() == i,
                forall|j: int| 0 <= j < i ==> subtasks.deep_view()[j] == self@.subtasks[j],
            decreases self.subtasks.len() - i,
        {
            let ghost so_far = subtasks.deep_view();
            subtasks.push(self.subtasks[i].clone());
            proof {
                assert(subtasks.deep_view() =~= so_far.push(self@.subtasks[i as int]));
            }
            i += 1;
        }
        proof {
            assert(subtasks.deep_view() =~= self@.subtasks);
        }
        let mut tags: Vec<Tag> = Vec::new();
        let mut i: usize = 0;
        while i < self.tags.len()
            invariant
                i <= self.tags.len(),
                tags.len() == i,
                forall|j: int| 0 <= j < i ==> tags.deep_view()[j] == self@.tags[j],
            decreases self.tags.len() - i,
        {
            let ghost so_far = tags.deep_view();
            tags.push(self.tags[i].clone());
            proof {
                assert(tags.deep_view() =~= so_far.push(self@.tags[i as int]));
            }
            i += 1;
        }
        proof {
            assert(tags.deep_view() =~= self@.tags);
        }
        let mut settings: Vec<Settings> = Vec::new();
        let mut i: usize = 0;
        while i < self.settings.len()
            invariant
                i <= self.settings.len(),
                settings.len() == i,
                forall|j: int| 0 <= j < i ==> settings.deep_view()[j] == self@.settings[j],
            decreases self.settings.len() - i,
        {
            let ghost so_far = settings.deep_view();
            settings.push(self.settings[i].clone());
            proof {
                assert(settings.deep_view() =~= so_far.push(self@.settings[i as int]));
            }
            i += 1;
        }
        proof {
            assert(settings.deep_view() =~= self@.settings);
        }
        Tables {
            folders: folders,
            projects: projects,
            tasks: tasks,
            subtasks: subtasks,
            tags: tags,
            settings: settings,
            last_folder_id: self.last_folder_id,
            last_project_id: self.last_project_id,
        }
    }
}

} // verus!
