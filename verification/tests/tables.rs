use ultralist::database::Database;
use ultralist::entities::{Folder, Project, Settings, Subtask, Tag, Task};
use ultralist::tables::Tables;

fn task(id: &str) -> Task {
    Task {
        id: id.to_string(),
        title: "t".to_string(),
        description: String::new(),
        due_date: None,
        priority: "medium".to_string(),
        completed: false,
        project_id: Some(404),
        created_at: "2024-01-01T00:00:00+00:00".to_string(),
        updated_at: "2024-01-01T00:00:00+00:00".to_string(),
    }
}

fn subtask(id: &str, task_id: &str) -> Subtask {
    Subtask {
        id: id.to_string(),
        task_id: task_id.to_string(),
        text: "s".to_string(),
        completed: false,
    }
}

fn tag(task_id: &str, text: &str) -> Tag {
    Tag { task_id: task_id.to_string(), tag: text.to_string() }
}

fn folder(name: &str) -> Folder {
    Folder { id: 5, name: name.to_string(), color: "c".to_string(), description: None }
}

fn sample() -> Tables {
    let mut t = Tables::empty();
    t.last_folder_id = 5;
    t.last_project_id = 12;
    t.folders.push(folder("f"));
    t.projects.push(Project {
        id: 9,
        name: "p".to_string(),
        color: "c".to_string(),
        description: None,
        folder_id: Some(77),
    });
    t.tasks.push(task("a"));
    t.tasks.push(task("b"));
    t.subtasks.push(subtask("s1", "a"));
    t.subtasks.push(subtask("s2", "b"));
    t.tags.push(tag("a", "x"));
    t.tags.push(tag("b", "x"));
    t.tags.push(tag("a", "y"));
    t.settings.push(Settings { key: "k".to_string(), value: "v".to_string() });
    t
}

#[test]
fn consistent_rows_make_a_store() {
    let rows = sample();
    assert!(rows.is_consistent());
    let db = Database::from_tables(rows).unwrap();
    assert_eq!(db.get_all_tasks().len(), 2);
    assert_eq!(db.get_tags_for_task("a"), vec!["x".to_string(), "y".to_string()]);
    assert_eq!(db.get_all_projects()[0].folder_id, Some(77));
    assert_eq!(db.get_task("a").unwrap().project_id, Some(404));
    assert_eq!(db.get_setting("k").as_deref(), Some("v"));
}

#[test]
fn the_rows_of_a_store_make_the_same_store() {
    let mut db = Database::new();
    db.save_task(&Task { project_id: Some(1), ..task("a") }).unwrap();
    db.save_subtask(&subtask("s1", "a")).unwrap();
    db.save_tags_for_task("a", &["x".to_string()]).unwrap();
    let rows = db.tables();
    assert!(rows.is_consistent());
    assert_eq!(rows.folders.len(), 2);
    assert_eq!(rows.projects.len(), 3);
    assert_eq!(rows.tasks.len(), 1);
    assert_eq!(rows.subtasks.len(), 1);
    assert_eq!(rows.tags.len(), 1);
    assert_eq!(rows.settings.len(), 2);
    assert_eq!(rows.last_folder_id, 2);
    assert_eq!(rows.last_project_id, 3);
    let copy = Database::from_tables(rows).unwrap();
    assert_eq!(copy.get_all_tasks().len(), 1);
    assert_eq!(copy.get_all_tasks()[0].subtasks[0].id, "s1");
    assert_eq!(copy.get_theme(), "light");
}

#[test]
fn rows_with_a_key_twice_make_no_store() {
    let mut rows = sample();
    rows.folders.push(folder("g"));
    assert!(!rows.is_consistent());
    assert!(Database::from_tables(rows).is_none());

    let mut rows = sample();
    rows.projects.push(Project {
        id: 9,
        name: "q".to_string(),
        color: "c".to_string(),
        description: None,
        folder_id: None,
    });
    assert!(!rows.is_consistent());

    let mut rows = sample();
    rows.tasks.push(task("a"));
    assert!(!rows.is_consistent());

    let mut rows = sample();
    rows.subtasks.push(subtask("s1", "b"));
    assert!(!rows.is_consistent());

    let mut rows = sample();
    rows.tags.push(tag("b", "x"));
    assert!(!rows.is_consistent());

    let mut rows = sample();
    rows.settings.push(Settings { key: "k".to_string(), value: "w".to_string() });
    assert!(!rows.is_consistent());
}

#[test]
fn rows_without_their_task_make_no_store() {
    let mut rows = sample();
    rows.subtasks.push(subtask("s3", "ghost"));
    assert!(!rows.is_consistent());
    assert!(Database::from_tables(rows).is_none());

    let mut rows = sample();
    rows.tags.push(tag("ghost", "x"));
    assert!(!rows.is_consistent());
}

#[test]
fn rows_above_the_last_id_given_out_make_no_store() {
    let mut rows = sample();
    rows.last_folder_id = 4;
    assert!(!rows.is_consistent());
    assert!(Database::from_tables(rows).is_none());

    let mut rows = sample();
    rows.last_project_id = 8;
    assert!(!rows.is_consistent());

    let mut rows = sample();
    rows.last_project_id = -1;
    rows.projects.clear();
    assert!(!rows.is_consistent());
}

#[test]
fn the_last_id_given_out_survives_in_the_rows() {
    let mut db = Database::new();
    db.save_project(&Project {
        id: 0,
        name: "p".to_string(),
        color: "c".to_string(),
        description: None,
        folder_id: None,
    })
    .unwrap();
    assert_eq!(db.delete_project(4), 1);
    let rows = db.tables();
    assert_eq!(rows.last_project_id, 4);
    let mut copy = Database::from_tables(rows).unwrap();
    copy.save_project(&Project {
        id: 0,
        name: "q".to_string(),
        color: "c".to_string(),
        description: None,
        folder_id: None,
    })
    .unwrap();
    assert_eq!(copy.tables().projects.last().unwrap().id, 5);
}

#[test]
fn empty_rows_make_the_empty_store() {
    let rows = Tables::empty();
    assert!(rows.is_consistent());
    let db = Database::from_tables(rows.clone()).unwrap();
    assert!(db.get_all_folders().is_empty());
    assert!(db.tables().settings.is_empty());
}
