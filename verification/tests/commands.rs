use ultralist::commands::{
    create_folder,
    create_project,
    create_task,
    create_task_with,
    delete_folder,
    delete_project,
    delete_task,
    get_all_folders,
    get_all_projects,
    get_all_tags,
    get_all_tasks,
    get_mobile_mode,
    get_searchbar_mode,
    get_setting,
    get_theme,
    order_log_entries,
    save_setting,
    set_mobile_mode,
    set_searchbar_mode,
    set_theme,
    toggle_subtask_completion,
    toggle_task_completion,
    update_task,
    update_task_with,
    CreateTaskRequest,
    LogEntry,
    UpdateTaskRequest,
};
use ultralist::database::Database;

fn texts(items: &[&str]) -> Vec<String> {
    items.iter().map(|s| s.to_string()).collect()
}

fn request(title: &str, subtasks: &[&str], tags: &[&str]) -> CreateTaskRequest {
    CreateTaskRequest {
        title: title.to_string(),
        description: "about ".to_string() + title,
        due_date: Some("2024-07-01".to_string()),
        priority: "high".to_string(),
        project_id: Some(1),
        subtasks: texts(subtasks),
        tags: texts(tags),
    }
}

fn change(id: &str) -> UpdateTaskRequest {
    UpdateTaskRequest {
        id: id.to_string(),
        title: None,
        description: None,
        due_date: None,
        priority: None,
        project_id: None,
        completed: None,
        subtasks: None,
        tags: None,
    }
}

#[test]
fn a_created_task_is_listed_with_what_was_supplied() {
    let mut db = Database::new();
    let id = create_task(request("Ship", &["pack", "post"], &["out", "out", "box"]), &mut db)
        .unwrap();
    assert_eq!(id.len(), 36);
    let all = db.get_all_tasks();
    assert_eq!(all.len(), 1);
    let entry = &all[0];
    assert_eq!(entry.task.id, id);
    assert_eq!(entry.task.title, "Ship");
    assert_eq!(entry.task.description, "about Ship");
    assert_eq!(entry.task.due_date.as_deref(), Some("2024-07-01"));
    assert_eq!(entry.task.priority, "high");
    assert_eq!(entry.task.project_id, Some(1));
    assert!(!entry.task.completed);
    assert_eq!(entry.task.created_at, entry.task.updated_at);
    assert!(chrono::DateTime::parse_from_rfc3339(&entry.task.created_at).is_ok());
    let steps: Vec<&str> = entry.subtasks.iter().map(|s| s.text.as_str()).collect();
    assert_eq!(steps, vec!["pack", "post"]);
    assert!(entry.subtasks.iter().all(|s| s.task_id == id && !s.completed));
    assert_ne!(entry.subtasks[0].id, entry.subtasks[1].id);
    assert_ne!(entry.subtasks[0].id, id);
    assert_eq!(entry.tags, texts(&["out", "box"]));
}

#[test]
fn a_task_created_without_details_is_listed_with_none() {
    let mut db = Database::new();
    let id = create_task(request("Bare", &[], &[]), &mut db).unwrap();
    let all = db.get_all_tasks();
    assert_eq!(all.len(), 1);
    assert_eq!(all[0].task.id, id);
    assert!(all[0].subtasks.is_empty());
    assert!(all[0].tags.is_empty());
    assert_eq!(all[0].task.created_at, all[0].task.updated_at);
}

#[test]
fn two_created_tasks_get_different_ids() {
    let mut db = Database::new();
    let a = create_task(request("A", &[], &[]), &mut db).unwrap();
    let b = create_task(request("B", &[], &[]), &mut db).unwrap();
    assert_ne!(a, b);
    assert_eq!(db.get_all_tasks().len(), 2);
}

#[test]
fn create_task_fails_where_the_project_is_not_stored() {
    let mut db = Database::new();
    let mut r = request("Lost", &["a"], &["b"]);
    r.project_id = Some(12);
    assert_eq!(
        create_task(r, &mut db),
        Err("Failed to save task: the project does not exist".to_string())
    );
    assert!(db.get_all_tasks().is_empty());
    assert!(db.get_all_tags().is_empty());
}

#[test]
fn create_task_with_uses_the_ids_and_the_time_given() {
    let mut db = Database::new();
    let r = create_task_with(
        request("Ship", &["pack", "post"], &["out"]),
        &mut db,
        "task-1".to_string(),
        "2024-06-01T08:00:00+00:00".to_string(),
        texts(&["sub-1", "sub-2"]),
    );
    assert_eq!(r, Ok("task-1".to_string()));
    let task = db.get_task("task-1").unwrap();
    assert_eq!(task.created_at, "2024-06-01T08:00:00+00:00");
    assert_eq!(task.updated_at, "2024-06-01T08:00:00+00:00");
    let subtasks = db.get_subtasks_for_task("task-1");
    assert_eq!(subtasks[0].id, "sub-1");
    assert_eq!(subtasks[0].text, "pack");
    assert_eq!(subtasks[1].id, "sub-2");
    assert_eq!(subtasks[1].text, "post");
    assert_eq!(db.get_tags_for_task("task-1"), texts(&["out"]));
}

#[test]
fn creating_under_an_id_in_use_overwrites_the_task() {
    let mut db = Database::new();
    create_task_with(
        request("First", &["keep me"], &["old"]),
        &mut db,
        "task-1".to_string(),
        "2024-06-01T08:00:00+00:00".to_string(),
        texts(&["sub-1"]),
    )
    .unwrap();
    create_task_with(
        request("Second", &[], &[]),
        &mut db,
        "task-1".to_string(),
        "2024-06-02T08:00:00+00:00".to_string(),
        Vec::new(),
    )
    .unwrap();
    let all = db.get_all_tasks();
    assert_eq!(all.len(), 1);
    assert_eq!(all[0].task.title, "Second");
    assert_eq!(all[0].subtasks.len(), 1);
    assert!(all[0].tags.is_empty());
}

#[test]
fn update_task_changes_only_the_fields_named() {
    let mut db = Database::new();
    create_task_with(
        request("Ship", &["pack"], &["out"]),
        &mut db,
        "task-1".to_string(),
        "2024-06-01T08:00:00+00:00".to_string(),
        texts(&["sub-1"]),
    )
    .unwrap();
    let mut r = change("task-1");
    r.title = Some("Ship it".to_string());
    r.completed = Some(true);
    let result = update_task_with(r, &mut db, "2024-06-05T08:00:00+00:00".to_string(), Vec::new());
    assert_eq!(result, Ok(()));
    let task = db.get_task("task-1").unwrap();
    assert_eq!(task.title, "Ship it");
    assert!(task.completed);
    assert_eq!(task.description, "about Ship");
    assert_eq!(task.due_date.as_deref(), Some("2024-07-01"));
    assert_eq!(task.priority, "high");
    assert_eq!(task.project_id, Some(1));
    assert_eq!(task.created_at, "2024-06-01T08:00:00+00:00");
    assert_eq!(task.updated_at, "2024-06-05T08:00:00+00:00");
    assert_eq!(db.get_subtasks_for_task("task-1").len(), 1);
    assert_eq!(db.get_tags_for_task("task-1"), texts(&["out"]));
}

#[test]
fn update_task_replaces_subtasks_and_tags_where_named() {
    let mut db = Database::new();
    create_task_with(
        request("Ship", &["pack", "post"], &["out"]),
        &mut db,
        "task-1".to_string(),
        "2024-06-01T08:00:00+00:00".to_string(),
        texts(&["sub-1", "sub-2"]),
    )
    .unwrap();
    create_task_with(
        request("Other", &["stay"], &["put"]),
        &mut db,
        "task-2".to_string(),
        "2024-06-01T09:00:00+00:00".to_string(),
        texts(&["sub-3"]),
    )
    .unwrap();
    let mut r = change("task-1");
    r.subtasks = Some(texts(&["weigh"]));
    r.tags = Some(texts(&["in", "in"]));
    r.due_date = Some("2024-08-01".to_string());
    r.project_id = Some(2);
    r.priority = Some("low".to_string());
    r.description = Some(String::new());
    let result = update_task_with(
        r,
        &mut db,
        "2024-06-05T08:00:00+00:00".to_string(),
        texts(&["sub-9"]),
    );
    assert_eq!(result, Ok(()));
    let subtasks = db.get_subtasks_for_task("task-1");
    assert_eq!(subtasks.len(), 1);
    assert_eq!(subtasks[0].id, "sub-9");
    assert_eq!(subtasks[0].text, "weigh");
    assert!(!subtasks[0].completed);
    assert_eq!(db.get_tags_for_task("task-1"), texts(&["in"]));
    let task = db.get_task("task-1").unwrap();
    assert_eq!(task.due_date.as_deref(), Some("2024-08-01"));
    assert_eq!(task.project_id, Some(2));
    assert_eq!(task.priority, "low");
    assert_eq!(task.description, "");
    assert_eq!(db.get_subtasks_for_task("task-2").len(), 1);
    assert_eq!(db.get_tags_for_task("task-2"), texts(&["put"]));
}

#[test]
fn update_task_reports_a_task_that_is_not_stored() {
    let mut db = Database::new();
    assert_eq!(update_task(change("ghost"), &mut db), Err("Task not found".to_string()));
    assert!(db.get_all_tasks().is_empty());
}

#[test]
fn update_task_fails_where_the_project_is_not_stored() {
    let mut db = Database::new();
    let id = create_task(request("Ship", &[], &["out"]), &mut db).unwrap();
    let mut r = change(&id);
    r.project_id = Some(44);
    r.title = Some("never written".to_string());
    r.tags = Some(Vec::new());
    assert_eq!(
        update_task(r, &mut db),
        Err("Failed to update task: the project does not exist".to_string())
    );
    let task = db.get_task(&id).unwrap();
    assert_eq!(task.title, "Ship");
    assert_eq!(task.project_id, Some(1));
    assert_eq!(db.get_tags_for_task(&id), texts(&["out"]));
}

#[test]
fn update_task_stamps_the_time_of_the_call() {
    let mut db = Database::new();
    let id = create_task(request("Ship", &["a"], &[]), &mut db).unwrap();
    let created = db.get_task(&id).unwrap().created_at;
    let mut r = change(&id);
    r.subtasks = Some(texts(&["b", "c"]));
    assert_eq!(update_task(r, &mut db), Ok(()));
    let task = db.get_task(&id).unwrap();
    assert_eq!(task.created_at, created);
    assert!(task.updated_at >= created);
    let steps: Vec<String> = db.get_subtasks_for_task(&id).into_iter().map(|s| s.text).collect();
    assert_eq!(steps, texts(&["b", "c"]));
}

#[test]
fn toggling_a_subtask_changes_its_flag_only() {
    let mut db = Database::new();
    create_task_with(
        request("Ship", &["pack", "post"], &[]),
        &mut db,
        "task-1".to_string(),
        "2024-06-01T08:00:00+00:00".to_string(),
        texts(&["sub-1", "sub-2"]),
    )
    .unwrap();
    assert_eq!(toggle_subtask_completion("sub-2".to_string(), true, &mut db), Ok(()));
    let subtasks = db.get_subtasks_for_task("task-1");
    assert!(!subtasks[0].completed);
    assert!(subtasks[1].completed);
    assert_eq!(subtasks[1].text, "post");
    assert_eq!(subtasks[1].task_id, "task-1");
    assert_eq!(toggle_subtask_completion("sub-2".to_string(), false, &mut db), Ok(()));
    assert!(!db.get_subtask("sub-2").unwrap().completed);
    assert_eq!(db.get_task("task-1").unwrap().updated_at, "2024-06-01T08:00:00+00:00");
}

#[test]
fn toggling_a_missing_subtask_fails() {
    let mut db = Database::new();
    assert_eq!(
        toggle_subtask_completion("ghost".to_string(), true, &mut db),
        Err("Subtask not found".to_string())
    );
}

#[test]
fn create_project_assigns_the_next_id() {
    let mut db = Database::new();
    let r = create_project(
        "Garden".to_string(),
        "bg-lime-500".to_string(),
        None,
        Some(2),
        &mut db,
    );
    assert_eq!(r, Ok(()));
    let garden = db.get_all_projects().into_iter().find(|p| p.name == "Garden").unwrap();
    assert_eq!(garden.id, 4);
    assert_eq!(garden.color, "bg-lime-500");
    assert_eq!(garden.description, None);
    assert_eq!(garden.folder_id, Some(2));
}

#[test]
fn create_project_fails_where_the_folder_is_not_stored() {
    let mut db = Database::new();
    let r = create_project("Garden".to_string(), "c".to_string(), None, Some(5), &mut db);
    assert_eq!(r, Err("Failed to save project: the folder does not exist".to_string()));
    assert_eq!(db.get_all_projects().len(), 3);
}

#[test]
fn create_folder_assigns_the_next_id() {
    let mut db = Database::new();
    let r = create_folder(
        "Travel".to_string(),
        "bg-sky-500".to_string(),
        Some("trips".to_string()),
        &mut db,
    );
    assert_eq!(r, Ok(()));
    let travel = db.get_all_folders().into_iter().find(|f| f.name == "Travel").unwrap();
    assert_eq!(travel.id, 3);
    assert_eq!(travel.description.as_deref(), Some("trips"));
}

#[test]
fn create_folder_fails_where_no_id_is_left() {
    let mut db = Database::new();
    db.save_folder(&ultralist::entities::Folder {
        id: i32::MAX,
        name: "Last".to_string(),
        color: "c".to_string(),
        description: None,
    })
    .unwrap();
    let r = create_folder("Travel".to_string(), "c".to_string(), None, &mut db);
    assert_eq!(r, Err("Failed to save folder: no id is left to assign".to_string()));
}

#[test]
fn searchbar_mode_falls_back_to_search() {
    let mut db = Database::empty();
    assert_eq!(get_searchbar_mode(&db), Ok("search".to_string()));
    assert_eq!(set_searchbar_mode("command".to_string(), &mut db), Ok(()));
    assert_eq!(get_searchbar_mode(&db), Ok("command".to_string()));
    assert_eq!(db.get_setting("searchbar_mode").as_deref(), Some("command"));
}

#[test]
fn the_plain_operations_forward_to_the_store() {
    let mut db = Database::new();
    let id = create_task(request("Ship", &["pack"], &["out"]), &mut db).unwrap();
    assert_eq!(get_all_tasks(&db).unwrap().len(), 1);
    assert_eq!(get_all_tags(&db), Ok(texts(&["out"])));
    assert_eq!(toggle_task_completion(id.clone(), true, &mut db), Ok(1));
    assert!(db.get_task(&id).unwrap().completed);
    assert_eq!(toggle_task_completion("ghost".to_string(), true, &mut db), Ok(0));
    assert_eq!(delete_task(id.clone(), &mut db), Ok(1));
    assert_eq!(delete_task(id, &mut db), Ok(0));
    assert!(get_all_tasks(&db).unwrap().is_empty());
    assert!(get_all_tags(&db).unwrap().is_empty());
    assert_eq!(get_all_projects(&db).unwrap().len(), 3);
    assert_eq!(delete_project(3, &mut db), Ok(1));
    assert_eq!(delete_project(3, &mut db), Ok(0));
    assert_eq!(get_all_projects(&db).unwrap().len(), 2);
    assert_eq!(get_all_folders(&db).unwrap().len(), 2);
    assert_eq!(delete_folder(1, &mut db), Ok(1));
    assert_eq!(delete_folder(1, &mut db), Ok(0));
    assert_eq!(get_all_folders(&db).unwrap()[0].name, "Life & Wellness");
    assert_eq!(get_theme(&db), Ok("light".to_string()));
    assert_eq!(set_theme("dark".to_string(), &mut db), Ok(()));
    assert_eq!(get_theme(&db), Ok("dark".to_string()));
    assert_eq!(get_mobile_mode(&db), Ok(false));
    assert_eq!(set_mobile_mode(true, &mut db), Ok(()));
    assert_eq!(get_mobile_mode(&db), Ok(true));
    assert_eq!(get_setting("k".to_string(), &db), Ok(None));
    assert_eq!(save_setting("k".to_string(), "v".to_string(), &mut db), Ok(()));
    assert_eq!(get_setting("k".to_string(), &db), Ok(Some("v".to_string())));
}

#[test]
fn log_entries_are_put_in_the_order_of_their_timestamps() {
    let entry = |timestamp: &str, message: &str| LogEntry {
        timestamp: timestamp.to_string(),
        level: "INFO".to_string(),
        message: message.to_string(),
        target: None,
    };
    let logs = vec![
        entry("2024-01-01T00:00:03+00:00", "c"),
        entry("2024-01-01T00:00:01+00:00", "a"),
        entry("2024-01-01T00:00:02.500+00:00", "b2"),
        entry("2024-01-01T00:00:02+00:00", "b"),
        entry("2024-01-01T00:00:01+00:00", "a again"),
    ];
    let ordered: Vec<String> = order_log_entries(&logs).into_iter().map(|e| e.message).collect();
    assert_eq!(ordered, vec!["a", "a again", "b", "b2", "c"]);
    assert!(order_log_entries(&Vec::new()).is_empty());
}
