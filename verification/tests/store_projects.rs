use ultralist::database::Database;
use ultralist::entities::{Folder, Project, Task};
use ultralist::relations::StoreError;

fn folder(id: i32, name: &str) -> Folder {
    Folder { id, name: name.to_string(), color: "bg-red-500".to_string(), description: None }
}

fn project(id: i32, name: &str, folder_id: Option<i32>) -> Project {
    Project {
        id,
        name: name.to_string(),
        color: "bg-red-500".to_string(),
        description: Some("about ".to_string() + name),
        folder_id,
    }
}

#[test]
fn a_new_store_holds_the_starter_data() {
    let db = Database::new();
    let folders = db.get_all_folders();
    assert_eq!(folders.len(), 2);
    assert_eq!(folders[0].id, 2);
    assert_eq!(folders[0].name, "Life & Wellness");
    assert_eq!(folders[0].color, "bg-green-600");
    assert_eq!(folders[0].description.as_deref(), Some("Personal growth and health"));
    assert_eq!(folders[1].id, 1);
    assert_eq!(folders[1].name, "Work & Career");
    assert_eq!(folders[1].color, "bg-blue-600");
    assert_eq!(folders[1].description.as_deref(), Some("Professional projects and development"));
    let projects = db.get_all_projects();
    assert_eq!(projects.len(), 3);
    assert_eq!(projects[0].id, 3);
    assert_eq!(projects[0].name, "Health");
    assert_eq!(projects[0].color, "bg-purple-500");
    assert_eq!(projects[0].description.as_deref(), Some("Health and fitness goals"));
    assert_eq!(projects[0].folder_id, Some(2));
    assert_eq!(projects[1].id, 2);
    assert_eq!(projects[1].name, "Personal");
    assert_eq!(projects[1].color, "bg-green-500");
    assert_eq!(projects[1].description.as_deref(), Some("Personal tasks and errands"));
    assert_eq!(projects[1].folder_id, Some(2));
    assert_eq!(projects[2].id, 1);
    assert_eq!(projects[2].name, "Work");
    assert_eq!(projects[2].color, "bg-blue-500");
    assert_eq!(projects[2].description.as_deref(), Some("Work-related tasks"));
    assert_eq!(projects[2].folder_id, Some(1));
    assert_eq!(db.get_setting("theme").as_deref(), Some("light"));
    assert_eq!(db.get_setting("searchbar_mode").as_deref(), Some("search"));
    assert!(db.get_all_tasks().is_empty());
    assert!(db.get_all_tags().is_empty());
}

#[test]
fn an_empty_store_holds_nothing() {
    let db = Database::empty();
    assert!(db.get_all_folders().is_empty());
    assert!(db.get_all_projects().is_empty());
    assert!(db.get_setting("theme").is_none());
}

#[test]
fn initializing_twice_duplicates_nothing() {
    let mut db = Database::empty();
    db.init_tables();
    db.init_tables();
    assert_eq!(db.get_all_folders().len(), 2);
    assert_eq!(db.get_all_projects().len(), 3);
    assert_eq!(db.get_setting("theme").as_deref(), Some("light"));
    assert_eq!(db.get_setting("searchbar_mode").as_deref(), Some("search"));
}

#[test]
fn initializing_keeps_settings_that_are_stored() {
    let mut db = Database::empty();
    db.save_setting("theme", "dark");
    db.init_tables();
    assert_eq!(db.get_setting("theme").as_deref(), Some("dark"));
    assert_eq!(db.get_setting("searchbar_mode").as_deref(), Some("search"));
}

#[test]
fn seeding_is_skipped_where_a_folder_is_stored() {
    let mut db = Database::empty();
    db.save_folder(&folder(0, "Mine")).unwrap();
    db.seed_initial_data();
    assert_eq!(db.get_all_folders().len(), 1);
    assert!(db.get_all_projects().is_empty());
}

#[test]
fn seeding_adds_the_starter_projects_whose_ids_are_free() {
    let mut db = Database::empty();
    db.save_project(&project(2, "Squatter", None)).unwrap();
    db.seed_initial_data();
    assert_eq!(db.get_all_folders().len(), 2);
    let names: Vec<String> = db.get_all_projects().into_iter().map(|p| p.name).collect();
    assert_eq!(names, vec!["Health".to_string(), "Squatter".to_string(), "Work".to_string()]);
    db.seed_initial_data();
    assert_eq!(db.get_all_projects().len(), 3);
}

#[test]
fn a_store_whose_folders_were_deleted_is_seeded_again() {
    let mut db = Database::new();
    assert_eq!(db.delete_folder(1), 1);
    assert_eq!(db.delete_folder(2), 1);
    db.init_tables();
    let folders: Vec<i32> = db.get_all_folders().into_iter().map(|f| f.id).collect();
    assert_eq!(folders, vec![2, 1]);
    assert_eq!(db.get_all_projects().len(), 3);
    db.save_folder(&folder(0, "Next")).unwrap();
    let next = db.get_all_folders().into_iter().find(|f| f.name == "Next").unwrap();
    assert_eq!(next.id, 3);
}

#[test]
fn the_id_of_a_deleted_row_is_not_given_out_again() {
    let mut db = Database::new();
    db.save_project(&project(0, "Fourth", None)).unwrap();
    assert_eq!(db.delete_project(4), 1);
    db.save_project(&project(0, "Fifth", None)).unwrap();
    let fifth = db.get_all_projects().into_iter().find(|p| p.name == "Fifth").unwrap();
    assert_eq!(fifth.id, 5);
    db.save_folder(&folder(9, "Ninth")).unwrap();
    assert_eq!(db.delete_folder(9), 1);
    assert_eq!(db.delete_folder(9), 0);
    db.save_folder(&folder(0, "Tenth")).unwrap();
    let tenth = db.get_all_folders().into_iter().find(|f| f.name == "Tenth").unwrap();
    assert_eq!(tenth.id, 10);
}

#[test]
fn a_folder_saved_with_id_zero_gets_a_fresh_id() {
    let mut db = Database::new();
    assert_eq!(db.save_folder(&folder(0, "Third")), Ok(()));
    assert_eq!(db.save_folder(&folder(0, "Fourth")), Ok(()));
    let folders = db.get_all_folders();
    let mut ids: Vec<i32> = folders.iter().map(|f| f.id).collect();
    ids.sort();
    assert_eq!(ids, vec![1, 2, 3, 4]);
    let third = folders.iter().find(|f| f.name == "Third").unwrap();
    assert_eq!(third.id, 3);
    assert_eq!(third.color, "bg-red-500");
}

#[test]
fn a_folder_saved_with_its_id_replaces_the_row() {
    let mut db = Database::new();
    assert_eq!(db.save_folder(&folder(1, "Renamed")), Ok(()));
    assert_eq!(db.save_folder(&folder(40, "Far")), Ok(()));
    assert_eq!(db.save_folder(&folder(40, "Far away")), Ok(()));
    let folders = db.get_all_folders();
    let names: Vec<&str> = folders.iter().map(|f| f.name.as_str()).collect();
    assert_eq!(names, vec!["Far away", "Life & Wellness", "Renamed"]);
    assert_eq!(db.save_folder(&folder(0, "Next")), Ok(()));
    let next = db.get_all_folders().into_iter().find(|f| f.name == "Next").unwrap();
    assert_eq!(next.id, 41);
}

#[test]
fn no_folder_id_is_left_after_the_largest() {
    let mut db = Database::new();
    db.save_folder(&folder(i32::MAX, "Last")).unwrap();
    assert_eq!(db.save_folder(&folder(0, "One more")), Err(StoreError::IdsExhausted));
    assert_eq!(db.get_all_folders().len(), 3);
    assert_eq!(db.delete_folder(i32::MAX), 1);
    assert_eq!(db.save_folder(&folder(0, "One more")), Err(StoreError::IdsExhausted));
    assert_eq!(db.save_folder(&folder(7, "Seventh")), Ok(()));
}

#[test]
fn a_project_saved_with_id_zero_gets_a_fresh_id() {
    let mut db = Database::new();
    assert_eq!(db.save_project(&project(0, "Garden", Some(2))), Ok(()));
    let projects = db.get_all_projects();
    assert_eq!(projects.len(), 4);
    let garden = projects.iter().find(|p| p.name == "Garden").unwrap();
    assert_eq!(garden.id, 4);
    assert_eq!(garden.folder_id, Some(2));
    assert_eq!(garden.description.as_deref(), Some("about Garden"));
}

#[test]
fn a_project_saved_with_its_id_replaces_the_row() {
    let mut db = Database::new();
    assert_eq!(db.save_project(&project(1, "Job", None)), Ok(()));
    assert_eq!(db.save_project(&project(-7, "Below", None)), Ok(()));
    let projects = db.get_all_projects();
    assert_eq!(projects.len(), 4);
    let names: Vec<&str> = projects.iter().map(|p| p.name.as_str()).collect();
    assert_eq!(names, vec!["Below", "Health", "Job", "Personal"]);
    let job = projects.iter().find(|p| p.id == 1).unwrap();
    assert_eq!(job.folder_id, None);
}

#[test]
fn save_project_refuses_a_folder_that_is_not_stored() {
    let mut db = Database::new();
    assert_eq!(db.save_project(&project(0, "Lost", Some(9))), Err(StoreError::MissingFolder));
    assert_eq!(db.save_project(&project(5, "Lost", Some(9))), Err(StoreError::MissingFolder));
    assert_eq!(db.get_all_projects().len(), 3);
}

#[test]
fn no_project_id_is_left_after_the_largest() {
    let mut db = Database::new();
    db.save_project(&project(i32::MAX, "Last", None)).unwrap();
    assert_eq!(db.save_project(&project(0, "One more", None)), Err(StoreError::IdsExhausted));
    assert_eq!(db.save_project(&project(0, "Lost", Some(9))), Err(StoreError::MissingFolder));
}

#[test]
fn deleting_a_folder_leaves_its_projects_naming_it() {
    let mut db = Database::new();
    assert_eq!(db.delete_folder(2), 1);
    assert_eq!(db.delete_folder(2), 0);
    assert_eq!(db.get_all_folders().len(), 1);
    let projects = db.get_all_projects();
    assert_eq!(projects.len(), 3);
    assert_eq!(projects[0].folder_id, Some(2));
}

#[test]
fn deleting_a_project_leaves_its_tasks_naming_it() {
    let mut db = Database::new();
    let t = Task {
        id: "a".to_string(),
        title: "one".to_string(),
        description: String::new(),
        due_date: None,
        priority: "low".to_string(),
        completed: false,
        project_id: Some(1),
        created_at: "2024-01-01T00:00:00+00:00".to_string(),
        updated_at: "2024-01-01T00:00:00+00:00".to_string(),
    };
    db.save_task(&t).unwrap();
    assert_eq!(db.delete_project(1), 1);
    assert_eq!(db.delete_project(77), 0);
    assert_eq!(db.get_all_projects().len(), 2);
    assert_eq!(db.get_task("a").unwrap().project_id, Some(1));
    assert_eq!(db.save_task(&t), Err(StoreError::MissingProject));
}

#[test]
fn projects_and_folders_are_listed_by_name() {
    let mut db = Database::empty();
    db.save_folder(&folder(0, "b")).unwrap();
    db.save_folder(&folder(0, "a")).unwrap();
    db.save_folder(&folder(0, "B")).unwrap();
    db.save_folder(&folder(0, "a")).unwrap();
    let ids: Vec<i32> = db.get_all_folders().into_iter().map(|f| f.id).collect();
    assert_eq!(ids, vec![3, 2, 4, 1]);
    db.save_project(&project(0, "beta", None)).unwrap();
    db.save_project(&project(0, "alpha", Some(1))).unwrap();
    db.save_project(&project(0, "", None)).unwrap();
    let names: Vec<String> = db.get_all_projects().into_iter().map(|p| p.name).collect();
    assert_eq!(names, vec!["".to_string(), "alpha".to_string(), "beta".to_string()]);
}

#[test]
fn settings_are_upserted_by_key() {
    let mut db = Database::new();
    assert!(db.get_setting("language").is_none());
    db.save_setting("language", "en");
    db.save_setting("language", "fr");
    db.save_setting("", "empty key");
    assert_eq!(db.get_setting("language").as_deref(), Some("fr"));
    assert_eq!(db.get_setting("").as_deref(), Some("empty key"));
    assert_eq!(db.get_setting("theme").as_deref(), Some("light"));
}

#[test]
fn theme_is_stored_under_its_key() {
    let mut db = Database::empty();
    assert_eq!(db.get_theme(), "light");
    db.set_theme("dark");
    assert_eq!(db.get_theme(), "dark");
    assert_eq!(db.get_setting("theme").as_deref(), Some("dark"));
}

#[test]
fn mobile_mode_is_stored_as_text() {
    let mut db = Database::new();
    assert!(!db.get_mobile_mode());
    db.set_mobile_mode(true);
    assert!(db.get_mobile_mode());
    assert_eq!(db.get_setting("mobile_mode").as_deref(), Some("true"));
    db.set_mobile_mode(false);
    assert!(!db.get_mobile_mode());
    assert_eq!(db.get_setting("mobile_mode").as_deref(), Some("false"));
    db.save_setting("mobile_mode", "TRUE");
    assert!(!db.get_mobile_mode());
}

#[test]
fn store_errors_say_what_is_wrong() {
    assert_eq!(StoreError::MissingFolder.message(), "the folder does not exist");
    assert_eq!(StoreError::MissingProject.message(), "the project does not exist");
    assert_eq!(StoreError::MissingTask.message(), "the task does not exist");
    assert_eq!(StoreError::IdsExhausted.message(), "no id is left to assign");
}
