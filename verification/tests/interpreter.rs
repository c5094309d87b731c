use ultralist::interpreter::{
    collect_present,
    cut_date_words,
    cut_urgency_words,
    due_date_for,
    find_relative_date,
    find_urgency,
    finish_title,
    interpret_at,
    name_project,
    note_time,
    parse_natural_language_task,
    priority_for,
    NaturalLanguageTaskRequest,
    RelativeDate,
    Urgency,
};

fn parse(input: &str) -> ultralist::interpreter::ParsedTask {
    parse_natural_language_task(NaturalLanguageTaskRequest { input: input.to_string() }).unwrap()
}

fn day_after(days: i64) -> String {
    (chrono::Utc::now() + chrono::Duration::days(days)).format("%Y-%m-%d").to_string()
}

#[test]
fn reads_priority_date_tag_and_project() {
    let before = day_after(1);
    let task = parse("Submit report urgent tomorrow #work for finance project");
    let after = day_after(1);
    assert_eq!(task.priority, "high");
    let due = task.due_date.unwrap();
    assert!(due == before || due == after);
    assert_eq!(due.len(), 10);
    assert_eq!(task.tags, vec!["work".to_string()]);
    assert_eq!(task.project_name.as_deref(), Some("finance"));
    assert_eq!(task.title, "Submit report");
    assert_eq!(task.description, "");
}

#[test]
fn a_blank_line_gives_the_defaults() {
    let task = parse("   ");
    assert_eq!(task.title, "New task");
    assert_eq!(task.priority, "medium");
    assert!(task.due_date.is_none());
    assert!(task.tags.is_empty());
    assert!(task.project_name.is_none());
    assert_eq!(task.description, "");
    let task = parse("");
    assert_eq!(task.title, "New task");
}

#[test]
fn reads_a_time_of_day() {
    let task = parse("Call mom at 5pm");
    assert_eq!(task.description, "Due time: at 5pm");
    assert!(task.description.contains("Due time: at 5pm"));
    assert_eq!(task.title, "Call mom");
    assert!(task.due_date.is_none());
    assert_eq!(task.priority, "medium");
}

#[test]
fn reads_a_low_priority() {
    let task = parse("buy milk someday");
    assert_eq!(task.priority, "low");
    assert_eq!(task.title, "buy milk");
    assert!(!task.title.contains("someday"));
}

#[test]
fn a_plain_line_is_its_own_title() {
    let task = interpret_at("Water the plants", 0);
    assert_eq!(task.title, "Water the plants");
    assert_eq!(task.description, "");
    assert!(task.due_date.is_none());
    assert_eq!(task.priority, "medium");
    assert!(task.tags.is_empty());
    assert!(task.project_name.is_none());
}

#[test]
fn relative_dates_count_from_the_instant_given() {
    assert_eq!(interpret_at("pay rent today", 0).due_date.as_deref(), Some("1970-01-01"));
    assert_eq!(interpret_at("pay rent tomorrow", 0).due_date.as_deref(), Some("1970-01-02"));
    assert_eq!(interpret_at("pay rent next week", 0).due_date.as_deref(), Some("1970-01-08"));
    assert_eq!(interpret_at("pay rent today", 86_399).due_date.as_deref(), Some("1970-01-01"));
    assert_eq!(interpret_at("pay rent today", 86_400).due_date.as_deref(), Some("1970-01-02"));
    assert_eq!(interpret_at("pay rent today", -1).due_date.as_deref(), Some("1969-12-31"));
    assert_eq!(
        interpret_at("pay rent tomorrow", 1_709_164_800).due_date.as_deref(),
        Some("2024-03-01")
    );
    assert_eq!(
        interpret_at("pay rent next week", 1_735_257_600).due_date.as_deref(),
        Some("2025-01-03")
    );
    assert_eq!(interpret_at("pay rent", 0).due_date, None);
}

#[test]
fn a_date_out_of_range_is_left_out() {
    assert_eq!(interpret_at("pay rent today", i64::MAX).due_date, None);
    assert_eq!(interpret_at("pay rent tomorrow", i64::MIN).due_date, None);
}

#[test]
fn the_first_date_phrase_wins() {
    let task = interpret_at("next week or tomorrow or today", 0);
    assert_eq!(task.due_date.as_deref(), Some("1970-01-01"));
    assert_eq!(task.title, "next week or tomorrow or");
    let task = interpret_at("next week or tomorrow", 0);
    assert_eq!(task.due_date.as_deref(), Some("1970-01-02"));
    assert_eq!(task.title, "next week or");
}

#[test]
fn urgent_words_win_over_words_of_delay() {
    let task = interpret_at("urgent but maybe later", 0);
    assert_eq!(task.priority, "high");
    assert_eq!(task.title, "but maybe later");
    let task = interpret_at("critical asap urgent", 0);
    assert_eq!(task.priority, "high");
    assert_eq!(task.title, "New task");
    let task = interpret_at("low priority later someday", 0);
    assert_eq!(task.priority, "low");
    assert_eq!(task.title, "New task");
}

#[test]
fn words_are_matched_and_cut_whatever_their_case() {
    let task = interpret_at("URGENT fix Today", 0);
    assert_eq!(task.priority, "high");
    assert_eq!(task.due_date.as_deref(), Some("1970-01-01"));
    assert_eq!(task.title, "fix");
    let task = interpret_at("Buy milk URGENT", 0);
    assert_eq!(task.priority, "high");
    assert_eq!(task.title, "Buy milk");
    let task = interpret_at("Read Someday, maybe Next Week", 0);
    assert_eq!(task.priority, "low");
    assert_eq!(task.due_date.as_deref(), Some("1970-01-08"));
    assert_eq!(task.title, "Read , maybe");
    let task = interpret_at("Plan #Trip", 0);
    assert_eq!(task.tags, vec!["trip".to_string()]);
    assert_eq!(task.title, "Plan");
}

#[test]
fn a_time_and_a_project_are_cut_whatever_their_case() {
    let task = interpret_at("Call mom AT 5PM", 0);
    assert_eq!(task.description, "Due time: at 5pm");
    assert_eq!(task.title, "Call mom");
    let task = interpret_at("Budget FOR Finance PROJECT By 3:30 Pm", 0);
    assert_eq!(task.project_name.as_deref(), Some("finance"));
    assert_eq!(task.description, "Due time: by 3:30 pm");
    assert_eq!(task.title, "Budget");
}

#[test]
fn hashtags_are_collected_in_order_with_duplicates() {
    let task = interpret_at("#a write #b and #a again #", 0);
    assert_eq!(task.tags, vec!["a".to_string(), "b".to_string(), "a".to_string()]);
    assert_eq!(task.title, "write  and  again #");
}

#[test]
fn only_the_first_time_and_project_are_used() {
    let task = interpret_at("meet at 9:30 am or by 10 in new house project for old project", 0);
    assert_eq!(task.description, "Due time: at 9:30 am");
    assert_eq!(task.project_name.as_deref(), Some("new house"));
    assert_eq!(task.title, "meet  or by 10  for old project");
}

#[test]
fn a_time_with_minutes_and_no_marker() {
    let task = interpret_at("hand in by 3:30", 0);
    assert_eq!(task.description, "Due time: by 3:30");
    assert_eq!(task.title, "hand in");
}

#[test]
fn find_urgency_checks_the_urgent_class_first() {
    assert!(matches!(find_urgency("so urgent"), Urgency::High));
    assert!(matches!(find_urgency("asap"), Urgency::High));
    assert!(matches!(find_urgency("critical and later"), Urgency::High));
    assert!(matches!(find_urgency("low priority"), Urgency::Low));
    assert!(matches!(find_urgency("later"), Urgency::Low));
    assert!(matches!(find_urgency("someday"), Urgency::Low));
    assert!(matches!(find_urgency("lowpriority"), Urgency::Medium));
    assert!(matches!(find_urgency(""), Urgency::Medium));
}

#[test]
fn priority_for_names_the_three_priorities() {
    assert_eq!(priority_for(&Urgency::High), "high");
    assert_eq!(priority_for(&Urgency::Low), "low");
    assert_eq!(priority_for(&Urgency::Medium), "medium");
}

#[test]
fn cut_urgency_words_cuts_the_whole_class() {
    assert_eq!(cut_urgency_words("urgent asap critical later", &Urgency::High), "   later");
    assert_eq!(cut_urgency_words("urgent low priority later someday", &Urgency::Low), "urgent   ");
    assert_eq!(cut_urgency_words("urgent later", &Urgency::Medium), "urgent later");
    assert_eq!(cut_urgency_words("Urgent ASAP Critical", &Urgency::High), "  ");
    assert_eq!(cut_urgency_words("Low Priority LATER", &Urgency::Low), " ");
}

#[test]
fn find_relative_date_looks_for_today_first() {
    assert!(matches!(find_relative_date("today"), Some(RelativeDate::Today)));
    assert!(matches!(find_relative_date("tomorrow"), Some(RelativeDate::Tomorrow)));
    assert!(matches!(find_relative_date("next week"), Some(RelativeDate::NextWeek)));
    assert!(matches!(find_relative_date("next week, today"), Some(RelativeDate::Today)));
    assert!(matches!(find_relative_date("next  week"), None));
}

#[test]
fn cut_date_words_cuts_the_phrase_found() {
    assert_eq!(cut_date_words("today and today", &Some(RelativeDate::Today)), " and ");
    assert_eq!(cut_date_words("today tomorrow", &Some(RelativeDate::Tomorrow)), "today ");
    assert_eq!(cut_date_words("a next week b", &Some(RelativeDate::NextWeek)), "a  b");
    assert_eq!(cut_date_words("today", &None), "today");
    assert_eq!(cut_date_words("Today TODAY", &Some(RelativeDate::Today)), " ");
    assert_eq!(
        cut_date_words("Next  Week Next Week", &Some(RelativeDate::NextWeek)),
        "Next  Week "
    );
}

#[test]
fn due_date_for_adds_the_days() {
    assert_eq!(
        due_date_for(&Some(RelativeDate::Today), 951_782_400).as_deref(),
        Some("2000-02-29")
    );
    assert_eq!(
        due_date_for(&Some(RelativeDate::Tomorrow), 951_782_400).as_deref(),
        Some("2000-03-01")
    );
    assert_eq!(
        due_date_for(&Some(RelativeDate::NextWeek), 951_782_400).as_deref(),
        Some("2000-03-07")
    );
    assert_eq!(due_date_for(&None, 951_782_400), None);
}

#[test]
fn note_time_writes_the_phrase() {
    assert_eq!(note_time(&Some("at 5pm".to_string())), "Due time: at 5pm");
    assert_eq!(note_time(&None), "");
}

#[test]
fn collect_present_keeps_what_is_there() {
    let groups = vec![Some("a".to_string()), None, Some("b".to_string()), None];
    assert_eq!(collect_present(&groups), vec!["a".to_string(), "b".to_string()]);
    assert!(collect_present(&Vec::new()).is_empty());
}

#[test]
fn name_project_needs_the_group() {
    assert_eq!(name_project(Some(Some("work".to_string()))).as_deref(), Some("work"));
    assert_eq!(name_project(Some(None)), None);
    assert_eq!(name_project(None), None);
}

#[test]
fn finish_title_trims_or_falls_back() {
    assert_eq!(finish_title("  Submit report   "), "Submit report");
    assert_eq!(finish_title(" \t\n"), "New task");
    assert_eq!(finish_title(""), "New task");
}
