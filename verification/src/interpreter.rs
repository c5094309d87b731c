//! The reader of free-text task descriptions.
//!
//! One line of text is read in a fixed order of steps: priority words, a
//! relative date, a time of day, hashtags, a project clause, and what is left
//! becomes the title. Matching is done on the lower-cased line; what is found
//! is cut from the line as it was typed, in whatever case it stands there.

use crate::clock::{date_after, date_text, read_clock};
use crate::patterns::{
    find_first_group,
    find_first_groups,
    find_first_match,
    first_group,
    first_groups,
    first_match,
    remove_first_match,
    remove_matches,
    without_first_match,
    without_matches,
};
use crate::text::{
    contains,
    contains_text,
    lowercase,
    lowercase_of,
    remove_all_folded,
    trim,
    trimmed,
    without_all_folded,
};
use vstd::prelude::*;
use vstd::string::StringExecFns;

verus! {

/// A line of free text to read a task from.
#[derive(Debug)]
pub struct NaturalLanguageTaskRequest {
    pub input: String,
}

/// The draft of a task, as read from a line of text.
#[derive(Debug)]
pub struct ParsedTask {
    pub title: String,
    pub description: String,
    pub due_date: Option<String>,
    pub priority: String,
    pub tags: Vec<String>,
    pub project_name: Option<String>,
}

/// What a `ParsedTask` holds.
pub struct ParsedTaskView {
    pub title: Seq<char>,
    pub description: Seq<char>,
    pub due_date: Option<Seq<char>>,
    pub priority: Seq<char>,
    pub tags: Seq<Seq<char>>,
    pub project_name: Option<Seq<char>>,
}

impl View for ParsedTask {
    type V = ParsedTaskView;

    open spec fn view(&self) -> ParsedTaskView {
        ParsedTaskView {
            title: self.title@,
            description: self.description@,
            due_date: self.due_date.deep_view(),
            priority: self.priority@,
            tags: self.tags.deep_view(),
            project_name: self.project_name.deep_view(),
        }
    }
}

// ---------------------------------------------------------------------------
// Patterns
// ---------------------------------------------------------------------------

/// The pattern of a time of day: `at` or `by`, an hour, minutes and an
/// `am` or `pm` if given.
pub const TIME_PATTERN: &'static str = r"\b(?:at|by)\s+(\d{1,2}):?(\d{2})?\s*(am|pm)?\b";

/// The pattern of a hashtag.
pub const HASHTAG_PATTERN: &'static str = r"#(\w+)";

/// The pattern of a project clause: `for` or `in`, one or two words, and
/// the word `project`.
pub const PROJECT_PATTERN: &'static str = r"\b(?:for|in)\s+(\w+(?:\s+\w+)?)\s+project\b";

/// The pattern of a time of day in whatever case, by which it is cut from
/// the line as typed.
pub const TIME_CUT_PATTERN: &'static str =
    r"(?i)\b(?:at|by)\s+(\d{1,2}):?(\d{2})?\s*(am|pm)?\b";

/// The pattern of a project clause in whatever case, by which it is cut from
/// the line as typed.
pub const PROJECT_CUT_PATTERN: &'static str =
    r"(?i)\b(?:for|in)\s+(\w+(?:\s+\w+)?)\s+project\b";

/// The pattern of a time of day, as text.
pub open spec fn time_pattern() -> Seq<char> {
    TIME_PATTERN@
}

/// The pattern of a hashtag, as text.
pub open spec fn hashtag_pattern() -> Seq<char> {
    HASHTAG_PATTERN@
}

/// The pattern of a project clause, as text.
pub open spec fn project_pattern() -> Seq<char> {
    PROJECT_PATTERN@
}

// ---------------------------------------------------------------------------
// What the steps do
// ---------------------------------------------------------------------------

/// How urgent a line reads.
#[derive(Debug, Clone, Copy, PartialEq, Eq, Structural)]
pub enum Urgency {
    High,
    Low,
    Medium,
}

/// The urgency of a lower-cased line: high where it holds a word of the
/// urgent class, else low where it holds one of the class of delay, else
/// medium.
pub open spec fn urgency_of(lower: Seq<char>) -> Urgency {
    if contains(lower, "urgent"@) || contains(lower, "asap"@) || contains(lower, "critical"@) {
        Urgency::High
    } else if contains(lower, "low priority"@) || contains(lower, "later"@) || contains(
        lower,
        "someday"@,
    ) {
        Urgency::Low
    } else {
        Urgency::Medium
    }
}

/// The priority that an urgency stands for.
pub open spec fn priority_text(urgency: Urgency) -> Seq<char> {
    match urgency {
        Urgency::High => "high"@,
        Urgency::Low => "low"@,
        Urgency::Medium => "medium"@,
    }
}

/// `title` without the words of the class that decided the urgency, in
/// whatever case they stand there.
pub open spec fn without_urgency_words(title: Seq<char>, urgency: Urgency) -> Seq<char> {
    match urgency {
        Urgency::High => without_all_folded(
            without_all_folded(without_all_folded(title, "urgent"@), "asap"@),
            "critical"@,
        ),
        Urgency::Low => without_all_folded(
            without_all_folded(without_all_folded(title, "low priority"@), "later"@),
            "someday"@,
        ),
        Urgency::Medium => title,
    }
}

/// The relative date that a line names.
#[derive(Debug, Clone, Copy, PartialEq, Eq, Structural)]
pub enum RelativeDate {
    Today,
    Tomorrow,
    NextWeek,
}

/// The first relative date that a lower-cased line names, looked for in the
/// order today, tomorrow, next week.
pub open spec fn relative_date_of(lower: Seq<char>) -> Option<RelativeDate> {
    if contains(lower, "today"@) {
        Some(RelativeDate::Today)
    } else if contains(lower, "tomorrow"@) {
        Some(RelativeDate::Tomorrow)
    } else if contains(lower, "next week"@) {
        Some(RelativeDate::NextWeek)
    } else {
        None
    }
}

/// The number of days from today to a relative date.
pub open spec fn days_ahead(date: RelativeDate) -> i64 {
    match date {
        RelativeDate::Today => 0,
        RelativeDate::Tomorrow => 1,
        RelativeDate::NextWeek => 7,
    }
}

/// `title` without the phrase of the relative date found, in whatever case
/// it stands there.
pub open spec fn without_date_words(title: Seq<char>, date: Option<RelativeDate>) -> Seq<char> {
    match date {
        Some(RelativeDate::Today) => without_all_folded(title, "today"@),
        Some(RelativeDate::Tomorrow) => without_all_folded(title, "tomorrow"@),
        Some(RelativeDate::NextWeek) => without_all_folded(title, "next week"@),
        None => title,
    }
}

/// The due date of a line read at the instant `seconds`.
pub open spec fn due_date_of(date: Option<RelativeDate>, seconds: i64) -> Option<Seq<char>> {
    match date {
        Some(d) => date_text(seconds, days_ahead(d)),
        None => None,
    }
}

/// The description that a time of day found in the line gives.
pub open spec fn time_note(found: Option<Seq<char>>) -> Seq<char> {
    match found {
        Some(phrase) => "Due time: "@ + phrase,
        None => Seq::empty(),
    }
}

/// The texts that are there, in order.
pub open spec fn present(groups: Seq<Option<Seq<char>>>) -> Seq<Seq<char>>
    decreases groups.len(),
{
    if groups.len() == 0 {
        Seq::empty()
    } else if groups.last() is Some {
        present(groups.drop_last()).push(groups.last()->0)
    } else {
        present(groups.drop_last())
    }
}

/// The project that a project clause names.
pub open spec fn project_named(found: Option<Option<Seq<char>>>) -> Option<Seq<char>> {
    match found {
        Some(Some(name)) => Some(name),
        _ => None,
    }
}

/// The title that is left of a line: trimmed, or the placeholder where
/// nothing is left.
pub open spec fn final_title(rest: Seq<char>) -> Seq<char> {
    if trimmed(rest).len() == 0 {
        "New task"@
    } else {
        trimmed(rest)
    }
}

/// The line after the priority words and the date phrase are cut.
pub open spec fn after_words(input: Seq<char>) -> Seq<char> {
    let lower = lowercase_of(input);
    without_date_words(without_urgency_words(input, urgency_of(lower)), relative_date_of(lower))
}

/// The line after the time of day is cut as well, where the lower-cased
/// line holds one.
pub open spec fn after_time(input: Seq<char>) -> Seq<char> {
    if first_match(time_pattern(), lowercase_of(input)) is Some {
        without_first_match(TIME_CUT_PATTERN@, after_words(input))
    } else {
        after_words(input)
    }
}

/// The line after the hashtags are cut as well.
pub open spec fn after_hashtags(input: Seq<char>) -> Seq<char> {
    without_matches(hashtag_pattern(), after_time(input))
}

/// The line after the project clause is cut as well, where the lower-cased
/// line holds one.
pub open spec fn after_project(input: Seq<char>) -> Seq<char> {
    if project_named(first_group(project_pattern(), lowercase_of(input))) is Some {
        without_first_match(PROJECT_CUT_PATTERN@, after_hashtags(input))
    } else {
        after_hashtags(input)
    }
}

/// The draft that the line `input` gives when read at the instant `seconds`.
pub open spec fn interpreted(input: Seq<char>, seconds: i64) -> ParsedTaskView {
    let lower = lowercase_of(input);
    ParsedTaskView {
        title: final_title(after_project(input)),
        description: time_note(first_match(time_pattern(), lower)),
        due_date: due_date_of(relative_date_of(lower), seconds),
        priority: priority_text(urgency_of(lower)),
        tags: present(first_groups(hashtag_pattern(), lower)),
        project_name: project_named(first_group(project_pattern(), lower)),
    }
}

// ---------------------------------------------------------------------------
// The steps
// ---------------------------------------------------------------------------

/// Decides the urgency of a lower-cased line.
pub fn find_urgency(lower: &str) -> (r: Urgency)
    ensures
        r == urgency_of(lower@),
{
    if contains_text(lower, "urgent") || contains_text(lower, "asap") || contains_text(
        lower,
        "critical",
    ) {
        Urgency::High
    } else if contains_text(lower, "low priority") || contains_text(lower, "later")
        || contains_text(lower, "someday") {
        Urgency::Low
    } else {
        Urgency::Medium
    }
}

/// Writes the priority that an urgency stands for.
pub fn priority_for(urgency: &Urgency) -> (r: String)
    ensures
        r@ == priority_text(*urgency),
{
    match urgency {
        Urgency::High => "high".to_owned(),
        Urgency::Low => "low".to_owned(),
        Urgency::Medium => "medium".to_owned(),
    }
}

/// Cuts the words of the class that decided the urgency from `title`, in
/// whatever case they stand there.
pub fn cut_urgency_words(title: &str, urgency: &Urgency) -> (r: String)
    ensures
        r@ == without_urgency_words(title@, *urgency),
{
    match urgency {
        Urgency::High => {
            let a = remove_all_folded(title, "urgent");
            let b = remove_all_folded(a.as_str(), "asap");
            remove_all_folded(b.as_str(), "critical")
        },
        Urgency::Low => {
            let a = remove_all_folded(title, "low priority");
            let b = remove_all_folded(a.as_str(), "later");
            remove_all_folded(b.as_str(), "someday")
        },
        Urgency::Medium => title.to_owned(),
    }
}

/// Finds the first relative date that a lower-cased line names.
pub fn find_relative_date(lower: &str) -> (r: Option<RelativeDate>)
    ensures
        r == relative_date_of(lower@),
{
    if contains_text(lower, "today") {
        Some(RelativeDate::Today)
    } else if contains_text(lower, "tomorrow") {
        Some(RelativeDate::Tomorrow)
    } else if contains_text(lower, "next week") {
        Some(RelativeDate::NextWeek)
    } else {
        None
    }
}

/// Cuts the phrase of the relative date found from `title`, in whatever case
/// it stands there.
pub fn cut_date_words(title: &str, date: &Option<RelativeDate>) -> (r: String)
    ensures
        r@ == without_date_words(title@, *date),
{
    match date {
        Some(RelativeDate::Today) => remove_all_folded(title, "today"),
        Some(RelativeDate::Tomorrow) => remove_all_folded(title, "tomorrow"),
        Some(RelativeDate::NextWeek) => remove_all_folded(title, "next week"),
        None => title.to_owned(),
    }
}

/// Writes the due date of a line read at the instant `seconds`.
pub fn due_date_for(date: &Option<RelativeDate>, seconds: i64) -> (r: Option<String>)
    ensures
        r.deep_view() == due_date_of(*date, seconds),
{
    match date {
        Some(RelativeDate::Today) => date_after(seconds, 0),
        Some(RelativeDate::Tomorrow) => date_after(seconds, 1),
        Some(RelativeDate::NextWeek) => date_after(seconds, 7),
        None => None,
    }
}

/// Writes the description that a time of day found in the line gives.
pub fn note_time(found: &Option<String>) -> (r: String)
    ensures
        r@ == time_note(found.deep_view()),
{
    match found {
        Some(phrase) => "Due time: ".to_owned().concat(phrase.as_str()),
        None => String::new(),
    }
}

/// Collects the texts that are there, in order.
pub fn collect_present(groups: &Vec<Option<String>>) -> (r: Vec<String>)
    ensures
        r.deep_view() == present(groups.deep_view()),
{
    let ghost all = groups.deep_view();
    let mut out: Vec<String> = Vec::new();
    let mut i: usize = 0;
    while i < groups.len()
        invariant
            i <= groups.len(),
            all == groups.deep_view(),
            out.deep_view() == present(all.take(i as int)),
        decreases groups.len() - i,
    {
        proof {
            assert(all.take(i + 1).drop_last() =~= all.take(i as int));
        }
        match &groups[i] {
            Some(text) => {
                out.push(text.clone());
            },
            None => {},
        }
        i += 1;
    }
    proof {
        assert(all.take(i as int) =~= all);
    }
    out
}

/// Names the project of a project clause.
pub fn name_project(found: Option<Option<String>>) -> (r: Option<String>)
    ensures
        r.deep_view() == project_named(found.deep_view()),
{
    match found {
        Some(Some(name)) => Some(name),
        _ => None,
    }
}

/// Makes the title of what is left of a line.
pub fn finish_title(rest: &str) -> (r: String)
    ensures
        r@ == final_title(rest@),
{
    let title = trim(rest);
    if title.as_str().is_empty() {
        "New task".to_owned()
    } else {
        title
    }
}

// ---------------------------------------------------------------------------
// Reading a line
// ---------------------------------------------------------------------------

/// Reads a task from the line `input` as if at the instant `seconds`, given
/// in Unix time.
pub fn interpret_at(input: &str, seconds: i64) -> (r: ParsedTask)
    ensures
        r@ == interpreted(input@, seconds),
{
    let lower = lowercase(input);
    let urgency = find_urgency(lower.as_str());
    let priority = priority_for(&urgency);
    let title = cut_urgency_words(input, &urgency);
    let date = find_relative_date(lower.as_str());
    let due_date = due_date_for(&date, seconds);
    let title = cut_date_words(title.as_str(), &date);
    let time = find_first_match(TIME_PATTERN, lower.as_str());
    let description = note_time(&time);
    let title = if time.is_some() {
        remove_first_match(TIME_CUT_PATTERN, title.as_str())
    } else {
        title
    };
    let tags = collect_present(&find_first_groups(HASHTAG_PATTERN, lower.as_str()));
    let title = remove_matches(HASHTAG_PATTERN, title.as_str());
    let project_name = name_project(find_first_group(PROJECT_PATTERN, lower.as_str()));
    let title = if project_name.is_some() {
        remove_first_match(PROJECT_CUT_PATTERN, title.as_str())
    } else {
        title
    };
    ParsedTask {
        title: finish_title(title.as_str()),
        description: description,
        due_date: due_date,
        priority: priority,
        tags: tags,
        project_name: project_name,
    }
}

/// Reads a task from the line of the request at the time of the call. It
/// never fails: what is not found in the line is left at its default.
pub fn parse_natural_language_task(request: NaturalLanguageTaskRequest) -> (r: Result<
    ParsedTask,
    String,
>)
    ensures
        r is Ok,
        r->Ok_0@.title == final_title(after_project(request.input@)),
        r->Ok_0@.description == time_note(
            first_match(time_pattern(), lowercase_of(request.input@)),
        ),
        r->Ok_0@.priority == priority_text(urgency_of(lowercase_of(request.input@))),
        r->Ok_0@.tags == present(first_groups(hashtag_pattern(), lowercase_of(request.input@))),
        r->Ok_0@.project_name == project_named(
            first_group(project_pattern(), lowercase_of(request.input@)),
        ),
        relative_date_of(lowercase_of(request.input@)) is None ==> r->Ok_0@.due_date is None,
        exists|seconds: i64| r->Ok_0@ == #[trigger] interpreted(request.input@, seconds),
{
    let seconds = read_clock().seconds;
    let task = interpret_at(request.input.as_str(), seconds);
    Ok(task)
}

} // verus!
