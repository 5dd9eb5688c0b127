use ms_planner_viewer::config::{
    get_ui_columns, get_unique_strings, Config, MultiTagFilter, Order, TagFilter, TaskFilter,
    TaskSort,
};
use ms_planner_viewer::filter::{
    FilterType, MultiTagState, SortType, TagState, UiColumn, UiTagFilter,
};
use ms_planner_viewer::plan::{
    parse_date, to_option_date, Column, Date, Plan, Priority, Progress, Task,
};
use ms_planner_viewer::text::{contains_text, no_case_contains, same_text, to_string_list, to_usizes};

fn s(x: &str) -> String {
    x.to_string()
}

fn strings(xs: &[&str]) -> Vec<String> {
    xs.iter().map(|x| x.to_string()).collect()
}

fn row() -> Vec<String> {
    strings(&[
        "t1",
        "Write report",
        "Docs",
        "Wordt uitgevoerd",
        "Belangrijk",
        "Ann;Bob",
        "Cee",
        "05-03-2024",
        "",
        "31-12-2024",
        "false",
        "true",
        "",
        "",
        "2/5",
        "draft;review",
        "p1",
        "All of it",
    ])
}

#[test]
fn no_case_contains_folds_case() {
    assert!(no_case_contains("ABC", "xxabcxx"));
    assert!(no_case_contains("", "anything"));
    assert!(no_case_contains("", ""));
    assert!(!no_case_contains("q", "abc"));
    assert!(no_case_contains("ÉTÉ", "un été chaud"));
}

#[test]
fn contains_text_is_exact() {
    assert!(contains_text("hello", "ell"));
    assert!(!contains_text("hello", "ELL"));
    assert!(contains_text("hello", ""));
    assert!(!contains_text("he", "hello"));
}

#[test]
fn same_text_compares_characters() {
    assert!(same_text("abc", "abc"));
    assert!(!same_text("abc", "abd"));
    assert!(!same_text("abc", "ab"));
}

#[test]
fn string_list_splits_on_semicolons() {
    assert_eq!(to_string_list("a;b;;c"), strings(&["a", "b", "", "c"]));
    assert_eq!(to_string_list("solo"), strings(&["solo"]));
    assert_eq!(to_string_list(""), Vec::<String>::new());
    assert_eq!(to_string_list(";"), strings(&["", ""]));
}

#[test]
fn count_pairs_read_done_over_total() {
    assert_eq!(to_usizes("3/5"), Some((3, 5)));
    assert_eq!(to_usizes("0/0"), Some((0, 0)));
    assert_eq!(to_usizes(""), None);
    assert_eq!(to_usizes("x/1"), None);
    assert_eq!(to_usizes("1/"), None);
    assert_eq!(to_usizes("12"), None);
    assert_eq!(to_usizes("99999999999999999999999/1"), None);
}

#[test]
fn dates_read_day_month_year() {
    assert_eq!(parse_date("05-03-2024"), Some(Date { year: 2024, month: 3, day: 5 }));
    assert_eq!(parse_date("2024-03-05"), None);
    assert_eq!(parse_date("31-02-2024"), None);
    assert!(matches!(to_option_date(""), Ok(None)));
    assert!(matches!(to_option_date("01-01-2020"), Ok(Some(Date { year: 2020, month: 1, day: 1 }))));
    assert!(to_option_date("soon").is_err());
}

#[test]
fn task_row_parses_every_field() {
    let t = Task::parse(&row()).unwrap();
    assert_eq!(t.id, "t1");
    assert_eq!(t.name, "Write report");
    assert_eq!(t.bucket, "Docs");
    assert_eq!(t.progress, Progress::Ongoing);
    assert_eq!(t.priority, Priority::Urgent);
    assert_eq!(t.assigned_to, strings(&["Ann", "Bob"]));
    assert_eq!(t.created_by, "Cee");
    assert_eq!(t.create_date, Date { year: 2024, month: 3, day: 5 });
    assert_eq!(t.start_date, None);
    assert_eq!(t.deadline, Some(Date { year: 2024, month: 12, day: 31 }));
    assert_eq!(t.recurring, None);
    assert!(t.late);
    assert_eq!(t.complete_date, None);
    assert_eq!(t.completed_by, "");
    assert_eq!(t.items_completed, Some((2, 5)));
    assert_eq!(t.items, strings(&["draft", "review"]));
    assert_eq!(t.labels, strings(&["p1"]));
    assert_eq!(t.description, "All of it");
}

#[test]
fn task_row_errors() {
    let mut bad = row();
    bad[3] = s("Unknown");
    assert!(Task::parse(&bad).is_err());
    let mut bad = row();
    bad[4] = s("Urgent");
    assert!(Task::parse(&bad).is_err());
    let mut bad = row();
    bad[7] = s("");
    assert!(Task::parse(&bad).is_err());
    let mut bad = row();
    bad[12] = s("yesterday");
    assert!(Task::parse(&bad).is_err());
    let mut bad = row();
    bad[14] = s("two of five");
    assert!(Task::parse(&bad).is_err());
    let mut weekly = row();
    weekly[10] = s("weekly");
    assert_eq!(Task::parse(&weekly).unwrap().recurring, Some(s("weekly")));
}

#[test]
fn plan_from_rows() {
    let p = Plan::from_rows(s("Plan"), s("pid"), "01-02-2024", &vec![row(), row()]).unwrap();
    assert_eq!(p.name, "Plan");
    assert_eq!(p.id, "pid");
    assert_eq!(p.export_date, Date { year: 2024, month: 2, day: 1 });
    assert_eq!(p.tasks.len(), 2);
    assert!(Plan::from_rows(s("Plan"), s("pid"), "not a date", &vec![row()]).is_err());
    let mut short = row();
    short.pop();
    assert!(Plan::from_rows(s("Plan"), s("pid"), "01-02-2024", &vec![short]).is_err());
}

#[test]
fn task_url_names_plan_and_task() {
    let t = Task::parse(&row()).unwrap();
    assert_eq!(
        t.to_url("abc"),
        "https://planner.cloud.microsoft/webui/plan/abc/view/grid/task/t1"
    );
}

#[test]
fn progress_and_priority_names_and_labels() {
    assert_eq!(Progress::items(), vec![Progress::NotStarted, Progress::Ongoing, Progress::Done]);
    assert_eq!(
        Priority::items(),
        vec![Priority::Urgent, Priority::Important, Priority::Mid, Priority::Low]
    );
    assert_eq!(Progress::Ongoing.name(), "Ongoing");
    assert_eq!(Priority::Mid.name(), "Mid");
    assert_eq!(Progress::from_name("Done"), Some(Progress::Done));
    assert_eq!(Progress::from_name("done"), None);
    assert_eq!(Priority::from_name("Important"), Some(Priority::Important));
    assert_eq!(Progress::from_label("Niet gestart"), Some(Progress::NotStarted));
    assert_eq!(Progress::from_label("Voltooid"), Some(Progress::Done));
    assert_eq!(Priority::from_label("Laag"), Some(Priority::Low));
    assert_eq!(Priority::from_label("Gemiddeld"), Some(Priority::Mid));
    assert_eq!(Priority::from_label("Dringend"), Some(Priority::Important));
    assert_eq!(Priority::from_label("Belangrijk"), Some(Priority::Urgent));
    assert_eq!(Priority::from_label("x"), None);
}

#[test]
fn single_tag_rule() {
    let mut f: TagFilter<String> = TagFilter::new();
    assert!(f.filter(&s("any")));
    assert!(!f.has_filter());
    f.not = strings(&["b"]);
    assert!(!f.filter(&s("b")));
    assert!(f.filter(&s("a")));
    f.or = strings(&["a"]);
    assert!(f.filter(&s("a")));
    assert!(!f.filter(&s("c")));
    assert!(f.has_filter());
    let p = TagFilter { or: vec![Priority::Urgent], not: vec![] };
    assert!(p.filter(&Priority::Urgent));
    assert!(!p.filter(&Priority::Low));
}

#[test]
fn multi_tag_rule() {
    let tags = strings(&["a", "b"]);
    let mut f = MultiTagFilter::new();
    assert!(f.filter(&tags));
    assert!(!f.has_filter());
    f.or = strings(&["z", "b"]);
    assert!(f.filter(&tags));
    f.or = strings(&["z"]);
    assert!(!f.filter(&tags));
    f.or = vec![];
    f.not = strings(&["a"]);
    assert!(!f.filter(&tags));
    assert!(f.filter(&strings(&["b"])));
    f.not = vec![];
    f.and = strings(&["a", "b"]);
    assert!(f.filter(&tags));
    assert!(!f.filter(&strings(&["a"])));
}

#[test]
fn unique_strings_are_sorted_and_distinct() {
    let got = get_unique_strings(&strings(&["b", "a", "b", "c", "a"]));
    assert_eq!(got, strings(&["a", "b", "c"]));
    let got = get_unique_strings(&strings(&["beta", "Alpha", "alpha", "beta"]));
    assert_eq!(got, strings(&["Alpha", "alpha", "beta"]));
    assert_eq!(get_unique_strings(&vec![]), Vec::<String>::new());
}

#[test]
fn tag_states_cycle() {
    let mut t = TagState::Nil;
    for _ in 0..3 {
        t.next();
    }
    assert_eq!(t, TagState::Nil);
    t.next();
    assert_eq!(t, TagState::Or);
    t.next();
    assert_eq!(t, TagState::Not);
    let mut m = MultiTagState::Or;
    for _ in 0..4 {
        m.next();
    }
    assert_eq!(m, MultiTagState::Or);
    m.next();
    assert_eq!(m, MultiTagState::And);
}

#[test]
fn next_state_cycles_one_entry() {
    let mut f = TaskFilter::new();
    f.labels.and = strings(&["b"]);
    let mut ui = UiTagFilter::from_column(Column::Labels, &f, &strings(&["a", "b"]));
    for _ in 0..4 {
        ui.next_state(1);
    }
    match &ui {
        UiTagFilter::Multi(v) => {
            assert_eq!(v[0], (s("a"), MultiTagState::Nil));
            assert_eq!(v[1], (s("b"), MultiTagState::And));
        }
        UiTagFilter::Single(_) => panic!("expected a multi-tag list"),
    }
    ui.next_state(1);
    match &ui {
        UiTagFilter::Multi(v) => assert_eq!(v[1].1, MultiTagState::Not),
        UiTagFilter::Single(_) => panic!("expected a multi-tag list"),
    }
}

#[test]
fn setting_states_directly() {
    let f = TaskFilter::new();
    let mut ui = UiTagFilter::from_column(Column::Bucket, &f, &strings(&["a", "b"]));
    ui.or_state(0);
    ui.not_state(1);
    ui.and_state(1);
    let back: TagFilter<String> = ui.to_tag_filter().unwrap();
    assert_eq!(back.or, strings(&["a"]));
    assert_eq!(back.not, strings(&["b"]));
    ui.nil_state(0);
    let back: TagFilter<String> = ui.to_tag_filter().unwrap();
    assert!(back.or.is_empty());
}

#[test]
fn single_rule_round_trip() {
    let mut f = TaskFilter::new();
    f.bucket = TagFilter { or: strings(&["b"]), not: strings(&["c"]) };
    let uniques = strings(&["a", "b", "c"]);
    let ui = UiTagFilter::from_column(Column::Bucket, &f, &uniques);
    match &ui {
        UiTagFilter::Single(v) => {
            assert_eq!(v[0].1, TagState::Nil);
            assert_eq!(v[1].1, TagState::Or);
            assert_eq!(v[2].1, TagState::Not);
        }
        UiTagFilter::Multi(_) => panic!("expected a single-tag list"),
    }
    let back: TagFilter<String> = ui.to_tag_filter().unwrap();
    assert_eq!(back.or, f.bucket.or);
    assert_eq!(back.not, f.bucket.not);
    assert!(ui.to_multi_tag_filter().is_err());
}

#[test]
fn enum_rule_round_trip() {
    let mut f = TaskFilter::new();
    f.priority = TagFilter { or: vec![Priority::Urgent], not: vec![Priority::Low] };
    let names: Vec<String> = Priority::items().iter().map(|p| p.name()).collect();
    let ui = f.get_ui_filter(Column::Priority, &names);
    let back: TagFilter<Priority> = ui.to_tag_filter().unwrap();
    assert_eq!(back.or, vec![Priority::Urgent]);
    assert_eq!(back.not, vec![Priority::Low]);
    let stray = UiTagFilter::Single(vec![(s("Soon"), TagState::Or)]);
    assert!(stray.to_tag_filter::<Priority>().is_err());
    let unused = UiTagFilter::Single(vec![(s("Soon"), TagState::Nil)]);
    assert!(unused.to_tag_filter::<Priority>().unwrap().or.is_empty());
}

#[test]
fn multi_rule_round_trip() {
    let mut f = TaskFilter::new();
    f.assigned_to = MultiTagFilter {
        and: strings(&["ann"]),
        or: strings(&["bob", "cee"]),
        not: strings(&["dan"]),
    };
    let uniques = strings(&["ann", "bob", "cee", "dan", "eve"]);
    let ui = UiTagFilter::from_column(Column::AssignedTo, &f, &uniques);
    let back = ui.to_multi_tag_filter().unwrap();
    assert_eq!(back.and, f.assigned_to.and);
    assert_eq!(back.or, f.assigned_to.or);
    assert_eq!(back.not, f.assigned_to.not);
    assert!(ui.to_tag_filter::<String>().is_err());
}

#[test]
fn reset_filter_clears_one_column() {
    let mut f = TaskFilter::new();
    f.bucket.or = strings(&["x"]);
    f.name = s("n");
    f.labels.and = strings(&["l"]);
    f.reset_filter(Column::Bucket);
    assert!(f.bucket.or.is_empty());
    assert_eq!(f.name, "n");
    f.reset_filter(Column::Deadline);
    assert_eq!(f.name, "n");
    f.reset_filter(Column::Name);
    assert_eq!(f.name, "");
    assert_eq!(f.labels.and, strings(&["l"]));
    f.reset_filter(Column::Labels);
    assert!(f.labels.and.is_empty());
}

#[test]
fn panel_markers() {
    let mut f = TaskFilter::new();
    let ts = TaskSort { column: Some(Column::Deadline), order: Order::Asc };
    assert_eq!(SortType::new(Column::Deadline, &ts), SortType::Sorted(Order::Asc));
    assert_eq!(SortType::new(Column::Name, &ts), SortType::Unsorted);
    assert_eq!(SortType::new(Column::Labels, &ts), SortType::Nil);
    assert_eq!(FilterType::new(Column::Bucket, &f), FilterType::Tag(false));
    f.description = s("d");
    assert_eq!(FilterType::new(Column::Description, &f), FilterType::Text(true));
    assert_eq!(FilterType::new(Column::StartDate, &f), FilterType::Nil);
    let cols: Vec<Column> = UiColumn::all(&f, &ts).iter().map(|c| c.column).collect();
    assert_eq!(
        cols,
        vec![
            Column::Bucket,
            Column::Progress,
            Column::Priority,
            Column::Labels,
            Column::AssignedTo,
            Column::Name,
            Column::Deadline,
            Column::CreateDate,
            Column::StartDate,
            Column::CompleteDate,
            Column::Description,
        ]
    );
    assert_eq!(get_ui_columns(&f, &ts)[6].sort, SortType::Sorted(Order::Asc));
}

#[test]
fn default_config_is_empty_and_descending() {
    let c = Config::default();
    assert!(c.sort.column.is_none());
    assert_eq!(c.sort.order, Order::Desc);
    assert!(c.filter.name.is_empty());
    assert!(!c.filter.bucket.has_filter());
    assert!(!c.filter.labels.has_filter());
    assert!(c.filter.ids.is_empty());
}
