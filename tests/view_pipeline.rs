use ms_planner_viewer::config::{Config, MultiTagFilter, Order, TagFilter, TaskFilter, TaskSort};
use ms_planner_viewer::plan::{Column, Date, Priority, Progress, Task};
use ms_planner_viewer::text::text_before_or_same;
use ms_planner_viewer::view::{
    displayed_indices, filter_tasks, key_before_or_same, sort_tasks, task_passes,
};

fn s(x: &str) -> String {
    x.to_string()
}

fn task(id: &str, bucket: &str, priority: Priority) -> Task {
    Task {
        id: s(id),
        name: s(id),
        bucket: s(bucket),
        progress: Progress::NotStarted,
        priority,
        assigned_to: vec![],
        created_by: s("someone"),
        create_date: Date { year: 2024, month: 1, day: 1 },
        start_date: None,
        deadline: None,
        recurring: None,
        late: false,
        complete_date: None,
        completed_by: s(""),
        items_completed: None,
        items: vec![],
        labels: vec![],
        description: s(""),
    }
}

fn three_tasks() -> Vec<Task> {
    vec![
        task("A", "X", Priority::Urgent),
        task("B", "Y", Priority::Low),
        task("C", "X", Priority::Mid),
    ]
}

fn config_sorted_by(column: Option<Column>, order: Order) -> Config {
    let mut c = Config::new();
    c.sort = TaskSort { column, order };
    c
}

#[test]
fn bucket_filter_then_priority_descending() {
    let tasks = three_tasks();
    let mut config = config_sorted_by(Some(Column::Priority), Order::Desc);
    config.filter.bucket.or = vec![s("X")];
    let shown = displayed_indices(&config, &tasks);
    let ids: Vec<&str> = shown.iter().map(|&i| tasks[i].id.as_str()).collect();
    assert_eq!(ids, vec!["A", "C"]);
}

#[test]
fn empty_filter_priority_ascending() {
    let tasks = three_tasks();
    let config = config_sorted_by(Some(Column::Priority), Order::Asc);
    let shown = displayed_indices(&config, &tasks);
    let ids: Vec<&str> = shown.iter().map(|&i| tasks[i].id.as_str()).collect();
    assert_eq!(ids, vec!["B", "C", "A"]);
}

#[test]
fn label_and_rule_needs_every_label() {
    let mut tasks = vec![
        task("both", "X", Priority::Low),
        task("first", "X", Priority::Low),
        task("second", "X", Priority::Low),
        task("none", "X", Priority::Low),
    ];
    tasks[0].labels = vec![s("p1"), s("p2"), s("p3")];
    tasks[1].labels = vec![s("p1")];
    tasks[2].labels = vec![s("p2")];
    let mut config = Config::new();
    config.filter.labels = MultiTagFilter { and: vec![s("p1"), s("p2")], or: vec![], not: vec![] };
    assert_eq!(filter_tasks(&config, &tasks), vec![0]);
}

#[test]
fn passes_is_the_same_on_the_same_inputs() {
    let t = task("A", "X", Priority::Urgent);
    let mut f = TaskFilter::new();
    f.bucket.not = vec![s("Y")];
    f.name = s("a");
    let first = task_passes(&t, &f);
    let second = task_passes(&t, &f);
    assert!(first);
    assert_eq!(first, second);
}

#[test]
fn adding_a_rule_only_shrinks_the_shown_set() {
    let tasks = three_tasks();
    let mut config = Config::new();
    config.filter.bucket.or = vec![s("X")];
    let before = filter_tasks(&config, &tasks);
    config.filter.priority.not = vec![Priority::Mid];
    let after = filter_tasks(&config, &tasks);
    assert_eq!(before, vec![0, 2]);
    assert_eq!(after, vec![0]);
    assert!(after.iter().all(|i| before.contains(i)));
}

#[test]
fn sorting_an_already_sorted_list_keeps_it() {
    let tasks = three_tasks();
    let config = config_sorted_by(Some(Column::Priority), Order::Desc);
    let mut idx = vec![0, 2, 1];
    sort_tasks(&config, &tasks, &mut idx);
    assert_eq!(idx, vec![0, 2, 1]);
    let mut again = idx.clone();
    sort_tasks(&config, &tasks, &mut again);
    assert_eq!(again, idx);
}

#[test]
fn ascending_is_descending_reversed_with_ties() {
    let tasks = vec![
        task("a", "X", Priority::Low),
        task("b", "X", Priority::Urgent),
        task("c", "X", Priority::Low),
        task("d", "X", Priority::Urgent),
    ];
    let desc = displayed_indices(&config_sorted_by(Some(Column::Priority), Order::Desc), &tasks);
    let asc = displayed_indices(&config_sorted_by(Some(Column::Priority), Order::Asc), &tasks);
    assert_eq!(desc, vec![1, 3, 0, 2]);
    let mut reversed = desc.clone();
    reversed.reverse();
    assert_eq!(asc, reversed);
    assert_eq!(asc, vec![2, 0, 3, 1]);
}

#[test]
fn unsorted_and_set_columns_keep_plan_order() {
    let tasks = three_tasks();
    for column in [None, Some(Column::Labels), Some(Column::AssignedTo)] {
        for order in [Order::Asc, Order::Desc] {
            let shown = displayed_indices(&config_sorted_by(column, order), &tasks);
            assert_eq!(shown, vec![0, 1, 2]);
        }
    }
}

#[test]
fn name_sort_descends_lexicographically_and_stably() {
    let mut tasks = three_tasks();
    tasks[0].name = s("beta");
    tasks[1].name = s("alpha");
    tasks[2].name = s("beta");
    let shown = displayed_indices(&config_sorted_by(Some(Column::Name), Order::Desc), &tasks);
    assert_eq!(shown, vec![0, 2, 1]);
    let shown = displayed_indices(&config_sorted_by(Some(Column::Name), Order::Asc), &tasks);
    assert_eq!(shown, vec![1, 2, 0]);
}

#[test]
fn already_descending_names_stay_and_ascending_names_stay() {
    let mut tasks = three_tasks();
    tasks[0].name = s("b");
    tasks[1].name = s("a");
    let desc = config_sorted_by(Some(Column::Name), Order::Desc);
    let mut idx = vec![0, 1];
    sort_tasks(&desc, &tasks, &mut idx);
    assert_eq!(idx, vec![0, 1]);
    let asc = config_sorted_by(Some(Column::Name), Order::Asc);
    let mut idx = vec![1, 0];
    sort_tasks(&asc, &tasks, &mut idx);
    assert_eq!(idx, vec![1, 0]);
}

#[test]
fn descending_dates_put_latest_first_and_absent_last() {
    let mut tasks = three_tasks();
    tasks[0].deadline = Some(Date { year: 2024, month: 5, day: 1 });
    tasks[1].deadline = None;
    tasks[2].deadline = Some(Date { year: 2023, month: 12, day: 31 });
    let shown = displayed_indices(&config_sorted_by(Some(Column::Deadline), Order::Desc), &tasks);
    assert_eq!(shown, vec![0, 2, 1]);
    let shown = displayed_indices(&config_sorted_by(Some(Column::Deadline), Order::Asc), &tasks);
    assert_eq!(shown, vec![1, 2, 0]);
}

#[test]
fn descending_progress_puts_done_first() {
    let mut tasks = three_tasks();
    tasks[0].progress = Progress::NotStarted;
    tasks[1].progress = Progress::Done;
    tasks[2].progress = Progress::Ongoing;
    let shown = displayed_indices(&config_sorted_by(Some(Column::Progress), Order::Desc), &tasks);
    assert_eq!(shown, vec![1, 2, 0]);
}

#[test]
fn text_order_compares_characters() {
    assert!(text_before_or_same("abc", "abd"));
    assert!(text_before_or_same("ab", "abc"));
    assert!(!text_before_or_same("abc", "ab"));
    assert!(text_before_or_same("", ""));
    assert!(text_before_or_same("B", "a"));
}

#[test]
fn natural_key_order_by_progress_date_and_priority() {
    let mut a = task("a", "X", Priority::Low);
    let mut b = task("b", "X", Priority::Low);
    a.progress = Progress::Done;
    b.progress = Progress::Ongoing;
    assert!(!key_before_or_same(&a, &b, Column::Progress));
    assert!(key_before_or_same(&b, &a, Column::Progress));
    a.create_date = Date { year: 2023, month: 2, day: 1 };
    assert!(key_before_or_same(&a, &b, Column::CreateDate));
    assert!(!key_before_or_same(&b, &a, Column::CreateDate));
    a.priority = Priority::Urgent;
    assert!(key_before_or_same(&b, &a, Column::Priority));
    assert!(!key_before_or_same(&a, &b, Column::Priority));
}

#[test]
fn name_and_description_rules_ignore_case() {
    let mut t = task("A", "X", Priority::Low);
    t.name = s("Write the Report");
    t.description = s("Quarterly NUMBERS");
    let mut f = TaskFilter::new();
    f.name = s("REPORT");
    assert!(task_passes(&t, &f));
    f.description = s("numbers");
    assert!(task_passes(&t, &f));
    f.description = s("letters");
    assert!(!task_passes(&t, &f));
}

#[test]
fn created_by_rule_takes_part() {
    let t = task("A", "X", Priority::Low);
    let mut f = TaskFilter::new();
    f.created_by = TagFilter { or: vec![s("other")], not: vec![] };
    assert!(!task_passes(&t, &f));
    f.created_by = TagFilter { or: vec![s("someone")], not: vec![] };
    assert!(task_passes(&t, &f));
}
