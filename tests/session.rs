use ms_planner_viewer::app::{Action, App, FilterViewMode, InputMode, Key};
use ms_planner_viewer::config::{Config, Order};
use ms_planner_viewer::filter::UiTagFilter;
use ms_planner_viewer::plan::{Column, Date, Plan, Priority, Progress, Task};
use ms_planner_viewer::SimpleError;

fn s(x: &str) -> String {
    x.to_string()
}

fn task(id: &str, bucket: &str, priority: Priority, labels: &[&str]) -> Task {
    Task {
        id: s(id),
        name: s(id),
        bucket: s(bucket),
        progress: Progress::NotStarted,
        priority,
        assigned_to: vec![s("ann")],
        created_by: s("someone"),
        create_date: Date { year: 2024, month: 1, day: 1 },
        start_date: None,
        deadline: None,
        recurring: None,
        late: false,
        complete_date: None,
        completed_by: s(""),
        items_completed: None,
        items: vec![],
        labels: labels.iter().map(|l| l.to_string()).collect(),
        description: s(""),
    }
}

fn plan() -> Plan {
    Plan {
        id: s("plan-1"),
        name: s("Plan"),
        export_date: Date { year: 2024, month: 2, day: 1 },
        tasks: vec![
            task("A", "X", Priority::Urgent, &["p1"]),
            task("B", "Y", Priority::Low, &["p2", "p1"]),
            task("C", "X", Priority::Mid, &[]),
        ],
    }
}

/// Moves the column list's selection down to the line of `c`.
fn select_column(app: &mut App, c: Column) {
    let order = [
        Column::Bucket,
        Column::Progress,
        Column::Priority,
        Column::Labels,
        Column::AssignedTo,
        Column::Name,
        Column::Deadline,
        Column::CreateDate,
        Column::StartDate,
        Column::CompleteDate,
        Column::Description,
    ];
    let target = order.iter().position(|x| *x == c).unwrap();
    while app.filter_view.selected != Some(target) {
        app.handle_key(Key::Char('j'));
    }
}

#[test]
fn new_session_shows_every_task() {
    let app = App::new(plan(), Config::new());
    assert_eq!(app.displayed_tasks, vec![0, 1, 2]);
    assert_eq!(app.table_selected, Some(0));
    assert_eq!(app.input_mode, InputMode::TableRow);
    assert!(app.error_popup.is_none());
    assert_eq!(app.filter_view.unique_task_keys.buckets, vec![s("X"), s("Y")]);
    assert_eq!(app.filter_view.unique_task_keys.labels, vec![s("p1"), s("p2")]);
    assert_eq!(app.filter_view.unique_task_keys.people, vec![s("ann")]);
}

#[test]
fn failed_reload_keeps_everything_but_adds_one_message() {
    let mut config = Config::new();
    config.filter.bucket.or = vec![s("X")];
    let mut app = App::new(plan(), config);
    let shown = app.displayed_tasks.clone();
    app.reload(Err(SimpleError(s("corrupt plan file"))));
    assert_eq!(app.displayed_tasks, shown);
    assert_eq!(app.config.filter.bucket.or, vec![s("X")]);
    assert_eq!(app.plan.tasks.len(), 3);
    assert_eq!(app.error_popup, Some(s("corrupt plan file")));
    app.reload(Err(SimpleError(s("again"))));
    assert_eq!(app.error_popup, Some(s("corrupt plan file\nagain")));
}

#[test]
fn successful_reload_replaces_the_plan() {
    let mut app = App::new(plan(), Config::new());
    let mut smaller = plan();
    smaller.tasks.truncate(1);
    app.table_selected = Some(2);
    app.reload(Ok(smaller));
    assert_eq!(app.displayed_tasks, vec![0]);
    assert_eq!(app.table_selected, Some(0));
    assert_eq!(app.filter_view.unique_task_keys.buckets, vec![s("X")]);
    assert_eq!(app.error_popup, Some(s("plan reloaded")));
}

#[test]
fn popup_takes_keys_until_escape() {
    let mut app = App::new(plan(), Config::new());
    app.add_error_msg("hello");
    assert!(matches!(app.handle_key(Key::Char('f')), Action::Nothing));
    assert_eq!(app.input_mode, InputMode::TableRow);
    assert!(matches!(app.handle_key(Key::Esc), Action::Nothing));
    assert!(app.error_popup.is_none());
    assert!(matches!(app.handle_key(Key::Char('q')), Action::Quit));
}

#[test]
fn save_and_reload_are_handed_back() {
    let mut app = App::new(plan(), Config::new());
    assert!(matches!(app.handle_key(Key::Char('S')), Action::SaveConfig));
    assert!(matches!(app.handle_key(Key::Char('R')), Action::ReloadPlan));
}

#[test]
fn rows_move_and_open_a_task_link() {
    let mut app = App::new(plan(), Config::new());
    app.handle_key(Key::Char('j'));
    app.handle_key(Key::Char('j'));
    app.handle_key(Key::Char('j'));
    assert_eq!(app.table_selected, Some(2));
    app.handle_key(Key::Char('k'));
    assert_eq!(app.table_selected, Some(1));
    app.handle_key(Key::Char(' '));
    assert_eq!(app.selected_task, Some(1));
    match app.handle_key(Key::Char('L')) {
        Action::OpenUrl(u) => assert_eq!(
            u,
            "https://planner.cloud.microsoft/webui/plan/plan-1/view/grid/task/B"
        ),
        other => panic!("expected a link, got {:?}", other),
    }
    app.handle_key(Key::Esc);
    assert_eq!(app.selected_task, None);
}

#[test]
fn sorting_from_the_column_list() {
    let mut app = App::new(plan(), Config::new());
    app.handle_key(Key::Char('f'));
    assert_eq!(app.input_mode, InputMode::FilterMode);
    select_column(&mut app, Column::Priority);
    app.handle_key(Key::Char('s'));
    assert_eq!(app.config.sort.column, Some(Column::Priority));
    assert_eq!(app.config.sort.order, Order::Desc);
    assert_eq!(app.displayed_tasks, vec![0, 2, 1]);
    app.handle_key(Key::Char('s'));
    assert_eq!(app.config.sort.order, Order::Asc);
    assert_eq!(app.displayed_tasks, vec![1, 2, 0]);
    select_column(&mut app, Column::Labels);
    app.handle_key(Key::Char('s'));
    assert_eq!(app.config.sort.column, Some(Column::Priority));
    app.handle_key(Key::Esc);
    assert_eq!(app.input_mode, InputMode::TableRow);
}

#[test]
fn tag_editor_writes_through() {
    let mut app = App::new(plan(), Config::new());
    app.handle_key(Key::Char('f'));
    select_column(&mut app, Column::Bucket);
    app.handle_key(Key::Char(' '));
    assert!(matches!(
        app.filter_view.filter_mode,
        FilterViewMode::TagFilter(UiTagFilter::Single(_), Column::Bucket)
    ));
    app.handle_key(Key::Char(' '));
    assert_eq!(app.config.filter.bucket.or, vec![s("X")]);
    assert_eq!(app.displayed_tasks, vec![0, 2]);
    app.handle_key(Key::Char(' '));
    assert!(app.config.filter.bucket.or.is_empty());
    assert_eq!(app.config.filter.bucket.not, vec![s("X")]);
    assert_eq!(app.displayed_tasks, vec![1]);
    app.handle_key(Key::Esc);
    assert!(matches!(app.filter_view.filter_mode, FilterViewMode::Columns));
}

#[test]
fn progress_editor_lists_every_value() {
    let mut app = App::new(plan(), Config::new());
    app.handle_key(Key::Char('f'));
    select_column(&mut app, Column::Progress);
    app.handle_key(Key::Char(' '));
    match &app.filter_view.filter_mode {
        FilterViewMode::TagFilter(UiTagFilter::Single(v), Column::Progress) => {
            let names: Vec<&str> = v.iter().map(|e| e.0.as_str()).collect();
            assert_eq!(names, vec!["NotStarted", "Ongoing", "Done"]);
        }
        _ => panic!("expected the progress list"),
    }
    app.handle_key(Key::Char(' '));
    assert_eq!(app.config.filter.progress.or, vec![Progress::NotStarted]);
    assert_eq!(app.displayed_tasks, vec![0, 1, 2]);
}

#[test]
fn label_editor_uses_and_state() {
    let mut app = App::new(plan(), Config::new());
    app.handle_key(Key::Char('f'));
    select_column(&mut app, Column::Labels);
    app.handle_key(Key::Char(' '));
    app.handle_key(Key::Char('j'));
    app.handle_key(Key::Char(' '));
    app.handle_key(Key::Char(' '));
    assert_eq!(app.config.filter.labels.and, vec![s("p2")]);
    assert_eq!(app.displayed_tasks, vec![1]);
}

#[test]
fn text_editor_writes_every_key() {
    let mut app = App::new(plan(), Config::new());
    app.handle_key(Key::Char('f'));
    select_column(&mut app, Column::Name);
    app.handle_key(Key::Char(' '));
    app.handle_key(Key::Char('b'));
    assert_eq!(app.config.filter.name, "b");
    assert_eq!(app.displayed_tasks, vec![1]);
    app.handle_key(Key::Backspace);
    assert_eq!(app.config.filter.name, "");
    assert_eq!(app.displayed_tasks, vec![0, 1, 2]);
    app.handle_key(Key::Char('c'));
    app.handle_key(Key::Enter);
    assert!(matches!(app.filter_view.filter_mode, FilterViewMode::Columns));
    assert_eq!(app.config.filter.name, "c");
    assert_eq!(app.displayed_tasks, vec![2]);
}

#[test]
fn text_editor_takes_command_letters() {
    let mut app = App::new(plan(), Config::new());
    app.handle_key(Key::Char('f'));
    select_column(&mut app, Column::Description);
    app.handle_key(Key::Char(' '));
    assert!(matches!(app.handle_key(Key::Char('q')), Action::Nothing));
    assert!(matches!(app.handle_key(Key::Char('S')), Action::Nothing));
    assert!(matches!(app.handle_key(Key::Char('R')), Action::Nothing));
    assert_eq!(app.config.filter.description, "qSR");
    app.handle_key(Key::Esc);
    assert!(matches!(app.handle_key(Key::Char('q')), Action::Quit));
}

#[test]
fn failed_reload_without_text_still_adds_a_line() {
    let mut app = App::new(plan(), Config::new());
    app.reload(Err(SimpleError(s(""))));
    assert_eq!(app.error_popup, Some(s("reloading the plan failed")));
}

#[test]
fn opening_an_editor_selects_its_first_line() {
    let mut app = App::new(plan(), Config::new());
    app.handle_key(Key::Char('f'));
    select_column(&mut app, Column::Labels);
    app.handle_key(Key::Char(' '));
    assert_eq!(app.filter_view.selected, Some(0));
    app.handle_key(Key::Esc);
    select_column(&mut app, Column::Name);
    app.handle_key(Key::Char(' '));
    assert_eq!(app.filter_view.selected, None);
}

#[test]
fn popup_keeps_the_selections() {
    let mut app = App::new(plan(), Config::new());
    app.handle_key(Key::Char('j'));
    app.add_error_msg("note");
    app.handle_key(Key::Char('j'));
    app.handle_key(Key::Char(' '));
    assert_eq!(app.table_selected, Some(1));
    assert_eq!(app.selected_task, None);
}
