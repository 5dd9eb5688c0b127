//! The session: the loaded plan, the configuration, what is shown, and the
//! keyboard-driven modes that change them. Work outside the session (saving,
//! reloading, opening a link) is handed back to the caller as an action.

use crate::config::{
    dedup, get_ui_columns, get_unique_strings, sorted_texts, Config, Order, TagValue, TaskFilter,
    UniqueTaskKeys,
};
use crate::filter::{
    multi_with, panel_columns, single_convertible, single_with, MultiTagState, TagState,
    UiTagFilter, PANEL_LEN,
};
use crate::plan::{task_url, Column, Plan, Priority, Progress, Task};
use crate::text::{pop_char, push_char, views};
use crate::view::{displayed, displayed_indices, has_sort_key};
use crate::SimpleError;
use vstd::prelude::*;

verus! {

/// A key press, as the session reads it.
#[derive(Clone, Copy, Debug, PartialEq, Eq, Structural)]
pub enum Key {
    Char(char),
    Esc,
    Enter,
    Backspace,
    Other,
}

/// The two top-level modes: browsing rows, or the filter panel.
#[derive(Clone, Copy, Debug, PartialEq, Eq, Structural)]
pub enum InputMode {
    TableRow,
    FilterMode,
}

/// What the filter panel shows: the column list, the value list of a tag
/// column, or the pattern of a text column.
#[derive(Clone, Debug)]
pub enum FilterViewMode {
    TagFilter(UiTagFilter, Column),
    Columns,
    TextFilter(String, Column),
}

/// Work that the caller does outside the session after a key.
#[derive(Clone, Debug)]
pub enum Action {
    Nothing,
    Quit,
    SaveConfig,
    ReloadPlan,
    OpenUrl(String),
}

/// The state of the filter panel.
#[derive(Clone, Debug)]
pub struct FilterView {
    pub selected: Option<usize>,
    pub unique_task_keys: UniqueTaskKeys,
    pub filter_mode: FilterViewMode,
}

/// The whole session.
#[derive(Clone, Debug)]
pub struct App {
    pub plan: Plan,
    pub config: Config,
    pub table_selected: Option<usize>,
    pub displayed_tasks: Vec<usize>,
    pub error_popup: Option<String>,
    pub input_mode: InputMode,
    pub filter_view: FilterView,
    pub selected_task: Option<usize>,
}

/// The selection one row further down a list of `len` rows.
pub open spec fn next_selection(sel: Option<usize>, len: nat) -> Option<usize> {
    if len == 0 {
        None
    } else {
        match sel {
            None => Some(0),
            Some(i) => if i + 1 < len {
                Some((i + 1) as usize)
            } else {
                Some((len - 1) as usize)
            },
        }
    }
}

/// The selection one row further up a list of `len` rows.
pub open spec fn previous_selection(sel: Option<usize>, len: nat) -> Option<usize> {
    if len == 0 {
        None
    } else {
        match sel {
            None => Some((len - 1) as usize),
            Some(i) => if i == 0 {
                Some(0)
            } else if i - 1 < len {
                Some((i - 1) as usize)
            } else {
                Some((len - 1) as usize)
            },
        }
    }
}

/// A selection brought back into a list of `len` rows.
pub open spec fn clamped(sel: Option<usize>, len: nat) -> Option<usize> {
    match sel {
        None => None,
        Some(i) => if len == 0 {
            None
        } else if i < len {
            Some(i)
        } else {
            Some((len - 1) as usize)
        },
    }
}

/// The first row of a list of `len` rows, if there is one.
pub open spec fn first_selection(len: nat) -> Option<usize> {
    if len == 0 {
        None
    } else {
        Some(0)
    }
}

pub fn select_next(sel: Option<usize>, len: usize) -> (r: Option<usize>)
    ensures
        r == next_selection(sel, len as nat),
{
    if len == 0 {
        None
    } else {
        match sel {
            None => Some(0),
            Some(i) => if i < len - 1 {
                Some(i + 1)
            } else {
                Some(len - 1)
            },
        }
    }
}

pub fn select_previous(sel: Option<usize>, len: usize) -> (r: Option<usize>)
    ensures
        r == previous_selection(sel, len as nat),
{
    if len == 0 {
        None
    } else {
        match sel {
            None => Some(len - 1),
            Some(i) => if i == 0 {
                Some(0)
            } else if i - 1 < len {
                Some(i - 1)
            } else {
                Some(len - 1)
            },
        }
    }
}

pub fn clamp_selection(sel: Option<usize>, len: usize) -> (r: Option<usize>)
    ensures
        r == clamped(sel, len as nat),
{
    match sel {
        None => None,
        Some(i) => if len == 0 {
            None
        } else if i < len {
            Some(i)
        } else {
            Some(len - 1)
        },
    }
}

fn select_first(len: usize) -> (r: Option<usize>)
    ensures
        r == first_selection(len as nat),
{
    if len == 0 {
        None
    } else {
        Some(0)
    }
}

/// The buckets of the tasks, one per task.
pub open spec fn bucket_values(tasks: Seq<Task>) -> Seq<Seq<char>> {
    tasks.map_values(|t: Task| t.bucket@)
}

/// The labels of the tasks, task after task.
pub open spec fn label_values(tasks: Seq<Task>) -> Seq<Seq<char>>
    decreases tasks.len(),
{
    if tasks.len() == 0 {
        Seq::empty()
    } else {
        label_values(tasks.drop_last()) + views(tasks.last().labels@)
    }
}

/// The assignees of the tasks, task after task.
pub open spec fn people_values(tasks: Seq<Task>) -> Seq<Seq<char>>
    decreases tasks.len(),
{
    if tasks.len() == 0 {
        Seq::empty()
    } else {
        people_values(tasks.drop_last()) + views(tasks.last().assigned_to@)
    }
}

/// `k` holds the distinct buckets, labels and assignees of the tasks, each
/// list in lexicographic order.
pub open spec fn keys_of(k: UniqueTaskKeys, tasks: Seq<Task>) -> bool {
    &&& views(k.buckets@) == sorted_texts(dedup(bucket_values(tasks)))
    &&& views(k.labels@) == sorted_texts(dedup(label_values(tasks)))
    &&& views(k.people@) == sorted_texts(dedup(people_values(tasks)))
}

/// The distinct buckets, labels and assignees of the tasks.
pub fn unique_keys(tasks: &Vec<Task>) -> (r: UniqueTaskKeys)
    ensures
        keys_of(r, tasks@),
{
    let mut buckets: Vec<String> = Vec::new();
    let mut labels: Vec<String> = Vec::new();
    let mut people: Vec<String> = Vec::new();
    let mut i: usize = 0;
    while i < tasks.len()
        invariant
            i <= tasks@.len(),
            views(buckets@) == bucket_values(tasks@.subrange(0, i as int)),
            views(labels@) == label_values(tasks@.subrange(0, i as int)),
            views(people@) == people_values(tasks@.subrange(0, i as int)),
        decreases tasks@.len() - i,
    {
        let ghost pre = tasks@.subrange(0, i as int);
        let ghost next = tasks@.subrange(0, i + 1);
        assert(next.drop_last() =~= pre);
        let t = &tasks[i];
        let ghost b0 = buckets@;
        buckets.push(t.bucket.clone());
        assert(views(buckets@) =~= views(b0).push(t.bucket@));
        assert(bucket_values(next) =~= bucket_values(pre).push(t.bucket@));
        let ghost l0 = labels@;
        let mut k: usize = 0;
        while k < t.labels.len()
            invariant
                k <= t.labels@.len(),
                views(labels@) == views(l0) + views(t.labels@.subrange(0, k as int)),
            decreases t.labels@.len() - k,
        {
            let ghost l1 = labels@;
            labels.push(t.labels[k].clone());
            assert(views(labels@) =~= views(l1).push(t.labels@[k as int]@));
            assert(views(t.labels@.subrange(0, k + 1)) =~= views(t.labels@.subrange(0, k as int)).push(
                t.labels@[k as int]@,
            ));
            k += 1;
        }
        assert(t.labels@.subrange(0, k as int) =~= t.labels@);
        let ghost p0 = people@;
        let mut k: usize = 0;
        while k < t.assigned_to.len()
            invariant
                k <= t.assigned_to@.len(),
                views(people@) == views(p0) + views(t.assigned_to@.subrange(0, k as int)),
            decreases t.assigned_to@.len() - k,
        {
            let ghost p1 = people@;
            people.push(t.assigned_to[k].clone());
            assert(views(people@) =~= views(p1).push(t.assigned_to@[k as int]@));
            assert(views(t.assigned_to@.subrange(0, k + 1)) =~= views(
                t.assigned_to@.subrange(0, k as int),
            ).push(t.assigned_to@[k as int]@));
            k += 1;
        }
        assert(t.assigned_to@.subrange(0, k as int) =~= t.assigned_to@);
        i += 1;
    }
    assert(tasks@.subrange(0, i as int) =~= tasks@);
    UniqueTaskKeys {
        buckets: get_unique_strings(&buckets),
        labels: get_unique_strings(&labels),
        people: get_unique_strings(&people),
    }
}

/// The names of every progress value, in declared order.
pub fn progress_names() -> (r: Vec<String>)
    ensures
        views(r@) == Progress::all().map_values(|p: Progress| p.spec_name()),
{
    let items = Progress::items();
    let mut r: Vec<String> = Vec::new();
    let mut i: usize = 0;
    while i < items.len()
        invariant
            items@ == Progress::all(),
            i <= items@.len(),
            views(r@) == items@.subrange(0, i as int).map_values(|p: Progress| p.spec_name()),
        decreases items@.len() - i,
    {
        let ghost r0 = r@;
        r.push(items[i].name());
        assert(views(r@) =~= views(r0).push(items@[i as int].spec_name()));
        assert(items@.subrange(0, i + 1).map_values(|p: Progress| p.spec_name()) =~= items@.subrange(
            0,
            i as int,
        ).map_values(|p: Progress| p.spec_name()).push(items@[i as int].spec_name()));
        i += 1;
    }
    assert(items@.subrange(0, i as int) =~= items@);
    r
}

/// The names of every priority, in declared order.
pub fn priority_names() -> (r: Vec<String>)
    ensures
        views(r@) == Priority::all().map_values(|p: Priority| p.spec_name()),
{
    let items = Priority::items();
    let mut r: Vec<String> = Vec::new();
    let mut i: usize = 0;
    while i < items.len()
        invariant
            items@ == Priority::all(),
            i <= items@.len(),
            views(r@) == items@.subrange(0, i as int).map_values(|p: Priority| p.spec_name()),
        decreases items@.len() - i,
    {
        let ghost r0 = r@;
        r.push(items[i].name());
        assert(views(r@) =~= views(r0).push(items@[i as int].spec_name()));
        assert(items@.subrange(0, i + 1).map_values(|p: Priority| p.spec_name()) =~= items@.subrange(
            0,
            i as int,
        ).map_values(|p: Priority| p.spec_name()).push(items@[i as int].spec_name()));
        i += 1;
    }
    assert(items@.subrange(0, i as int) =~= items@);
    r
}

/// Every entry of a progress or priority list names a value of its column.
pub open spec fn texts_name_values(ui: UiTagFilter, c: Column) -> bool {
    match ui {
        UiTagFilter::Single(v) => {
            &&& (c == Column::Progress ==> forall|i: int|
                0 <= i < v@.len() ==> <Progress as TagValue>::is_tag((#[trigger] v@[i]).0@))
            &&& (c == Column::Priority ==> forall|i: int|
                0 <= i < v@.len() ==> <Priority as TagValue>::is_tag((#[trigger] v@[i]).0@))
        },
        UiTagFilter::Multi(_) => true,
    }
}

/// The open editor fits its column.
pub open spec fn editor_wf(m: FilterViewMode) -> bool {
    match m {
        FilterViewMode::TagFilter(ui, c) => ui.fits(c) && texts_name_values(ui, c),
        FilterViewMode::TextFilter(_, c) => c.is_text_column(),
        FilterViewMode::Columns => true,
    }
}

/// The number of rows the filter panel lists.
pub open spec fn list_len(m: FilterViewMode) -> nat {
    match m {
        FilterViewMode::TagFilter(ui, _) => ui.spec_len(),
        FilterViewMode::Columns => PANEL_LEN as nat,
        FilterViewMode::TextFilter(_, _) => 0,
    }
}

/// The popup text after `msg` is added: messages stack, one per line.
pub open spec fn with_message(popup: Option<String>, msg: Seq<char>) -> Seq<char> {
    match popup {
        Some(t) => t@ + "\n"@ + msg,
        None => msg,
    }
}

/// The column's free-text pattern.
pub open spec fn text_rule(f: TaskFilter, c: Column) -> Seq<char> {
    if c == Column::Name {
        f.name@
    } else {
        f.description@
    }
}

/// `f2` is `f1` with the single-tag rule of column `c` set from the list
/// entries `v`.
pub open spec fn single_rule_set(
    f1: TaskFilter,
    f2: TaskFilter,
    c: Column,
    v: Seq<(String, TagState)>,
) -> bool {
    &&& f2.ids == f1.ids
    &&& f2.filter_ids == f1.filter_ids
    &&& f2.name == f1.name
    &&& f2.description == f1.description
    &&& f2.labels == f1.labels
    &&& f2.assigned_to == f1.assigned_to
    &&& f2.created_by == f1.created_by
    &&& (c == Column::Bucket ==> f2.progress == f1.progress && f2.priority == f1.priority
        && crate::config::tags(f2.bucket.or@) == single_with(v, TagState::Or)
        && crate::config::tags(f2.bucket.not@) == single_with(v, TagState::Not))
    &&& (c == Column::Progress ==> f2.bucket == f1.bucket && f2.priority == f1.priority
        && crate::config::tags(f2.progress.or@) == single_with(v, TagState::Or)
        && crate::config::tags(f2.progress.not@) == single_with(v, TagState::Not))
    &&& (c == Column::Priority ==> f2.bucket == f1.bucket && f2.progress == f1.progress
        && crate::config::tags(f2.priority.or@) == single_with(v, TagState::Or)
        && crate::config::tags(f2.priority.not@) == single_with(v, TagState::Not))
}

/// `f2` is `f1` with the multi-tag rule of column `c` set from the list
/// entries `v`.
pub open spec fn multi_rule_set(
    f1: TaskFilter,
    f2: TaskFilter,
    c: Column,
    v: Seq<(String, MultiTagState)>,
) -> bool {
    &&& f2.ids == f1.ids
    &&& f2.filter_ids == f1.filter_ids
    &&& f2.name == f1.name
    &&& f2.description == f1.description
    &&& f2.bucket == f1.bucket
    &&& f2.progress == f1.progress
    &&& f2.priority == f1.priority
    &&& f2.created_by == f1.created_by
    &&& (c == Column::Labels ==> f2.assigned_to == f1.assigned_to && views(f2.labels.or@)
        == multi_with(v, MultiTagState::Or) && views(f2.labels.and@) == multi_with(
        v,
        MultiTagState::And,
    ) && views(f2.labels.not@) == multi_with(v, MultiTagState::Not))
    &&& (c == Column::AssignedTo ==> f2.labels == f1.labels && views(f2.assigned_to.or@)
        == multi_with(v, MultiTagState::Or) && views(f2.assigned_to.and@) == multi_with(
        v,
        MultiTagState::And,
    ) && views(f2.assigned_to.not@) == multi_with(v, MultiTagState::Not))
}

/// What a key does while browsing rows, from session `o` to session `n`
/// with the action `r` handed back.
pub open spec fn table_row_step(o: App, n: App, key: Key, r: Action) -> bool {
    let len = o.displayed_tasks@.len();
    match (key, o.selected_task) {
        (Key::Char('j'), None) => n.table_selected == next_selection(o.table_selected, len)
            && r is Nothing,
        (Key::Char('k'), None) => n.table_selected == previous_selection(o.table_selected, len)
            && r is Nothing,
        (Key::Char('f'), None) => n.input_mode == InputMode::FilterMode && r is Nothing,
        (Key::Char(' '), None) => n.selected_task == o.table_selected && r is Nothing,
        (Key::Char('L'), Some(i)) => n.selected_task == Some(i) && (r matches Action::OpenUrl(u)
            && u@ == task_url(o.plan.id@, o.plan.tasks@[o.displayed_tasks@[i as int] as int].id@)),
        (Key::Esc, Some(_)) => n.selected_task is None && r is Nothing,
        _ => n.selected_task == o.selected_task && n.table_selected == o.table_selected
            && n.input_mode == o.input_mode && r is Nothing,
    }
}

/// What a key does on the column list.
pub open spec fn columns_step(o: App, n: App, key: Key) -> bool {
    let sel = o.filter_view.selected;
    &&& n.config.filter == o.config.filter
    &&& match key {
        Key::Char('j') => n.filter_view.selected == next_selection(sel, PANEL_LEN as nat)
            && n.config == o.config && n.filter_view.filter_mode is Columns,
        Key::Char('k') => n.filter_view.selected == previous_selection(sel, PANEL_LEN as nat)
            && n.config == o.config && n.filter_view.filter_mode is Columns,
        Key::Esc => n.input_mode == InputMode::TableRow && n.filter_view.selected == Some(0usize)
            && n.config == o.config,
        Key::Char('s') => match sel {
            Some(i) => {
                let c = panel_columns()[i as int];
                if !has_sort_key(c) {
                    n.config.sort == o.config.sort
                } else if o.config.sort.column == Some(c) {
                    n.config.sort.column == Some(c) && n.config.sort.order != o.config.sort.order
                } else {
                    n.config.sort.column == Some(c) && n.config.sort.order == Order::Desc
                }
            },
            None => n.config == o.config,
        },
        Key::Char(' ') => n.config == o.config && match sel {
            Some(i) => {
                let c = panel_columns()[i as int];
                if c.is_tag_column() {
                    n.filter_view.filter_mode matches FilterViewMode::TagFilter(ui, d) && d == c
                        && editor_built(ui, c, o.config.filter, o.filter_view.unique_task_keys)
                        && n.filter_view.selected == first_selection(ui.spec_len())
                } else if c.is_text_column() {
                    n.filter_view.filter_mode matches FilterViewMode::TextFilter(t, d) && d == c
                        && t@ == text_rule(o.config.filter, c) && n.filter_view.selected is None
                } else {
                    n.filter_view.filter_mode is Columns
                }
            },
            None => n.filter_view.filter_mode is Columns,
        },
        _ => n.config == o.config && n.filter_view.selected == sel
            && n.filter_view.filter_mode is Columns,
    }
}

/// What a key does on a value list.
pub open spec fn tag_step(o: App, n: App, key: Key) -> bool {
    let len = list_len(o.filter_view.filter_mode);
    &&& key == Key::Char('j') ==> n.filter_view.selected == next_selection(
        o.filter_view.selected,
        len,
    )
    &&& key == Key::Char('k') ==> n.filter_view.selected == previous_selection(
        o.filter_view.selected,
        len,
    )
    &&& key == Key::Esc ==> n.filter_view.filter_mode is Columns && n.filter_view.selected == Some(
        0usize,
    ) && n.config == o.config
    &&& key == Key::Char(' ') && o.filter_view.selected is Some ==> {
        let i = o.filter_view.selected.unwrap() as int;
        match (o.filter_view.filter_mode, n.filter_view.filter_mode) {
            (
                FilterViewMode::TagFilter(UiTagFilter::Single(a), c),
                FilterViewMode::TagFilter(UiTagFilter::Single(b), d),
            ) => d == c && b@ == a@.update(i, (a@[i].0, a@[i].1.spec_next())) && single_rule_set(
                o.config.filter,
                n.config.filter,
                c,
                b@,
            ),
            (
                FilterViewMode::TagFilter(UiTagFilter::Multi(a), c),
                FilterViewMode::TagFilter(UiTagFilter::Multi(b), d),
            ) => d == c && b@ == a@.update(i, (a@[i].0, a@[i].1.spec_next())) && multi_rule_set(
                o.config.filter,
                n.config.filter,
                c,
                b@,
            ),
            _ => false,
        }
    }
    &&& key != Key::Esc && key != Key::Char(' ') ==> n.config == o.config
}

/// What a key does on a text pattern; each edit is written through to the
/// column's rule, and no other rule changes.
pub open spec fn text_step(o: App, n: App, key: Key) -> bool {
    let (t0, c) = match o.filter_view.filter_mode {
        FilterViewMode::TextFilter(t, c) => (t@, c),
        _ => (Seq::empty(), Column::Name),
    };
    &&& match key {
        Key::Esc | Key::Enter => n.filter_view.filter_mode is Columns && n.filter_view.selected
            == Some(0usize) && n.config == o.config,
        Key::Char(ch) => n.filter_view.filter_mode matches FilterViewMode::TextFilter(t, d) && d == c
            && t@ == t0.push(ch) && text_rule(n.config.filter, c) == t@,
        Key::Backspace => n.filter_view.filter_mode matches FilterViewMode::TextFilter(t, d) && d
            == c && t@ == (if t0.len() == 0 {
            t0
        } else {
            t0.drop_last()
        }) && text_rule(n.config.filter, c) == t@,
        _ => n.config == o.config,
    }
    &&& c != Column::Name ==> n.config.filter.name == o.config.filter.name
    &&& c != Column::Description ==> n.config.filter.description == o.config.filter.description
    &&& n.config.filter.bucket == o.config.filter.bucket
    &&& n.config.filter.progress == o.config.filter.progress
    &&& n.config.filter.priority == o.config.filter.priority
    &&& n.config.filter.labels == o.config.filter.labels
    &&& n.config.filter.assigned_to == o.config.filter.assigned_to
    &&& n.config.filter.created_by == o.config.filter.created_by
    &&& n.config.sort == o.config.sort
}

/// What a key does in the filter panel, by what the panel shows.
pub open spec fn filter_step(o: App, n: App, key: Key) -> bool {
    match o.filter_view.filter_mode {
        FilterViewMode::Columns => columns_step(o, n, key),
        FilterViewMode::TagFilter(_, _) => tag_step(o, n, key),
        FilterViewMode::TextFilter(_, _) => text_step(o, n, key),
    }
}

/// The popup line for a failed reload: the loader's message, or a fixed
/// one when the loader gave none.
pub open spec fn reload_failure_message(e: Seq<char>) -> Seq<char> {
    if e.len() == 0 {
        "reloading the plan failed"@
    } else {
        e
    }
}

/// A text pattern is being edited: every character key goes to it.
pub open spec fn editing_text(a: App) -> bool {
    a.input_mode == InputMode::FilterMode && a.filter_view.filter_mode is TextFilter
}

impl App {
    /// The session's invariant.
    pub open spec fn wf(&self) -> bool {
        &&& self.displayed_tasks@ == displayed(self.plan.tasks@, self.config)
        &&& forall|i: int|
            0 <= i < self.displayed_tasks@.len() ==> self.displayed_tasks@[i]
                < self.plan.tasks@.len()
        &&& keys_of(self.filter_view.unique_task_keys, self.plan.tasks@)
        &&& (self.table_selected matches Some(i) ==> i < self.displayed_tasks@.len())
        &&& (self.selected_task matches Some(i) ==> i < self.displayed_tasks@.len())
        &&& (self.filter_view.selected matches Some(i) ==> i < list_len(
            self.filter_view.filter_mode,
        ))
        &&& editor_wf(self.filter_view.filter_mode)
    }

    /// A session on `plan` with `config`: browsing rows, the first row
    /// selected, the filter panel on its column list.
    pub fn new(plan: Plan, config: Config) -> (r: App)
        ensures
            r.wf(),
            r.plan == plan,
            r.config == config,
            r.error_popup is None,
            r.input_mode == InputMode::TableRow,
            r.selected_task is None,
            r.table_selected == first_selection(r.displayed_tasks@.len()),
            r.filter_view.filter_mode is Columns,
            r.filter_view.selected == Some(0usize),
    {
        let unique_task_keys = unique_keys(&plan.tasks);
        let displayed_tasks = displayed_indices(&config, &plan.tasks);
        let table_selected = select_first(displayed_tasks.len());
        App {
            plan,
            config,
            table_selected,
            displayed_tasks,
            error_popup: None,
            input_mode: InputMode::TableRow,
            filter_view: FilterView {
                selected: Some(0),
                unique_task_keys,
                filter_mode: FilterViewMode::Columns,
            },
            selected_task: None,
        }
    }

    /// Recomputes what is shown from the plan and the configuration, and
    /// brings the selections back into the shown rows.
    pub fn set_filterd_tasks(&mut self)
        requires
            keys_of(old(self).filter_view.unique_task_keys, old(self).plan.tasks@),
            old(self).filter_view.selected matches Some(i) ==> i < list_len(
                old(self).filter_view.filter_mode,
            ),
            editor_wf(old(self).filter_view.filter_mode),
        ensures
            final(self).wf(),
            final(self).displayed_tasks@ == displayed(old(self).plan.tasks@, old(self).config),
            final(self).table_selected == clamped(
                old(self).table_selected,
                final(self).displayed_tasks@.len(),
            ),
            final(self).selected_task == clamped(
                old(self).selected_task,
                final(self).displayed_tasks@.len(),
            ),
            final(self).plan == old(self).plan,
            final(self).config == old(self).config,
            final(self).error_popup == old(self).error_popup,
            final(self).input_mode == old(self).input_mode,
            final(self).filter_view == old(self).filter_view,
    {
        self.displayed_tasks = displayed_indices(&self.config, &self.plan.tasks);
        self.table_selected = clamp_selection(self.table_selected, self.displayed_tasks.len());
        self.selected_task = clamp_selection(self.selected_task, self.displayed_tasks.len());
    }

    /// Adds a line to the popup, opening it if it is closed.
    pub fn add_error_msg(&mut self, s: &str)
        ensures
            final(self).error_popup matches Some(t) && t@ == with_message(old(self).error_popup, s@),
            final(self).plan == old(self).plan,
            final(self).config == old(self).config,
            final(self).displayed_tasks == old(self).displayed_tasks,
            final(self).table_selected == old(self).table_selected,
            final(self).selected_task == old(self).selected_task,
            final(self).input_mode == old(self).input_mode,
            final(self).filter_view == old(self).filter_view,
    {
        let text = match &self.error_popup {
            Some(t) => {
                let mut text = t.clone();
                text.append("\n");
                text.append(s);
                text
            },
            None => String::from_str(s),
        };
        self.error_popup = Some(text);
    }

    /// Takes in the outcome of reloading the plan. A new plan replaces the
    /// old one wholesale and what is shown is recomputed; a failure leaves
    /// everything as it was but for one more popup line.
    pub fn reload(&mut self, result: Result<Plan, SimpleError>)
        requires
            old(self).wf(),
        ensures
            final(self).wf(),
            final(self).config == old(self).config,
            final(self).input_mode == old(self).input_mode,
            match result {
                Ok(p) => {
                    &&& final(self).plan == p
                    &&& final(self).error_popup matches Some(t) && t@ == with_message(
                        old(self).error_popup,
                        "plan reloaded"@,
                    )
                },
                Err(e) => {
                    &&& final(self).plan == old(self).plan
                    &&& final(self).displayed_tasks == old(self).displayed_tasks
                    &&& final(self).table_selected == old(self).table_selected
                    &&& final(self).selected_task == old(self).selected_task
                    &&& final(self).filter_view == old(self).filter_view
                    &&& final(self).error_popup matches Some(t) && t@ == with_message(
                        old(self).error_popup,
                        reload_failure_message(e.0@),
                    )
                    &&& reload_failure_message(e.0@).len() > 0
                },
            },
    {
        match result {
            Ok(plan) => {
                self.filter_view.unique_task_keys = unique_keys(&plan.tasks);
                self.plan = plan;
                self.set_filterd_tasks();
                self.add_error_msg("plan reloaded");
            },
            Err(e) => {
                proof {
                    reveal_strlit("reloading the plan failed");
                }
                if e.0.as_str().unicode_len() == 0 {
                    self.add_error_msg("reloading the plan failed");
                } else {
                    self.add_error_msg(e.0.as_str());
                }
            },
        }
    }

    /// Handles one key. While a text pattern is being edited every
    /// character goes to it; otherwise `q` quits. An open popup takes every
    /// other key and only `Esc` closes it. Outside text editing, `S` and `R`
    /// ask the caller to save the configuration or reload the plan. Any
    /// other key goes to the current mode, after which what is shown is
    /// recomputed.
    pub fn handle_key(&mut self, key: Key) -> (r: Action)
        requires
            old(self).wf(),
        ensures
            final(self).wf(),
            final(self).plan == old(self).plan,
            final(self).displayed_tasks@ == displayed(final(self).plan.tasks@, final(self).config),
            !editing_text(*old(self)) && key == Key::Char('q') ==> r is Quit && *final(self)
                == *old(self),
            (editing_text(*old(self)) || key != Key::Char('q')) && old(self).error_popup is Some ==> {
                &&& r is Nothing
                &&& final(self).plan == old(self).plan
                &&& final(self).config == old(self).config
                &&& final(self).displayed_tasks == old(self).displayed_tasks
                &&& final(self).table_selected == old(self).table_selected
                &&& final(self).selected_task == old(self).selected_task
                &&& final(self).input_mode == old(self).input_mode
                &&& final(self).filter_view == old(self).filter_view
                &&& final(self).error_popup == if key == Key::Esc {
                    None
                } else {
                    old(self).error_popup
                }
            },
            !editing_text(*old(self)) && old(self).error_popup is None && key == Key::Char('S')
                ==> r is SaveConfig && *final(self) == *old(self),
            !editing_text(*old(self)) && old(self).error_popup is None && key == Key::Char('R')
                ==> r is ReloadPlan && *final(self) == *old(self),
            old(self).error_popup is None && key != Key::Char('q') && key != Key::Char('S') && key
                != Key::Char('R') && old(self).input_mode == InputMode::TableRow ==> {
                &&& table_row_step(*old(self), *final(self), key, r)
                &&& final(self).config == old(self).config
                &&& final(self).displayed_tasks@ == old(self).displayed_tasks@
            },
            old(self).error_popup is None && old(self).input_mode == InputMode::FilterMode && (
            editing_text(*old(self)) || (key != Key::Char('q') && key != Key::Char('S') && key
                != Key::Char('R'))) ==> {
                &&& r is Nothing
                &&& filter_step(*old(self), *final(self), key)
            },
            r matches Action::OpenUrl(u) ==> exists|i: int|
                0 <= i < old(self).displayed_tasks@.len() && u@ == task_url(
                    old(self).plan.id@,
                    old(self).plan.tasks@[#[trigger] old(self).displayed_tasks@[i] as int].id@,
                ),
    {
        let editing = match (&self.input_mode, &self.filter_view.filter_mode) {
            (InputMode::FilterMode, FilterViewMode::TextFilter(_, _)) => true,
            _ => false,
        };
        if !editing && key == Key::Char('q') {
            return Action::Quit;
        }
        if self.error_popup.is_some() {
            if key == Key::Esc {
                self.error_popup = None;
            }
            return Action::Nothing;
        }
        if !editing && key == Key::Char('S') {
            return Action::SaveConfig;
        }
        if !editing && key == Key::Char('R') {
            return Action::ReloadPlan;
        }
        let action = match self.input_mode {
            InputMode::TableRow => self.run_table_row_mode(key),
            InputMode::FilterMode => {
                self.run_filter_mode(key);
                Action::Nothing
            },
        };
        self.set_filterd_tasks();
        action
    }

    /// Browsing rows: `j` and `k` move the selection, `f` opens the filter
    /// panel, space opens the selected task, and with a task open `L` asks
    /// for its link to be opened and `Esc` closes it.
    pub fn run_table_row_mode(&mut self, key: Key) -> (r: Action)
        requires
            old(self).wf(),
        ensures
            final(self).wf(),
            final(self).plan == old(self).plan,
            final(self).config == old(self).config,
            final(self).displayed_tasks == old(self).displayed_tasks,
            final(self).error_popup == old(self).error_popup,
            final(self).filter_view == old(self).filter_view,
            table_row_step(*old(self), *final(self), key, r),
            key != Key::Char('j') && key != Key::Char('k') ==> final(self).table_selected == old(
                self,
            ).table_selected,
            key != Key::Char('f') ==> final(self).input_mode == old(self).input_mode,
    {
        match (key, self.selected_task) {
            (Key::Char('j'), None) => {
                self.table_selected = select_next(self.table_selected, self.displayed_tasks.len());
                Action::Nothing
            },
            (Key::Char('k'), None) => {
                self.table_selected = select_previous(
                    self.table_selected,
                    self.displayed_tasks.len(),
                );
                Action::Nothing
            },
            (Key::Char('f'), None) => {
                self.input_mode = InputMode::FilterMode;
                Action::Nothing
            },
            (Key::Char(' '), None) => {
                self.selected_task = self.table_selected;
                Action::Nothing
            },
            (Key::Char('L'), Some(i)) => {
                let t = self.displayed_tasks[i];
                Action::OpenUrl(self.plan.tasks[t].to_url(self.plan.id.as_str()))
            },
            (Key::Esc, Some(_)) => {
                self.selected_task = None;
                Action::Nothing
            },
            _ => Action::Nothing,
        }
    }

    /// The filter panel: the key goes to the column list or to the open
    /// editor.
    pub fn run_filter_mode(&mut self, key: Key)
        requires
            old(self).wf(),
        ensures
            keys_of(final(self).filter_view.unique_task_keys, final(self).plan.tasks@),
            final(self).filter_view.selected matches Some(i) ==> i < list_len(
                final(self).filter_view.filter_mode,
            ),
            editor_wf(final(self).filter_view.filter_mode),
            final(self).plan == old(self).plan,
            final(self).error_popup == old(self).error_popup,
            final(self).table_selected == old(self).table_selected,
            final(self).selected_task == old(self).selected_task,
            final(self).displayed_tasks == old(self).displayed_tasks,
            filter_step(*old(self), *final(self), key),
    {
        match self.filter_view.filter_mode {
            FilterViewMode::Columns => self.run_columns_filter(key),
            FilterViewMode::TagFilter(_, _) => self.run_tag_filter(key),
            FilterViewMode::TextFilter(_, _) => self.run_text_filter(key),
        }
    }

    /// The column list: `j` and `k` move the selection, `Esc` goes back to
    /// the rows, `s` sorts by the selected column (again: turns the
    /// direction around), space opens the column's editor.
    pub fn run_columns_filter(&mut self, key: Key)
        requires
            old(self).wf(),
            old(self).filter_view.filter_mode is Columns,
        ensures
            keys_of(final(self).filter_view.unique_task_keys, final(self).plan.tasks@),
            final(self).filter_view.selected matches Some(i) ==> i < list_len(
                final(self).filter_view.filter_mode,
            ),
            editor_wf(final(self).filter_view.filter_mode),
            final(self).plan == old(self).plan,
            final(self).error_popup == old(self).error_popup,
            final(self).table_selected == old(self).table_selected,
            final(self).selected_task == old(self).selected_task,
            final(self).displayed_tasks == old(self).displayed_tasks,
            final(self).config.filter == old(self).config.filter,
            final(self).filter_view.unique_task_keys == old(self).filter_view.unique_task_keys,
            columns_step(*old(self), *final(self), key),
    {
        match key {
            Key::Char('j') => {
                self.filter_view.selected = select_next(self.filter_view.selected, PANEL_LEN);
            },
            Key::Char('k') => {
                self.filter_view.selected = select_previous(self.filter_view.selected, PANEL_LEN);
            },
            Key::Esc => {
                self.input_mode = InputMode::TableRow;
                self.filter_view.selected = Some(0);
            },
            Key::Char('s') => {
                if let Some(i) = self.filter_view.selected {
                    let cols = get_ui_columns(&self.config.filter, &self.config.sort);
                    let c = cols[i].column;
                    if !c.is_multi() {
                        if self.config.sort.column == Some(c) {
                            self.config.sort.order = match self.config.sort.order {
                                Order::Desc => Order::Asc,
                                Order::Asc => Order::Desc,
                            };
                        } else {
                            self.config.sort.column = Some(c);
                            self.config.sort.order = Order::Desc;
                        }
                    }
                }
            },
            Key::Char(' ') => {
                if let Some(i) = self.filter_view.selected {
                    let cols = get_ui_columns(&self.config.filter, &self.config.sort);
                    let c = cols[i].column;
                    self.open_editor(c);
                }
            },
            _ => {},
        }
    }

    /// Opens the editor of column `c`: its value list for a tag column,
    /// its pattern for a text column; other columns have none.
    fn open_editor(&mut self, c: Column)
        requires
            old(self).wf(),
            old(self).filter_view.filter_mode is Columns,
        ensures
            keys_of(final(self).filter_view.unique_task_keys, final(self).plan.tasks@),
            final(self).filter_view.selected matches Some(i) ==> i < list_len(
                final(self).filter_view.filter_mode,
            ),
            editor_wf(final(self).filter_view.filter_mode),
            final(self).plan == old(self).plan,
            final(self).config == old(self).config,
            final(self).error_popup == old(self).error_popup,
            final(self).table_selected == old(self).table_selected,
            final(self).selected_task == old(self).selected_task,
            final(self).displayed_tasks == old(self).displayed_tasks,
            final(self).input_mode == old(self).input_mode,
            final(self).filter_view.unique_task_keys == old(self).filter_view.unique_task_keys,
            c.is_tag_column() ==> (final(self).filter_view.filter_mode matches FilterViewMode::TagFilter(ui, d)
                && d == c && editor_built(ui, c, old(self).config.filter, old(self).filter_view.unique_task_keys)
                && final(self).filter_view.selected == first_selection(ui.spec_len())),
            c.is_text_column() ==> (final(self).filter_view.filter_mode matches FilterViewMode::TextFilter(t, d)
                && d == c && t@ == text_rule(old(self).config.filter, c)
                && final(self).filter_view.selected is None),
            !c.is_tag_column() && !c.is_text_column() ==> final(self).filter_view.filter_mode is Columns
                && final(self).filter_view.selected == old(self).filter_view.selected,
    {
        match c {
            Column::Labels | Column::AssignedTo | Column::Bucket => {
                let keys = &self.filter_view.unique_task_keys;
                let uniques = match c {
                    Column::Labels => &keys.labels,
                    Column::AssignedTo => &keys.people,
                    _ => &keys.buckets,
                };
                let ui = self.config.filter.get_ui_filter(c, uniques.as_slice());
                assert(views(uniques@) == ui_values(self.filter_view.unique_task_keys, c));
                assert(ui.built_from(c, self.config.filter, uniques@));
                let n = ui.len();
                self.filter_view.filter_mode = FilterViewMode::TagFilter(ui, c);
                self.filter_view.selected = select_first(n);
            },
            Column::Progress => {
                let names = progress_names();
                let ui = self.config.filter.get_ui_filter(c, names.as_slice());
                proof {
                    assert(names@.len() == views(names@).len());
                    assert forall|i: int| 0 <= i < names@.len() implies <Progress as TagValue>::is_tag(
                        #[trigger] names@[i]@,
                    ) by {
                        assert(names@[i]@ == views(names@)[i]);
                        assert(views(names@)[i] == Progress::all()[i].spec_name());
                        Progress::all()[i].lemma_tag_is_tag();
                    }
                    assert(ui.built_from(c, self.config.filter, names@));
                }
                let n = ui.len();
                self.filter_view.filter_mode = FilterViewMode::TagFilter(ui, c);
                self.filter_view.selected = select_first(n);
            },
            Column::Priority => {
                let names = priority_names();
                let ui = self.config.filter.get_ui_filter(c, names.as_slice());
                proof {
                    assert(names@.len() == views(names@).len());
                    assert forall|i: int| 0 <= i < names@.len() implies <Priority as TagValue>::is_tag(
                        #[trigger] names@[i]@,
                    ) by {
                        assert(names@[i]@ == views(names@)[i]);
                        assert(views(names@)[i] == Priority::all()[i].spec_name());
                        Priority::all()[i].lemma_tag_is_tag();
                    }
                    assert(ui.built_from(c, self.config.filter, names@));
                }
                let n = ui.len();
                self.filter_view.filter_mode = FilterViewMode::TagFilter(ui, c);
                self.filter_view.selected = select_first(n);
            },
            Column::Name => {
                self.filter_view.filter_mode = FilterViewMode::TextFilter(
                    self.config.filter.name.clone(),
                    c,
                );
                self.filter_view.selected = None;
            },
            Column::Description => {
                self.filter_view.filter_mode = FilterViewMode::TextFilter(
                    self.config.filter.description.clone(),
                    c,
                );
                self.filter_view.selected = None;
            },
            _ => {},
        }
    }

    /// A value list: `j` and `k` move the selection, `Esc` goes back to the
    /// column list, space moves the selected value on through its cycle and
    /// writes the whole list back into the column's rule.
    pub fn run_tag_filter(&mut self, key: Key)
        requires
            old(self).wf(),
            old(self).filter_view.filter_mode is TagFilter,
        ensures
            keys_of(final(self).filter_view.unique_task_keys, final(self).plan.tasks@),
            final(self).filter_view.selected matches Some(i) ==> i < list_len(
                final(self).filter_view.filter_mode,
            ),
            editor_wf(final(self).filter_view.filter_mode),
            final(self).plan == old(self).plan,
            final(self).config.sort == old(self).config.sort,
            final(self).error_popup == old(self).error_popup,
            final(self).table_selected == old(self).table_selected,
            final(self).selected_task == old(self).selected_task,
            final(self).displayed_tasks == old(self).displayed_tasks,
            final(self).input_mode == old(self).input_mode,
            final(self).filter_view.unique_task_keys == old(self).filter_view.unique_task_keys,
            tag_step(*old(self), *final(self), key),
    {
        let n = match &self.filter_view.filter_mode {
            FilterViewMode::TagFilter(ui, _) => ui.len(),
            _ => 0,
        };
        match key {
            Key::Char('j') => {
                self.filter_view.selected = select_next(self.filter_view.selected, n);
            },
            Key::Char('k') => {
                self.filter_view.selected = select_previous(self.filter_view.selected, n);
            },
            Key::Esc => {
                self.filter_view.filter_mode = FilterViewMode::Columns;
                self.filter_view.selected = Some(0);
            },
            Key::Char(' ') => {
                if let Some(i) = self.filter_view.selected {
                    let mut mode = FilterViewMode::Columns;
                    core::mem::swap(&mut mode, &mut self.filter_view.filter_mode);
                    if let FilterViewMode::TagFilter(mut ui, c) = mode {
                        ui.next_state(i);
                        self.update_task_filter(c, &ui);
                        self.filter_view.filter_mode = FilterViewMode::TagFilter(ui, c);
                    }
                }
            },
            _ => {},
        }
    }

    /// Writes a value list back into the rule of its column.
    fn update_task_filter(&mut self, c: Column, ui: &UiTagFilter)
        requires
            ui.fits(c),
            texts_name_values(*ui, c),
        ensures
            final(self).plan == old(self).plan,
            final(self).config.sort == old(self).config.sort,
            final(self).error_popup == old(self).error_popup,
            final(self).table_selected == old(self).table_selected,
            final(self).selected_task == old(self).selected_task,
            final(self).displayed_tasks == old(self).displayed_tasks,
            final(self).input_mode == old(self).input_mode,
            final(self).filter_view == old(self).filter_view,
            match *ui {
                UiTagFilter::Single(v) => single_rule_set(
                    old(self).config.filter,
                    final(self).config.filter,
                    c,
                    v@,
                ),
                UiTagFilter::Multi(v) => multi_rule_set(
                    old(self).config.filter,
                    final(self).config.filter,
                    c,
                    v@,
                ),
            },
    {
        proof {
            if let UiTagFilter::Single(v) = ui {
                assert(c == Column::Progress ==> single_convertible::<Progress>(v@));
                assert(c == Column::Priority ==> single_convertible::<Priority>(v@));
            }
        }
        match c {
            Column::Labels => {
                if let Ok(tf) = ui.to_multi_tag_filter() {
                    self.config.filter.labels = tf;
                }
            },
            Column::AssignedTo => {
                if let Ok(tf) = ui.to_multi_tag_filter() {
                    self.config.filter.assigned_to = tf;
                }
            },
            Column::Bucket => {
                if let Ok(tf) = ui.to_tag_filter::<String>() {
                    self.config.filter.bucket = tf;
                }
            },
            Column::Progress => {
                if let Ok(tf) = ui.to_tag_filter::<Progress>() {
                    self.config.filter.progress = tf;
                }
            },
            Column::Priority => {
                if let Ok(tf) = ui.to_tag_filter::<Priority>() {
                    self.config.filter.priority = tf;
                }
            },
            _ => {},
        }
    }

    /// A text pattern: a character is added to it, backspace takes the last
    /// one away, and each edit is written through to the column's rule at
    /// once; `Esc` or `Enter` goes back to the column list.
    pub fn run_text_filter(&mut self, key: Key)
        requires
            old(self).wf(),
            old(self).filter_view.filter_mode is TextFilter,
        ensures
            keys_of(final(self).filter_view.unique_task_keys, final(self).plan.tasks@),
            final(self).filter_view.selected matches Some(i) ==> i < list_len(
                final(self).filter_view.filter_mode,
            ),
            editor_wf(final(self).filter_view.filter_mode),
            final(self).plan == old(self).plan,
            final(self).config.sort == old(self).config.sort,
            final(self).error_popup == old(self).error_popup,
            final(self).table_selected == old(self).table_selected,
            final(self).selected_task == old(self).selected_task,
            final(self).displayed_tasks == old(self).displayed_tasks,
            final(self).input_mode == old(self).input_mode,
            final(self).filter_view.unique_task_keys == old(self).filter_view.unique_task_keys,
            text_step(*old(self), *final(self), key),
    {
        match key {
            Key::Esc | Key::Enter => {
                self.filter_view.filter_mode = FilterViewMode::Columns;
                self.filter_view.selected = Some(0);
            },
            Key::Char(ch) => {
                let mut mode = FilterViewMode::Columns;
                core::mem::swap(&mut mode, &mut self.filter_view.filter_mode);
                if let FilterViewMode::TextFilter(mut t, c) = mode {
                    push_char(&mut t, ch);
                    self.set_text_rule(c, &t);
                    self.filter_view.filter_mode = FilterViewMode::TextFilter(t, c);
                }
            },
            Key::Backspace => {
                let mut mode = FilterViewMode::Columns;
                core::mem::swap(&mut mode, &mut self.filter_view.filter_mode);
                if let FilterViewMode::TextFilter(mut t, c) = mode {
                    let _ = pop_char(&mut t);
                    self.set_text_rule(c, &t);
                    self.filter_view.filter_mode = FilterViewMode::TextFilter(t, c);
                }
            },
            _ => {},
        }
    }

    fn set_text_rule(&mut self, c: Column, t: &String)
        ensures
            text_rule(final(self).config.filter, c) == t@,
            c != Column::Name ==> final(self).config.filter.name == old(self).config.filter.name,
            c == Column::Name ==> final(self).config.filter.description == old(self).config.filter.description,
            final(self).config.filter.bucket == old(self).config.filter.bucket,
            final(self).config.filter.progress == old(self).config.filter.progress,
            final(self).config.filter.priority == old(self).config.filter.priority,
            final(self).config.filter.labels == old(self).config.filter.labels,
            final(self).config.filter.assigned_to == old(self).config.filter.assigned_to,
            final(self).config.filter.created_by == old(self).config.filter.created_by,
            final(self).config.filter.ids == old(self).config.filter.ids,
            final(self).config.filter.filter_ids == old(self).config.filter.filter_ids,
            final(self).config.sort == old(self).config.sort,
            final(self).plan == old(self).plan,
            final(self).error_popup == old(self).error_popup,
            final(self).table_selected == old(self).table_selected,
            final(self).selected_task == old(self).selected_task,
            final(self).displayed_tasks == old(self).displayed_tasks,
            final(self).input_mode == old(self).input_mode,
            final(self).filter_view == old(self).filter_view,
    {
        if c == Column::Name {
            self.config.filter.name = t.clone();
        } else {
            self.config.filter.description = t.clone();
        }
    }
}

/// The values a tag column's list is built over: the plan's distinct
/// values for buckets, labels and assignees, every name for progress and
/// priority.
pub open spec fn ui_values(k: UniqueTaskKeys, c: Column) -> Seq<Seq<char>> {
    match c {
        Column::Labels => views(k.labels@),
        Column::AssignedTo => views(k.people@),
        Column::Bucket => views(k.buckets@),
        Column::Progress => Progress::all().map_values(|p: Progress| p.spec_name()),
        Column::Priority => Priority::all().map_values(|p: Priority| p.spec_name()),
        _ => Seq::empty(),
    }
}

/// `ui` is the list of the tag column `c` under the filter `f`, over the
/// column's values taken from `k`.
pub open spec fn editor_built(ui: UiTagFilter, c: Column, f: TaskFilter, k: UniqueTaskKeys) -> bool {
    exists|u: Seq<String>| views(u) == ui_values(k, c) && #[trigger] ui.built_from(c, f, u)
}

} // verus!
