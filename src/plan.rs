//! The plan and its tasks, as exported from the planner's spreadsheet.

use crate::text::{
    count_pair_of, is_split_of, same_text, to_string_list, to_usizes, views,
};
use crate::SimpleError;
use chrono::Datelike;
use vstd::prelude::*;

verus! {

/// A calendar date.
#[derive(Clone, Copy, Debug, PartialEq, Eq, Structural, Hash)]
pub struct Date {
    pub year: i32,
    pub month: u32,
    pub day: u32,
}

impl Date {
    /// Calendar order: by year, then month, then day.
    pub open spec fn spec_le(self, o: Date) -> bool {
        self.year < o.year || (self.year == o.year && (self.month < o.month || (self.month
            == o.month && self.day <= o.day)))
    }

    /// Whether `self` is not later than `o`.
    pub fn le(&self, o: &Date) -> (r: bool)
        ensures
            r == self.spec_le(*o),
    {
        self.year < o.year || (self.year == o.year && (self.month < o.month || (self.month
            == o.month && self.day <= o.day)))
    }
}

/// An absent date comes before every present one.
pub open spec fn opt_date_le(a: Option<Date>, b: Option<Date>) -> bool {
    match (a, b) {
        (None, _) => true,
        (Some(_), None) => false,
        (Some(x), Some(y)) => x.spec_le(y),
    }
}

/// Whether `a` is not later than `b`, an absent date being the earliest.
pub fn opt_date_before_or_same(a: &Option<Date>, b: &Option<Date>) -> (r: bool)
    ensures
        r == opt_date_le(*a, *b),
{
    match (a, b) {
        (None, _) => true,
        (Some(_), None) => false,
        (Some(x), Some(y)) => x.le(y),
    }
}

/// What `NaiveDate::parse_from_str(s, "%d-%m-%Y")` reads from a text, as
/// year, month and day.
pub uninterp spec fn dmy_date(s: Seq<char>) -> Option<(i32, u32, u32)>;

/// Relies on chrono's `NaiveDate::parse_from_str` with the format
/// `%d-%m-%Y`, and on `Datelike::{year, month, day}`, whose month lies in
/// 1..=12 and day in 1..=31.
#[verifier::external_body]
fn parse_dmy(s: &str) -> (r: Option<(i32, u32, u32)>)
    ensures
        r == dmy_date(s@),
        r matches Some((y, m, d)) ==> 1 <= m <= 12 && 1 <= d <= 31,
{
    match chrono::NaiveDate::parse_from_str(s, "%d-%m-%Y") {
        Ok(d) => Some((d.year(), d.month(), d.day())),
        Err(_) => None,
    }
}

/// The date a `day-month-year` text writes, if any.
pub open spec fn date_of(s: Seq<char>) -> Option<Date> {
    match dmy_date(s) {
        Some((y, m, d)) => Some(Date { year: y, month: m, day: d }),
        None => None,
    }
}

/// An optional date cell: empty is no date, anything else must be a date.
pub open spec fn opt_date_of(s: Seq<char>) -> Option<Option<Date>> {
    if s.len() == 0 {
        Some(None)
    } else {
        match date_of(s) {
            Some(d) => Some(Some(d)),
            None => None,
        }
    }
}

/// Reads a `day-month-year` date.
pub fn parse_date(s: &str) -> (r: Option<Date>)
    ensures
        r == date_of(s@),
{
    match parse_dmy(s) {
        Some((y, m, d)) => Some(Date { year: y, month: m, day: d }),
        None => None,
    }
}

/// Reads an optional date cell: `Ok(None)` when empty, an error when the
/// text is not a date.
pub fn to_option_date(slice: &str) -> (r: Result<Option<Date>, SimpleError>)
    ensures
        r is Ok <==> opt_date_of(slice@) is Some,
        r matches Ok(d) ==> opt_date_of(slice@) == Some(d),
{
    if slice.unicode_len() == 0 {
        Ok(None)
    } else {
        match parse_date(slice) {
            Some(d) => Ok(Some(d)),
            None => Err(SimpleError(String::from_str("not a date"))),
        }
    }
}

/// How far a task has come.
#[derive(Clone, Copy, Debug, PartialEq, Eq, Structural, Hash)]
pub enum Progress {
    NotStarted,
    Ongoing,
    Done,
}

/// How pressing a task is; declared from most to least pressing.
#[derive(Clone, Copy, Debug, PartialEq, Eq, Structural, Hash)]
pub enum Priority {
    Urgent,
    Important,
    Mid,
    Low,
}

impl Progress {
    /// Every progress value, in declared order.
    pub open spec fn all() -> Seq<Progress> {
        seq![Progress::NotStarted, Progress::Ongoing, Progress::Done]
    }

    /// Position in the declared order.
    pub open spec fn rank(self) -> int {
        match self {
            Progress::NotStarted => 0,
            Progress::Ongoing => 1,
            Progress::Done => 2,
        }
    }

    /// The value's own name.
    pub open spec fn spec_name(self) -> Seq<char> {
        match self {
            Progress::NotStarted => "NotStarted"@,
            Progress::Ongoing => "Ongoing"@,
            Progress::Done => "Done"@,
        }
    }

    /// The value whose name is `s`.
    pub open spec fn of_name(s: Seq<char>) -> Option<Progress> {
        if s == "NotStarted"@ {
            Some(Progress::NotStarted)
        } else if s == "Ongoing"@ {
            Some(Progress::Ongoing)
        } else if s == "Done"@ {
            Some(Progress::Done)
        } else {
            None
        }
    }

    /// The value that the spreadsheet's label `s` stands for.
    pub open spec fn of_label(s: Seq<char>) -> Option<Progress> {
        if s == "Niet gestart"@ {
            Some(Progress::NotStarted)
        } else if s == "Wordt uitgevoerd"@ {
            Some(Progress::Ongoing)
        } else if s == "Voltooid"@ {
            Some(Progress::Done)
        } else {
            None
        }
    }

    pub fn items() -> (r: Vec<Progress>)
        ensures
            r@ == Self::all(),
    {
        let r = vec![Progress::NotStarted, Progress::Ongoing, Progress::Done];
        assert(r@ =~= Self::all());
        r
    }

    pub fn rank_of(&self) -> (r: u8)
        ensures
            r as int == self.rank(),
    {
        match self {
            Progress::NotStarted => 0,
            Progress::Ongoing => 1,
            Progress::Done => 2,
        }
    }

    /// The value's own name, as written in the configuration.
    pub fn name(&self) -> (r: String)
        ensures
            r@ == self.spec_name(),
    {
        match self {
            Progress::NotStarted => String::from_str("NotStarted"),
            Progress::Ongoing => String::from_str("Ongoing"),
            Progress::Done => String::from_str("Done"),
        }
    }

    /// The value named `s`.
    pub fn from_name(s: &str) -> (r: Option<Progress>)
        ensures
            r == Self::of_name(s@),
    {
        if same_text(s, "NotStarted") {
            Some(Progress::NotStarted)
        } else if same_text(s, "Ongoing") {
            Some(Progress::Ongoing)
        } else if same_text(s, "Done") {
            Some(Progress::Done)
        } else {
            None
        }
    }

    /// The value that the spreadsheet's label `s` stands for.
    pub fn from_label(s: &str) -> (r: Option<Progress>)
        ensures
            r == Self::of_label(s@),
    {
        if same_text(s, "Niet gestart") {
            Some(Progress::NotStarted)
        } else if same_text(s, "Wordt uitgevoerd") {
            Some(Progress::Ongoing)
        } else if same_text(s, "Voltooid") {
            Some(Progress::Done)
        } else {
            None
        }
    }
}

impl Priority {
    /// Every priority, in declared order.
    pub open spec fn all() -> Seq<Priority> {
        seq![Priority::Urgent, Priority::Important, Priority::Mid, Priority::Low]
    }

    /// Position in the declared order: the most pressing first.
    pub open spec fn rank(self) -> int {
        match self {
            Priority::Urgent => 0,
            Priority::Important => 1,
            Priority::Mid => 2,
            Priority::Low => 3,
        }
    }

    /// The value's own name.
    pub open spec fn spec_name(self) -> Seq<char> {
        match self {
            Priority::Urgent => "Urgent"@,
            Priority::Important => "Important"@,
            Priority::Mid => "Mid"@,
            Priority::Low => "Low"@,
        }
    }

    /// The value whose name is `s`.
    pub open spec fn of_name(s: Seq<char>) -> Option<Priority> {
        if s == "Urgent"@ {
            Some(Priority::Urgent)
        } else if s == "Important"@ {
            Some(Priority::Important)
        } else if s == "Mid"@ {
            Some(Priority::Mid)
        } else if s == "Low"@ {
            Some(Priority::Low)
        } else {
            None
        }
    }

    /// The value that the spreadsheet's label `s` stands for.
    pub open spec fn of_label(s: Seq<char>) -> Option<Priority> {
        if s == "Dringend"@ {
            Some(Priority::Important)
        } else if s == "Gemiddeld"@ {
            Some(Priority::Mid)
        } else if s == "Laag"@ {
            Some(Priority::Low)
        } else if s == "Belangrijk"@ {
            Some(Priority::Urgent)
        } else {
            None
        }
    }

    pub fn items() -> (r: Vec<Priority>)
        ensures
            r@ == Self::all(),
    {
        let r = vec![Priority::Urgent, Priority::Important, Priority::Mid, Priority::Low];
        assert(r@ =~= Self::all());
        r
    }

    pub fn rank_of(&self) -> (r: u8)
        ensures
            r as int == self.rank(),
    {
        match self {
            Priority::Urgent => 0,
            Priority::Important => 1,
            Priority::Mid => 2,
            Priority::Low => 3,
        }
    }

    /// The value's own name, as written in the configuration.
    pub fn name(&self) -> (r: String)
        ensures
            r@ == self.spec_name(),
    {
        match self {
            Priority::Urgent => String::from_str("Urgent"),
            Priority::Important => String::from_str("Important"),
            Priority::Mid => String::from_str("Mid"),
            Priority::Low => String::from_str("Low"),
        }
    }

    /// The value named `s`.
    pub fn from_name(s: &str) -> (r: Option<Priority>)
        ensures
            r == Self::of_name(s@),
    {
        if same_text(s, "Urgent") {
            Some(Priority::Urgent)
        } else if same_text(s, "Important") {
            Some(Priority::Important)
        } else if same_text(s, "Mid") {
            Some(Priority::Mid)
        } else if same_text(s, "Low") {
            Some(Priority::Low)
        } else {
            None
        }
    }

    /// The value that the spreadsheet's label `s` stands for.
    pub fn from_label(s: &str) -> (r: Option<Priority>)
        ensures
            r == Self::of_label(s@),
    {
        if same_text(s, "Dringend") {
            Some(Priority::Important)
        } else if same_text(s, "Gemiddeld") {
            Some(Priority::Mid)
        } else if same_text(s, "Laag") {
            Some(Priority::Low)
        } else if same_text(s, "Belangrijk") {
            Some(Priority::Urgent)
        } else {
            None
        }
    }
}

/// Every field of a task that can be filtered or sorted on.
#[derive(Clone, Copy, Debug, PartialEq, Eq, Structural, Hash)]
pub enum Column {
    Name,
    Priority,
    CreateDate,
    StartDate,
    Deadline,
    CompleteDate,
    Progress,
    Bucket,
    Labels,
    AssignedTo,
    Description,
}

impl Column {
    /// A column whose tasks hold a set of values.
    pub open spec fn is_multi_column(self) -> bool {
        self == Column::Labels || self == Column::AssignedTo
    }

    /// A column whose tasks hold one categorical value.
    pub open spec fn is_single_column(self) -> bool {
        self == Column::Bucket || self == Column::Priority || self == Column::Progress
    }

    /// A column filtered by picking values.
    pub open spec fn is_tag_column(self) -> bool {
        self.is_multi_column() || self.is_single_column()
    }

    /// A column filtered by a free-text pattern.
    pub open spec fn is_text_column(self) -> bool {
        self == Column::Name || self == Column::Description
    }

    /// Whether the column is one whose tasks hold a set of values.
    pub fn is_multi(&self) -> (r: bool)
        ensures
            r == self.is_multi_column(),
    {
        match self {
            Column::Labels | Column::AssignedTo => true,
            _ => false,
        }
    }
}

/// One item of a plan.
#[derive(Clone, Debug)]
pub struct Task {
    pub id: String,
    pub name: String,
    pub bucket: String,
    pub progress: Progress,
    pub priority: Priority,
    pub assigned_to: Vec<String>,
    pub created_by: String,
    pub create_date: Date,
    pub start_date: Option<Date>,
    pub deadline: Option<Date>,
    pub recurring: Option<String>,
    pub late: bool,
    pub complete_date: Option<Date>,
    pub completed_by: String,
    pub items_completed: Option<(usize, usize)>,
    pub items: Vec<String>,
    pub labels: Vec<String>,
    pub description: String,
}

/// A plan: its identity and its tasks, in the order of the export.
#[derive(Clone, Debug)]
pub struct Plan {
    pub id: String,
    pub name: String,
    pub export_date: Date,
    pub tasks: Vec<Task>,
}

/// The number of cells a task row must have.
pub const TASK_CELLS: usize = 18;

/// The address under which the planner shows a task.
pub open spec fn task_url(plan_id: Seq<char>, task_id: Seq<char>) -> Seq<char> {
    "https://planner.cloud.microsoft/webui/plan/"@ + plan_id + "/view/grid/task/"@ + task_id
}

/// A row of cells that reads as a task: every date, label and count cell
/// holds what its column asks for.
pub open spec fn row_parses(c: Seq<Seq<char>>) -> bool {
    &&& c.len() >= TASK_CELLS
    &&& Progress::of_label(c[3]) is Some
    &&& Priority::of_label(c[4]) is Some
    &&& date_of(c[7]) is Some
    &&& opt_date_of(c[8]) is Some
    &&& opt_date_of(c[9]) is Some
    &&& opt_date_of(c[12]) is Some
    &&& (c[14].len() == 0 || count_pair_of(c[14]) is Some)
}

/// `t` is the task that the row `c` describes.
pub open spec fn task_of_row(t: Task, c: Seq<Seq<char>>) -> bool {
    &&& t.id@ == c[0]
    &&& t.name@ == c[1]
    &&& t.bucket@ == c[2]
    &&& Progress::of_label(c[3]) == Some(t.progress)
    &&& Priority::of_label(c[4]) == Some(t.priority)
    &&& is_split_of(views(t.assigned_to@), c[5], ';')
    &&& t.created_by@ == c[6]
    &&& date_of(c[7]) == Some(t.create_date)
    &&& opt_date_of(c[8]) == Some(t.start_date)
    &&& opt_date_of(c[9]) == Some(t.deadline)
    &&& (c[10] == "false"@ ==> t.recurring is None)
    &&& (c[10] != "false"@ ==> (t.recurring matches Some(s) && s@ == c[10]))
    &&& t.late == (c[11] == "true"@)
    &&& opt_date_of(c[12]) == Some(t.complete_date)
    &&& t.completed_by@ == c[13]
    &&& (c[14].len() == 0 ==> t.items_completed is None)
    &&& (c[14].len() != 0 ==> t.items_completed == count_pair_of(c[14]))
    &&& is_split_of(views(t.items@), c[15], ';')
    &&& is_split_of(views(t.labels@), c[16], ';')
    &&& t.description@ == c[17]
}

fn err(msg: &str) -> (r: SimpleError)
    ensures
        r.0@ == msg@,
{
    SimpleError(String::from_str(msg))
}

impl Task {
    /// Reads a task from the text of its spreadsheet row: id, name, bucket,
    /// progress, priority, assignees, creator, creation date, start date,
    /// deadline, recurrence, lateness, completion date, completer, checklist
    /// count, checklist items, labels and description. Fails when a cell
    /// does not hold what its column asks for.
    pub fn parse(cells: &Vec<String>) -> (r: Result<Task, SimpleError>)
        requires
            cells@.len() >= TASK_CELLS,
        ensures
            r is Ok <==> row_parses(views(cells@)),
            r matches Ok(t) ==> task_of_row(t, views(cells@)),
    {
        let ghost c = views(cells@);
        assert(forall|i: int| 0 <= i < cells@.len() ==> c[i] == #[trigger] cells@[i]@);
        let progress = match Progress::from_label(cells[3].as_str()) {
            Some(p) => p,
            None => return Err(err("not a progress label")),
        };
        let priority = match Priority::from_label(cells[4].as_str()) {
            Some(p) => p,
            None => return Err(err("not a priority label")),
        };
        let create_date = match parse_date(cells[7].as_str()) {
            Some(d) => d,
            None => return Err(err("creation date is not a date")),
        };
        let start_date = match to_option_date(cells[8].as_str()) {
            Ok(d) => d,
            Err(e) => return Err(e),
        };
        let deadline = match to_option_date(cells[9].as_str()) {
            Ok(d) => d,
            Err(e) => return Err(e),
        };
        let complete_date = match to_option_date(cells[12].as_str()) {
            Ok(d) => d,
            Err(e) => return Err(e),
        };
        let items_completed = if cells[14].as_str().unicode_len() == 0 {
            None
        } else {
            match to_usizes(cells[14].as_str()) {
                Some(p) => Some(p),
                None => return Err(err("checklist count is not done/total")),
            }
        };
        let recurring = if same_text(cells[10].as_str(), "false") {
            None
        } else {
            Some(cells[10].clone())
        };
        let late = same_text(cells[11].as_str(), "true");
        let t = Task {
            id: cells[0].clone(),
            name: cells[1].clone(),
            bucket: cells[2].clone(),
            progress,
            priority,
            assigned_to: to_string_list(cells[5].as_str()),
            created_by: cells[6].clone(),
            create_date,
            start_date,
            deadline,
            recurring,
            late,
            complete_date,
            completed_by: cells[13].clone(),
            items_completed,
            items: to_string_list(cells[15].as_str()),
            labels: to_string_list(cells[16].as_str()),
            description: cells[17].clone(),
        };
        Ok(t)
    }

    /// The web address that shows the task, given the id of its plan.
    pub fn to_url(&self, plan_id: &str) -> (r: String)
        ensures
            r@ == task_url(plan_id@, self.id@),
    {
        let mut r = String::from_str("https://planner.cloud.microsoft/webui/plan/");
        r.append(plan_id);
        r.append("/view/grid/task/");
        r.append(self.id.as_str());
        r
    }
}

impl Plan {
    /// Builds a plan from its name, id, export-date text and the text of its
    /// task rows, the header row left out. Fails when the export date is not
    /// a date, a row is too short, or a row does not read as a task.
    pub fn from_rows(name: String, id: String, export_date: &str, rows: &Vec<Vec<String>>) -> (r:
        Result<Plan, SimpleError>)
        ensures
            r is Ok <==> date_of(export_date@) is Some && forall|i: int|
                0 <= i < rows@.len() ==> row_parses(views(#[trigger] rows@[i]@)),
            r matches Ok(p) ==> {
                &&& p.name@ == name@
                &&& p.id@ == id@
                &&& date_of(export_date@) == Some(p.export_date)
                &&& p.tasks@.len() == rows@.len()
                &&& forall|i: int|
                    0 <= i < rows@.len() ==> task_of_row(#[trigger] p.tasks@[i], views(rows@[i]@))
            },
    {
        let export_date = match parse_date(export_date) {
            Some(d) => d,
            None => return Err(err("export date is not a date")),
        };
        let mut tasks: Vec<Task> = Vec::new();
        let mut i: usize = 0;
        while i < rows.len()
            invariant
                i <= rows@.len(),
                tasks@.len() == i,
                forall|k: int| 0 <= k < i ==> row_parses(views(#[trigger] rows@[k]@)),
                forall|k: int| 0 <= k < i ==> task_of_row(#[trigger] tasks@[k], views(rows@[k]@)),
            decreases rows@.len() - i,
        {
            if rows[i].len() < TASK_CELLS {
                return Err(err("a task row is too short"));
            }
            match Task::parse(&rows[i]) {
                Ok(t) => tasks.push(t),
                Err(e) => return Err(e),
            }
            i += 1;
        }
        Ok(Plan { id, name, export_date, tasks })
    }
}

} // verus!
