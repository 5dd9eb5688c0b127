//! The persisted filter and sort configuration, and the rules it holds.

use crate::filter::{is_panel, UiColumn, UiTagFilter};
use crate::plan::{Column, Priority, Progress};
use crate::text::{same_text, text_before_or_same, text_le, views};
use vstd::prelude::*;

verus! {

/// A value that a single-tag rule can hold: it is known by a tag text, and
/// some texts read back as a value.
pub trait TagValue: Sized {
    /// The text that names this value.
    spec fn tag(&self) -> Seq<char>;

    /// Whether the text names some value.
    spec fn is_tag(s: Seq<char>) -> bool;

    /// The tag of every value reads back as a value.
    proof fn lemma_tag_is_tag(&self)
        ensures
            Self::is_tag(self.tag()),
    ;

    /// Whether two values have the same tag.
    fn same_tag(&self, other: &Self) -> (r: bool)
        ensures
            r == (self.tag() == other.tag()),
    ;

    /// The value named by `s`, if any.
    fn from_tag(s: &str) -> (r: Option<Self>)
        ensures
            r is Some <==> Self::is_tag(s@),
            r matches Some(t) ==> t.tag() == s@,
    ;
}

impl TagValue for String {
    open spec fn tag(&self) -> Seq<char> {
        self@
    }

    open spec fn is_tag(s: Seq<char>) -> bool {
        true
    }

    proof fn lemma_tag_is_tag(&self) {
    }

    fn same_tag(&self, other: &Self) -> (r: bool) {
        *self == *other
    }

    fn from_tag(s: &str) -> (r: Option<Self>) {
        Some(String::from_str(s))
    }
}

impl TagValue for Progress {
    open spec fn tag(&self) -> Seq<char> {
        self.spec_name()
    }

    open spec fn is_tag(s: Seq<char>) -> bool {
        Progress::of_name(s) is Some
    }

    proof fn lemma_tag_is_tag(&self) {
    }

    fn same_tag(&self, other: &Self) -> (r: bool) {
        same_text(self.name().as_str(), other.name().as_str())
    }

    fn from_tag(s: &str) -> (r: Option<Self>) {
        Progress::from_name(s)
    }
}

impl TagValue for Priority {
    open spec fn tag(&self) -> Seq<char> {
        self.spec_name()
    }

    open spec fn is_tag(s: Seq<char>) -> bool {
        Priority::of_name(s) is Some
    }

    proof fn lemma_tag_is_tag(&self) {
    }

    fn same_tag(&self, other: &Self) -> (r: bool) {
        same_text(self.name().as_str(), other.name().as_str())
    }

    fn from_tag(s: &str) -> (r: Option<Self>) {
        Priority::from_name(s)
    }
}

/// The tags of a sequence of values.
pub open spec fn tags<T: TagValue>(v: Seq<T>) -> Seq<Seq<char>> {
    v.map_values(|t: T| t.tag())
}

/// Whether some value of `v` has the tag of `x`.
pub fn holds_tag<T: TagValue>(v: &Vec<T>, x: &T) -> (r: bool)
    ensures
        r == tags(v@).contains(x.tag()),
{
    let mut i: usize = 0;
    while i < v.len()
        invariant
            i <= v@.len(),
            forall|k: int| 0 <= k < i ==> tags(v@)[k] != x.tag(),
        decreases v@.len() - i,
    {
        if v[i].same_tag(x) {
            assert(tags(v@)[i as int] == x.tag());
            return true;
        }
        i += 1;
    }
    false
}

/// Whether some string of `v` holds the same text as `x`.
pub fn holds_text(v: &[String], x: &String) -> (r: bool)
    ensures
        r == views(v@).contains(x@),
{
    let mut i: usize = 0;
    while i < v.len()
        invariant
            i <= v@.len(),
            forall|k: int| 0 <= k < i ==> views(v@)[k] != x@,
        decreases v@.len() - i,
    {
        if v[i] == *x {
            assert(views(v@)[i as int] == x@);
            return true;
        }
        i += 1;
    }
    false
}

/// A rule on a column that holds one value per task: an allow-list `or`
/// (empty allows all) and a deny-list `not`.
#[derive(Debug, Clone)]
pub struct TagFilter<T> {
    pub or: Vec<T>,
    pub not: Vec<T>,
}

impl<T: TagValue> TagFilter<T> {
    /// A value passes when its tag is not denied and, if there is an
    /// allow-list, is allowed.
    pub open spec fn allows(&self, v: Seq<char>) -> bool {
        &&& !tags(self.not@).contains(v)
        &&& (self.or@.len() == 0 || tags(self.or@).contains(v))
    }

    /// The rule constrains nothing.
    pub open spec fn is_empty(&self) -> bool {
        self.or@.len() == 0 && self.not@.len() == 0
    }

    /// The rule with empty lists.
    pub fn new() -> (r: Self)
        ensures
            r.is_empty(),
    {
        TagFilter { or: Vec::new(), not: Vec::new() }
    }

    /// Whether the value passes the rule.
    pub fn filter(&self, tag: &T) -> (r: bool)
        ensures
            r == self.allows(tag.tag()),
    {
        if self.not.len() != 0 {
            if holds_tag(&self.not, tag) {
                return false;
            }
        }
        if self.or.len() != 0 {
            if !holds_tag(&self.or, tag) {
                return false;
            }
        }
        true
    }

    /// Whether the rule constrains anything.
    pub fn has_filter(&self) -> (r: bool)
        ensures
            r == !self.is_empty(),
    {
        self.or.len() != 0 || self.not.len() != 0
    }
}

/// A rule on a column that holds a set of values per task: every member of
/// `and` must be present, some member of `or` (when there is one), and no
/// member of `not`.
#[derive(Debug, Clone)]
pub struct MultiTagFilter {
    pub and: Vec<String>,
    pub or: Vec<String>,
    pub not: Vec<String>,
}

impl MultiTagFilter {
    pub open spec fn allows(&self, tags: Seq<Seq<char>>) -> bool {
        &&& forall|i: int| 0 <= i < self.not@.len() ==> !tags.contains(#[trigger] self.not@[i]@)
        &&& (self.or@.len() == 0 || exists|i: int|
            0 <= i < self.or@.len() && tags.contains(#[trigger] self.or@[i]@))
        &&& forall|i: int| 0 <= i < self.and@.len() ==> tags.contains(#[trigger] self.and@[i]@)
    }

    /// The rule constrains nothing.
    pub open spec fn is_empty(&self) -> bool {
        self.or@.len() == 0 && self.and@.len() == 0 && self.not@.len() == 0
    }

    /// The rule with empty lists.
    pub fn new() -> (r: Self)
        ensures
            r.is_empty(),
    {
        MultiTagFilter { and: Vec::new(), or: Vec::new(), not: Vec::new() }
    }

    /// Whether a task with these values passes the rule.
    pub fn filter(&self, tags: &[String]) -> (r: bool)
        ensures
            r == self.allows(views(tags@)),
    {
        let mut i: usize = 0;
        while i < self.not.len()
            invariant
                i <= self.not@.len(),
                forall|k: int| 0 <= k < i ==> !views(tags@).contains(#[trigger] self.not@[k]@),
            decreases self.not@.len() - i,
        {
            if holds_text(tags, &self.not[i]) {
                return false;
            }
            i += 1;
        }
        if self.or.len() != 0 {
            let mut found = false;
            let mut i: usize = 0;
            while i < self.or.len() && !found
                invariant
                    i <= self.or@.len(),
                    found ==> 0 < i && views(tags@).contains(self.or@[i - 1]@),
                    !found ==> forall|k: int|
                        0 <= k < i ==> !views(tags@).contains(#[trigger] self.or@[k]@),
                decreases self.or@.len() - i,
            {
                found = holds_text(tags, &self.or[i]);
                i += 1;
            }
            if !found {
                return false;
            }
        }
        let mut i: usize = 0;
        while i < self.and.len()
            invariant
                i <= self.and@.len(),
                forall|k: int| 0 <= k < i ==> views(tags@).contains(#[trigger] self.and@[k]@),
            decreases self.and@.len() - i,
        {
            if !holds_text(tags, &self.and[i]) {
                return false;
            }
            i += 1;
        }
        true
    }

    /// Whether the rule constrains anything.
    pub fn has_filter(&self) -> (r: bool)
        ensures
            r == !self.is_empty(),
    {
        self.or.len() != 0 || self.not.len() != 0 || self.and.len() != 0
    }
}

/// The rule of every column. `ids` marks tasks to be highlighted; it does
/// not take part in deciding which tasks are shown.
#[derive(Debug, Clone)]
pub struct TaskFilter {
    pub ids: Vec<String>,
    pub filter_ids: bool,
    pub name: String,
    pub bucket: TagFilter<String>,
    pub progress: TagFilter<Progress>,
    pub priority: TagFilter<Priority>,
    pub labels: MultiTagFilter,
    pub assigned_to: MultiTagFilter,
    pub created_by: TagFilter<String>,
    pub description: String,
}

impl TaskFilter {
    /// No rule constrains anything.
    pub open spec fn is_empty(&self) -> bool {
        &&& self.name@.len() == 0
        &&& self.description@.len() == 0
        &&& self.bucket.is_empty()
        &&& self.progress.is_empty()
        &&& self.priority.is_empty()
        &&& self.labels.is_empty()
        &&& self.assigned_to.is_empty()
        &&& self.created_by.is_empty()
    }

    /// The filter that lets every task through.
    pub fn new() -> (r: Self)
        ensures
            r.is_empty(),
            r.ids@.len() == 0,
            !r.filter_ids,
    {
        TaskFilter {
            ids: Vec::new(),
            filter_ids: false,
            name: String::new(),
            bucket: TagFilter::new(),
            progress: TagFilter::new(),
            priority: TagFilter::new(),
            labels: MultiTagFilter::new(),
            assigned_to: MultiTagFilter::new(),
            created_by: TagFilter::new(),
            description: String::new(),
        }
    }

    /// The editable value list for a tag column, built from this filter's
    /// rule for it and the column's known values.
    pub fn get_ui_filter(&self, index: Column, unique_values: &[String]) -> (r: UiTagFilter)
        requires
            index.is_tag_column(),
        ensures
            r.built_from(index, *self, unique_values@),
    {
        UiTagFilter::from_column(index, self, unique_values)
    }

    /// Clears the rule of one column; date columns have none.
    pub fn reset_filter(&mut self, column: Column)
        ensures
            column == Column::Labels ==> final(self).labels.is_empty(),
            column == Column::Bucket ==> final(self).bucket.is_empty(),
            column == Column::AssignedTo ==> final(self).assigned_to.is_empty(),
            column == Column::Progress ==> final(self).progress.is_empty(),
            column == Column::Priority ==> final(self).priority.is_empty(),
            column == Column::Description ==> final(self).description@.len() == 0,
            column == Column::Name ==> final(self).name@.len() == 0,
            column != Column::Labels ==> final(self).labels == old(self).labels,
            column != Column::Bucket ==> final(self).bucket == old(self).bucket,
            column != Column::AssignedTo ==> final(self).assigned_to == old(self).assigned_to,
            column != Column::Progress ==> final(self).progress == old(self).progress,
            column != Column::Priority ==> final(self).priority == old(self).priority,
            column != Column::Description ==> final(self).description == old(self).description,
            column != Column::Name ==> final(self).name == old(self).name,
            final(self).ids == old(self).ids,
            final(self).filter_ids == old(self).filter_ids,
            final(self).created_by == old(self).created_by,
    {
        match column {
            Column::Labels => self.labels = MultiTagFilter::new(),
            Column::Bucket => self.bucket = TagFilter::new(),
            Column::AssignedTo => self.assigned_to = MultiTagFilter::new(),
            Column::Progress => self.progress = TagFilter::new(),
            Column::Priority => self.priority = TagFilter::new(),
            Column::Description => self.description = String::new(),
            Column::Name => self.name = String::new(),
            Column::StartDate | Column::Deadline | Column::CreateDate => {},
            Column::CompleteDate => {},
        }
    }
}

/// The filter panel's lines for this filter and sort.
pub fn get_ui_columns(tf: &TaskFilter, ts: &TaskSort) -> (r: Vec<UiColumn>)
    ensures
        is_panel(r@, *tf, *ts),
{
    UiColumn::all(tf, ts)
}

/// The direction of the sort.
#[derive(Clone, Copy, Debug, PartialEq, Eq, Structural, Hash)]
pub enum Order {
    Asc,
    Desc,
}

/// The sort column, if any, and the direction.
#[derive(Clone, Copy, Debug, PartialEq, Eq, Structural)]
pub struct TaskSort {
    pub column: Option<Column>,
    pub order: Order,
}

impl TaskSort {
    /// Unsorted, descending.
    pub fn new() -> (r: Self)
        ensures
            r.column is None,
            r.order == Order::Desc,
    {
        TaskSort { column: None, order: Order::Desc }
    }
}

/// What is kept between sessions: the filter and the sort.
#[derive(Debug, Clone)]
pub struct Config {
    pub filter: TaskFilter,
    pub sort: TaskSort,
}

impl Config {
    /// Every filter empty, unsorted, descending.
    pub fn new() -> (r: Self)
        ensures
            r.filter.is_empty(),
            r.sort.column is None,
            r.sort.order == Order::Desc,
    {
        Config { filter: TaskFilter::new(), sort: TaskSort::new() }
    }
}

impl Default for Config {
    fn default() -> (r: Self)
        ensures
            r.filter.is_empty(),
            r.sort.column is None,
            r.sort.order == Order::Desc,
    {
        Config::new()
    }
}

/// The values each tag column takes over the plan's tasks.
#[derive(Debug, Clone)]
pub struct UniqueTaskKeys {
    pub buckets: Vec<String>,
    pub labels: Vec<String>,
    pub people: Vec<String>,
}

/// `s` with every repeated value left out, first occurrences kept in order.
pub open spec fn dedup(s: Seq<Seq<char>>) -> Seq<Seq<char>>
    decreases s.len(),
{
    if s.len() == 0 {
        s
    } else if dedup(s.drop_last()).contains(s.last()) {
        dedup(s.drop_last())
    } else {
        dedup(s.drop_last()).push(s.last())
    }
}

/// `x` placed into `s` after every text at the end of `s` that comes no
/// later than it.
pub open spec fn insert_text(s: Seq<Seq<char>>, x: Seq<char>) -> Seq<Seq<char>>
    decreases s.len(),
{
    if s.len() == 0 {
        seq![x]
    } else if text_le(s.last(), x) {
        s.push(x)
    } else {
        insert_text(s.drop_last(), x).push(s.last())
    }
}

/// `s` in lexicographic order, by insertion.
pub open spec fn sorted_texts(s: Seq<Seq<char>>) -> Seq<Seq<char>>
    decreases s.len(),
{
    if s.len() == 0 {
        s
    } else {
        insert_text(sorted_texts(s.drop_last()), s.last())
    }
}

proof fn lemma_insert_text_at(s: Seq<Seq<char>>, x: Seq<char>, j: int)
    requires
        0 <= j <= s.len(),
        j == 0 || text_le(s[j - 1], x),
        forall|k: int| j <= k < s.len() ==> !text_le(#[trigger] s[k], x),
    ensures
        insert_text(s, x) == s.insert(j, x),
    decreases s.len(),
{
    if s.len() == 0 {
        assert(s.insert(j, x) =~= seq![x]);
    } else if j == s.len() {
        assert(s.insert(j, x) =~= s.push(x));
    } else {
        let d = s.drop_last();
        assert(!text_le(s[s.len() - 1], x));
        assert forall|k: int| j <= k < d.len() implies !text_le(#[trigger] d[k], x) by {
            assert(d[k] == s[k]);
        }
        lemma_insert_text_at(d, x, j);
        assert(d.insert(j, x).push(s.last()) =~= s.insert(j, x));
    }
}

/// Each text comes no later than the next one.
pub open spec fn texts_in_order(s: Seq<Seq<char>>) -> bool {
    forall|i: int| 0 <= i < s.len() - 1 ==> text_le(#[trigger] s[i], s[i + 1])
}

proof fn lemma_text_le_total(a: Seq<char>, b: Seq<char>)
    ensures
        text_le(a, b) || text_le(b, a),
    decreases a.len(),
{
    if a.len() > 0 && b.len() > 0 && a[0] == b[0] {
        lemma_text_le_total(a.drop_first(), b.drop_first());
    }
}

proof fn lemma_insert_text_members(s: Seq<Seq<char>>, x: Seq<char>)
    ensures
        insert_text(s, x).len() == s.len() + 1,
        forall|y: Seq<char>| #[trigger] insert_text(s, x).contains(y) <==> (s.contains(y) || y == x),
        s.no_duplicates() && !s.contains(x) ==> insert_text(s, x).no_duplicates(),
    decreases s.len(),
{
    if s.len() == 0 {
        assert(insert_text(s, x) =~= seq![x]);
        assert forall|y: Seq<char>| #[trigger] insert_text(s, x).contains(y) <==> (s.contains(y)
            || y == x) by {
            if insert_text(s, x).contains(y) {
                assert(insert_text(s, x)[0] == y);
            }
            if y == x {
                assert(insert_text(s, x)[0] == y);
            }
        }
    } else if text_le(s.last(), x) {
        assert forall|y: Seq<char>| #[trigger] insert_text(s, x).contains(y) <==> (s.contains(y)
            || y == x) by {
            let r = insert_text(s, x);
            if r.contains(y) {
                let k = choose|k: int| 0 <= k < r.len() && r[k] == y;
                if k < s.len() {
                    assert(s[k] == y);
                }
            }
            if s.contains(y) {
                let k = choose|k: int| 0 <= k < s.len() && s[k] == y;
                assert(r[k] == y);
            }
            if y == x {
                assert(r[s.len() as int] == y);
            }
        }
    } else {
        let d = s.drop_last();
        lemma_insert_text_members(d, x);
        let q = insert_text(d, x);
        assert(insert_text(s, x) == q.push(s.last()));
        assert forall|y: Seq<char>| #[trigger] insert_text(s, x).contains(y) <==> (s.contains(y)
            || y == x) by {
            let r = insert_text(s, x);
            if r.contains(y) {
                let k = choose|k: int| 0 <= k < r.len() && r[k] == y;
                if k < q.len() {
                    assert(q[k] == y);
                    assert(q.contains(y));
                    if d.contains(y) {
                        let m = choose|m: int| 0 <= m < d.len() && d[m] == y;
                        assert(s[m] == y);
                    }
                } else {
                    assert(s[s.len() - 1] == y);
                }
            }
            if s.contains(y) {
                let k = choose|k: int| 0 <= k < s.len() && s[k] == y;
                if k < d.len() {
                    assert(d[k] == y);
                    assert(q.contains(y));
                    let m = choose|m: int| 0 <= m < q.len() && q[m] == y;
                    assert(r[m] == y);
                } else {
                    assert(r[q.len() as int] == y);
                }
            }
            if y == x {
                assert(q.contains(y));
                let m = choose|m: int| 0 <= m < q.len() && q[m] == y;
                assert(r[m] == y);
            }
        }
        if s.no_duplicates() && !s.contains(x) {
            assert(!d.contains(x)) by {
                if d.contains(x) {
                    let m = choose|m: int| 0 <= m < d.len() && d[m] == x;
                    assert(s[m] == x);
                }
            }
            assert(!q.contains(s.last())) by {
                if d.contains(s.last()) {
                    let m = choose|m: int| 0 <= m < d.len() && d[m] == s.last();
                    assert(s[m] == s[s.len() - 1]);
                }
                assert(s.contains(s.last()));
            }
            let r = insert_text(s, x);
            assert forall|i: int, j: int| 0 <= i < r.len() && 0 <= j < r.len() && i != j implies r[i]
                != r[j] by {
                if i < q.len() && j < q.len() {
                } else if i < q.len() {
                    assert(q.contains(q[i]));
                } else if j < q.len() {
                    assert(q.contains(q[j]));
                }
            }
        }
    }
}

proof fn lemma_insert_text_in_order(s: Seq<Seq<char>>, x: Seq<char>)
    requires
        texts_in_order(s),
    ensures
        texts_in_order(insert_text(s, x)),
    decreases s.len(),
{
    if s.len() > 0 && !text_le(s.last(), x) {
        let d = s.drop_last();
        assert forall|i: int| 0 <= i < d.len() - 1 implies text_le(#[trigger] d[i], d[i + 1]) by {
            assert(d[i] == s[i] && d[i + 1] == s[i + 1]);
        }
        lemma_insert_text_in_order(d, x);
        lemma_text_le_total(s.last(), x);
        let q = insert_text(d, x);
        if d.len() > 0 && text_le(d.last(), x) {
            assert(q.last() == x);
        } else if d.len() > 0 {
            assert(q.last() == d.last());
            assert(text_le(s[s.len() - 2], s[s.len() - 1]));
        }
        let r = insert_text(s, x);
        assert forall|i: int| 0 <= i < r.len() - 1 implies text_le(#[trigger] r[i], r[i + 1]) by {
            if i < q.len() - 1 {
                assert(r[i] == q[i] && r[i + 1] == q[i + 1]);
            }
        }
    }
}

proof fn lemma_sorted_texts(s: Seq<Seq<char>>)
    ensures
        texts_in_order(sorted_texts(s)),
        forall|y: Seq<char>| #[trigger] sorted_texts(s).contains(y) <==> s.contains(y),
        s.no_duplicates() ==> sorted_texts(s).no_duplicates(),
    decreases s.len(),
{
    if s.len() > 0 {
        let d = s.drop_last();
        lemma_sorted_texts(d);
        lemma_insert_text_in_order(sorted_texts(d), s.last());
        lemma_insert_text_members(sorted_texts(d), s.last());
        assert forall|y: Seq<char>| #[trigger] sorted_texts(s).contains(y) <==> s.contains(y) by {
            if d.contains(y) {
                let m = choose|m: int| 0 <= m < d.len() && d[m] == y;
                assert(s[m] == y);
            }
            if s.contains(y) {
                let m = choose|m: int| 0 <= m < s.len() && s[m] == y;
                if m < d.len() {
                    assert(d[m] == y);
                }
            }
        }
        if s.no_duplicates() {
            assert(!d.contains(s.last())) by {
                if d.contains(s.last()) {
                    let m = choose|m: int| 0 <= m < d.len() && d[m] == s.last();
                    assert(s[m] == s[s.len() - 1]);
                }
            }
            assert(d.no_duplicates()) by {
                assert forall|i: int, j: int| 0 <= i < d.len() && 0 <= j < d.len() && i != j implies d[i]
                    != d[j] by {
                    assert(d[i] == s[i] && d[j] == s[j]);
                }
            }
        }
    } else {
        assert(sorted_texts(s) =~= s);
    }
}

proof fn lemma_dedup(s: Seq<Seq<char>>)
    ensures
        dedup(s).no_duplicates(),
        forall|y: Seq<char>| #[trigger] dedup(s).contains(y) <==> s.contains(y),
    decreases s.len(),
{
    if s.len() > 0 {
        let d = s.drop_last();
        lemma_dedup(d);
        let q = dedup(d);
        assert forall|y: Seq<char>| #[trigger] dedup(s).contains(y) <==> s.contains(y) by {
            if d.contains(y) {
                let m = choose|m: int| 0 <= m < d.len() && d[m] == y;
                assert(s[m] == y);
            }
            if s.contains(y) {
                let m = choose|m: int| 0 <= m < s.len() && s[m] == y;
                if m < d.len() {
                    assert(d[m] == y);
                } else {
                    assert(y == s.last());
                }
            }
            if !q.contains(s.last()) {
                let r = q.push(s.last());
                if r.contains(y) {
                    let k = choose|k: int| 0 <= k < r.len() && r[k] == y;
                    if k < q.len() {
                        assert(q[k] == y);
                    }
                }
                if q.contains(y) {
                    let k = choose|k: int| 0 <= k < q.len() && q[k] == y;
                    assert(r[k] == y);
                }
                assert(r[q.len() as int] == s.last());
            }
        }
        if !q.contains(s.last()) {
            let r = q.push(s.last());
            assert forall|i: int, j: int| 0 <= i < r.len() && 0 <= j < r.len() && i != j implies r[i]
                != r[j] by {
                if i < q.len() && j < q.len() {
                } else if i < q.len() {
                    assert(q.contains(q[i]));
                } else if j < q.len() {
                    assert(q.contains(q[j]));
                }
            }
        }
    }
}

/// The value list made from any values is in lexicographic order, holds no
/// value twice, and holds exactly the values that occur.
pub proof fn lemma_unique_values(s: Seq<Seq<char>>)
    ensures
        texts_in_order(sorted_texts(dedup(s))),
        sorted_texts(dedup(s)).no_duplicates(),
        forall|y: Seq<char>| #[trigger] sorted_texts(dedup(s)).contains(y) <==> s.contains(y),
{
    lemma_dedup(s);
    lemma_sorted_texts(dedup(s));
}

fn dedup_strings(i: &Vec<String>) -> (r: Vec<String>)
    ensures
        views(r@) == dedup(views(i@)),
{
    let mut r: Vec<String> = Vec::new();
    let mut k: usize = 0;
    while k < i.len()
        invariant
            k <= i@.len(),
            views(r@) == dedup(views(i@.subrange(0, k as int))),
        decreases i@.len() - k,
    {
        let ghost before = r@;
        assert(views(i@.subrange(0, k + 1)).drop_last() =~= views(i@.subrange(0, k as int)));
        if !holds_text(r.as_slice(), &i[k]) {
            r.push(i[k].clone());
            assert(views(r@) =~= views(before).push(i@[k as int]@));
        }
        k += 1;
    }
    assert(i@.subrange(0, k as int) =~= i@);
    r
}

/// The distinct values of `i`, in lexicographic order.
pub fn get_unique_strings(i: &Vec<String>) -> (r: Vec<String>)
    ensures
        views(r@) == sorted_texts(dedup(views(i@))),
{
    let d = dedup_strings(i);
    let mut r: Vec<String> = Vec::new();
    let mut k: usize = 0;
    while k < d.len()
        invariant
            k <= d@.len(),
            views(r@) == sorted_texts(views(d@.subrange(0, k as int))),
        decreases d@.len() - k,
    {
        assert(views(d@.subrange(0, k + 1)).drop_last() =~= views(d@.subrange(0, k as int)));
        assert(views(d@.subrange(0, k + 1)).last() == d@[k as int]@);
        let x = d[k].clone();
        let mut j: usize = r.len();
        while j > 0 && !text_before_or_same(r[j - 1].as_str(), x.as_str())
            invariant
                j <= r@.len(),
                forall|q: int| j <= q < r@.len() ==> !text_le(#[trigger] views(r@)[q], x@),
            decreases j,
        {
            j -= 1;
        }
        let ghost before = r@;
        proof {
            lemma_insert_text_at(views(r@), x@, j as int);
        }
        r.insert(j, x);
        assert(views(r@) =~= views(before).insert(j as int, d@[k as int]@));
        k += 1;
    }
    assert(d@.subrange(0, k as int) =~= d@);
    r
}

} // verus!
