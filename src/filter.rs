//! The editable per-value view of a tag rule, and the column list shown in
//! the filter panel.

use crate::config::{tags, MultiTagFilter, Order, TagFilter, TagValue, TaskFilter, TaskSort};
use crate::plan::Column;
use crate::text::views;
use crate::SimpleError;
use vstd::prelude::*;

verus! {

/// The state of one value of a single-tag rule.
#[derive(Clone, Copy, Debug, PartialEq, Eq, Structural)]
pub enum TagState {
    Or,
    Nil,
    Not,
}

/// The state of one value of a multi-tag rule.
#[derive(Clone, Copy, Debug, PartialEq, Eq, Structural)]
pub enum MultiTagState {
    Or,
    And,
    Nil,
    Not,
}

impl TagState {
    /// Nil, then Or, then Not, then Nil again.
    pub open spec fn spec_next(self) -> TagState {
        match self {
            TagState::Nil => TagState::Or,
            TagState::Or => TagState::Not,
            TagState::Not => TagState::Nil,
        }
    }

    /// Moves on to the next state of the cycle.
    pub fn next(&mut self)
        ensures
            *final(self) == old(self).spec_next(),
    {
        let next = match *self {
            TagState::Nil => TagState::Or,
            TagState::Or => TagState::Not,
            TagState::Not => TagState::Nil,
        };
        *self = next;
    }
}

impl MultiTagState {
    /// Nil, then Or, then And, then Not, then Nil again.
    pub open spec fn spec_next(self) -> MultiTagState {
        match self {
            MultiTagState::Nil => MultiTagState::Or,
            MultiTagState::Or => MultiTagState::And,
            MultiTagState::And => MultiTagState::Not,
            MultiTagState::Not => MultiTagState::Nil,
        }
    }

    /// Moves on to the next state of the cycle.
    pub fn next(&mut self)
        ensures
            *final(self) == old(self).spec_next(),
    {
        let next = match *self {
            MultiTagState::Nil => MultiTagState::Or,
            MultiTagState::Or => MultiTagState::And,
            MultiTagState::And => MultiTagState::Not,
            MultiTagState::Not => MultiTagState::Nil,
        };
        *self = next;
    }
}

/// The state a value gets from a single-tag rule: `Or` when allowed, `Not`
/// when denied, `Nil` otherwise or when the text names no value.
pub open spec fn single_state_of<T: TagValue>(tf: TagFilter<T>, u: Seq<char>) -> TagState {
    if T::is_tag(u) && tags(tf.or@).contains(u) {
        TagState::Or
    } else if T::is_tag(u) && tags(tf.not@).contains(u) {
        TagState::Not
    } else {
        TagState::Nil
    }
}

/// The state a value gets from a multi-tag rule, `or` checked first.
pub open spec fn multi_state_of(tf: MultiTagFilter, u: Seq<char>) -> MultiTagState {
    if views(tf.or@).contains(u) {
        MultiTagState::Or
    } else if views(tf.and@).contains(u) {
        MultiTagState::And
    } else if views(tf.not@).contains(u) {
        MultiTagState::Not
    } else {
        MultiTagState::Nil
    }
}

/// The texts of the entries that are in state `st`, in order.
pub open spec fn single_with(v: Seq<(String, TagState)>, st: TagState) -> Seq<Seq<char>>
    decreases v.len(),
{
    if v.len() == 0 {
        Seq::empty()
    } else if v.last().1 == st {
        single_with(v.drop_last(), st).push(v.last().0@)
    } else {
        single_with(v.drop_last(), st)
    }
}

/// The texts of the entries that are in state `st`, in order.
pub open spec fn multi_with(v: Seq<(String, MultiTagState)>, st: MultiTagState) -> Seq<Seq<char>>
    decreases v.len(),
{
    if v.len() == 0 {
        Seq::empty()
    } else if v.last().1 == st {
        multi_with(v.drop_last(), st).push(v.last().0@)
    } else {
        multi_with(v.drop_last(), st)
    }
}

/// Every entry that is not `Nil` names a value.
pub open spec fn single_convertible<T: TagValue>(v: Seq<(String, TagState)>) -> bool {
    forall|i: int| 0 <= i < v.len() && (#[trigger] v[i]).1 != TagState::Nil ==> T::is_tag(v[i].0@)
}

/// The values of a column, each with its state under the column's rule.
#[derive(Clone, Debug)]
pub enum UiTagFilter {
    Multi(Vec<(String, MultiTagState)>),
    Single(Vec<(String, TagState)>),
}

impl UiTagFilter {
    pub open spec fn spec_len(&self) -> nat {
        match self {
            UiTagFilter::Multi(v) => v@.len(),
            UiTagFilter::Single(v) => v@.len(),
        }
    }

    /// The entries are the values `u`, in order, each in the state that
    /// the rule `tf` gives it.
    pub open spec fn single_from<T: TagValue>(&self, tf: TagFilter<T>, u: Seq<String>) -> bool {
        &&& self matches UiTagFilter::Single(v)
        &&& v@.len() == u.len()
        &&& forall|i: int|
            0 <= i < u.len() ==> (#[trigger] v@[i]).0 == u[i] && v@[i].1 == single_state_of(
                tf,
                u[i]@,
            )
    }

    /// The entries are the values `u`, in order, each in the state that
    /// the rule `tf` gives it.
    pub open spec fn multi_from(&self, tf: MultiTagFilter, u: Seq<String>) -> bool {
        &&& self matches UiTagFilter::Multi(v)
        &&& v@.len() == u.len()
        &&& forall|i: int|
            0 <= i < u.len() ==> (#[trigger] v@[i]).0 == u[i] && v@[i].1 == multi_state_of(tf, u[i]@)
    }

    /// What `from_column` builds for the tag column `c`.
    pub open spec fn built_from(&self, c: Column, tf: TaskFilter, u: Seq<String>) -> bool {
        match c {
            Column::Labels => self.multi_from(tf.labels, u),
            Column::AssignedTo => self.multi_from(tf.assigned_to, u),
            Column::Bucket => self.single_from(tf.bucket, u),
            Column::Priority => self.single_from(tf.priority, u),
            Column::Progress => self.single_from(tf.progress, u),
            _ => false,
        }
    }

    /// The shape fits the column: multi-valued columns get `Multi`.
    pub open spec fn fits(&self, c: Column) -> bool {
        if c.is_multi_column() {
            self is Multi
        } else {
            c.is_single_column() && self is Single
        }
    }

    /// The number of values listed.
    pub fn len(&self) -> (r: usize)
        ensures
            r == self.spec_len(),
    {
        match self {
            UiTagFilter::Multi(v) => v.len(),
            UiTagFilter::Single(v) => v.len(),
        }
    }

    /// Advances the state of the value at `index` through its cycle.
    pub fn next_state(&mut self, index: usize)
        requires
            index < old(self).spec_len(),
        ensures
            match (*old(self), *final(self)) {
                (UiTagFilter::Single(a), UiTagFilter::Single(b)) => b@ == a@.update(
                    index as int,
                    (a@[index as int].0, a@[index as int].1.spec_next()),
                ),
                (UiTagFilter::Multi(a), UiTagFilter::Multi(b)) => b@ == a@.update(
                    index as int,
                    (a@[index as int].0, a@[index as int].1.spec_next()),
                ),
                _ => false,
            },
    {
        match self {
            UiTagFilter::Single(v) => {
                v[index].1.next();
            },
            UiTagFilter::Multi(v) => {
                v[index].1.next();
            },
        }
    }

    /// Puts the value at `index` in state `And`; a single-tag list has no
    /// such state and is left as it is.
    pub fn and_state(&mut self, index: usize)
        requires
            index < old(self).spec_len(),
        ensures
            match (*old(self), *final(self)) {
                (UiTagFilter::Single(a), UiTagFilter::Single(b)) => b@ == a@,
                (UiTagFilter::Multi(a), UiTagFilter::Multi(b)) => b@ == a@.update(
                    index as int,
                    (a@[index as int].0, MultiTagState::And),
                ),
                _ => false,
            },
    {
        if let UiTagFilter::Multi(v) = self {
            v[index].1 = MultiTagState::And;
        }
    }

    /// Puts the value at `index` in state `Or`.
    pub fn or_state(&mut self, index: usize)
        requires
            index < old(self).spec_len(),
        ensures
            match (*old(self), *final(self)) {
                (UiTagFilter::Single(a), UiTagFilter::Single(b)) => b@ == a@.update(
                    index as int,
                    (a@[index as int].0, TagState::Or),
                ),
                (UiTagFilter::Multi(a), UiTagFilter::Multi(b)) => b@ == a@.update(
                    index as int,
                    (a@[index as int].0, MultiTagState::Or),
                ),
                _ => false,
            },
    {
        match self {
            UiTagFilter::Single(v) => {
                v[index].1 = TagState::Or;
            },
            UiTagFilter::Multi(v) => {
                v[index].1 = MultiTagState::Or;
            },
        }
    }

    /// Puts the value at `index` in state `Not`.
    pub fn not_state(&mut self, index: usize)
        requires
            index < old(self).spec_len(),
        ensures
            match (*old(self), *final(self)) {
                (UiTagFilter::Single(a), UiTagFilter::Single(b)) => b@ == a@.update(
                    index as int,
                    (a@[index as int].0, TagState::Not),
                ),
                (UiTagFilter::Multi(a), UiTagFilter::Multi(b)) => b@ == a@.update(
                    index as int,
                    (a@[index as int].0, MultiTagState::Not),
                ),
                _ => false,
            },
    {
        match self {
            UiTagFilter::Single(v) => {
                v[index].1 = TagState::Not;
            },
            UiTagFilter::Multi(v) => {
                v[index].1 = MultiTagState::Not;
            },
        }
    }

    /// Puts the value at `index` in state `Nil`.
    pub fn nil_state(&mut self, index: usize)
        requires
            index < old(self).spec_len(),
        ensures
            match (*old(self), *final(self)) {
                (UiTagFilter::Single(a), UiTagFilter::Single(b)) => b@ == a@.update(
                    index as int,
                    (a@[index as int].0, TagState::Nil),
                ),
                (UiTagFilter::Multi(a), UiTagFilter::Multi(b)) => b@ == a@.update(
                    index as int,
                    (a@[index as int].0, MultiTagState::Nil),
                ),
                _ => false,
            },
    {
        match self {
            UiTagFilter::Single(v) => {
                v[index].1 = TagState::Nil;
            },
            UiTagFilter::Multi(v) => {
                v[index].1 = MultiTagState::Nil;
            },
        }
    }

    /// The value list of the tag column `c` under the filter `tf`, over the
    /// column's known values `uniques`.
    pub fn from_column(c: Column, tf: &TaskFilter, uniques: &[String]) -> (r: Self)
        requires
            c.is_tag_column(),
        ensures
            r.built_from(c, *tf, uniques@),
            r.fits(c),
    {
        match c {
            Column::Labels => Self::from_multi_tag_filter(&tf.labels, uniques),
            Column::Bucket => Self::from_tag_filter(&tf.bucket, uniques),
            Column::Priority => Self::from_tag_filter(&tf.priority, uniques),
            Column::Progress => Self::from_tag_filter(&tf.progress, uniques),
            _ => Self::from_multi_tag_filter(&tf.assigned_to, uniques),
        }
    }

    fn from_multi_tag_filter(tf: &MultiTagFilter, uniques: &[String]) -> (r: Self)
        ensures
            r.multi_from(*tf, uniques@),
    {
        let mut v: Vec<(String, MultiTagState)> = Vec::new();
        let mut i: usize = 0;
        while i < uniques.len()
            invariant
                i <= uniques@.len(),
                v@.len() == i,
                forall|k: int|
                    0 <= k < i ==> (#[trigger] v@[k]).0 == uniques@[k] && v@[k].1
                        == multi_state_of(*tf, uniques@[k]@),
            decreases uniques@.len() - i,
        {
            let s = &uniques[i];
            let st = if crate::config::holds_text(tf.or.as_slice(), s) {
                MultiTagState::Or
            } else if crate::config::holds_text(tf.and.as_slice(), s) {
                MultiTagState::And
            } else if crate::config::holds_text(tf.not.as_slice(), s) {
                MultiTagState::Not
            } else {
                MultiTagState::Nil
            };
            v.push((s.clone(), st));
            i += 1;
        }
        UiTagFilter::Multi(v)
    }

    fn from_tag_filter<T: TagValue>(tf: &TagFilter<T>, uniques: &[String]) -> (r: Self)
        ensures
            r.single_from(*tf, uniques@),
    {
        let mut v: Vec<(String, TagState)> = Vec::new();
        let mut i: usize = 0;
        while i < uniques.len()
            invariant
                i <= uniques@.len(),
                v@.len() == i,
                forall|k: int|
                    0 <= k < i ==> (#[trigger] v@[k]).0 == uniques@[k] && v@[k].1
                        == single_state_of(*tf, uniques@[k]@),
            decreases uniques@.len() - i,
        {
            let s = &uniques[i];
            let st = match T::from_tag(s.as_str()) {
                Some(t) => {
                    if crate::config::holds_tag(&tf.or, &t) {
                        TagState::Or
                    } else if crate::config::holds_tag(&tf.not, &t) {
                        TagState::Not
                    } else {
                        TagState::Nil
                    }
                },
                None => TagState::Nil,
            };
            v.push((s.clone(), st));
            i += 1;
        }
        UiTagFilter::Single(v)
    }

    /// The single-tag rule the list stands for: its `Or` entries make the
    /// allow-list and its `Not` entries the deny-list, in list order. Fails
    /// on a multi-tag list, or when an entry in use names no value.
    pub fn to_tag_filter<T: TagValue>(&self) -> (r: Result<TagFilter<T>, SimpleError>)
        ensures
            match *self {
                UiTagFilter::Multi(_) => r is Err,
                UiTagFilter::Single(v) => match r {
                    Ok(tf) => single_convertible::<T>(v@) && tags(tf.or@) == single_with(
                        v@,
                        TagState::Or,
                    ) && tags(tf.not@) == single_with(v@, TagState::Not),
                    Err(_) => !single_convertible::<T>(v@),
                },
            },
    {
        match self {
            UiTagFilter::Multi(_) => Err(
                SimpleError(String::from_str("a multi-tag list is not a single-tag rule")),
            ),
            UiTagFilter::Single(v) => {
                let mut tf: TagFilter<T> = TagFilter::new();
                let mut i: usize = 0;
                while i < v.len()
                    invariant
                        *self == UiTagFilter::Single(*v),
                        i <= v@.len(),
                        tags(tf.or@) == single_with(v@.subrange(0, i as int), TagState::Or),
                        tags(tf.not@) == single_with(v@.subrange(0, i as int), TagState::Not),
                        single_convertible::<T>(v@.subrange(0, i as int)),
                    decreases v@.len() - i,
                {
                    let ghost pre = v@.subrange(0, i as int);
                    assert(v@.subrange(0, i + 1).drop_last() =~= pre);
                    let ghost old_or = tf.or@;
                    let ghost old_not = tf.not@;
                    match v[i].1 {
                        TagState::Nil => {},
                        TagState::Or => {
                            match T::from_tag(v[i].0.as_str()) {
                                Some(t) => {
                                    tf.or.push(t);
                                    assert(tags(tf.or@) =~= tags(old_or).push(v@[i as int].0@));
                                },
                                None => {
                                    assert(v@[i as int].1 != TagState::Nil);
                                    assert(!T::is_tag(v@[i as int].0@));
                                    assert(!single_convertible::<T>(v@));
                                    return Err(SimpleError(String::from_str("not a value of this column")));
                                },
                            }
                        },
                        TagState::Not => {
                            match T::from_tag(v[i].0.as_str()) {
                                Some(t) => {
                                    tf.not.push(t);
                                    assert(tags(tf.not@) =~= tags(old_not).push(v@[i as int].0@));
                                },
                                None => {
                                    assert(v@[i as int].1 != TagState::Nil);
                                    assert(!T::is_tag(v@[i as int].0@));
                                    assert(!single_convertible::<T>(v@));
                                    return Err(SimpleError(String::from_str("not a value of this column")));
                                },
                            }
                        },
                    }
                    assert(single_convertible::<T>(v@.subrange(0, i + 1)));
                    i += 1;
                }
                assert(v@.subrange(0, i as int) =~= v@);
                Ok(tf)
            },
        }
    }

    /// The multi-tag rule the list stands for: its `Or`, `And` and `Not`
    /// entries, in list order. Fails on a single-tag list.
    pub fn to_multi_tag_filter(&self) -> (r: Result<MultiTagFilter, SimpleError>)
        ensures
            self is Single ==> r is Err,
            self is Multi ==> r is Ok,
            r matches Ok(tf) ==> (self matches UiTagFilter::Multi(v) && views(tf.or@) == multi_with(
                v@,
                MultiTagState::Or,
            ) && views(tf.and@) == multi_with(v@, MultiTagState::And) && views(tf.not@)
                == multi_with(v@, MultiTagState::Not)),
    {
        match self {
            UiTagFilter::Single(_) => Err(
                SimpleError(String::from_str("a single-tag list is not a multi-tag rule")),
            ),
            UiTagFilter::Multi(v) => {
                let mut tf = MultiTagFilter::new();
                let mut i: usize = 0;
                while i < v.len()
                    invariant
                        i <= v@.len(),
                        views(tf.or@) == multi_with(v@.subrange(0, i as int), MultiTagState::Or),
                        views(tf.and@) == multi_with(v@.subrange(0, i as int), MultiTagState::And),
                        views(tf.not@) == multi_with(v@.subrange(0, i as int), MultiTagState::Not),
                    decreases v@.len() - i,
                {
                    let ghost pre = v@.subrange(0, i as int);
                    assert(v@.subrange(0, i + 1).drop_last() =~= pre);
                    let ghost old_or = tf.or@;
                    let ghost old_and = tf.and@;
                    let ghost old_not = tf.not@;
                    let s = v[i].0.clone();
                    match v[i].1 {
                        MultiTagState::Nil => {},
                        MultiTagState::Or => {
                            tf.or.push(s);
                            assert(views(tf.or@) =~= views(old_or).push(v@[i as int].0@));
                        },
                        MultiTagState::And => {
                            tf.and.push(s);
                            assert(views(tf.and@) =~= views(old_and).push(v@[i as int].0@));
                        },
                        MultiTagState::Not => {
                            tf.not.push(s);
                            assert(views(tf.not@) =~= views(old_not).push(v@[i as int].0@));
                        },
                    }
                    i += 1;
                }
                assert(v@.subrange(0, i as int) =~= v@);
                Ok(tf)
            },
        }
    }
}

// Laws of the tag lists.

/// Three steps of the single-tag cycle come back to the start.
pub proof fn lemma_tag_state_cycle(s: TagState)
    ensures
        s.spec_next().spec_next().spec_next() == s,
{
}

/// Four steps of the multi-tag cycle come back to the start.
pub proof fn lemma_multi_tag_state_cycle(s: MultiTagState)
    ensures
        s.spec_next().spec_next().spec_next().spec_next() == s,
{
}

/// The entry at `i` advanced by one step, as `next_state` does it.
pub open spec fn single_step(a: Seq<(String, TagState)>, i: int) -> Seq<(String, TagState)> {
    a.update(i, (a[i].0, a[i].1.spec_next()))
}

/// The entry at `i` advanced by one step, as `next_state` does it.
pub open spec fn multi_step(a: Seq<(String, MultiTagState)>, i: int) -> Seq<
    (String, MultiTagState),
> {
    a.update(i, (a[i].0, a[i].1.spec_next()))
}

/// Advancing the same entry of a single-tag list three times gives the
/// list back.
pub proof fn lemma_single_entry_cycle(a: Seq<(String, TagState)>, i: int)
    requires
        0 <= i < a.len(),
    ensures
        single_step(single_step(single_step(a, i), i), i) == a,
{
    lemma_tag_state_cycle(a[i].1);
    assert(single_step(single_step(single_step(a, i), i), i) =~= a);
}

/// Advancing the same entry of a multi-tag list four times gives the list
/// back.
pub proof fn lemma_multi_entry_cycle(a: Seq<(String, MultiTagState)>, i: int)
    requires
        0 <= i < a.len(),
    ensures
        multi_step(multi_step(multi_step(multi_step(a, i), i), i), i) == a,
{
    lemma_multi_tag_state_cycle(a[i].1);
    assert(multi_step(multi_step(multi_step(multi_step(a, i), i), i), i) =~= a);
}

proof fn lemma_single_with_contains(v: Seq<(String, TagState)>, st: TagState, x: Seq<char>)
    ensures
        single_with(v, st).contains(x) <==> exists|i: int|
            0 <= i < v.len() && (#[trigger] v[i]).1 == st && v[i].0@ == x,
    decreases v.len(),
{
    if v.len() > 0 {
        let d = v.drop_last();
        lemma_single_with_contains(d, st, x);
        if single_with(v, st).contains(x) {
            if single_with(d, st).contains(x) {
                let i = choose|i: int| 0 <= i < d.len() && (#[trigger] d[i]).1 == st && d[i].0@ == x;
                assert(v[i] == d[i]);
            } else {
                let j = choose|j: int| 0 <= j < single_with(v, st).len() && single_with(v, st)[j] == x;
                assert(v[v.len() - 1].1 == st && v[v.len() - 1].0@ == x);
            }
        }
        if exists|i: int| 0 <= i < v.len() && (#[trigger] v[i]).1 == st && v[i].0@ == x {
            let i = choose|i: int| 0 <= i < v.len() && (#[trigger] v[i]).1 == st && v[i].0@ == x;
            if i < d.len() {
                assert(d[i] == v[i]);
                let j = choose|j: int| 0 <= j < single_with(d, st).len() && single_with(d, st)[j] == x;
                assert(single_with(v, st)[j] == x);
            } else {
                assert(single_with(v, st).last() == x);
            }
        }
    }
}

proof fn lemma_multi_with_contains(v: Seq<(String, MultiTagState)>, st: MultiTagState, x: Seq<char>)
    ensures
        multi_with(v, st).contains(x) <==> exists|i: int|
            0 <= i < v.len() && (#[trigger] v[i]).1 == st && v[i].0@ == x,
    decreases v.len(),
{
    if v.len() > 0 {
        let d = v.drop_last();
        lemma_multi_with_contains(d, st, x);
        if multi_with(v, st).contains(x) {
            if multi_with(d, st).contains(x) {
                let i = choose|i: int| 0 <= i < d.len() && (#[trigger] d[i]).1 == st && d[i].0@ == x;
                assert(v[i] == d[i]);
            } else {
                let j = choose|j: int| 0 <= j < multi_with(v, st).len() && multi_with(v, st)[j] == x;
                assert(v[v.len() - 1].1 == st && v[v.len() - 1].0@ == x);
            }
        }
        if exists|i: int| 0 <= i < v.len() && (#[trigger] v[i]).1 == st && v[i].0@ == x {
            let i = choose|i: int| 0 <= i < v.len() && (#[trigger] v[i]).1 == st && v[i].0@ == x;
            if i < d.len() {
                assert(d[i] == v[i]);
                let j = choose|j: int| 0 <= j < multi_with(d, st).len() && multi_with(d, st)[j] == x;
                assert(multi_with(v, st)[j] == x);
            } else {
                assert(multi_with(v, st).last() == x);
            }
        }
    }
}

/// Every entry of a single-tag list built from a rule is in a state the
/// rule gives it: `Or` only for an allowed value, `Not` only for a denied
/// one, and `Nil` for a value the rule does not list.
pub proof fn lemma_single_states_follow_rule<T: TagValue>(
    ui: UiTagFilter,
    tf: TagFilter<T>,
    u: Seq<String>,
)
    requires
        ui.single_from(tf, u),
    ensures
        ui matches UiTagFilter::Single(v) && forall|i: int|
            0 <= i < v@.len() ==> {
                &&& (#[trigger] v@[i]).1 == TagState::Or ==> tags(tf.or@).contains(v@[i].0@)
                &&& v@[i].1 == TagState::Not ==> tags(tf.not@).contains(v@[i].0@)
                &&& !tags(tf.or@).contains(v@[i].0@) && !tags(tf.not@).contains(v@[i].0@)
                    ==> v@[i].1 == TagState::Nil
            },
{
}

/// Every entry of a multi-tag list built from a rule is in a state the
/// rule gives it: `Or`, `And` and `Not` only for a value in that list of
/// the rule, and `Nil` for a value the rule does not list.
pub proof fn lemma_multi_states_follow_rule(ui: UiTagFilter, tf: MultiTagFilter, u: Seq<String>)
    requires
        ui.multi_from(tf, u),
    ensures
        ui matches UiTagFilter::Multi(v) && forall|i: int|
            0 <= i < v@.len() ==> {
                &&& (#[trigger] v@[i]).1 == MultiTagState::Or ==> views(tf.or@).contains(v@[i].0@)
                &&& v@[i].1 == MultiTagState::And ==> views(tf.and@).contains(v@[i].0@)
                &&& v@[i].1 == MultiTagState::Not ==> views(tf.not@).contains(v@[i].0@)
                &&& !views(tf.or@).contains(v@[i].0@) && !views(tf.and@).contains(v@[i].0@)
                    && !views(tf.not@).contains(v@[i].0@) ==> v@[i].1 == MultiTagState::Nil
            },
{
}

/// A single-tag rule whose lists do not share a value, turned into a tag
/// list over values that hold every value it lists, turns back into a rule
/// that lists the same values: no entry comes back in another list, and
/// every entry in use names a value.
pub proof fn lemma_single_round_trip<T: TagValue>(ui: UiTagFilter, tf: TagFilter<T>, u: Seq<String>)
    requires
        ui.single_from(tf, u),
        forall|x: Seq<char>| #[trigger] tags(tf.or@).contains(x) ==> views(u).contains(x),
        forall|x: Seq<char>| #[trigger] tags(tf.not@).contains(x) ==> views(u).contains(x),
        forall|x: Seq<char>| !(#[trigger] tags(tf.or@).contains(x) && tags(tf.not@).contains(x)),
    ensures
        ui matches UiTagFilter::Single(v) && single_convertible::<T>(v@) && (forall|x: Seq<char>|
            #[trigger] single_with(v@, TagState::Or).contains(x) <==> tags(tf.or@).contains(x))
            && (forall|x: Seq<char>|
            #[trigger] single_with(v@, TagState::Not).contains(x) <==> tags(tf.not@).contains(x)),
{
    if let UiTagFilter::Single(v) = ui {
        assert forall|x: Seq<char>| #[trigger] tags(tf.or@).contains(x) implies T::is_tag(x) by {
            let k = choose|k: int| 0 <= k < tags(tf.or@).len() && tags(tf.or@)[k] == x;
            tf.or@[k].lemma_tag_is_tag();
        }
        assert forall|x: Seq<char>| #[trigger] tags(tf.not@).contains(x) implies T::is_tag(x) by {
            let k = choose|k: int| 0 <= k < tags(tf.not@).len() && tags(tf.not@)[k] == x;
            tf.not@[k].lemma_tag_is_tag();
        }
        assert forall|x: Seq<char>| #[trigger] single_with(v@, TagState::Or).contains(x) <==> tags(
            tf.or@,
        ).contains(x) by {
            lemma_single_with_contains(v@, TagState::Or, x);
            if tags(tf.or@).contains(x) {
                let k = choose|k: int| 0 <= k < views(u).len() && views(u)[k] == x;
                assert(v@[k].0@ == x && v@[k].1 == TagState::Or);
            }
        }
        assert forall|x: Seq<char>| #[trigger] single_with(v@, TagState::Not).contains(x) <==> tags(
            tf.not@,
        ).contains(x) by {
            lemma_single_with_contains(v@, TagState::Not, x);
            if tags(tf.not@).contains(x) {
                let k = choose|k: int| 0 <= k < views(u).len() && views(u)[k] == x;
                assert(v@[k].0@ == x && v@[k].1 == TagState::Not);
            }
        }
    }
}

/// A multi-tag rule whose lists do not share a value, turned into a tag
/// list over values that hold every value it lists, turns back into a rule
/// that lists the same values in each of its lists.
pub proof fn lemma_multi_round_trip(ui: UiTagFilter, tf: MultiTagFilter, u: Seq<String>)
    requires
        ui.multi_from(tf, u),
        forall|x: Seq<char>| #[trigger] views(tf.or@).contains(x) ==> views(u).contains(x),
        forall|x: Seq<char>| #[trigger] views(tf.and@).contains(x) ==> views(u).contains(x),
        forall|x: Seq<char>| #[trigger] views(tf.not@).contains(x) ==> views(u).contains(x),
        forall|x: Seq<char>| !(#[trigger] views(tf.or@).contains(x) && views(tf.and@).contains(x)),
        forall|x: Seq<char>| !(#[trigger] views(tf.or@).contains(x) && views(tf.not@).contains(x)),
        forall|x: Seq<char>| !(#[trigger] views(tf.and@).contains(x) && views(tf.not@).contains(x)),
    ensures
        ui matches UiTagFilter::Multi(v) && (forall|x: Seq<char>|
            #[trigger] multi_with(v@, MultiTagState::Or).contains(x) <==> views(tf.or@).contains(x))
            && (forall|x: Seq<char>|
            #[trigger] multi_with(v@, MultiTagState::And).contains(x) <==> views(tf.and@).contains(
                x,
            )) && (forall|x: Seq<char>|
            #[trigger] multi_with(v@, MultiTagState::Not).contains(x) <==> views(tf.not@).contains(
                x,
            )),
{
    if let UiTagFilter::Multi(v) = ui {
        assert forall|x: Seq<char>| #[trigger] multi_with(v@, MultiTagState::Or).contains(x) <==> views(
            tf.or@,
        ).contains(x) by {
            lemma_multi_with_contains(v@, MultiTagState::Or, x);
            if views(tf.or@).contains(x) {
                let k = choose|k: int| 0 <= k < views(u).len() && views(u)[k] == x;
                assert(v@[k].0@ == x && v@[k].1 == MultiTagState::Or);
            }
        }
        assert forall|x: Seq<char>| #[trigger] multi_with(v@, MultiTagState::And).contains(x) <==> views(
            tf.and@,
        ).contains(x) by {
            lemma_multi_with_contains(v@, MultiTagState::And, x);
            if views(tf.and@).contains(x) {
                let k = choose|k: int| 0 <= k < views(u).len() && views(u)[k] == x;
                assert(v@[k].0@ == x && v@[k].1 == MultiTagState::And);
            }
        }
        assert forall|x: Seq<char>| #[trigger] multi_with(v@, MultiTagState::Not).contains(x) <==> views(
            tf.not@,
        ).contains(x) by {
            lemma_multi_with_contains(v@, MultiTagState::Not, x);
            if views(tf.not@).contains(x) {
                let k = choose|k: int| 0 <= k < views(u).len() && views(u)[k] == x;
                assert(v@[k].0@ == x && v@[k].1 == MultiTagState::Not);
            }
        }
    }
}

/// How a column shows in the sort marker: the active sort column with its
/// direction, another sortable column, or a column that cannot be sorted.
#[derive(Clone, Copy, Debug, PartialEq, Eq, Structural)]
pub enum SortType {
    Sorted(Order),
    Unsorted,
    Nil,
}

impl SortType {
    pub open spec fn spec_new(c: Column, ts: TaskSort) -> SortType {
        if c.is_multi_column() {
            SortType::Nil
        } else if ts.column == Some(c) {
            SortType::Sorted(ts.order)
        } else {
            SortType::Unsorted
        }
    }

    pub fn new(c: Column, ts: &TaskSort) -> (r: Self)
        ensures
            r == Self::spec_new(c, *ts),
    {
        if c.is_multi() {
            SortType::Nil
        } else {
            match ts.column {
                Some(d) => {
                    if d == c {
                        SortType::Sorted(ts.order)
                    } else {
                        SortType::Unsorted
                    }
                },
                None => SortType::Unsorted,
            }
        }
    }
}

/// How a column shows in the filter marker: a tag or text rule, set or
/// not, or a column without a rule.
#[derive(Clone, Copy, Debug, PartialEq, Eq, Structural)]
pub enum FilterType {
    Tag(bool),
    Text(bool),
    Nil,
}

impl FilterType {
    pub open spec fn spec_new(c: Column, tf: TaskFilter) -> FilterType {
        match c {
            Column::Labels => FilterType::Tag(!tf.labels.is_empty()),
            Column::Bucket => FilterType::Tag(!tf.bucket.is_empty()),
            Column::AssignedTo => FilterType::Tag(!tf.assigned_to.is_empty()),
            Column::Progress => FilterType::Tag(!tf.progress.is_empty()),
            Column::Priority => FilterType::Tag(!tf.priority.is_empty()),
            Column::Name => FilterType::Text(tf.name@.len() != 0),
            Column::Description => FilterType::Text(tf.description@.len() != 0),
            _ => FilterType::Nil,
        }
    }

    pub fn new(c: Column, tf: &TaskFilter) -> (r: Self)
        ensures
            r == Self::spec_new(c, *tf),
    {
        match c {
            Column::Labels => FilterType::Tag(tf.labels.has_filter()),
            Column::Bucket => FilterType::Tag(tf.bucket.has_filter()),
            Column::AssignedTo => FilterType::Tag(tf.assigned_to.has_filter()),
            Column::Progress => FilterType::Tag(tf.progress.has_filter()),
            Column::Priority => FilterType::Tag(tf.priority.has_filter()),
            Column::Name => FilterType::Text(tf.name.as_str().unicode_len() != 0),
            Column::Description => FilterType::Text(tf.description.as_str().unicode_len() != 0),
            Column::Deadline => FilterType::Nil,
            Column::CreateDate => FilterType::Nil,
            Column::StartDate => FilterType::Nil,
            Column::CompleteDate => FilterType::Nil,
        }
    }
}

/// One line of the filter panel.
#[derive(Clone, Copy, Debug, PartialEq, Eq, Structural)]
pub struct UiColumn {
    pub sort: SortType,
    pub filtered: FilterType,
    pub column: Column,
}

/// The columns of the filter panel, in the order shown.
pub open spec fn panel_columns() -> Seq<Column> {
    seq![
        Column::Bucket,
        Column::Progress,
        Column::Priority,
        Column::Labels,
        Column::AssignedTo,
        Column::Name,
        Column::Deadline,
        Column::CreateDate,
        Column::StartDate,
        Column::CompleteDate,
        Column::Description,
    ]
}

/// The number of lines of the filter panel.
pub const PANEL_LEN: usize = 11;

/// `r` is the filter panel for the filter `tf` and the sort `ts`.
pub open spec fn is_panel(r: Seq<UiColumn>, tf: TaskFilter, ts: TaskSort) -> bool {
    &&& r.len() == panel_columns().len()
    &&& forall|i: int|
        0 <= i < r.len() ==> (#[trigger] r[i]).column == panel_columns()[i] && r[i].sort
            == SortType::spec_new(panel_columns()[i], ts) && r[i].filtered == FilterType::spec_new(
            panel_columns()[i],
            tf,
        )
}

impl UiColumn {
    fn of(c: Column, tf: &TaskFilter, ts: &TaskSort) -> (r: UiColumn)
        ensures
            r.column == c,
            r.sort == SortType::spec_new(c, *ts),
            r.filtered == FilterType::spec_new(c, *tf),
    {
        UiColumn { sort: SortType::new(c, ts), filtered: FilterType::new(c, tf), column: c }
    }

    /// Every line of the filter panel.
    pub fn all(tf: &TaskFilter, ts: &TaskSort) -> (r: Vec<UiColumn>)
        ensures
            is_panel(r@, *tf, *ts),
    {
        let r = vec![
            Self::of(Column::Bucket, tf, ts),
            Self::of(Column::Progress, tf, ts),
            Self::of(Column::Priority, tf, ts),
            Self::of(Column::Labels, tf, ts),
            Self::of(Column::AssignedTo, tf, ts),
            Self::of(Column::Name, tf, ts),
            Self::of(Column::Deadline, tf, ts),
            Self::of(Column::CreateDate, tf, ts),
            Self::of(Column::StartDate, tf, ts),
            Self::of(Column::CompleteDate, tf, ts),
            Self::of(Column::Description, tf, ts),
        ];
        assert(panel_columns().len() == 11);
        r
    }
}

} // verus!
