//! Which tasks are shown, and in what order: the filter is applied first,
//! then the sort.

use crate::config::{Config, MultiTagFilter, Order, TagFilter, TagValue, TaskFilter, TaskSort, tags};
use crate::plan::{opt_date_before_or_same, opt_date_le, Column, Task};
use crate::text::{no_case_contains, text_before_or_same, text_le, text_matches, views};
use vstd::prelude::*;

verus! {

/// A task is shown when it passes every rule of the filter.
pub open spec fn passes(t: Task, f: TaskFilter) -> bool {
    &&& f.bucket.allows(t.bucket@)
    &&& f.priority.allows(t.priority.tag())
    &&& f.progress.allows(t.progress.tag())
    &&& f.labels.allows(views(t.labels@))
    &&& f.assigned_to.allows(views(t.assigned_to@))
    &&& f.created_by.allows(t.created_by@)
    &&& text_matches(f.name@, t.name@)
    &&& text_matches(f.description@, t.description@)
}

/// Whether the task passes every rule of the filter.
pub fn task_passes(task: &Task, filter: &TaskFilter) -> (r: bool)
    ensures
        r == passes(*task, *filter),
{
    filter.bucket.filter(&task.bucket) && filter.priority.filter(&task.priority)
        && filter.progress.filter(&task.progress) && filter.labels.filter(task.labels.as_slice())
        && filter.assigned_to.filter(task.assigned_to.as_slice()) && filter.created_by.filter(
        &task.created_by,
    ) && no_case_contains(filter.name.as_str(), task.name.as_str()) && no_case_contains(
        filter.description.as_str(),
        task.description.as_str(),
    )
}

/// The positions of the tasks that pass, in plan order.
pub open spec fn kept(tasks: Seq<Task>, f: TaskFilter) -> Seq<usize>
    decreases tasks.len(),
{
    if tasks.len() == 0 {
        Seq::empty()
    } else if passes(tasks.last(), f) {
        kept(tasks.drop_last(), f).push((tasks.len() - 1) as usize)
    } else {
        kept(tasks.drop_last(), f)
    }
}

/// The positions of the tasks that pass the configured filter.
pub fn filter_tasks(config: &Config, tasks: &Vec<Task>) -> (r: Vec<usize>)
    ensures
        r@ == kept(tasks@, config.filter),
        forall|i: int| 0 <= i < r@.len() ==> r@[i] < tasks@.len(),
{
    let mut r: Vec<usize> = Vec::new();
    let mut i: usize = 0;
    while i < tasks.len()
        invariant
            i <= tasks@.len(),
            r@ == kept(tasks@.subrange(0, i as int), config.filter),
            forall|k: int| 0 <= k < r@.len() ==> r@[k] < i,
        decreases tasks@.len() - i,
    {
        assert(tasks@.subrange(0, i + 1).drop_last() =~= tasks@.subrange(0, i as int));
        if task_passes(&tasks[i], &config.filter) {
            r.push(i);
        }
        i += 1;
    }
    assert(tasks@.subrange(0, i as int) =~= tasks@);
    r
}

/// The positions `s`, each moved on by `k`.
pub open spec fn shifted(s: Seq<usize>, k: nat) -> Seq<usize> {
    s.map_values(|i: usize| (i + k) as usize)
}

/// Whether a task is kept depends on that task and the filter alone: the
/// positions kept from two lists one after the other are those kept from
/// the first, then those kept from the second moved past the first.
pub proof fn lemma_kept_splits(a: Seq<Task>, b: Seq<Task>, f: TaskFilter)
    requires
        a.len() + b.len() <= usize::MAX,
    ensures
        kept(a + b, f) == kept(a, f) + shifted(kept(b, f), a.len()),
    decreases b.len(),
{
    if b.len() == 0 {
        assert(a + b =~= a);
        assert(shifted(kept(b, f), a.len()) =~= Seq::<usize>::empty());
        assert(kept(a, f) + Seq::<usize>::empty() =~= kept(a, f));
    } else {
        let d = b.drop_last();
        lemma_kept_splits(a, d, f);
        assert((a + b).drop_last() =~= a + d);
        assert((a + b).last() == b.last());
        if passes(b.last(), f) {
            assert(shifted(kept(b, f), a.len()) =~= shifted(kept(d, f), a.len()).push(
                ((b.len() - 1) + a.len()) as usize,
            ));
            assert(kept(a, f) + shifted(kept(b, f), a.len()) =~= (kept(a, f) + shifted(
                kept(d, f),
                a.len(),
            )).push(((b.len() - 1) + a.len()) as usize));
        } else {
            assert(shifted(kept(b, f), a.len()) =~= shifted(kept(d, f), a.len()));
        }
    }
}

/// A task on its own is kept exactly when it passes the filter.
pub proof fn lemma_kept_single(t: Task, f: TaskFilter)
    ensures
        kept(seq![t], f) == if passes(t, f) {
            seq![0usize]
        } else {
            Seq::<usize>::empty()
        },
{
    let e = Seq::<Task>::empty();
    assert(seq![t].drop_last() =~= e);
    assert(seq![t].last() == t);
    assert(kept(e, f) == Seq::<usize>::empty());
    assert(kept(seq![t], f) == if passes(t, f) {
        kept(e, f).push(0usize)
    } else {
        kept(e, f)
    });
    assert(Seq::<usize>::empty().push(0usize) =~= seq![0usize]);
}

/// A column with a sort key; set-valued columns have none.
pub open spec fn has_sort_key(c: Column) -> bool {
    !c.is_multi_column()
}

/// The natural order of the column's key, `a`'s key no greater than `b`'s:
/// text lexicographically; dates by the calendar, an absent date the
/// smallest; progress in declared order (NotStarted < Ongoing < Done);
/// priority from Low up to Urgent.
pub open spec fn key_le(a: Task, b: Task, c: Column) -> bool {
    match c {
        Column::Name => text_le(a.name@, b.name@),
        Column::Bucket => text_le(a.bucket@, b.bucket@),
        Column::Description => text_le(a.description@, b.description@),
        Column::Priority => b.priority.rank() <= a.priority.rank(),
        Column::Progress => a.progress.rank() <= b.progress.rank(),
        Column::CreateDate => a.create_date.spec_le(b.create_date),
        Column::StartDate => opt_date_le(a.start_date, b.start_date),
        Column::Deadline => opt_date_le(a.deadline, b.deadline),
        Column::CompleteDate => opt_date_le(a.complete_date, b.complete_date),
        _ => true,
    }
}

/// Whether `a`'s key is no greater than `b`'s in column `c`.
pub fn key_before_or_same(a: &Task, b: &Task, c: Column) -> (r: bool)
    ensures
        r == key_le(*a, *b, c),
{
    match c {
        Column::Name => text_before_or_same(a.name.as_str(), b.name.as_str()),
        Column::Bucket => text_before_or_same(a.bucket.as_str(), b.bucket.as_str()),
        Column::Description => text_before_or_same(a.description.as_str(), b.description.as_str()),
        Column::Priority => b.priority.rank_of() <= a.priority.rank_of(),
        Column::Progress => a.progress.rank_of() <= b.progress.rank_of(),
        Column::CreateDate => a.create_date.le(&b.create_date),
        Column::StartDate => opt_date_before_or_same(&a.start_date, &b.start_date),
        Column::Deadline => opt_date_before_or_same(&a.deadline, &b.deadline),
        Column::CompleteDate => opt_date_before_or_same(&a.complete_date, &b.complete_date),
        _ => true,
    }
}

/// `a` may come before `b` in the descending view: `a`'s key is no
/// smaller than `b`'s.
pub open spec fn key_ge(a: Task, b: Task, c: Column) -> bool {
    key_le(b, a, c)
}

/// `x` placed into `s` after every entry at the end of `s` whose key is no
/// smaller than its own: the step of a stable insertion sort by descending
/// key.
pub open spec fn insert_by_key(s: Seq<usize>, x: usize, tasks: Seq<Task>, c: Column) -> Seq<usize>
    decreases s.len(),
{
    if s.len() == 0 {
        seq![x]
    } else if key_ge(tasks[s.last() as int], tasks[x as int], c) {
        s.push(x)
    } else {
        insert_by_key(s.drop_last(), x, tasks, c).push(s.last())
    }
}

/// The positions `s` stably sorted by descending key of column `c`: entries
/// with equal keys keep their relative order.
pub open spec fn stable_sort(s: Seq<usize>, tasks: Seq<Task>, c: Column) -> Seq<usize>
    decreases s.len(),
{
    if s.len() == 0 {
        s
    } else {
        insert_by_key(stable_sort(s.drop_last(), tasks, c), s.last(), tasks, c)
    }
}

/// The order in which the positions `s` are shown: without a sort key the
/// order of `s`; otherwise the stable sort by descending key for the
/// descending view, and that sequence reversed as a whole for the ascending
/// one.
pub open spec fn ordered(s: Seq<usize>, tasks: Seq<Task>, sort: TaskSort) -> Seq<usize> {
    match sort.column {
        Some(c) => if has_sort_key(c) {
            if sort.order == Order::Asc {
                stable_sort(s, tasks, c).reverse()
            } else {
                stable_sort(s, tasks, c)
            }
        } else {
            s
        },
        None => s,
    }
}

proof fn lemma_insert_at(s: Seq<usize>, x: usize, j: int, tasks: Seq<Task>, c: Column)
    requires
        0 <= j <= s.len(),
        j == 0 || key_ge(tasks[s[j - 1] as int], tasks[x as int], c),
        forall|k: int| j <= k < s.len() ==> !key_ge(tasks[#[trigger] s[k] as int], tasks[x as int], c),
    ensures
        insert_by_key(s, x, tasks, c) == s.insert(j, x),
    decreases s.len(),
{
    if s.len() == 0 {
        assert(s.insert(j, x) =~= seq![x]);
    } else if j == s.len() {
        assert(s.insert(j, x) =~= s.push(x));
    } else {
        assert(!key_ge(tasks[s[s.len() - 1] as int], tasks[x as int], c));
        let d = s.drop_last();
        assert forall|k: int| j <= k < d.len() implies !key_ge(
            tasks[#[trigger] d[k] as int],
            tasks[x as int],
            c,
        ) by {
            assert(d[k] == s[k]);
        }
        lemma_insert_at(d, x, j, tasks, c);
        assert(d.insert(j, x).push(s.last()) =~= s.insert(j, x));
    }
}

fn insert_index(tasks: &Vec<Task>, c: Column, res: &mut Vec<usize>, x: usize)
    requires
        x < tasks@.len(),
        forall|i: int| 0 <= i < old(res)@.len() ==> old(res)@[i] < tasks@.len(),
    ensures
        final(res)@ == insert_by_key(old(res)@, x, tasks@, c),
        forall|i: int| 0 <= i < final(res)@.len() ==> final(res)@[i] < tasks@.len(),
{
    let mut j: usize = res.len();
    while j > 0 && !key_before_or_same(&tasks[x], &tasks[res[j - 1]], c)
        invariant
            j <= res@.len(),
            res@ == old(res)@,
            x < tasks@.len(),
            forall|i: int| 0 <= i < res@.len() ==> res@[i] < tasks@.len(),
            forall|k: int|
                j <= k < res@.len() ==> !key_ge(tasks@[#[trigger] res@[k] as int], tasks@[x as int], c),
        decreases j,
    {
        j -= 1;
    }
    proof {
        lemma_insert_at(res@, x, j as int, tasks@, c);
    }
    res.insert(j, x);
}

fn reversed(v: &Vec<usize>) -> (r: Vec<usize>)
    ensures
        r@ == v@.reverse(),
{
    let mut r: Vec<usize> = Vec::new();
    let n = v.len();
    while r.len() < n
        invariant
            n == v@.len(),
            r@.len() <= n,
            forall|q: int| 0 <= q < r@.len() ==> r@[q] == v@[n - 1 - q],
        decreases n - r@.len(),
    {
        r.push(v[n - 1 - r.len()]);
    }
    assert(r@ =~= v@.reverse());
    r
}

/// Puts the positions `idx` in the configured display order.
pub fn sort_tasks(config: &Config, tasks: &Vec<Task>, idx: &mut Vec<usize>)
    requires
        forall|i: int| 0 <= i < old(idx)@.len() ==> old(idx)@[i] < tasks@.len(),
    ensures
        final(idx)@ == ordered(old(idx)@, tasks@, config.sort),
        forall|i: int| 0 <= i < final(idx)@.len() ==> final(idx)@[i] < tasks@.len(),
{
    let c = match config.sort.column {
        Some(c) => c,
        None => return ,
    };
    if c.is_multi() {
        return ;
    }
    let mut res: Vec<usize> = Vec::new();
    let mut i: usize = 0;
    while i < idx.len()
        invariant
            idx@ == old(idx)@,
            i <= idx@.len(),
            res@ == stable_sort(idx@.subrange(0, i as int), tasks@, c),
            forall|k: int| 0 <= k < idx@.len() ==> idx@[k] < tasks@.len(),
            forall|k: int| 0 <= k < res@.len() ==> res@[k] < tasks@.len(),
        decreases idx@.len() - i,
    {
        assert(idx@.subrange(0, i + 1).drop_last() =~= idx@.subrange(0, i as int));
        insert_index(tasks, c, &mut res, idx[i]);
        i += 1;
    }
    assert(idx@.subrange(0, i as int) =~= idx@);
    match config.sort.order {
        Order::Asc => {
            let r = reversed(&res);
            *idx = r;
        },
        Order::Desc => {
            *idx = res;
        },
    }
}

/// The positions of the tasks shown, in the order shown: the filter
/// first, then the sort.
pub open spec fn displayed(tasks: Seq<Task>, config: Config) -> Seq<usize> {
    ordered(kept(tasks, config.filter), tasks, config.sort)
}

/// The positions of the tasks shown under `config`, in display order.
pub fn displayed_indices(config: &Config, tasks: &Vec<Task>) -> (r: Vec<usize>)
    ensures
        r@ == displayed(tasks@, *config),
        forall|i: int| 0 <= i < r@.len() ==> r@[i] < tasks@.len(),
{
    let mut idx = filter_tasks(config, tasks);
    sort_tasks(config, tasks, &mut idx);
    idx
}

// Laws of the view.

/// Two single-tag rules list the same tags.
pub open spec fn same_tag_rule<T: TagValue>(a: TagFilter<T>, b: TagFilter<T>) -> bool {
    tags(a.or@) == tags(b.or@) && tags(a.not@) == tags(b.not@)
}

/// Two multi-tag rules list the same values.
pub open spec fn same_multi_rule(a: MultiTagFilter, b: MultiTagFilter) -> bool {
    views(a.or@) == views(b.or@) && views(a.and@) == views(b.and@) && views(a.not@) == views(
        b.not@,
    )
}

/// `f2` is `f1` with further rules set: wherever `f1` has a rule, `f2` has
/// the same one.
pub open spec fn adds_rules(f1: TaskFilter, f2: TaskFilter) -> bool {
    &&& (f1.bucket.is_empty() || same_tag_rule(f1.bucket, f2.bucket))
    &&& (f1.progress.is_empty() || same_tag_rule(f1.progress, f2.progress))
    &&& (f1.priority.is_empty() || same_tag_rule(f1.priority, f2.priority))
    &&& (f1.created_by.is_empty() || same_tag_rule(f1.created_by, f2.created_by))
    &&& (f1.labels.is_empty() || same_multi_rule(f1.labels, f2.labels))
    &&& (f1.assigned_to.is_empty() || same_multi_rule(f1.assigned_to, f2.assigned_to))
    &&& (f1.name@.len() == 0 || f1.name@ == f2.name@)
    &&& (f1.description@.len() == 0 || f1.description@ == f2.description@)
}

proof fn lemma_same_views(a: Seq<String>, b: Seq<String>)
    requires
        views(a) == views(b),
    ensures
        a.len() == b.len(),
        forall|i: int| 0 <= i < a.len() ==> (#[trigger] a[i])@ == b[i]@,
{
    assert(a.len() == views(a).len());
    assert forall|i: int| 0 <= i < a.len() implies (#[trigger] a[i])@ == b[i]@ by {
        assert(views(a)[i] == views(b)[i]);
    }
}

proof fn lemma_multi_same_allows(a: MultiTagFilter, b: MultiTagFilter, t: Seq<Seq<char>>)
    requires
        same_multi_rule(a, b),
    ensures
        a.allows(t) == b.allows(t),
{
    lemma_same_views(a.or@, b.or@);
    lemma_same_views(a.and@, b.and@);
    lemma_same_views(a.not@, b.not@);
    if a.allows(t) {
        assert forall|i: int| 0 <= i < b.not@.len() implies !t.contains(#[trigger] b.not@[i]@) by {
            assert(a.not@[i]@ == b.not@[i]@);
        }
        assert forall|i: int| 0 <= i < b.and@.len() implies t.contains(#[trigger] b.and@[i]@) by {
            assert(a.and@[i]@ == b.and@[i]@);
        }
        if b.or@.len() != 0 {
            let i = choose|i: int| 0 <= i < a.or@.len() && t.contains(#[trigger] a.or@[i]@);
            assert(a.or@[i]@ == b.or@[i]@);
            assert(t.contains(b.or@[i]@));
        }
    }
    if b.allows(t) {
        assert forall|i: int| 0 <= i < a.not@.len() implies !t.contains(#[trigger] a.not@[i]@) by {
            assert(a.not@[i]@ == b.not@[i]@);
        }
        assert forall|i: int| 0 <= i < a.and@.len() implies t.contains(#[trigger] a.and@[i]@) by {
            assert(a.and@[i]@ == b.and@[i]@);
        }
        if a.or@.len() != 0 {
            let i = choose|i: int| 0 <= i < b.or@.len() && t.contains(#[trigger] b.or@[i]@);
            assert(a.or@[i]@ == b.or@[i]@);
            assert(t.contains(a.or@[i]@));
        }
    }
}

proof fn lemma_tag_same_allows<T: TagValue>(a: TagFilter<T>, b: TagFilter<T>, v: Seq<char>)
    requires
        same_tag_rule(a, b),
    ensures
        a.allows(v) == b.allows(v),
{
    assert(a.or@.len() == tags(a.or@).len());
    assert(b.or@.len() == tags(b.or@).len());
}

/// Setting further rules never lets a task through that was held back: a
/// task that passes the stricter filter passes the looser one.
pub proof fn lemma_added_rule_narrows(t: Task, f1: TaskFilter, f2: TaskFilter)
    requires
        adds_rules(f1, f2),
    ensures
        passes(t, f2) ==> passes(t, f1),
{
    if !f1.bucket.is_empty() {
        lemma_tag_same_allows(f1.bucket, f2.bucket, t.bucket@);
    }
    if !f1.progress.is_empty() {
        lemma_tag_same_allows(f1.progress, f2.progress, t.progress.tag());
    }
    if !f1.priority.is_empty() {
        lemma_tag_same_allows(f1.priority, f2.priority, t.priority.tag());
    }
    if !f1.created_by.is_empty() {
        lemma_tag_same_allows(f1.created_by, f2.created_by, t.created_by@);
    }
    if !f1.labels.is_empty() {
        lemma_multi_same_allows(f1.labels, f2.labels, views(t.labels@));
    }
    if !f1.assigned_to.is_empty() {
        lemma_multi_same_allows(f1.assigned_to, f2.assigned_to, views(t.assigned_to@));
    }
}

/// Setting further rules only shrinks the set of shown tasks.
pub proof fn lemma_added_rule_shrinks_shown(tasks: Seq<Task>, f1: TaskFilter, f2: TaskFilter)
    requires
        adds_rules(f1, f2),
    ensures
        forall|i: usize| kept(tasks, f2).contains(i) ==> kept(tasks, f1).contains(i),
    decreases tasks.len(),
{
    if tasks.len() > 0 {
        lemma_added_rule_shrinks_shown(tasks.drop_last(), f1, f2);
        lemma_added_rule_narrows(tasks.last(), f1, f2);
        let k1 = kept(tasks.drop_last(), f1);
        let k2 = kept(tasks.drop_last(), f2);
        assert forall|i: usize| kept(tasks, f2).contains(i) implies kept(tasks, f1).contains(i) by {
            if k2.contains(i) {
                let q = choose|q: int| 0 <= q < k2.len() && k2[q] == i;
                assert(k1.contains(i));
                let p = choose|p: int| 0 <= p < k1.len() && k1[p] == i;
                if passes(tasks.last(), f1) {
                    assert(kept(tasks, f1)[p] == i);
                }
            } else {
                assert(passes(tasks.last(), f2));
                assert(i == (tasks.len() - 1) as usize);
                assert(kept(tasks, f1)[kept(tasks, f1).len() - 1] == i);
            }
        }
    }
}

/// The keys of column `c` at the positions `s` never rise.
pub open spec fn keys_non_increasing(s: Seq<usize>, tasks: Seq<Task>, c: Column) -> bool {
    forall|i: int, j: int|
        0 <= i < j < s.len() ==> key_ge(tasks[#[trigger] s[i] as int], tasks[#[trigger] s[j] as int], c)
}

/// The keys of column `c` at the positions `s` strictly rise.
pub open spec fn keys_strictly_increasing(s: Seq<usize>, tasks: Seq<Task>, c: Column) -> bool {
    forall|i: int, j: int|
        0 <= i < j < s.len() ==> !key_ge(tasks[#[trigger] s[i] as int], tasks[#[trigger] s[j] as int], c)
}

/// Sorting positions whose keys never rise leaves them as they are.
pub proof fn lemma_stable_sort_of_sorted(s: Seq<usize>, tasks: Seq<Task>, c: Column)
    requires
        keys_non_increasing(s, tasks, c),
    ensures
        stable_sort(s, tasks, c) == s,
    decreases s.len(),
{
    if s.len() > 0 {
        let d = s.drop_last();
        assert forall|i: int, j: int| 0 <= i < j < d.len() implies key_ge(
            tasks[#[trigger] d[i] as int],
            tasks[#[trigger] d[j] as int],
            c,
        ) by {
            assert(d[i] == s[i] && d[j] == s[j]);
        }
        lemma_stable_sort_of_sorted(d, tasks, c);
        if d.len() > 0 {
            assert(key_ge(tasks[s[d.len() - 1] as int], tasks[s[s.len() - 1] as int], c));
        }
        assert(d.push(s.last()) =~= s);
    }
}

proof fn lemma_insert_in_front(s: Seq<usize>, x: usize, tasks: Seq<Task>, c: Column)
    requires
        forall|k: int| 0 <= k < s.len() ==> !key_ge(tasks[#[trigger] s[k] as int], tasks[x as int], c),
    ensures
        insert_by_key(s, x, tasks, c) == seq![x] + s,
    decreases s.len(),
{
    if s.len() == 0 {
        assert(seq![x] + s =~= seq![x]);
    } else {
        let d = s.drop_last();
        assert(!key_ge(tasks[s[s.len() - 1] as int], tasks[x as int], c));
        assert forall|k: int| 0 <= k < d.len() implies !key_ge(
            tasks[#[trigger] d[k] as int],
            tasks[x as int],
            c,
        ) by {
            assert(d[k] == s[k]);
        }
        lemma_insert_in_front(d, x, tasks, c);
        assert((seq![x] + d).push(s.last()) =~= seq![x] + s);
    }
}

proof fn lemma_stable_sort_of_strictly_reversed(s: Seq<usize>, tasks: Seq<Task>, c: Column)
    requires
        keys_strictly_increasing(s, tasks, c),
    ensures
        stable_sort(s, tasks, c) == s.reverse(),
    decreases s.len(),
{
    if s.len() > 0 {
        let d = s.drop_last();
        assert forall|i: int, j: int| 0 <= i < j < d.len() implies !key_ge(
            tasks[#[trigger] d[i] as int],
            tasks[#[trigger] d[j] as int],
            c,
        ) by {
            assert(d[i] == s[i] && d[j] == s[j]);
        }
        lemma_stable_sort_of_strictly_reversed(d, tasks, c);
        let r = d.reverse();
        assert forall|k: int| 0 <= k < r.len() implies !key_ge(
            tasks[#[trigger] r[k] as int],
            tasks[s.last() as int],
            c,
        ) by {
            assert(r[k] == s[d.len() - 1 - k]);
            assert(!key_ge(tasks[s[d.len() - 1 - k] as int], tasks[s[s.len() - 1] as int], c));
        }
        lemma_insert_in_front(r, s.last(), tasks, c);
        assert(seq![s.last()] + r =~= s.reverse());
    }
}

/// Showing again, by the same column and direction, positions that are
/// already in the shown order gives the same order: in descending order
/// whenever the keys never rise, in ascending order whenever they strictly
/// rise (with equal keys the ascending view turns them around).
pub proof fn lemma_sorting_shown_order_again(s: Seq<usize>, tasks: Seq<Task>, sort: TaskSort)
    requires
        sort.column matches Some(c) && has_sort_key(c) && (if sort.order == Order::Desc {
            keys_non_increasing(s, tasks, c)
        } else {
            keys_strictly_increasing(s, tasks, c)
        }),
    ensures
        ordered(s, tasks, sort) == s,
{
    let c = sort.column.unwrap();
    if sort.order == Order::Desc {
        lemma_stable_sort_of_sorted(s, tasks, c);
    } else {
        lemma_stable_sort_of_strictly_reversed(s, tasks, c);
        assert(s.reverse().reverse() =~= s);
    }
}

/// With a sort key, the ascending order is exactly the descending order
/// reversed, ties included.
pub proof fn lemma_ascending_is_reversed_descending(s: Seq<usize>, tasks: Seq<Task>, c: Column)
    requires
        has_sort_key(c),
    ensures
        ordered(s, tasks, TaskSort { column: Some(c), order: Order::Asc }) == ordered(
            s,
            tasks,
            TaskSort { column: Some(c), order: Order::Desc },
        ).reverse(),
{
}

} // verus!
