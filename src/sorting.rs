//! Display orderings of tasks and workspaces. Sorting never touches the stored
//! `order` of a record; it only arranges a list for display, ties broken by
//! that `order`.
use vstd::prelude::*;
use vstd::multiset::Multiset;
use vstd::string::StrSliceExecFns;

use crate::structs::{Task, TaskSortType, TaskSorter, Workspace, WorkspaceSortType, WorkspaceSorter};

verus! {

broadcast use vstd::seq_lib::group_to_multiset_ensures, vstd::seq_lib::to_multiset_insert;

/// -1, 0 or 1 as `a` is below, equal to or above `b`.
pub open spec fn cmp_int(a: int, b: int) -> int {
    if a < b {
        -1
    } else if a > b {
        1
    } else {
        0
    }
}

/// Lexicographic comparison of two texts, character by character.
pub open spec fn text_cmp(a: Seq<char>, b: Seq<char>) -> int
    decreases a.len(),
{
    if a.len() == 0 {
        if b.len() == 0 {
            0
        } else {
            -1
        }
    } else if b.len() == 0 {
        1
    } else if (a[0] as u32) != (b[0] as u32) {
        cmp_int(a[0] as u32 as int, b[0] as u32 as int)
    } else {
        text_cmp(a.drop_first(), b.drop_first())
    }
}

/// Comparison of two tasks by the sorter's key alone.
pub open spec fn task_key_cmp(sort_type: TaskSortType, a: Task, b: Task) -> int {
    match sort_type {
        TaskSortType::Order => cmp_int(a.order as int, b.order as int),
        TaskSortType::Priority => cmp_int(a.priority as int, b.priority as int),
        TaskSortType::Completion => cmp_int(
            if a.completed {
                1
            } else {
                0
            },
            if b.completed {
                1
            } else {
                0
            },
        ),
        TaskSortType::CreateDate => cmp_int(
            a.create_date.seconds as int,
            b.create_date.seconds as int,
        ),
        TaskSortType::Name => text_cmp(a.name@, b.name@),
        TaskSortType::Description => text_cmp(a.description@, b.description@),
    }
}

/// The sorter's comparison: its key, reversed when descending, then the
/// stored order.
pub open spec fn task_cmp(sorter: TaskSorter, a: Task, b: Task) -> int {
    let k = task_key_cmp(sorter.sort_type, a, b);
    let k = if sorter.desc {
        -k
    } else {
        k
    };
    if k != 0 {
        k
    } else {
        cmp_int(a.order as int, b.order as int)
    }
}

/// Comparison of two workspaces by the sorter's key alone.
pub open spec fn workspace_key_cmp(sort_type: WorkspaceSortType, a: Workspace, b: Workspace) -> int {
    match sort_type {
        WorkspaceSortType::Order => cmp_int(a.order as int, b.order as int),
        WorkspaceSortType::CreateDate => cmp_int(
            a.create_date.seconds as int,
            b.create_date.seconds as int,
        ),
        WorkspaceSortType::UpdateDate => cmp_int(
            a.update_date.seconds as int,
            b.update_date.seconds as int,
        ),
        WorkspaceSortType::Name => text_cmp(a.name@, b.name@),
    }
}

/// The sorter's comparison: its key, reversed when descending, then the
/// stored order.
pub open spec fn workspace_cmp(sorter: WorkspaceSorter, a: Workspace, b: Workspace) -> int {
    let k = workspace_key_cmp(sorter.sort_type, a, b);
    let k = if sorter.desc {
        -k
    } else {
        k
    };
    if k != 0 {
        k
    } else {
        cmp_int(a.order as int, b.order as int)
    }
}

pub proof fn lemma_text_cmp_antisymmetric(a: Seq<char>, b: Seq<char>)
    ensures
        text_cmp(a, b) == -text_cmp(b, a),
        -1 <= text_cmp(a, b) <= 1,
    decreases a.len(),
{
    if a.len() > 0 && b.len() > 0 && (a[0] as u32) == (b[0] as u32) {
        lemma_text_cmp_antisymmetric(a.drop_first(), b.drop_first());
    }
}

/// Texts that compare equal compare alike with every other text.
pub proof fn lemma_text_cmp_equal(a: Seq<char>, b: Seq<char>, c: Seq<char>)
    requires
        text_cmp(a, b) == 0,
    ensures
        text_cmp(a, c) == text_cmp(b, c),
    decreases a.len(),
{
    if a.len() > 0 && b.len() > 0 && c.len() > 0 && (a[0] as u32) == (c[0] as u32) {
        lemma_text_cmp_equal(a.drop_first(), b.drop_first(), c.drop_first());
    }
}

/// Below then at most, or at most then below, is below.
pub proof fn lemma_text_cmp_below(a: Seq<char>, b: Seq<char>, c: Seq<char>)
    requires
        text_cmp(a, b) <= 0,
        text_cmp(b, c) <= 0,
        text_cmp(a, b) < 0 || text_cmp(b, c) < 0,
    ensures
        text_cmp(a, c) < 0,
    decreases a.len(),
{
    lemma_text_cmp_antisymmetric(a, b);
    lemma_text_cmp_antisymmetric(b, c);
    if a.len() > 0 && b.len() > 0 && c.len() > 0 && (a[0] as u32) == (b[0] as u32) && (b[0] as u32)
        == (c[0] as u32) {
        if text_cmp(a.drop_first(), b.drop_first()) == 0 {
            lemma_text_cmp_equal(a.drop_first(), b.drop_first(), c.drop_first());
        } else if text_cmp(b.drop_first(), c.drop_first()) == 0 {
            lemma_text_cmp_antisymmetric(b.drop_first(), c.drop_first());
            lemma_text_cmp_equal(c.drop_first(), b.drop_first(), a.drop_first());
            lemma_text_cmp_antisymmetric(a.drop_first(), c.drop_first());
            lemma_text_cmp_antisymmetric(a.drop_first(), b.drop_first());
        } else {
            lemma_text_cmp_below(a.drop_first(), b.drop_first(), c.drop_first());
        }
    }
}

/// The facts about three texts that transitivity of a comparison built on
/// `text_cmp` needs.
pub proof fn lemma_text_triple(x: Seq<char>, y: Seq<char>, z: Seq<char>)
    ensures
        text_cmp(x, y) == -text_cmp(y, x),
        text_cmp(y, z) == -text_cmp(z, y),
        text_cmp(x, z) == -text_cmp(z, x),
        text_cmp(x, y) == 0 ==> text_cmp(x, z) == text_cmp(y, z),
        text_cmp(y, z) == 0 ==> text_cmp(y, x) == text_cmp(z, x),
        text_cmp(x, y) < 0 && text_cmp(y, z) < 0 ==> text_cmp(x, z) < 0,
        text_cmp(z, y) < 0 && text_cmp(y, x) < 0 ==> text_cmp(z, x) < 0,
{
    lemma_text_cmp_antisymmetric(x, y);
    lemma_text_cmp_antisymmetric(y, z);
    lemma_text_cmp_antisymmetric(x, z);
    if text_cmp(x, y) == 0 {
        lemma_text_cmp_equal(x, y, z);
    }
    if text_cmp(y, z) == 0 {
        lemma_text_cmp_equal(y, z, x);
    }
    if text_cmp(x, y) < 0 && text_cmp(y, z) < 0 {
        lemma_text_cmp_below(x, y, z);
    }
    if text_cmp(z, y) < 0 && text_cmp(y, x) < 0 {
        lemma_text_cmp_below(z, y, x);
    }
}

/// The sorters' comparison of tasks is transitive.
pub proof fn lemma_task_cmp_transitive(s: TaskSorter, a: Task, b: Task, c: Task)
    requires
        task_cmp(s, a, b) <= 0,
        task_cmp(s, b, c) <= 0,
    ensures
        task_cmp(s, a, c) <= 0,
{
    lemma_text_triple(a.name@, b.name@, c.name@);
    lemma_text_triple(a.description@, b.description@, c.description@);
}

/// The sorters' comparison of workspaces is transitive.
pub proof fn lemma_workspace_cmp_transitive(s: WorkspaceSorter, a: Workspace, b: Workspace, c: Workspace)
    requires
        workspace_cmp(s, a, b) <= 0,
        workspace_cmp(s, b, c) <= 0,
    ensures
        workspace_cmp(s, a, c) <= 0,
{
    lemma_text_triple(a.name@, b.name@, c.name@);
}

proof fn lemma_tasks_ordered_between(s: TaskSorter, v: Seq<Task>, i: int, j: int)
    requires
        forall|k: int| 0 <= k < v.len() - 1 ==> task_cmp(s, #[trigger] v[k], v[k + 1]) <= 0,
        0 <= i < j < v.len(),
    ensures
        task_cmp(s, v[i], v[j]) <= 0,
    decreases j - i,
{
    if j > i + 1 {
        lemma_tasks_ordered_between(s, v, i, j - 1);
        assert(task_cmp(s, v[j - 1], v[j]) <= 0);
        lemma_task_cmp_transitive(s, v[i], v[j - 1], v[j]);
    }
}

proof fn lemma_workspaces_ordered_between(s: WorkspaceSorter, v: Seq<Workspace>, i: int, j: int)
    requires
        forall|k: int| 0 <= k < v.len() - 1 ==> workspace_cmp(s, #[trigger] v[k], v[k + 1]) <= 0,
        0 <= i < j < v.len(),
    ensures
        workspace_cmp(s, v[i], v[j]) <= 0,
    decreases j - i,
{
    if j > i + 1 {
        lemma_workspaces_ordered_between(s, v, i, j - 1);
        assert(workspace_cmp(s, v[j - 1], v[j]) <= 0);
        lemma_workspace_cmp_transitive(s, v[i], v[j - 1], v[j]);
    }
}

fn compare_int(a: i64, b: i64) -> (r: i8)
    ensures
        r == cmp_int(a as int, b as int),
        -1 <= r <= 1,
{
    if a < b {
        -1
    } else if a > b {
        1
    } else {
        0
    }
}

fn compare_usize(a: usize, b: usize) -> (r: i8)
    ensures
        r == cmp_int(a as int, b as int),
        -1 <= r <= 1,
{
    if a < b {
        -1
    } else if a > b {
        1
    } else {
        0
    }
}

fn compare_text(a: &String, b: &String) -> (r: i8)
    ensures
        r == text_cmp(a@, b@),
        -1 <= r <= 1,
{
    let sa = a.as_str();
    let sb = b.as_str();
    let la = sa.unicode_len();
    let lb = sb.unicode_len();
    let mut i: usize = 0;
    assert(a@.subrange(0, la as int) =~= a@);
    assert(b@.subrange(0, lb as int) =~= b@);
    while i < la && i < lb
        invariant
            la == a@.len(),
            lb == b@.len(),
            sa@ == a@,
            sb@ == b@,
            i <= la,
            i <= lb,
            text_cmp(a@, b@) == text_cmp(a@.subrange(i as int, la as int), b@.subrange(i as int, lb as int)),
        decreases la - i,
    {
        let ca = sa.get_char(i);
        let cb = sb.get_char(i);
        let ghost ra = a@.subrange(i as int, la as int);
        let ghost rb = b@.subrange(i as int, lb as int);
        assert(ra[0] == ca && rb[0] == cb);
        if (ca as u32) != (cb as u32) {
            return if (ca as u32) < (cb as u32) {
                -1
            } else {
                1
            };
        }
        assert(ra.drop_first() =~= a@.subrange(i + 1, la as int));
        assert(rb.drop_first() =~= b@.subrange(i + 1, lb as int));
        i += 1;
    }
    let ghost ra = a@.subrange(i as int, la as int);
    let ghost rb = b@.subrange(i as int, lb as int);
    if i < la {
        assert(rb.len() == 0 && ra.len() > 0);
        1
    } else if i < lb {
        assert(ra.len() == 0 && rb.len() > 0);
        -1
    } else {
        assert(ra.len() == 0 && rb.len() == 0);
        0
    }
}

fn compare_flags(a: bool, b: bool) -> (r: i8)
    ensures
        r == cmp_int(
            if a {
                1
            } else {
                0
            },
            if b {
                1
            } else {
                0
            },
        ),
        -1 <= r <= 1,
{
    if a == b {
        0
    } else if b {
        -1
    } else {
        1
    }
}

impl TaskSorter {
    /// `task_cmp` of this sorter on `a` and `b`.
    pub fn compare(&self, a: &Task, b: &Task) -> (r: i8)
        ensures
            r == task_cmp(*self, *a, *b),
    {
        let k = match self.sort_type {
            TaskSortType::Order => compare_usize(a.order, b.order),
            TaskSortType::Priority => compare_int(a.priority as i64, b.priority as i64),
            TaskSortType::Completion => compare_flags(a.completed, b.completed),
            TaskSortType::CreateDate => compare_int(a.create_date.seconds, b.create_date.seconds),
            TaskSortType::Name => compare_text(&a.name, &b.name),
            TaskSortType::Description => compare_text(&a.description, &b.description),
        };
        let k = if self.desc {
            -k
        } else {
            k
        };
        if k != 0 {
            k
        } else {
            compare_usize(a.order, b.order)
        }
    }

    /// Arranges `tasks` for display: the same tasks, each no greater than any
    /// later one by this sorter's comparison.
    pub fn sort(&self, tasks: &mut Vec<Task>)
        ensures
            final(tasks)@.to_multiset() == old(tasks)@.to_multiset(),
            final(tasks)@.len() == old(tasks)@.len(),
            forall|i: int|
                0 <= i < final(tasks)@.len() - 1 ==> task_cmp(
                    *self,
                    #[trigger] final(tasks)@[i],
                    final(tasks)@[i + 1],
                ) <= 0,
            forall|i: int, j: int|
                0 <= i < j < final(tasks)@.len() ==> task_cmp(
                    *self,
                    #[trigger] final(tasks)@[i],
                    #[trigger] final(tasks)@[j],
                ) <= 0,
    {
        let ghost orig = tasks@;
        let mut src: Vec<Task> = Vec::new();
        std::mem::swap(tasks, &mut src);
        let mut out: Vec<Task> = Vec::new();
        while src.len() > 0
            invariant
                out@.to_multiset().add(src@.to_multiset()) == orig.to_multiset(),
                out@.len() + src@.len() == orig.len(),
                forall|i: int|
                    0 <= i < out@.len() - 1 ==> task_cmp(*self, #[trigger] out@[i], out@[i + 1])
                        <= 0,
            decreases src@.len(),
        {
            let ghost before = src@;
            let x = src.pop().unwrap();
            assert(before =~= src@.push(x));
            let mut k: usize = 0;
            while k < out.len() && self.compare(&x, &out[k]) >= 0
                invariant
                    k <= out@.len(),
                    k > 0 ==> task_cmp(*self, x, out@[k - 1]) >= 0,
                decreases out@.len() - k,
            {
                k += 1;
            }
            let ghost prev = out@;
            out.insert(k, x);
            proof {
                assert(out@ == prev.insert(k as int, x));
                if k > 0 {
                    lemma_text_cmp_antisymmetric(x.name@, prev[k - 1].name@);
                    lemma_text_cmp_antisymmetric(x.description@, prev[k - 1].description@);
                    assert(task_cmp(*self, prev[k - 1], x) <= 0);
                }
                assert forall|i: int| 0 <= i < out@.len() - 1 implies task_cmp(
                    *self,
                    #[trigger] out@[i],
                    out@[i + 1],
                ) <= 0 by {
                    if i + 1 < k {
                        assert(out@[i] == prev[i] && out@[i + 1] == prev[i + 1]);
                    } else if i + 1 == k {
                        assert(out@[i] == prev[i] && out@[i + 1] == x);
                    } else if i == k {
                        assert(out@[i] == x && out@[i + 1] == prev[i]);
                    } else {
                        assert(out@[i] == prev[i - 1] && out@[i + 1] == prev[i]);
                    }
                }
                assert(out@.to_multiset().add(src@.to_multiset()) =~= orig.to_multiset());
            }
        }
        assert(src@.to_multiset() =~= Multiset::empty());
        assert(out@.to_multiset().add(src@.to_multiset()) =~= out@.to_multiset());
        assert forall|i: int, j: int| 0 <= i < j < out@.len() implies task_cmp(
            *self,
            #[trigger] out@[i],
            #[trigger] out@[j],
        ) <= 0 by {
            lemma_tasks_ordered_between(*self, out@, i, j);
        }
        *tasks = out;
    }
}

impl WorkspaceSorter {
    /// `workspace_cmp` of this sorter on `a` and `b`.
    pub fn compare(&self, a: &Workspace, b: &Workspace) -> (r: i8)
        ensures
            r == workspace_cmp(*self, *a, *b),
    {
        let k = match self.sort_type {
            WorkspaceSortType::Order => compare_usize(a.order, b.order),
            WorkspaceSortType::CreateDate => compare_int(a.create_date.seconds, b.create_date.seconds),
            WorkspaceSortType::UpdateDate => compare_int(a.update_date.seconds, b.update_date.seconds),
            WorkspaceSortType::Name => compare_text(&a.name, &b.name),
        };
        let k = if self.desc {
            -k
        } else {
            k
        };
        if k != 0 {
            k
        } else {
            compare_usize(a.order, b.order)
        }
    }

    /// Arranges `workspaces` for display: the same workspaces, each no
    /// greater than any later one by this sorter's comparison.
    pub fn sort(&self, workspaces: &mut Vec<Workspace>)
        ensures
            final(workspaces)@.to_multiset() == old(workspaces)@.to_multiset(),
            final(workspaces)@.len() == old(workspaces)@.len(),
            forall|i: int|
                0 <= i < final(workspaces)@.len() - 1 ==> workspace_cmp(
                    *self,
                    #[trigger] final(workspaces)@[i],
                    final(workspaces)@[i + 1],
                ) <= 0,
            forall|i: int, j: int|
                0 <= i < j < final(workspaces)@.len() ==> workspace_cmp(
                    *self,
                    #[trigger] final(workspaces)@[i],
                    #[trigger] final(workspaces)@[j],
                ) <= 0,
    {
        let ghost orig = workspaces@;
        let mut src: Vec<Workspace> = Vec::new();
        std::mem::swap(workspaces, &mut src);
        let mut out: Vec<Workspace> = Vec::new();
        while src.len() > 0
            invariant
                out@.to_multiset().add(src@.to_multiset()) == orig.to_multiset(),
                out@.len() + src@.len() == orig.len(),
                forall|i: int|
                    0 <= i < out@.len() - 1 ==> workspace_cmp(*self, #[trigger] out@[i], out@[i + 1])
                        <= 0,
            decreases src@.len(),
        {
            let ghost before = src@;
            let x = src.pop().unwrap();
            assert(before =~= src@.push(x));
            let mut k: usize = 0;
            while k < out.len() && self.compare(&x, &out[k]) >= 0
                invariant
                    k <= out@.len(),
                    k > 0 ==> workspace_cmp(*self, x, out@[k - 1]) >= 0,
                decreases out@.len() - k,
            {
                k += 1;
            }
            let ghost prev = out@;
            out.insert(k, x);
            proof {
                assert(out@ == prev.insert(k as int, x));
                if k > 0 {
                    lemma_text_cmp_antisymmetric(x.name@, prev[k - 1].name@);
                    assert(workspace_cmp(*self, prev[k - 1], x) <= 0);
                }
                assert forall|i: int| 0 <= i < out@.len() - 1 implies workspace_cmp(
                    *self,
                    #[trigger] out@[i],
                    out@[i + 1],
                ) <= 0 by {
                    if i + 1 < k {
                        assert(out@[i] == prev[i] && out@[i + 1] == prev[i + 1]);
                    } else if i + 1 == k {
                        assert(out@[i] == prev[i] && out@[i + 1] == x);
                    } else if i == k {
                        assert(out@[i] == x && out@[i + 1] == prev[i]);
                    } else {
                        assert(out@[i] == prev[i - 1] && out@[i + 1] == prev[i]);
                    }
                }
                assert(out@.to_multiset().add(src@.to_multiset()) =~= orig.to_multiset());
            }
        }
        assert(src@.to_multiset() =~= Multiset::empty());
        assert(out@.to_multiset().add(src@.to_multiset()) =~= out@.to_multiset());
        assert forall|i: int, j: int| 0 <= i < j < out@.len() implies workspace_cmp(
            *self,
            #[trigger] out@[i],
            #[trigger] out@[j],
        ) <= 0 by {
            lemma_workspaces_ordered_between(*self, out@, i, j);
        }
        *workspaces = out;
    }
}

} // verus!
