//! Tasks and the ordered task list, with the two operations that change it.

use vstd::prelude::*;

verus! {

/// One to-do item.
pub struct Task {
    pub id: u32,
    pub description: String,
    pub done: bool,
}

/// What a task is, mathematically.
pub struct TaskView {
    pub id: nat,
    pub description: Seq<char>,
    pub done: bool,
}

impl View for Task {
    type V = TaskView;

    open spec fn view(&self) -> TaskView {
        TaskView { id: self.id as nat, description: self.description@, done: self.done }
    }
}

/// The tasks in insertion order, which is also display and storage order.
pub struct TaskList {
    pub tasks: Vec<Task>,
}

impl View for TaskList {
    type V = Seq<TaskView>;

    open spec fn view(&self) -> Seq<TaskView> {
        self.tasks@.map_values(|t: Task| t@)
    }
}

/// Why a task could not be marked as done.
#[derive(PartialEq, Eq, Structural, Clone, Copy, Debug)]
pub enum MarkError {
    AlreadyDone,
    NotFound,
}

/// The list after appending a fresh task: its id is its 1-based position.
pub open spec fn added(s: Seq<TaskView>, description: Seq<char>) -> Seq<TaskView> {
    s.push(TaskView { id: s.len() + 1, description, done: false })
}

/// The list after adding each description of `ds` in turn.
pub open spec fn added_all(s: Seq<TaskView>, ds: Seq<Seq<char>>) -> Seq<TaskView>
    decreases ds.len(),
{
    if ds.len() == 0 {
        s
    } else {
        added(added_all(s, ds.drop_last()), ds.last())
    }
}

/// `i` is the position of the first task in `s` whose id is `id`.
pub open spec fn is_first_index(s: Seq<TaskView>, id: nat, i: int) -> bool {
    &&& 0 <= i < s.len()
    &&& s[i].id == id
    &&& forall|j: int| 0 <= j < i ==> s[j].id != id
}

/// Some task of `s` has id `id`.
pub open spec fn has_id(s: Seq<TaskView>, id: nat) -> bool {
    exists|i: int| 0 <= i < s.len() && s[i].id == id
}

/// The position of the first task with id `id`, if there is one.
pub open spec fn first_index(s: Seq<TaskView>, id: nat) -> Option<int> {
    if exists|i: int| is_first_index(s, id, i) {
        Some(choose|i: int| is_first_index(s, id, i))
    } else {
        None
    }
}

/// What marking task `id` as done reports.
pub open spec fn mark_outcome(s: Seq<TaskView>, id: nat) -> Result<(), MarkError> {
    match first_index(s, id) {
        None => Err(MarkError::NotFound),
        Some(i) => if s[i].done {
            Err(MarkError::AlreadyDone)
        } else {
            Ok(())
        },
    }
}

/// The list after marking task `id` as done: only a found, pending task changes.
pub open spec fn marked(s: Seq<TaskView>, id: nat) -> Seq<TaskView> {
    match first_index(s, id) {
        Some(i) => if s[i].done {
            s
        } else {
            s.update(i, TaskView { done: true, ..s[i] })
        },
        None => s,
    }
}

/// The number of finished tasks.
pub open spec fn done_count(s: Seq<TaskView>) -> nat
    decreases s.len(),
{
    if s.len() == 0 {
        0
    } else {
        done_count(s.drop_last()) + if s.last().done {
            1nat
        } else {
            0nat
        }
    }
}

/// There is at most one first position of an id.
pub proof fn lemma_first_index_unique(s: Seq<TaskView>, id: nat, i: int)
    requires
        is_first_index(s, id, i),
    ensures
        first_index(s, id) == Some(i),
{
    let k = choose|k: int| is_first_index(s, id, k);
    assert(k == i) by {
        if k < i {
            assert(s[k].id != id);
        } else if i < k {
            assert(s[i].id != id);
        }
    }
}

/// An id that occurs in the list has a first position.
pub proof fn lemma_first_index_exists(s: Seq<TaskView>, id: nat, k: int)
    requires
        0 <= k < s.len(),
        s[k].id == id,
    ensures
        first_index(s, id) is Some,
    decreases k,
{
    if forall|j: int| 0 <= j < k ==> s[j].id != id {
        assert(is_first_index(s, id, k));
    } else {
        let j = choose|j: int| 0 <= j < k && s[j].id == id;
        lemma_first_index_exists(s, id, j);
    }
}

impl TaskList {
    /// A list with no tasks.
    pub fn new() -> (r: TaskList)
        ensures
            r@ == Seq::<TaskView>::empty(),
    {
        TaskList { tasks: Vec::new() }
    }

    /// The number of tasks.
    pub fn len(&self) -> (r: usize)
        ensures
            r == self@.len(),
    {
        self.tasks.len()
    }
}

/// Appends a pending task whose id is the list's new length.
pub fn add_task(tasks: &mut TaskList, description: String)
    requires
        old(tasks)@.len() < u32::MAX,
    ensures
        final(tasks)@ == added(old(tasks)@, description@),
{
    let id: u32 = tasks.tasks.len() as u32 + 1;
    let new_task = Task { id, description, done: false };
    tasks.tasks.push(new_task);
    assert(final(tasks)@ =~= added(old(tasks)@, new_task@.description));
}

/// Marks the first task with id `task_id` as done.
///
/// A task that is already done, or an id that no task has, is reported and
/// leaves the list exactly as it was.
pub fn mark_task_done(tasks: &mut TaskList, task_id: u32) -> (r: Result<(), MarkError>)
    ensures
        r == mark_outcome(old(tasks)@, task_id as nat),
        final(tasks)@ == marked(old(tasks)@, task_id as nat),
        r is Err ==> *final(tasks) == *old(tasks),
{
    let n = tasks.tasks.len();
    let mut i: usize = 0;
    while i < n
        invariant
            n == tasks@.len(),
            tasks.tasks@.len() == n,
            i <= n,
            *tasks == *old(tasks),
            forall|j: int| 0 <= j < i ==> tasks@[j].id != task_id as nat,
        decreases n - i,
    {
        if tasks.tasks[i].id == task_id {
            proof {
                assert(is_first_index(tasks@, task_id as nat, i as int));
                lemma_first_index_unique(tasks@, task_id as nat, i as int);
            }
            if !tasks.tasks[i].done {
                tasks.tasks[i].done = true;
                assert(final(tasks)@ =~= marked(old(tasks)@, task_id as nat));
                return Ok(());
            } else {
                return Err(MarkError::AlreadyDone);
            }
        }
        i = i + 1;
    }
    assert(!exists|k: int| is_first_index(tasks@, task_id as nat, k));
    Err(MarkError::NotFound)
}

/// Counts the finished tasks.
pub fn count_done(tasks: &TaskList) -> (r: usize)
    ensures
        r == done_count(tasks@),
{
    let n = tasks.tasks.len();
    let mut count: usize = 0;
    let mut i: usize = 0;
    while i < n
        invariant
            n == tasks@.len(),
            i <= n,
            count <= i,
            count == done_count(tasks@.subrange(0, i as int)),
        decreases n - i,
    {
        assert(tasks@.subrange(0, i + 1).drop_last() =~= tasks@.subrange(0, i as int));
        if tasks.tasks[i].done {
            count = count + 1;
        }
        i = i + 1;
    }
    assert(tasks@.subrange(0, n as int) =~= tasks@);
    count
}

/// Adding tasks one after another: the list grows by one per addition, what was
/// there stays in place, and each new task's id is its 1-based position.
pub proof fn lemma_add_sequence(s: Seq<TaskView>, ds: Seq<Seq<char>>)
    ensures
        added_all(s, ds).len() == s.len() + ds.len(),
        added_all(s, ds).subrange(0, s.len() as int) == s,
        forall|k: int|
            0 <= k < ds.len() ==> #[trigger] added_all(s, ds)[s.len() + k] == (TaskView {
                id: (s.len() + k + 1) as nat,
                description: ds[k],
                done: false,
            }),
    decreases ds.len(),
{
    if ds.len() > 0 {
        let prev = ds.drop_last();
        lemma_add_sequence(s, prev);
        let r = added_all(s, ds);
        assert(r.subrange(0, s.len() as int) =~= s) by {
            assert forall|j: int| 0 <= j < s.len() implies r[j] == s[j] by {
                assert(r[j] == added_all(s, prev)[j]);
                assert(added_all(s, prev).subrange(0, s.len() as int)[j] == s[j]);
            }
        }
        assert forall|k: int| 0 <= k < ds.len() implies #[trigger] r[s.len() + k] == (TaskView {
            id: (s.len() + k + 1) as nat,
            description: ds[k],
            done: false,
        }) by {
            if k < ds.len() - 1 {
                assert(prev[k] == ds[k]);
                assert(added_all(s, prev)[s.len() + k] == r[s.len() + k]);
            }
        }
    }
}

/// Marking a pending task done succeeds once; every later call with the same id
/// reports that it is already done and changes nothing.
pub proof fn lemma_mark_done_twice(s: Seq<TaskView>, id: nat)
    requires
        mark_outcome(s, id) == Ok::<(), MarkError>(()),
    ensures
        marked(s, id) != s,
        mark_outcome(marked(s, id), id) == Err::<(), MarkError>(MarkError::AlreadyDone),
        marked(marked(s, id), id) == marked(s, id),
{
    let i = first_index(s, id)->0;
    lemma_first_index_unique(s, id, i);
    let t = marked(s, id);
    assert(t[i].done);
    assert(is_first_index(t, id, i));
    lemma_first_index_unique(t, id, i);
}

/// Marking an id that no task has reports "not found" and leaves the list as it
/// was; and "not found" is reported for such ids only.
pub proof fn lemma_mark_absent(s: Seq<TaskView>, id: nat)
    ensures
        !has_id(s, id) ==> mark_outcome(s, id) == Err::<(), MarkError>(MarkError::NotFound)
            && marked(s, id) == s,
        mark_outcome(s, id) == Err::<(), MarkError>(MarkError::NotFound) ==> !has_id(s, id),
{
    if has_id(s, id) {
        let k = choose|k: int| 0 <= k < s.len() && s[k].id == id;
        lemma_first_index_exists(s, id, k);
    }
}

} // verus!
