//! The task records the menu acts on, and the pure half of each store
//! operation. Prompting, table printing and JSON persistence stay outside
//! this crate; they hand plain values in and take plain values back.

use vstd::prelude::*;

verus! {

/// Lifecycle stage of a task.
#[derive(Clone, Copy, PartialEq, Eq, Structural, Debug)]
pub enum TaskStatus {
    Todo,
    InProgress,
    Done,
}

/// Colour role a status is shown in.
#[derive(Clone, Copy, PartialEq, Eq, Structural, Debug)]
pub enum StatusColor {
    Yellow,
    Blue,
    Green,
}

/// One task record.
#[derive(Debug)]
pub struct Task {
    pub id: u32,
    pub title: String,
    pub description: String,
    pub status: TaskStatus,
}

impl Task {
    pub fn new(id: u32, title: String, description: String, status: TaskStatus) -> (r: Task)
        ensures
            r.id == id,
            r.title@ == title@,
            r.description@ == description@,
            r.status == status,
    {
        Task { id, title, description, status }
    }
}

/// The list with every task of the given id removed, keeping the order of
/// the rest.
pub open spec fn without_id(s: Seq<Task>, id: u32) -> Seq<Task>
    decreases s.len(),
{
    if s.len() == 0 {
        Seq::<Task>::empty()
    } else {
        let rest = without_id(s.drop_last(), id);
        if s.last().id != id {
            rest.push(s.last())
        } else {
            rest
        }
    }
}

/// Index of the first task with the given id, or `-1` when there is none.
pub open spec fn find_index(s: Seq<Task>, id: u32) -> int
    decreases s.len(),
{
    if s.len() == 0 {
        -1
    } else if s[0].id == id {
        0
    } else {
        let rest = find_index(s.skip(1), id);
        if rest == -1 {
            -1
        } else {
            rest + 1
        }
    }
}

/// `t` with its status replaced.
pub open spec fn with_status(t: Task, status: TaskStatus) -> Task {
    Task { status, ..t }
}

/// What `find_index` finds: a valid index of a match with no match before
/// it, or `-1` exactly when no task has the id.
pub proof fn lemma_find_index_first(s: Seq<Task>, id: u32)
    ensures
        find_index(s, id) == -1 <==> (forall|j: int| 0 <= j < s.len() ==> (#[trigger] s[j]).id
            != id),
        find_index(s, id) != -1 ==> 0 <= find_index(s, id) < s.len() && s[find_index(s, id)].id
            == id && (forall|j: int| 0 <= j < find_index(s, id) ==> (#[trigger] s[j]).id != id),
    decreases s.len(),
{
    if s.len() > 0 && s[0].id != id {
        lemma_find_index_first(s.skip(1), id);
        let rest = find_index(s.skip(1), id);
        assert(forall|j: int| 1 <= j < s.len() ==> s[j] == s.skip(1)[j - 1]);
        if rest != -1 {
            assert(s[rest + 1] == s.skip(1)[rest]);
        }
    }
}

/// Append a task to the store.
pub fn add_task(tasks: &mut Vec<Task>, task: Task)
    ensures
        final(tasks)@ == old(tasks)@.push(task),
{
    tasks.push(task);
}

/// Remove every task with the given id, keeping the order of the rest;
/// `removed` says whether any task actually left the store.
pub fn remove_task(tasks: &mut Vec<Task>, id: u32) -> (removed: bool)
    ensures
        final(tasks)@ == without_id(old(tasks)@, id),
        removed <==> final(tasks)@.len() < old(tasks)@.len(),
        forall|j: int| 0 <= j < final(tasks)@.len() ==> (#[trigger] final(tasks)@[j]).id != id,
{
    let before = tasks.len();
    let ghost orig = tasks@;
    let mut kept: Vec<Task> = Vec::new();
    let ghost taken: int = 0;
    proof {
        assert(orig.take(0) =~= Seq::<Task>::empty());
        assert(kept@ =~= without_id(orig.take(0), id));
    }
    while tasks.len() > 0
        invariant
            orig.skip(taken) == tasks@,
            0 <= taken <= orig.len(),
            taken == orig.len() - tasks@.len(),
            kept@ == without_id(orig.take(taken), id),
            forall|j: int| 0 <= j < kept@.len() ==> (#[trigger] kept@[j]).id != id,
            kept@.len() <= taken,
        decreases tasks@.len(),
    {
        let ghost taken0 = taken;
        let t = tasks.remove(0);
        if t.id != id {
            kept.push(t);
        }
        proof {
            taken = taken0 + 1;
            assert(orig.skip(taken0)[0] == orig[taken0]);
            assert(orig.skip(taken0).remove(0) =~= orig.skip(taken));
            assert(orig.take(taken).drop_last() =~= orig.take(taken0));
            assert(orig.take(taken).last() == orig[taken0]);
        }
    }
    proof {
        assert(orig.take(taken) =~= orig);
    }
    let after = kept.len();
    *tasks = kept;
    after < before
}

/// Set the status of the first task with the given id, leaving everything
/// else in place; `found` says whether such a task exists.
pub fn update_status(tasks: &mut Vec<Task>, id: u32, status: TaskStatus) -> (found: bool)
    ensures
        found <==> find_index(old(tasks)@, id) != -1,
        !found ==> final(tasks)@ == old(tasks)@,
        found ==> final(tasks)@ == old(tasks)@.update(
            find_index(old(tasks)@, id),
            with_status(old(tasks)@[find_index(old(tasks)@, id)], status),
        ),
{
    let ghost orig = tasks@;
    proof {
        lemma_find_index_first(orig, id);
    }
    let mut i: usize = 0;
    while i < tasks.len()
        invariant
            orig == old(tasks)@,
            tasks@ == orig,
            0 <= i <= orig.len(),
            forall|j: int| 0 <= j < i ==> (#[trigger] orig[j]).id != id,
            find_index(orig, id) == -1 || find_index(orig, id) >= i,
        decreases orig.len() - i,
    {
        proof {
            lemma_find_index_first(orig, id);
        }
        if tasks[i].id == id {
            let t = tasks.remove(i);
            let updated = Task { id: t.id, title: t.title, description: t.description, status };
            tasks.insert(i, updated);
            proof {
                assert(find_index(orig, id) == i);
                assert(updated == with_status(orig[i as int], status));
                assert(tasks@ =~= orig.update(i as int, updated));
            }
            return true;
        }
        i += 1;
    }
    proof {
        lemma_find_index_first(orig, id);
    }
    false
}

/// The label a status is listed under.
pub fn status_display(status: TaskStatus) -> (r: &'static str)
    ensures
        r@ == spec_status_display(status),
{
    match status {
        TaskStatus::Todo => "Todo",
        TaskStatus::InProgress => "In Progress",
        TaskStatus::Done => "Done",
    }
}

/// The characters of each status label.
pub open spec fn spec_status_display(status: TaskStatus) -> Seq<char> {
    match status {
        TaskStatus::Todo => "Todo"@,
        TaskStatus::InProgress => "In Progress"@,
        TaskStatus::Done => "Done"@,
    }
}

/// The colour a status is listed in.
pub fn status_color(status: TaskStatus) -> (r: StatusColor)
    ensures
        r == (match status {
            TaskStatus::Todo => StatusColor::Yellow,
            TaskStatus::InProgress => StatusColor::Blue,
            TaskStatus::Done => StatusColor::Green,
        }),
{
    match status {
        TaskStatus::Todo => StatusColor::Yellow,
        TaskStatus::InProgress => StatusColor::Blue,
        TaskStatus::Done => StatusColor::Green,
    }
}

/// The status a position in the status picker stands for, in the picker's
/// fixed order.
pub fn status_from_index(index: usize) -> (r: TaskStatus)
    ensures
        r == (if index == 0 {
            TaskStatus::Todo
        } else if index == 1 {
            TaskStatus::InProgress
        } else {
            TaskStatus::Done
        }),
{
    if index == 0 {
        TaskStatus::Todo
    } else if index == 1 {
        TaskStatus::InProgress
    } else {
        TaskStatus::Done
    }
}

/// The id of the task at a picker position, or nothing when the position is
/// out of range.
pub fn id_at_index(tasks: &Vec<Task>, index: usize) -> (r: Option<u32>)
    ensures
        index < tasks@.len() ==> r == Some(tasks@[index as int].id),
        index >= tasks@.len() ==> r is None,
{
    if index < tasks.len() {
        Some(tasks[index].id)
    } else {
        None
    }
}

} // verus!
