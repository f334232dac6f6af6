//! Edits of a task list by 1-based position, and the clearing operations.

use vstd::prelude::*;
use crate::task::{model, IndexError, Task, TaskModel};

verus! {

/// `index_1based` names a task of a list of `len` tasks.
pub open spec fn index_in_range(len: nat, index_1based: usize) -> bool {
    1 <= index_1based <= len
}

/// The tasks of `ts` that are not done, in their order.
pub open spec fn pending(ts: Seq<TaskModel>) -> Seq<TaskModel> {
    ts.filter(|t: TaskModel| !t.done)
}

/// The list without the task at the 1-based position `index_1based`; the tasks
/// after it move up by one. Fails when the position names no task.
pub fn remove_at(tasks: &Vec<Task>, index_1based: usize) -> (r: Result<Vec<Task>, IndexError>)
    ensures
        r is Err <==> !index_in_range(tasks@.len(), index_1based),
        r matches Ok(out) ==> {
            let i = index_1based - 1;
            &&& model(out@) == model(tasks@).remove(i)
            &&& out@.len() == tasks@.len() - 1
            &&& forall|j: int| 0 <= j < i ==> #[trigger] out@[j]@ == tasks@[j]@
            &&& forall|j: int| i <= j < out@.len() ==> #[trigger] out@[j]@ == tasks@[j + 1]@
        },
{
    if index_1based == 0 || index_1based > tasks.len() {
        return Err(IndexError);
    }
    let skip = index_1based - 1;
    let mut out: Vec<Task> = Vec::new();
    let mut k: usize = 0;
    while k < tasks.len()
        invariant
            skip < tasks@.len(),
            k <= tasks@.len(),
            out@.len() == if k <= skip { k as int } else { k - 1 },
            forall|j: int| 0 <= j < out@.len() && j < skip ==> #[trigger] out@[j]@ == tasks@[j]@,
            forall|j: int| skip <= j < out@.len() ==> #[trigger] out@[j]@ == tasks@[j + 1]@,
        decreases tasks@.len() - k,
    {
        if k != skip {
            let t = tasks[k].duplicate();
            out.push(t);
        }
        k += 1;
    }
    assert(model(out@) =~= model(tasks@).remove(skip as int));
    Ok(out)
}

/// The list with the completion flag of the task at the 1-based position
/// `index_1based` set to `value`, every other task unchanged. Fails when the
/// position names no task.
pub fn set_done(tasks: &Vec<Task>, index_1based: usize, value: bool) -> (r: Result<
    Vec<Task>,
    IndexError,
>)
    ensures
        r is Err <==> !index_in_range(tasks@.len(), index_1based),
        r matches Ok(out) ==> {
            let i = index_1based - 1;
            &&& model(out@) == model(tasks@).update(
                i,
                TaskModel { name: tasks@[i]@.name, done: value },
            )
            &&& out@.len() == tasks@.len()
            &&& out@[i]@.done == value
            &&& out@[i]@.name == tasks@[i]@.name
            &&& forall|j: int| 0 <= j < out@.len() && j != i ==> #[trigger] out@[j]@ == tasks@[j]@
        },
{
    if index_1based == 0 || index_1based > tasks.len() {
        return Err(IndexError);
    }
    let at = index_1based - 1;
    let mut out: Vec<Task> = Vec::new();
    let mut k: usize = 0;
    while k < tasks.len()
        invariant
            at < tasks@.len(),
            k <= tasks@.len(),
            out@.len() == k,
            forall|j: int| 0 <= j < k && j != at ==> #[trigger] out@[j]@ == tasks@[j]@,
            k > at ==> out@[at as int]@ == (TaskModel { name: tasks@[at as int]@.name, done: value }),
        decreases tasks@.len() - k,
    {
        let mut t = tasks[k].duplicate();
        if k == at {
            t.done = value;
        }
        out.push(t);
        k += 1;
    }
    assert(model(out@) =~= model(tasks@).update(
        at as int,
        TaskModel { name: tasks@[at as int]@.name, done: value },
    ));
    Ok(out)
}

/// The tasks that are not done, in their order.
pub fn clear_completed(tasks: &Vec<Task>) -> (r: Vec<Task>)
    ensures
        model(r@) == pending(model(tasks@)),
{
    let mut out: Vec<Task> = Vec::new();
    let mut k: usize = 0;
    while k < tasks.len()
        invariant
            k <= tasks@.len(),
            model(out@) == pending(model(tasks@).take(k as int)),
        decreases tasks@.len() - k,
    {
        let ghost before = model(out@);
        proof {
            reveal(Seq::filter);
        }
        assert(model(tasks@).take(k + 1).last() == tasks@[k as int]@);
        assert(model(tasks@).take(k + 1).drop_last() =~= model(tasks@).take(k as int));
        if !tasks[k].done {
            let t = tasks[k].duplicate();
            out.push(t);
            assert(model(out@) =~= before.push(tasks@[k as int]@));
        } else {
            assert(model(out@) =~= before);
        }
        assert(model(out@) =~= pending(model(tasks@).take(k + 1)));
        k += 1;
    }
    assert(model(tasks@).take(k as int) =~= model(tasks@));
    out
}

/// The empty list.
pub fn clear_all() -> (r: Vec<Task>)
    ensures
        r@.len() == 0,
{
    Vec::new()
}

} // verus!
