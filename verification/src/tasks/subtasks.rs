//! A parent's children and the rollup shown above them. The rollup is
//! displayed, never enforced: nothing here can complete a parent.
use vstd::prelude::*;

use crate::tasks::wire::{key_of, task_key, view, viewed, TaskRow, TaskView};

verus! {

/// A parent's children, with the counts rendered above them: the children
/// in a completed state, over the children the caller may see.
#[derive(Debug, Clone, PartialEq, Eq)]
pub struct Subtasks {
    pub data: Vec<TaskView>,
    pub done: i64,
    pub total: i64,
    /// More children exist than one read returns; the counts are still
    /// whole, counted where the rows are.
    pub truncated: bool,
}

/// A subtask's one line of context: its parent, never a trail, since the
/// trail can only ever be one level deep.
#[derive(Debug, Clone, PartialEq, Eq)]
pub struct ParentRef {
    pub id: u128,
    pub key: String,
    pub title: String,
    pub state: String,
}

/// The children and the counts, flagged as truncated when fewer rows came
/// back than there are visible children.
pub fn rollup(data: Vec<TaskView>, done: i64, total: i64) -> (s: Subtasks)
    ensures
        s.data == data,
        s.done == done,
        s.total == total,
        s.truncated == (data@.len() < total),
{
    let count: u64 = data.len() as u64;
    let shown: i64 = if count > 9223372036854775807u64 {
        9223372036854775807
    } else {
        count as i64
    };
    let truncated = shown < total;
    Subtasks { data, done, total, truncated }
}

/// The parent line of a subtask.
pub fn parent_ref(row: &TaskRow, project_key: &str) -> (p: ParentRef)
    ensures
        p.id == row.id,
        p.key@ == task_key(project_key@, row.number as int),
        p.title == row.title,
        p.state == row.state,
{
    ParentRef {
        id: row.id,
        key: key_of(project_key, row.number),
        title: row.title.clone(),
        state: row.state.clone(),
    }
}

/// The subtask payload of one task, whichever end of the relationship it
/// is: its parent when it is a subtask, and its own children.
#[derive(Debug, Clone, PartialEq, Eq)]
pub struct Relationship {
    pub parent: Option<ParentRef>,
    pub children: Subtasks,
}

/// The representations of the children read, each with its project's key.
pub fn child_views(rows: &Vec<(TaskRow, String)>) -> (v: Vec<TaskView>)
    ensures
        v@.len() == rows@.len(),
        forall|i: int| 0 <= i < rows@.len() ==> viewed(#[trigger] v@[i], rows@[i].0, rows@[i].1@),
{
    let mut out: Vec<TaskView> = Vec::new();
    let mut i: usize = 0;
    while i < rows.len()
        invariant
            i <= rows@.len(),
            out@.len() == i,
            forall|k: int| 0 <= k < i ==> viewed(#[trigger] out@[k], rows@[k].0, rows@[k].1@),
        decreases rows.len() - i,
    {
        out.push(view(&rows[i].0, rows[i].1.as_str()));
        i = i + 1;
    }
    out
}

} // verus!
