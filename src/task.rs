use vstd::prelude::*;

verus! {

/// A task as the registry holds it.
#[derive(Clone, Debug)]
pub struct Task {
    /// Local id: positive, unique within a registry.
    pub id: usize,
    /// Id given by the remote service; empty while unknown.
    pub todoist_id: String,
    pub title: String,
    pub is_completed: bool,
}

/// The mathematical value of a task.
pub struct TaskView {
    pub id: nat,
    pub todoist_id: Seq<char>,
    pub title: Seq<char>,
    pub is_completed: bool,
}

impl View for Task {
    type V = TaskView;

    open spec fn view(&self) -> TaskView {
        TaskView {
            id: self.id as nat,
            todoist_id: self.todoist_id@,
            title: self.title@,
            is_completed: self.is_completed,
        }
    }
}

/// The views of a sequence of tasks, in order.
pub open spec fn views(s: Seq<Task>) -> Seq<TaskView> {
    s.map_values(|t: Task| t@)
}

impl Task {
    /// A task not yet known to the remote service.
    pub fn new(id: usize, title: &str, is_completed: bool) -> (r: Task)
        ensures
            r@ == (TaskView { id: id as nat, todoist_id: Seq::empty(), title: title@, is_completed }),
    {
        Task { id, todoist_id: String::new(), title: title.to_string(), is_completed }
    }
}

} // verus!
