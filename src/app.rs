use vstd::prelude::*;

use crate::task::{views, Task, TaskView};
use crate::text::{blank, is_blank, pop_char, push_char};

verus! {

/// What the interaction layer is doing: navigating, or entering text for a new
/// task or for the task that was selected when editing began.
#[derive(Clone, Copy, Debug)]
pub enum Mode {
    Normal,
    InsertAdd,
    /// Editing; `target` is the local id of the task selected on entry.
    InsertEdit { target: usize },
}

/// The abstract state of an [`App`].
pub struct AppView {
    pub tasks: Seq<TaskView>,
    /// The next local id to hand out; ids below it have been allocated.
    pub next_id: nat,
    pub selected: Option<usize>,
    pub mode: Mode,
    pub buffer: Seq<char>,
}

/// Every id lies in `1..next_id`, and no two tasks share one.
pub open spec fn ids_allocated(tasks: Seq<TaskView>, next_id: nat) -> bool {
    &&& forall|i: int| 0 <= i < tasks.len() ==> 1 <= #[trigger] tasks[i].id < next_id
    &&& forall|i: int, j: int|
        0 <= i < j < tasks.len() ==> #[trigger] tasks[i].id != #[trigger] tasks[j].id
}

pub open spec fn has_id(tasks: Seq<TaskView>, id: nat) -> bool {
    exists|i: int| 0 <= i < tasks.len() && #[trigger] tasks[i].id == id
}

/// The position of the task with the given id (meaningful when `has_id`).
pub open spec fn index_of(tasks: Seq<TaskView>, id: nat) -> int {
    choose|i: int| 0 <= i < tasks.len() && #[trigger] tasks[i].id == id
}

impl AppView {
    /// Ids are allocated and distinct, the selection is a valid index and is
    /// absent only for an empty registry, and the buffer is empty outside the
    /// insert modes.
    pub open spec fn wf(self) -> bool {
        &&& 1 <= self.next_id <= usize::MAX
        &&& ids_allocated(self.tasks, self.next_id)
        &&& (self.tasks.len() == 0 <==> self.selected is None)
        &&& (self.selected matches Some(s) ==> s < self.tasks.len())
        &&& (self.mode is Normal ==> self.buffer.len() == 0)
    }

    /// The same state with another selection.
    pub open spec fn with_selected(self, selected: Option<usize>) -> AppView {
        AppView { selected, ..self }
    }
}

/// The largest id among the tasks, or 0 when there are none.
pub open spec fn max_id(s: Seq<TaskView>) -> nat
    decreases s.len(),
{
    if s.len() == 0 {
        0
    } else {
        let m = max_id(s.drop_last());
        if s.last().id > m {
            s.last().id
        } else {
            m
        }
    }
}

/// Rows that a registry can be rebuilt from: positive ids, distinct, below the
/// largest machine integer.
pub open spec fn valid_rows(rows: Seq<TaskView>) -> bool {
    &&& forall|i: int| 0 <= i < rows.len() ==> 1 <= #[trigger] rows[i].id < usize::MAX
    &&& forall|i: int, j: int|
        0 <= i < j < rows.len() ==> #[trigger] rows[i].id != #[trigger] rows[j].id
}

/// The state rebuilt from stored rows; rows that cannot be trusted give an
/// empty registry.
pub open spec fn restored(rows: Seq<TaskView>) -> AppView {
    if valid_rows(rows) {
        AppView {
            tasks: rows,
            next_id: max_id(rows) + 1,
            selected: if rows.len() == 0 { None } else { Some(0) },
            mode: Mode::Normal,
            buffer: Seq::empty(),
        }
    } else {
        AppView {
            tasks: Seq::empty(),
            next_id: 1,
            selected: None,
            mode: Mode::Normal,
            buffer: Seq::empty(),
        }
    }
}

proof fn lemma_max_id_bounds(s: Seq<TaskView>)
    ensures
        forall|i: int| 0 <= i < s.len() ==> #[trigger] s[i].id <= max_id(s),
        s.len() == 0 || exists|i: int| 0 <= i < s.len() && #[trigger] s[i].id == max_id(s),
    decreases s.len(),
{
    if s.len() > 0 {
        let p = s.drop_last();
        lemma_max_id_bounds(p);
        assert forall|i: int| 0 <= i < s.len() implies #[trigger] s[i].id <= max_id(s) by {
            if i < s.len() - 1 {
                assert(s[i] == p[i]);
            }
        }
        if s.last().id <= max_id(p) && p.len() > 0 {
            let k = choose|i: int| 0 <= i < p.len() && #[trigger] p[i].id == max_id(p);
            assert(s[k] == p[k]);
        } else {
            assert(s[s.len() - 1].id == max_id(s));
        }
    }
}

/// Selection after moving forward, circularly.
pub open spec fn next_selection(len: nat, selected: Option<usize>) -> Option<usize> {
    if len == 0 {
        None
    } else {
        match selected {
            Some(i) => Some(((i + 1) % (len as int)) as usize),
            None => Some(0),
        }
    }
}

/// Selection after moving backward, circularly.
pub open spec fn previous_selection(len: nat, selected: Option<usize>) -> Option<usize> {
    if len == 0 {
        None
    } else {
        match selected {
            Some(i) => if i == 0 { Some((len - 1) as usize) } else { Some((i - 1) as usize) },
            None => Some(0),
        }
    }
}

/// Why an operation against the remote service or the durable store failed.
#[derive(Clone, Copy, Debug, PartialEq, Eq, Structural)]
pub enum SyncError {
    /// The network could not be reached, or timed out.
    Transport,
    /// The remote service answered with an error or a malformed response.
    Protocol,
    /// The durable store could not be read or written.
    Storage,
}

/// A call that the remote service must accept before the registry changes.
pub enum RemoteCall {
    Create { title: String },
    Update { id: usize, todoist_id: String, title: String, is_completed: bool },
    Delete { id: usize, todoist_id: String },
}

pub enum CallView {
    Create { title: Seq<char> },
    Update { id: nat, todoist_id: Seq<char>, title: Seq<char>, is_completed: bool },
    Delete { id: nat, todoist_id: Seq<char> },
}

impl View for RemoteCall {
    type V = CallView;

    open spec fn view(&self) -> CallView {
        match self {
            RemoteCall::Create { title } => CallView::Create { title: title@ },
            RemoteCall::Update { id, todoist_id, title, is_completed } => CallView::Update {
                id: *id as nat,
                todoist_id: todoist_id@,
                title: title@,
                is_completed: *is_completed,
            },
            RemoteCall::Delete { id, todoist_id } => CallView::Delete {
                id: *id as nat,
                todoist_id: todoist_id@,
            },
        }
    }
}

pub open spec fn call_view(c: Option<RemoteCall>) -> Option<CallView> {
    match c {
        Some(c) => Some(c@),
        None => None,
    }
}

/// The call that adding a task with this title needs; none for a blank title.
pub open spec fn add_call(title: Seq<char>) -> Option<CallView> {
    if blank(title) {
        None
    } else {
        Some(CallView::Create { title })
    }
}

/// The call that updating a task needs; none for a blank title or an unknown id.
pub open spec fn update_call(v: AppView, id: nat, title: Seq<char>, is_completed: bool) -> Option<
    CallView,
> {
    if blank(title) || !has_id(v.tasks, id) {
        None
    } else {
        Some(
            CallView::Update {
                id,
                todoist_id: v.tasks[index_of(v.tasks, id)].todoist_id,
                title,
                is_completed,
            },
        )
    }
}

/// The call that deleting a task needs; none for an unknown id.
pub open spec fn delete_call(v: AppView, id: nat) -> Option<CallView> {
    if !has_id(v.tasks, id) {
        None
    } else {
        Some(CallView::Delete { id, todoist_id: v.tasks[index_of(v.tasks, id)].todoist_id })
    }
}

/// The state once the remote service has created a task with the given id.
pub open spec fn after_add(v: AppView, title: Seq<char>, todoist_id: Seq<char>) -> AppView {
    if blank(title) {
        v
    } else {
        AppView {
            tasks: v.tasks.push(
                TaskView { id: v.next_id, todoist_id, title, is_completed: false },
            ),
            next_id: v.next_id + 1,
            selected: Some(v.tasks.len() as usize),
            ..v
        }
    }
}

/// The state once the remote service has accepted an update.
pub open spec fn after_update(v: AppView, id: nat, title: Seq<char>, is_completed: bool) -> AppView {
    if blank(title) || !has_id(v.tasks, id) {
        v
    } else {
        let i = index_of(v.tasks, id);
        AppView {
            tasks: v.tasks.update(i, TaskView { title, is_completed, ..v.tasks[i] }),
            ..v
        }
    }
}

/// The selection after removing the task at `removed`: it follows the task it
/// was on, or moves back by one when that task was the one removed.
pub open spec fn repaired_selection(selected: Option<usize>, removed: int, new_len: nat) -> Option<
    usize,
> {
    if new_len == 0 {
        None
    } else {
        match selected {
            Some(s) => if removed <= s && s > 0 { Some((s - 1) as usize) } else { Some(s) },
            None => Some(0),
        }
    }
}

/// The state once the remote service has deleted a task.
pub open spec fn after_delete(v: AppView, id: nat) -> AppView {
    if !has_id(v.tasks, id) {
        v
    } else {
        let i = index_of(v.tasks, id);
        AppView {
            tasks: v.tasks.remove(i),
            selected: repaired_selection(v.selected, i, (v.tasks.len() - 1) as nat),
            ..v
        }
    }
}

/// Fetched tasks with fresh local ids `start, start + 1, ...` in the order received.
pub open spec fn renumbered(fetched: Seq<TaskView>, start: nat) -> Seq<TaskView> {
    Seq::new(fetched.len(), |i: int| TaskView { id: start + i as nat, ..fetched[i] })
}

/// The state once a full list has been fetched from the remote service.
pub open spec fn after_sync(v: AppView, fetched: Seq<TaskView>) -> AppView {
    let n = fetched.len();
    AppView {
        tasks: renumbered(fetched, v.next_id),
        next_id: v.next_id + n,
        selected: if n == 0 {
            None
        } else {
            match v.selected {
                Some(s) => if s < n { Some(s) } else { Some(0) },
                None => Some(0),
            }
        },
        ..v
    }
}

/// A key as the interaction layer delivers it.
#[derive(Clone, Copy, Debug, PartialEq, Eq, Structural)]
pub enum Key {
    Char(char),
    Enter,
    Esc,
    Backspace,
    Other,
}

/// What the interaction loop is to do after a key.
pub enum Action {
    Continue,
    Quit,
    /// Perform this remote call, then hand its outcome to the matching
    /// completion (`add_task`, `update_task` or `delete_task`).
    Call(RemoteCall),
}

pub enum ActionView {
    Continue,
    Quit,
    Call(CallView),
}

impl View for Action {
    type V = ActionView;

    open spec fn view(&self) -> ActionView {
        match self {
            Action::Continue => ActionView::Continue,
            Action::Quit => ActionView::Quit,
            Action::Call(c) => ActionView::Call(c@),
        }
    }
}

pub open spec fn call_action(c: Option<CallView>) -> ActionView {
    match c {
        Some(c) => ActionView::Call(c),
        None => ActionView::Continue,
    }
}

/// Entering add mode: the buffer starts empty.
pub open spec fn add_entered(v: AppView) -> AppView {
    AppView { mode: Mode::InsertAdd, buffer: Seq::empty(), ..v }
}

/// Entering edit mode, which needs a selected task: the buffer starts with
/// that task's title, and the task becomes the target.
pub open spec fn edit_entered(v: AppView) -> AppView {
    let i = v.selected->0;
    AppView {
        mode: Mode::InsertEdit { target: v.tasks[i as int].id as usize },
        buffer: v.tasks[i as int].title,
        ..v
    }
}

/// A character typed in an insert mode goes to the end of the buffer.
pub open spec fn typed(v: AppView, c: char) -> AppView {
    if v.mode is Normal {
        v
    } else {
        AppView { buffer: v.buffer.push(c), ..v }
    }
}

/// Backspace in an insert mode drops the last character, if any.
pub open spec fn erased(v: AppView) -> AppView {
    if v.mode is Normal || v.buffer.len() == 0 {
        v
    } else {
        AppView { buffer: v.buffer.drop_last(), ..v }
    }
}

/// Leaving an insert mode, by commit or cancel.
pub open spec fn left_insert(v: AppView) -> AppView {
    AppView { mode: Mode::Normal, buffer: Seq::empty(), ..v }
}

/// The remote call that committing the buffer needs: an update of the edit
/// target while it still exists, otherwise the creation of a task; none for a
/// blank buffer or outside the insert modes.
pub open spec fn commit_call(v: AppView) -> Option<CallView> {
    if blank(v.buffer) {
        None
    } else {
        match v.mode {
            Mode::Normal => None,
            Mode::InsertAdd => add_call(v.buffer),
            Mode::InsertEdit { target } => if has_id(v.tasks, target as nat) {
                update_call(
                    v,
                    target as nat,
                    v.buffer,
                    v.tasks[index_of(v.tasks, target as nat)].is_completed,
                )
            } else {
                add_call(v.buffer)
            },
        }
    }
}

/// The state after a key.
pub open spec fn key_state(v: AppView, key: Key) -> AppView {
    match v.mode {
        Mode::Normal => match key {
            Key::Char(c) => if c == 'j' {
                v.with_selected(next_selection(v.tasks.len(), v.selected))
            } else if c == 'k' {
                v.with_selected(previous_selection(v.tasks.len(), v.selected))
            } else if c == 'i' && v.selected is Some {
                edit_entered(v)
            } else if c == 'a' {
                add_entered(v)
            } else {
                v
            },
            _ => v,
        },
        _ => match key {
            Key::Enter => left_insert(v),
            Key::Esc => left_insert(v),
            Key::Char(c) => typed(v, c),
            Key::Backspace => erased(v),
            Key::Other => v,
        },
    }
}

/// What the loop is to do after a key.
pub open spec fn key_action(v: AppView, key: Key) -> ActionView {
    match v.mode {
        Mode::Normal => if key == Key::Char('q') {
            ActionView::Quit
        } else if key == Key::Char('d') {
            match v.selected {
                Some(i) => if i < v.tasks.len() {
                    call_action(delete_call(v, v.tasks[i as int].id))
                } else {
                    ActionView::Continue
                },
                None => ActionView::Continue,
            }
        } else {
            ActionView::Continue
        },
        _ => if key == Key::Enter {
            call_action(commit_call(v))
        } else {
            ActionView::Continue
        },
    }
}

/// Every completed mutation keeps the local ids distinct and within
/// `1..=allocated`, where `allocated` is `next_id - 1`, the number of ids handed
/// out so far; so does any sequence of them.
pub proof fn lemma_mutations_keep_ids(
    v: AppView,
    title: Seq<char>,
    todoist_id: Seq<char>,
    id: nat,
    is_completed: bool,
    fetched: Seq<TaskView>,
)
    requires
        v.wf(),
    ensures
        v.next_id < usize::MAX ==> after_add(v, title, todoist_id).wf(),
        after_update(v, id, title, is_completed).wf(),
        after_delete(v, id).wf(),
        v.next_id + fetched.len() <= usize::MAX ==> after_sync(v, fetched).wf(),
{
    if v.next_id < usize::MAX && !blank(title) {
        let w = after_add(v, title, todoist_id);
        assert forall|a: int, b: int| 0 <= a < b < w.tasks.len() implies #[trigger] w.tasks[a].id
            != #[trigger] w.tasks[b].id by {
            if b < v.tasks.len() {
                assert(w.tasks[a] == v.tasks[a] && w.tasks[b] == v.tasks[b]);
            } else {
                assert(w.tasks[a] == v.tasks[a]);
            }
        }
        assert forall|a: int| 0 <= a < w.tasks.len() implies 1 <= #[trigger] w.tasks[a].id
            < w.next_id by {
            if a < v.tasks.len() {
                assert(w.tasks[a] == v.tasks[a]);
            }
        }
    }
    if !blank(title) && has_id(v.tasks, id) {
        let i = index_of(v.tasks, id);
        let w = after_update(v, id, title, is_completed);
        assert forall|a: int, b: int| 0 <= a < b < w.tasks.len() implies #[trigger] w.tasks[a].id
            != #[trigger] w.tasks[b].id by {
            assert(w.tasks[a].id == v.tasks[a].id && w.tasks[b].id == v.tasks[b].id);
        }
        assert forall|a: int| 0 <= a < w.tasks.len() implies 1 <= #[trigger] w.tasks[a].id
            < w.next_id by {
            assert(w.tasks[a].id == v.tasks[a].id);
        }
    }
    if has_id(v.tasks, id) {
        let i = index_of(v.tasks, id);
        let w = after_delete(v, id);
        assert forall|a: int, b: int| 0 <= a < b < w.tasks.len() implies #[trigger] w.tasks[a].id
            != #[trigger] w.tasks[b].id by {
            let a2 = if a < i { a } else { a + 1 };
            let b2 = if b < i { b } else { b + 1 };
            assert(w.tasks[a] == v.tasks[a2] && w.tasks[b] == v.tasks[b2]);
        }
        assert forall|a: int| 0 <= a < w.tasks.len() implies 1 <= #[trigger] w.tasks[a].id
            < w.next_id by {
            let a2 = if a < i { a } else { a + 1 };
            assert(w.tasks[a] == v.tasks[a2]);
        }
    }
}

/// Adding a task with a blank title changes nothing and needs no remote call.
pub proof fn lemma_blank_add_changes_nothing(v: AppView, title: Seq<char>, todoist_id: Seq<char>)
    requires
        blank(title),
    ensures
        add_call(title) is None,
        after_add(v, title, todoist_id) == v,
{
}

/// Deleting an id that no task carries changes nothing and needs no remote call.
pub proof fn lemma_unknown_delete_changes_nothing(v: AppView, id: nat)
    requires
        !has_id(v.tasks, id),
    ensures
        delete_call(v, id) is None,
        after_delete(v, id) == v,
{
}

/// Rebuilding a registry from the rows that it persisted gives back the same
/// tasks, with their ids, remote ids, titles and completion flags.
pub proof fn lemma_persist_round_trip(v: AppView)
    requires
        v.wf(),
    ensures
        restored(v.tasks).tasks == v.tasks,
        restored(v.tasks).wf(),
{
    assert(valid_rows(v.tasks));
    lemma_max_id_bounds(v.tasks);
}

/// Entering an insert mode starts from a buffer that depends only on the
/// registry and its selection: whatever an earlier session had typed is
/// discarded.
pub proof fn lemma_insert_sessions_do_not_overlap(v: AppView, w: AppView)
    requires
        v.tasks == w.tasks,
        v.next_id == w.next_id,
        v.selected == w.selected,
    ensures
        add_entered(v) == add_entered(w),
        edit_entered(v) == edit_entered(w),
{
}

/// The registry of tasks, the selection, and the interaction mode with its
/// text buffer.
pub struct App {
    tasks: Vec<Task>,
    next_id: usize,
    selected: Option<usize>,
    mode: Mode,
    input_buffer: String,
}

impl View for App {
    type V = AppView;

    closed spec fn view(&self) -> AppView {
        AppView {
            tasks: views(self.tasks@),
            next_id: self.next_id as nat,
            selected: self.selected,
            mode: self.mode,
            buffer: self.input_buffer@,
        }
    }
}

impl App {
    /// Rebuilds the registry from the rows of the durable store. Rows with an
    /// id of 0, a repeated id or the largest machine integer as id are not
    /// trusted, and give an empty registry.
    pub fn new(rows: Vec<Task>) -> (r: App)
        ensures
            r@ == restored(views(rows@)),
            r@.wf(),
    {
        let ghost rv = views(rows@);
        let n = rows.len();
        let mut ok = true;
        let mut m: usize = 0;
        let mut i: usize = 0;
        while i < n
            invariant
                n == rows@.len(),
                rv == views(rows@),
                i <= n,
                m == max_id(rv.subrange(0, i as int)),
                ok == forall|k: int| 0 <= k < i ==> 1 <= #[trigger] rv[k].id < usize::MAX,
            decreases n - i,
        {
            let id = rows[i].id;
            assert(rv[i as int].id == id as nat);
            if id == 0 || id == usize::MAX {
                ok = false;
            }
            proof {
                assert(rv.subrange(0, i + 1).drop_last() =~= rv.subrange(0, i as int));
            }
            if id > m {
                m = id;
            }
            i = i + 1;
        }
        proof {
            assert(rv.subrange(0, n as int) =~= rv);
        }
        let mut a: usize = 0;
        while ok && a < n
            invariant
                n == rows@.len(),
                rv == views(rows@),
                a <= n,
                ok ==> forall|x: int, y: int|
                    0 <= x < y < n && x < a ==> #[trigger] rv[x].id != #[trigger] rv[y].id,
                ok ==> forall|k: int| 0 <= k < n ==> 1 <= #[trigger] rv[k].id < usize::MAX,
                m == max_id(rv),
                !ok ==> !valid_rows(rv),
            decreases n - a,
        {
            let mut b: usize = a + 1;
            while ok && b < n
                invariant
                    n == rows@.len(),
                    rv == views(rows@),
                    a < n,
                    a + 1 <= b <= n,
                    ok ==> forall|x: int, y: int|
                        0 <= x < y < n && x < a ==> #[trigger] rv[x].id != #[trigger] rv[y].id,
                    ok ==> forall|y: int| a < y < b ==> rv[a as int].id != #[trigger] rv[y].id,
                    ok ==> forall|k: int| 0 <= k < n ==> 1 <= #[trigger] rv[k].id < usize::MAX,
                    !ok ==> !valid_rows(rv),
                decreases n - b,
            {
                if rows[a].id == rows[b].id {
                    assert(rv[a as int].id == rv[b as int].id);
                    ok = false;
                }
                b = b + 1;
            }
            a = a + 1;
        }
        if ok {
            proof {
                lemma_max_id_bounds(rv);
            }
            let selected = if n == 0 { None } else { Some(0) };
            App { tasks: rows, next_id: m + 1, selected, mode: Mode::Normal, input_buffer: String::new() }
        } else {
            let tasks: Vec<Task> = Vec::new();
            proof {
                assert(views(tasks@) =~= Seq::<TaskView>::empty());
            }
            App {
                tasks,
                next_id: 1,
                selected: None,
                mode: Mode::Normal,
                input_buffer: String::new(),
            }
        }
    }

    /// The tasks, in order.
    pub fn tasks(&self) -> (r: &Vec<Task>)
        ensures
            views(r@) == self@.tasks,
    {
        &self.tasks
    }

    /// The index of the selected task, if any.
    pub fn selected(&self) -> (r: Option<usize>)
        ensures
            r == self@.selected,
    {
        self.selected
    }

    /// The current interaction mode.
    pub fn mode(&self) -> (r: Mode)
        ensures
            r == self@.mode,
    {
        self.mode
    }

    /// The text entered so far in an insert mode.
    pub fn input_buffer(&self) -> (r: &String)
        ensures
            r@ == self@.buffer,
    {
        &self.input_buffer
    }

    /// The next local id that an added task would receive.
    pub fn next_id(&self) -> (r: usize)
        ensures
            r == self@.next_id,
    {
        self.next_id
    }

    /// The position of the task with the given local id.
    fn find_index(&self, id: usize) -> (r: Option<usize>)
        requires
            self@.wf(),
        ensures
            r is None <==> !has_id(self@.tasks, id as nat),
            r matches Some(i) ==> i < self@.tasks.len() && i == index_of(self@.tasks, id as nat),
    {
        let n = self.tasks.len();
        let mut i: usize = 0;
        while i < n
            invariant
                self@.wf(),
                n == self@.tasks.len(),
                self@.tasks == views(self.tasks@),
                i <= n,
                forall|k: int| 0 <= k < i ==> #[trigger] self@.tasks[k].id != id,
            decreases n - i,
        {
            if self.tasks[i].id == id {
                proof {
                    let t = self@.tasks;
                    assert(t[i as int].id == id);
                    assert(has_id(t, id as nat));
                    let j = index_of(t, id as nat);
                    assert(0 <= j < t.len() && t[j].id == id);
                    if j != i {
                        if j < i {
                            assert(t[j].id != t[i as int].id);
                        } else {
                            assert(t[i as int].id != t[j].id);
                        }
                    }
                }
                return Some(i);
            }
            i = i + 1;
        }
        None
    }

    /// The remote call that adding a task with this title needs, if any.
    pub fn request_add(&self, title: &str) -> (r: Option<RemoteCall>)
        ensures
            call_view(r) == add_call(title@),
    {
        if is_blank(title) {
            None
        } else {
            Some(RemoteCall::Create { title: title.to_string() })
        }
    }

    /// The remote call that updating the task with this id needs, if any.
    pub fn request_update(&self, id: usize, title: &str, is_completed: bool) -> (r: Option<
        RemoteCall,
    >)
        requires
            self@.wf(),
        ensures
            call_view(r) == update_call(self@, id as nat, title@, is_completed),
    {
        match self.find_index(id) {
            None => None,
            Some(i) => {
                if is_blank(title) {
                    None
                } else {
                    Some(
                        RemoteCall::Update {
                            id,
                            todoist_id: self.tasks[i].todoist_id.clone(),
                            title: title.to_string(),
                            is_completed,
                        },
                    )
                }
            },
        }
    }

    /// The remote call that deleting the task with this id needs, if any.
    pub fn request_delete(&self, id: usize) -> (r: Option<RemoteCall>)
        requires
            self@.wf(),
        ensures
            call_view(r) == delete_call(self@, id as nat),
    {
        match self.find_index(id) {
            None => None,
            Some(i) => Some(RemoteCall::Delete { id, todoist_id: self.tasks[i].todoist_id.clone() }),
        }
    }

    /// Adds a task once the remote service has answered its creation. A blank
    /// title is ignored; a failed creation leaves everything as it was. `Ok(true)`
    /// means the registry changed and is to be persisted.
    pub fn add_task(&mut self, title: &str, created: Result<String, SyncError>) -> (r: Result<
        bool,
        SyncError,
    >)
        requires
            old(self)@.wf(),
            !blank(title@) ==> old(self)@.next_id < usize::MAX,
        ensures
            final(self)@.wf(),
            blank(title@) ==> r == Ok::<bool, SyncError>(false) && final(self)@ == old(self)@,
            !blank(title@) ==> match created {
                Ok(rid) => r == Ok::<bool, SyncError>(true) && final(self)@ == after_add(
                    old(self)@,
                    title@,
                    rid@,
                ),
                Err(e) => r == Err::<bool, SyncError>(e) && final(self)@ == old(self)@,
            },
    {
        if is_blank(title) {
            return Ok(false);
        }
        let rid = match created {
            Ok(rid) => rid,
            Err(e) => return Err(e),
        };
        let ghost pre = self@;
        let t = Task { id: self.next_id, todoist_id: rid, title: title.to_string(), is_completed: false };
        let ghost tv = t@;
        self.tasks.push(t);
        self.next_id = self.next_id + 1;
        self.selected = Some(self.tasks.len() - 1);
        proof {
            assert(self@.tasks =~= pre.tasks.push(tv));
        }
        Ok(true)
    }

    /// Changes a task's title and completion flag once the remote service has
    /// accepted the change. A blank title or an unknown id is ignored; a failed
    /// update leaves everything as it was.
    pub fn update_task(
        &mut self,
        id: usize,
        title: &str,
        is_completed: bool,
        outcome: Result<(), SyncError>,
    ) -> (r: Result<bool, SyncError>)
        requires
            old(self)@.wf(),
        ensures
            final(self)@.wf(),
            update_call(old(self)@, id as nat, title@, is_completed) is None ==> r == Ok::<
                bool,
                SyncError,
            >(false) && final(self)@ == old(self)@,
            update_call(old(self)@, id as nat, title@, is_completed) is Some ==> match outcome {
                Ok(_) => r == Ok::<bool, SyncError>(true) && final(self)@ == after_update(
                    old(self)@,
                    id as nat,
                    title@,
                    is_completed,
                ),
                Err(e) => r == Err::<bool, SyncError>(e) && final(self)@ == old(self)@,
            },
    {
        let i = match self.find_index(id) {
            None => return Ok(false),
            Some(i) => i,
        };
        if is_blank(title) {
            return Ok(false);
        }
        if let Err(e) = outcome {
            return Err(e);
        }
        let ghost pre = self@;
        let old_task = self.tasks.remove(i);
        let t = Task { id: old_task.id, todoist_id: old_task.todoist_id, title: title.to_string(), is_completed };
        let ghost tv = t@;
        self.tasks.insert(i, t);
        proof {
            assert(self@.tasks =~= pre.tasks.update(i as int, tv));
            assert(tv == TaskView { title: title@, is_completed, ..pre.tasks[i as int] });
        }
        Ok(true)
    }

    /// Removes a task once the remote service has deleted it, and repairs the
    /// selection. An unknown id is ignored; a failed deletion leaves the task
    /// in place.
    pub fn delete_task(&mut self, id: usize, outcome: Result<(), SyncError>) -> (r: Result<
        bool,
        SyncError,
    >)
        requires
            old(self)@.wf(),
        ensures
            final(self)@.wf(),
            !has_id(old(self)@.tasks, id as nat) ==> r == Ok::<bool, SyncError>(false)
                && final(self)@ == old(self)@,
            has_id(old(self)@.tasks, id as nat) ==> match outcome {
                Ok(_) => r == Ok::<bool, SyncError>(true) && final(self)@ == after_delete(
                    old(self)@,
                    id as nat,
                ),
                Err(e) => r == Err::<bool, SyncError>(e) && final(self)@ == old(self)@,
            },
    {
        let i = match self.find_index(id) {
            None => return Ok(false),
            Some(i) => i,
        };
        if let Err(e) = outcome {
            return Err(e);
        }
        let ghost pre = self@;
        self.tasks.remove(i);
        let n = self.tasks.len();
        self.selected = if n == 0 {
            None
        } else {
            match self.selected {
                Some(s) => if i <= s && s > 0 { Some(s - 1) } else { Some(s) },
                None => Some(0),
            }
        };
        proof {
            assert(self@.tasks =~= pre.tasks.remove(i as int));
            lemma_mutations_keep_ids(pre, Seq::empty(), Seq::empty(), id as nat, false, Seq::empty());
        }
        Ok(true)
    }

    /// Replaces the registry with a full list fetched from the remote service,
    /// giving the fetched tasks fresh local ids in the order received. A failed
    /// fetch leaves everything as it was.
    pub fn sync_tasks(&mut self, fetched: Result<Vec<Task>, SyncError>) -> (r: Result<(), SyncError>)
        requires
            old(self)@.wf(),
            fetched matches Ok(f) ==> old(self)@.next_id + f@.len() <= usize::MAX,
        ensures
            final(self)@.wf(),
            match fetched {
                Ok(f) => r is Ok && final(self)@ == after_sync(old(self)@, views(f@)),
                Err(e) => r == Err::<(), SyncError>(e) && final(self)@ == old(self)@,
            },
    {
        let f = match fetched {
            Ok(f) => f,
            Err(e) => return Err(e),
        };
        let ghost pre = self@;
        let ghost fv = views(f@);
        let start = self.next_id;
        let n = f.len();
        let mut tasks: Vec<Task> = Vec::new();
        let mut i: usize = 0;
        while i < n
            invariant
                n == f@.len(),
                fv == views(f@),
                start + n <= usize::MAX,
                i <= n,
                tasks@.len() == i,
                forall|k: int| 0 <= k < i ==> #[trigger] views(tasks@)[k] == renumbered(fv, start as nat)[k],
            decreases n - i,
        {
            let t = &f[i];
            let nt = Task {
                id: start + i,
                todoist_id: t.todoist_id.clone(),
                title: t.title.clone(),
                is_completed: t.is_completed,
            };
            let ghost prev = tasks@;
            tasks.push(nt);
            proof {
                assert(tasks@ == prev.push(nt));
                assert forall|k: int| 0 <= k < i + 1 implies #[trigger] views(tasks@)[k] == renumbered(fv, start as nat)[k] by {
                    if k < i {
                        assert(views(tasks@)[k] == views(prev)[k]);
                    }
                }
            }
            i = i + 1;
        }
        self.tasks = tasks;
        self.next_id = start + n;
        self.selected = if n == 0 {
            None
        } else {
            match self.selected {
                Some(s) => if s < n { Some(s) } else { Some(0) },
                None => Some(0),
            }
        };
        proof {
            assert(self@.tasks =~= renumbered(fv, start as nat));
        }
        Ok(())
    }

    /// Starts entering the title of a new task; unsaved input is discarded.
    pub fn enter_insert_add_mode(&mut self)
        requires
            old(self)@.wf(),
        ensures
            final(self)@ == add_entered(old(self)@),
            final(self)@.wf(),
    {
        self.input_buffer = String::new();
        self.mode = Mode::InsertAdd;
    }

    /// Starts editing the selected task, with its title as the initial input;
    /// unsaved input is discarded.
    pub fn enter_insert_edit_mode(&mut self)
        requires
            old(self)@.wf(),
            old(self)@.selected is Some,
        ensures
            final(self)@ == edit_entered(old(self)@),
            final(self)@.wf(),
    {
        let i = match self.selected {
            Some(i) => i,
            None => 0,
        };
        self.input_buffer = self.tasks[i].title.clone();
        self.mode = Mode::InsertEdit { target: self.tasks[i].id };
    }

    /// Leaves an insert mode, handing back the remote call that saving the
    /// input needs, if any.
    pub fn exit_insert_mode(&mut self) -> (r: Option<RemoteCall>)
        requires
            old(self)@.wf(),
        ensures
            call_view(r) == commit_call(old(self)@),
            final(self)@ == left_insert(old(self)@),
            final(self)@.wf(),
    {
        let call = if is_blank(self.input_buffer.as_str()) {
            None
        } else {
            match self.mode {
                Mode::Normal => None,
                Mode::InsertAdd => self.request_add(self.input_buffer.as_str()),
                Mode::InsertEdit { target } => match self.find_index(target) {
                    Some(i) => self.request_update(
                        target,
                        self.input_buffer.as_str(),
                        self.tasks[i].is_completed,
                    ),
                    None => self.request_add(self.input_buffer.as_str()),
                },
            }
        };
        self.mode = Mode::Normal;
        self.input_buffer = String::new();
        call
    }

    /// Leaves an insert mode without saving the input.
    pub fn cancel_insert_mode(&mut self)
        requires
            old(self)@.wf(),
        ensures
            final(self)@ == left_insert(old(self)@),
            final(self)@.wf(),
    {
        self.mode = Mode::Normal;
        self.input_buffer = String::new();
    }

    /// Appends a typed character to the input, in an insert mode.
    pub fn handle_input(&mut self, c: char)
        requires
            old(self)@.wf(),
        ensures
            final(self)@ == typed(old(self)@, c),
            final(self)@.wf(),
    {
        if let Mode::Normal = self.mode {
            return;
        }
        push_char(&mut self.input_buffer, c);
    }

    /// Removes the last character of the input, in an insert mode.
    pub fn handle_backspace(&mut self)
        requires
            old(self)@.wf(),
        ensures
            final(self)@ == erased(old(self)@),
            final(self)@.wf(),
    {
        if let Mode::Normal = self.mode {
            return;
        }
        pop_char(&mut self.input_buffer);
    }

    /// Handles one key: navigation and mode changes happen here; a mutation
    /// comes back as the remote call to perform.
    pub fn handle_key(&mut self, key: Key) -> (r: Action)
        requires
            old(self)@.wf(),
        ensures
            final(self)@ == key_state(old(self)@, key),
            r@ == key_action(old(self)@, key),
            final(self)@.wf(),
    {
        match self.mode {
            Mode::Normal => match key {
                Key::Char('q') => Action::Quit,
                Key::Char('j') => {
                    self.next();
                    Action::Continue
                },
                Key::Char('k') => {
                    self.previous();
                    Action::Continue
                },
                Key::Char('i') => {
                    if self.selected.is_some() {
                        self.enter_insert_edit_mode();
                    }
                    Action::Continue
                },
                Key::Char('a') => {
                    self.enter_insert_add_mode();
                    Action::Continue
                },
                Key::Char('d') => {
                    match self.selected {
                        Some(i) => if i < self.tasks.len() {
                            match self.request_delete(self.tasks[i].id) {
                                Some(c) => Action::Call(c),
                                None => Action::Continue,
                            }
                        } else {
                            Action::Continue
                        },
                        None => Action::Continue,
                    }
                },
                _ => Action::Continue,
            },
            _ => match key {
                Key::Enter => match self.exit_insert_mode() {
                    Some(c) => Action::Call(c),
                    None => Action::Continue,
                },
                Key::Esc => {
                    self.cancel_insert_mode();
                    Action::Continue
                },
                Key::Char(c) => {
                    self.handle_input(c);
                    Action::Continue
                },
                Key::Backspace => {
                    self.handle_backspace();
                    Action::Continue
                },
                Key::Other => Action::Continue,
            },
        }
    }

    /// Moves the selection to the next task, wrapping round at the end.
    pub fn next(&mut self)
        requires
            old(self)@.wf(),
        ensures
            final(self)@ == old(self)@.with_selected(
                next_selection(old(self)@.tasks.len(), old(self)@.selected),
            ),
            final(self)@.wf(),
    {
        let n = self.tasks.len();
        if n == 0 {
            self.selected = None;
            return;
        }
        let i = match self.selected {
            Some(i) => (i + 1) % n,
            None => 0,
        };
        self.selected = Some(i);
    }

    /// Moves the selection to the previous task, wrapping round at the start.
    pub fn previous(&mut self)
        requires
            old(self)@.wf(),
        ensures
            final(self)@ == old(self)@.with_selected(
                previous_selection(old(self)@.tasks.len(), old(self)@.selected),
            ),
            final(self)@.wf(),
    {
        let n = self.tasks.len();
        if n == 0 {
            self.selected = None;
            return;
        }
        let i = match self.selected {
            Some(i) => if i == 0 { n - 1 } else { i - 1 },
            None => 0,
        };
        self.selected = Some(i);
    }
}

} // verus!
