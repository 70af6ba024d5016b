//! The task queue and concurrency scheduler.
//!
//! The scheduler owns the runtime state of every task it has accepted.  It
//! decides; the caller acts: each operation changes the state and says which
//! tasks to start and which process to signal.  Tasks wait in the order in
//! which they were submitted, and a waiting task is started only while fewer
//! tasks are active than the ceiling allows.

use vstd::prelude::*;
use vstd::string::*;
use crate::error::ConversionError;
use crate::text::{push_owned, push_signed_decimal, signed_decimal, str_eq, views};
use crate::types::ConversionTask;
use crate::validate::{first_of, reports, task_finding, validate_task_input, InputFile};

verus! {

/// The runtime state of a task.
#[derive(Debug)]
pub enum TaskState {
    /// Accepted and waiting for a free slot.
    Queued,
    /// Started; `pid` is the process that currently works for it, once one
    /// has been reported.
    Running { pid: Option<u32> },
    /// Started and suspended.
    Paused { pid: Option<u32> },
    Completed,
    Failed { reason: String },
    Cancelled,
}

/// A runtime state as plain values.
pub enum StateView {
    Queued,
    Running { pid: Option<u32> },
    Paused { pid: Option<u32> },
    Completed,
    Failed { reason: Seq<char> },
    Cancelled,
}

impl View for TaskState {
    type V = StateView;

    open spec fn view(&self) -> StateView {
        match self {
            TaskState::Queued => StateView::Queued,
            TaskState::Running { pid } => StateView::Running { pid: *pid },
            TaskState::Paused { pid } => StateView::Paused { pid: *pid },
            TaskState::Completed => StateView::Completed,
            TaskState::Failed { reason } => StateView::Failed { reason: reason@ },
            TaskState::Cancelled => StateView::Cancelled,
        }
    }
}

/// A task that the scheduler knows, with its state.
#[derive(Debug)]
pub struct TaskEntry {
    pub id: String,
    pub state: TaskState,
}

pub struct EntryView {
    pub id: Seq<char>,
    pub state: StateView,
}

impl View for TaskEntry {
    type V = EntryView;

    open spec fn view(&self) -> EntryView {
        EntryView { id: self.id@, state: self.state@ }
    }
}

/// How a task ended.
#[derive(Debug)]
pub enum Outcome {
    Completed,
    Failed(String),
}

/// How a process ended, as its exit status tells: zero is success, any
/// other or a missing status is a failure of the worker.
pub open spec fn exit_outcome(code: Option<i32>) -> StateView {
    match code {
        Some(n) => if n == 0 {
            StateView::Completed
        } else {
            StateView::Failed { reason: "Process exited with code "@ + signed_decimal(n as int) }
        },
        None => StateView::Failed { reason: "Process ended without an exit code"@ },
    }
}

/// Reads how a process ended from its exit status.
pub fn outcome_of_exit(code: Option<i32>) -> (r: Outcome)
    ensures
        outcome_state(r) == exit_outcome(code),
{
    match code {
        Some(n) => {
            if n == 0 {
                Outcome::Completed
            } else {
                let mut reason = String::from_str("Process exited with code ");
                push_signed_decimal(&mut reason, n as i64);
                Outcome::Failed(reason)
            }
        },
        None => Outcome::Failed(String::from_str("Process ended without an exit code")),
    }
}

/// What a worker reports to the scheduler.
#[derive(Debug)]
pub enum ManagerMessage {
    /// A process has been started for the task.  A pipeline sends one report
    /// per stage.
    TaskStarted(String, u32),
    /// The task has ended.
    TaskFinished(String, Outcome),
}

/// What the caller does after a control command.
#[derive(Clone, Copy, Debug, PartialEq, Eq, Structural)]
pub enum Control {
    /// Forward the command to this process.
    Signal { pid: u32 },
    /// The task is known and there is no process to signal.
    Nothing,
    /// No task has the id.
    NotFound,
}

/// The scheduler: the ceiling and the tasks in the order of submission.
/// Its fields are its own: a scheduler is made by `new` and changed by its
/// operations only, each of which keeps it well formed.
#[derive(Debug)]
pub struct Scheduler {
    pub(crate) limit: usize,
    pub(crate) tasks: Vec<TaskEntry>,
}

pub struct SchedulerView {
    pub limit: nat,
    pub tasks: Seq<EntryView>,
}

pub open spec fn entry_views(tasks: Seq<TaskEntry>) -> Seq<EntryView> {
    Seq::new(tasks.len(), |k: int| tasks[k]@)
}

impl View for Scheduler {
    type V = SchedulerView;

    closed spec fn view(&self) -> SchedulerView {
        SchedulerView { limit: self.limit as nat, tasks: entry_views(self.tasks@) }
    }
}

/// A task is active while it holds a slot.
pub open spec fn is_active(state: StateView) -> bool {
    state is Running || state is Paused
}

pub open spec fn is_terminal(state: StateView) -> bool {
    state is Completed || state is Failed || state is Cancelled
}

/// The number of active tasks.
pub open spec fn active_count(tasks: Seq<EntryView>) -> nat
    decreases tasks.len(),
{
    if tasks.len() == 0 {
        0
    } else {
        active_count(tasks.drop_last()) + if is_active(tasks.last().state) {
            1nat
        } else {
            0nat
        }
    }
}

/// The number of waiting tasks.
pub open spec fn queued_count(tasks: Seq<EntryView>) -> nat
    decreases tasks.len(),
{
    if tasks.len() == 0 {
        0
    } else {
        queued_count(tasks.drop_last()) + if tasks.last().state is Queued {
            1nat
        } else {
            0nat
        }
    }
}

pub open spec fn has_task(tasks: Seq<EntryView>, id: Seq<char>) -> bool {
    exists|k: int| 0 <= k < tasks.len() && (#[trigger] tasks[k]).id == id
}

pub open spec fn distinct_ids(tasks: Seq<EntryView>) -> bool {
    forall|i: int, j: int|
        0 <= i < j < tasks.len() ==> (#[trigger] tasks[i]).id != (#[trigger] tasks[j]).id
}

/// The state of the task with the given id.
pub open spec fn state_of(tasks: Seq<EntryView>, id: Seq<char>) -> StateView
    recommends
        has_task(tasks, id),
{
    tasks[choose|k: int| 0 <= k < tasks.len() && (#[trigger] tasks[k]).id == id].state
}

/// The slots that are free under `limit`.
pub open spec fn free_slots(limit: nat, tasks: Seq<EntryView>) -> nat {
    if limit > active_count(tasks) {
        (limit - active_count(tasks)) as nat
    } else {
        0
    }
}

/// Whether admission starts the task at position `k`: it waits, and fewer
/// than `free` tasks wait before it.
pub open spec fn starts_at(tasks: Seq<EntryView>, free: nat, k: int) -> bool {
    tasks[k].state is Queued && queued_count(tasks.take(k)) < free
}

/// The tasks after admission into `free` slots: the first `free` waiting
/// tasks, in the order of submission, run.
pub open spec fn admitted(tasks: Seq<EntryView>, free: nat) -> Seq<EntryView> {
    Seq::new(
        tasks.len(),
        |k: int|
            if starts_at(tasks, free, k) {
                EntryView { id: tasks[k].id, state: StateView::Running { pid: None } }
            } else {
                tasks[k]
            },
    )
}

/// The ids of the tasks that admission starts, in the order of submission.
pub open spec fn started_ids(tasks: Seq<EntryView>, free: nat) -> Seq<Seq<char>>
    decreases tasks.len(),
{
    if tasks.len() == 0 {
        Seq::empty()
    } else if starts_at(tasks, free, tasks.len() - 1) {
        started_ids(tasks.drop_last(), free).push(tasks.last().id)
    } else {
        started_ids(tasks.drop_last(), free)
    }
}

/// The tasks with the state of the task `id` replaced by what `change`
/// makes of it.
pub open spec fn changed(
    tasks: Seq<EntryView>,
    id: Seq<char>,
    change: spec_fn(StateView) -> StateView,
) -> Seq<EntryView> {
    Seq::new(
        tasks.len(),
        |k: int|
            if tasks[k].id == id {
                EntryView { id: tasks[k].id, state: change(tasks[k].state) }
            } else {
                tasks[k]
            },
    )
}

pub open spec fn after_pause(state: StateView) -> StateView {
    match state {
        StateView::Running { pid: Some(p) } => StateView::Paused { pid: Some(p) },
        _ => state,
    }
}

pub open spec fn after_resume(state: StateView) -> StateView {
    match state {
        StateView::Paused { pid: Some(p) } => StateView::Running { pid: Some(p) },
        _ => state,
    }
}

pub open spec fn after_cancel(state: StateView) -> StateView {
    if is_terminal(state) {
        state
    } else {
        StateView::Cancelled
    }
}

pub open spec fn after_start(state: StateView, pid: u32) -> StateView {
    match state {
        StateView::Running { .. } => StateView::Running { pid: Some(pid) },
        StateView::Paused { .. } => StateView::Paused { pid: Some(pid) },
        _ => state,
    }
}

pub open spec fn outcome_state(outcome: Outcome) -> StateView {
    match outcome {
        Outcome::Completed => StateView::Completed,
        Outcome::Failed(reason) => StateView::Failed { reason: reason@ },
    }
}

pub open spec fn after_finish(state: StateView, outcome: Outcome) -> StateView {
    if is_active(state) {
        outcome_state(outcome)
    } else {
        state
    }
}

/// The process of an active task.
pub open spec fn process_of(state: StateView) -> Option<u32> {
    match state {
        StateView::Running { pid } => pid,
        StateView::Paused { pid } => pid,
        _ => None,
    }
}

pub open spec fn signal(pid: Option<u32>) -> Control {
    match pid {
        Some(p) => Control::Signal { pid: p },
        None => Control::Nothing,
    }
}

/// What a pause leads to: the process of a running task is signalled.
pub open spec fn pause_control(tasks: Seq<EntryView>, id: Seq<char>) -> Control {
    if !has_task(tasks, id) {
        Control::NotFound
    } else if state_of(tasks, id) is Running {
        signal(process_of(state_of(tasks, id)))
    } else {
        Control::Nothing
    }
}

/// What a resume leads to: the process of a paused task is signalled.
pub open spec fn resume_control(tasks: Seq<EntryView>, id: Seq<char>) -> Control {
    if !has_task(tasks, id) {
        Control::NotFound
    } else if state_of(tasks, id) is Paused {
        signal(process_of(state_of(tasks, id)))
    } else {
        Control::Nothing
    }
}

/// What a cancel leads to: the process of an active task is signalled.
pub open spec fn cancel_control(tasks: Seq<EntryView>, id: Seq<char>) -> Control {
    if !has_task(tasks, id) {
        Control::NotFound
    } else {
        signal(process_of(state_of(tasks, id)))
    }
}

pub proof fn lemma_count_prefix(tasks: Seq<EntryView>, k: int)
    requires
        0 <= k < tasks.len(),
    ensures
        queued_count(tasks.take(k + 1)) == queued_count(tasks.take(k)) + if tasks[k].state
            is Queued {
            1nat
        } else {
            0nat
        },
        active_count(tasks.take(k + 1)) == active_count(tasks.take(k)) + if is_active(
            tasks[k].state,
        ) {
            1nat
        } else {
            0nat
        },
{
    assert(tasks.take(k + 1).drop_last() =~= tasks.take(k));
}

/// Admission fills free slots and nothing more: the active tasks grow by
/// the waiting tasks, as far as slots are free.
pub proof fn lemma_admitted_counts(tasks: Seq<EntryView>, free: nat)
    ensures
        active_count(admitted(tasks, free)) == active_count(tasks) + if queued_count(tasks)
            < free {
            queued_count(tasks)
        } else {
            free
        },
        queued_count(admitted(tasks, free)) == queued_count(tasks) - if queued_count(tasks)
            < free {
            queued_count(tasks)
        } else {
            free
        },
        started_ids(tasks, free).len() == if queued_count(tasks) < free {
            queued_count(tasks)
        } else {
            free
        },
    decreases tasks.len(),
{
    if tasks.len() > 0 {
        let rest = tasks.drop_last();
        lemma_admitted_counts(rest, free);
        assert(admitted(tasks, free).drop_last() =~= admitted(rest, free)) by {
            assert forall|k: int| 0 <= k < rest.len() implies starts_at(tasks, free, k)
                == starts_at(rest, free, k) by {
                assert(tasks.take(k) =~= rest.take(k));
            }
        }
        assert(tasks.take(tasks.len() - 1) =~= rest);
    }
}

/// Under a ceiling that is not exceeded before, admission into the free
/// slots does not exceed it, and leaves no task waiting beside a free slot.
pub proof fn lemma_admission_bounded(tasks: Seq<EntryView>, limit: nat)
    ensures
        active_count(tasks) <= limit ==> active_count(admitted(tasks, free_slots(limit, tasks)))
            <= limit,
        active_count(admitted(tasks, free_slots(limit, tasks))) <= active_count(tasks)
            || active_count(admitted(tasks, free_slots(limit, tasks))) <= limit,
        queued_count(admitted(tasks, free_slots(limit, tasks))) > 0 ==> active_count(
            admitted(tasks, free_slots(limit, tasks)),
        ) >= limit,
{
    lemma_admitted_counts(tasks, free_slots(limit, tasks));
}

/// Admission is first in, first out: a task that admission leaves waiting
/// has no later task started past it.
pub proof fn lemma_admission_fifo(tasks: Seq<EntryView>, free: nat, i: int, j: int)
    requires
        0 <= i < j < tasks.len(),
        tasks[i].state is Queued,
        starts_at(tasks, free, j),
    ensures
        starts_at(tasks, free, i),
{
    lemma_queued_prefix_monotone(tasks, i, j);
}

proof fn lemma_queued_prefix_monotone(tasks: Seq<EntryView>, i: int, j: int)
    requires
        0 <= i <= j <= tasks.len(),
    ensures
        queued_count(tasks.take(i)) <= queued_count(tasks.take(j)),
    decreases j - i,
{
    if i < j {
        lemma_queued_prefix_monotone(tasks, i, j - 1);
        lemma_count_prefix(tasks, j - 1);
    }
}

proof fn lemma_same_ids_distinct(before: Seq<EntryView>, after: Seq<EntryView>)
    requires
        distinct_ids(before),
        before.len() == after.len(),
        forall|k: int| 0 <= k < before.len() ==> (#[trigger] after[k]).id == before[k].id,
    ensures
        distinct_ids(after),
        forall|id: Seq<char>| has_task(after, id) == has_task(before, id),
{
    assert forall|i: int, j: int| 0 <= i < j < after.len() implies (#[trigger] after[i]).id != (
    #[trigger] after[j]).id by {
        assert(before[i].id != before[j].id);
    }
    assert forall|id: Seq<char>| has_task(after, id) == has_task(before, id) by {
        if has_task(after, id) {
            let k = choose|k: int| 0 <= k < after.len() && (#[trigger] after[k]).id == id;
            assert(before[k].id == id);
        }
        if has_task(before, id) {
            let k = choose|k: int| 0 <= k < before.len() && (#[trigger] before[k]).id == id;
            assert(after[k].id == id);
        }
    }
}

impl Scheduler {
    /// The ceiling is at least one, and no two tasks share an id.
    pub open spec fn wf(&self) -> bool {
        &&& self@.limit >= 1
        &&& distinct_ids(self@.tasks)
    }

    /// No more tasks are active than the ceiling allows.
    pub open spec fn within_ceiling(&self) -> bool {
        active_count(self@.tasks) <= self@.limit
    }

    /// A scheduler without tasks.  A ceiling of zero counts as one.
    pub fn new(limit: usize) -> (s: Scheduler)
        ensures
            s.wf(),
            s.within_ceiling(),
            s@.tasks == Seq::<EntryView>::empty(),
            s@.limit == if limit == 0 {
                1
            } else {
                limit as nat
            },
    {
        let s = Scheduler {
            limit: if limit == 0 {
                1
            } else {
                limit
            },
            tasks: Vec::new(),
        };
        assert(s@.tasks =~= Seq::<EntryView>::empty());
        s
    }

    /// The current ceiling.
    pub fn max_concurrency(&self) -> (r: usize)
        ensures
            r == self@.limit,
    {
        self.limit
    }

    /// Changes the ceiling.  Tasks that run keep running, and no task is
    /// started: the new ceiling counts from the next admission on.  Zero is
    /// refused.
    pub fn set_concurrency(&mut self, limit: usize) -> (r: Result<(), ConversionError>)
        requires
            old(self).wf(),
        ensures
            final(self).wf(),
            final(self)@.tasks == old(self)@.tasks,
            reports(
                r,
                if limit == 0 {
                    Some("Max concurrency must be at least 1"@)
                } else {
                    None
                },
            ),
            final(self)@.limit == if limit == 0 {
                old(self)@.limit
            } else {
                limit as nat
            },
            active_count(old(self)@.tasks) <= limit ==> final(self).within_ceiling(),
    {
        if limit == 0 {
            return Err(
                ConversionError::InvalidInput(
                    String::from_str("Max concurrency must be at least 1"),
                ),
            );
        }
        self.limit = limit;
        Ok(())
    }

    /// The number of active tasks.
    pub fn active(&self) -> (r: usize)
        ensures
            r == active_count(self@.tasks),
    {
        let mut n: usize = 0;
        let mut k: usize = 0;
        assert(self@.tasks.take(0) =~= Seq::<EntryView>::empty());
        while k < self.tasks.len()
            invariant
                k <= self.tasks.len(),
                n == active_count(self@.tasks.take(k as int)),
                n <= k,
            decreases self.tasks.len() - k,
        {
            proof {
                lemma_count_prefix(self@.tasks, k as int);
            }
            match &self.tasks[k].state {
                TaskState::Running { .. } => {
                    n += 1;
                },
                TaskState::Paused { .. } => {
                    n += 1;
                },
                _ => {},
            }
            k += 1;
        }
        assert(self@.tasks.take(self.tasks.len() as int) =~= self@.tasks);
        n
    }

    /// The number of waiting tasks.
    pub fn queued(&self) -> (r: usize)
        ensures
            r == queued_count(self@.tasks),
    {
        let mut n: usize = 0;
        let mut k: usize = 0;
        assert(self@.tasks.take(0) =~= Seq::<EntryView>::empty());
        while k < self.tasks.len()
            invariant
                k <= self.tasks.len(),
                n == queued_count(self@.tasks.take(k as int)),
                n <= k,
            decreases self.tasks.len() - k,
        {
            proof {
                lemma_count_prefix(self@.tasks, k as int);
            }
            match &self.tasks[k].state {
                TaskState::Queued => {
                    n += 1;
                },
                _ => {},
            }
            k += 1;
        }
        assert(self@.tasks.take(self.tasks.len() as int) =~= self@.tasks);
        n
    }

    /// The ids of the tasks, in the order of submission.
    pub fn ids(&self) -> (r: Vec<String>)
        ensures
            views(r@) == Seq::new(self@.tasks.len(), |k: int| self@.tasks[k].id),
    {
        let mut out: Vec<String> = Vec::new();
        let mut k: usize = 0;
        while k < self.tasks.len()
            invariant
                k <= self.tasks.len(),
                out@.len() == k,
                forall|j: int| 0 <= j < k ==> out@[j]@ == self@.tasks[j].id,
            decreases self.tasks.len() - k,
        {
            out.push(self.tasks[k].id.clone());
            k += 1;
        }
        assert(views(out@) =~= Seq::new(self@.tasks.len(), |k: int| self@.tasks[k].id));
        out
    }

    /// The state of the task with the given id, if there is one.
    pub fn state(&self, id: &str) -> (r: Option<TaskState>)
        requires
            self.wf(),
        ensures
            match r {
                Some(state) => has_task(self@.tasks, id@) && state@ == state_of(self@.tasks, id@),
                None => !has_task(self@.tasks, id@),
            },
    {
        match self.find(id) {
            Some(i) => {
                proof {
                    lemma_state_of(self@.tasks, id@, i as int);
                }
                Some(
                    match &self.tasks[i].state {
                        TaskState::Queued => TaskState::Queued,
                        TaskState::Running { pid } => TaskState::Running { pid: *pid },
                        TaskState::Paused { pid } => TaskState::Paused { pid: *pid },
                        TaskState::Completed => TaskState::Completed,
                        TaskState::Failed { reason } => TaskState::Failed { reason: reason.clone() },
                        TaskState::Cancelled => TaskState::Cancelled,
                    },
                )
            },
            None => None,
        }
    }

    fn find(&self, id: &str) -> (r: Option<usize>)
        ensures
            match r {
                Some(i) => i < self.tasks.len() && self@.tasks[i as int].id == id@,
                None => !has_task(self@.tasks, id@),
            },
    {
        let mut k: usize = 0;
        while k < self.tasks.len()
            invariant
                k <= self.tasks.len(),
                forall|j: int| 0 <= j < k ==> (#[trigger] self@.tasks[j]).id != id@,
            decreases self.tasks.len() - k,
        {
            if str_eq(self.tasks[k].id.as_str(), id) {
                return Some(k);
            }
            k += 1;
        }
        None
    }

    /// Starts waiting tasks while slots are free, first in, first out, and
    /// returns their ids in that order.
    pub fn start_waiting(&mut self) -> (started: Vec<String>)
        requires
            old(self).wf(),
        ensures
            final(self).wf(),
            final(self)@.limit == old(self)@.limit,
            final(self)@.tasks == admitted(
                old(self)@.tasks,
                free_slots(old(self)@.limit, old(self)@.tasks),
            ),
            views(started@) == started_ids(
                old(self)@.tasks,
                free_slots(old(self)@.limit, old(self)@.tasks),
            ),
            old(self).within_ceiling() ==> final(self).within_ceiling(),
    {
        let active = self.active();
        let free: usize = if self.limit > active {
            self.limit - active
        } else {
            0
        };
        let ghost before = self@.tasks;
        let mut started: Vec<String> = Vec::new();
        let mut used: usize = 0;
        let mut k: usize = 0;
        proof {
            assert(before.take(0) =~= Seq::<EntryView>::empty());
            assert(views(started@) =~= started_ids(before.take(0), free as nat));
        }
        while k < self.tasks.len()
            invariant
                k <= self.tasks.len(),
                self.tasks.len() == before.len(),
                self.limit == old(self).limit,
                used <= free,
                used <= k,
                used == if queued_count(before.take(k as int)) < free {
                    queued_count(before.take(k as int))
                } else {
                    free as nat
                },
                forall|j: int| 0 <= j < k ==> self@.tasks[j] == admitted(before, free as nat)[j],
                forall|j: int| k <= j < before.len() ==> self@.tasks[j] == before[j],
                views(started@) == started_ids(before.take(k as int), free as nat),
            decreases self.tasks.len() - k,
        {
            proof {
                lemma_count_prefix(before, k as int);
                assert(before.take(k + 1).drop_last() =~= before.take(k as int));
                assert(before.take(k + 1).take(k as int) =~= before.take(k as int));
                assert(before.take(k + 1).last() == before[k as int]);
            }
            let waiting = match &self.tasks[k].state {
                TaskState::Queued => true,
                _ => false,
            };
            if waiting && used < free {
                self.tasks[k].state = TaskState::Running { pid: None };
                push_owned(&mut started, self.tasks[k].id.clone());
                used += 1;
            }
            k += 1;
        }
        proof {
            assert(before.take(before.len() as int) =~= before);
            assert(self@.tasks =~= admitted(before, free as nat));
            lemma_same_ids_distinct(before, self@.tasks);
            lemma_admission_bounded(before, self.limit as nat);
        }
        started
    }

    /// Accepts a task.  The request is validated first; a request that the
    /// validator rejects, or whose id is already known, changes nothing.  An
    /// accepted task joins the end of the queue, and admission follows: the
    /// ids of the tasks to start are returned.
    pub fn submit(&mut self, task: &ConversionTask, input: InputFile) -> (r: Result<
        Vec<String>,
        ConversionError,
    >)
        requires
            old(self).wf(),
        ensures
            final(self).wf(),
            final(self)@.limit == old(self)@.limit,
            match r {
                Ok(started) => {
                    let queue = old(self)@.tasks.push(
                        EntryView { id: task.id@, state: StateView::Queued },
                    );
                    &&& submit_finding(old(self)@.tasks, task, input) is None
                    &&& final(self)@.tasks == admitted(
                        queue,
                        free_slots(old(self)@.limit, queue),
                    )
                    &&& views(started@) == started_ids(queue, free_slots(old(self)@.limit, queue))
                },
                Err(e) => {
                    &&& final(self)@.tasks == old(self)@.tasks
                    &&& e is InvalidInput
                    &&& submit_finding(old(self)@.tasks, task, input) == Some(e.reason())
                },
            },
            old(self).within_ceiling() ==> final(self).within_ceiling(),
    {
        match validate_task_input(task.file_path.as_str(), input, &task.config) {
            Ok(_) => {},
            Err(e) => { return Err(e); },
        }
        if self.find(task.id.as_str()).is_some() {
            return Err(
                ConversionError::InvalidInput(
                    String::from_str("Task already exists: ").concat(task.id.as_str()),
                ),
            );
        }
        let ghost before = self@.tasks;
        self.tasks.push(TaskEntry { id: task.id.clone(), state: TaskState::Queued });
        proof {
            let queue = before.push(EntryView { id: task.id@, state: StateView::Queued });
            assert(self@.tasks =~= queue);
            assert forall|i: int, j: int| 0 <= i < j < queue.len() implies (#[trigger] queue[i]).id
                != (#[trigger] queue[j]).id by {
                if j == before.len() {
                    assert(before[i].id != task.id@);
                } else {
                    assert(before[i].id != before[j].id);
                }
            }
            assert(active_count(queue) == active_count(before)) by {
                assert(queue.drop_last() =~= before);
            }
        }
        Ok(self.start_waiting())
    }

    /// Records the process that works for a task.  A pipeline reports one
    /// process per stage; the last one reported is the one that control
    /// commands reach.
    pub fn task_started(&mut self, id: &str, pid: u32) -> (known: bool)
        requires
            old(self).wf(),
        ensures
            final(self).wf(),
            final(self)@.limit == old(self)@.limit,
            known == has_task(old(self)@.tasks, id@),
            final(self)@.tasks == changed(
                old(self)@.tasks,
                id@,
                |s: StateView| after_start(s, pid),
            ),
            active_count(final(self)@.tasks) == active_count(old(self)@.tasks),
            old(self).within_ceiling() ==> final(self).within_ceiling(),
    {
        let ghost before = self@.tasks;
        let known = match self.find(id) {
            Some(i) => {
                let next = match &self.tasks[i].state {
                    TaskState::Running { .. } => Some(TaskState::Running { pid: Some(pid) }),
                    TaskState::Paused { .. } => Some(TaskState::Paused { pid: Some(pid) }),
                    _ => None,
                };
                if let Some(state) = next {
                    self.tasks[i].state = state;
                }
                true
            },
            None => false,
        };
        proof {
            let after = changed(before, id@, |s: StateView| after_start(s, pid));
            assert(self@.tasks =~= after);
            lemma_same_ids_distinct(before, after);
            lemma_active_kept(before, after);
        }
        known
    }

    /// Records how a task ended and admits waiting tasks into the slot it
    /// leaves.  Only an active task ends; for any other the report changes
    /// nothing.  Returns the ids of the tasks to start.
    pub fn task_finished(&mut self, id: &str, outcome: Outcome) -> (started: Vec<String>)
        requires
            old(self).wf(),
        ensures
            final(self).wf(),
            final(self)@.limit == old(self)@.limit,
            ({
                let ended = changed(old(self)@.tasks, id@, |s: StateView| after_finish(s, outcome));
                &&& final(self)@.tasks == admitted(ended, free_slots(old(self)@.limit, ended))
                &&& views(started@) == started_ids(ended, free_slots(old(self)@.limit, ended))
            }),
            old(self).within_ceiling() ==> final(self).within_ceiling(),
            active_count(final(self)@.tasks) <= active_count(old(self)@.tasks) || final(self).within_ceiling(),
    {
        let ghost before = self@.tasks;
        let ghost ended = changed(before, id@, |s: StateView| after_finish(s, outcome));
        match self.find(id) {
            Some(i) => {
                let active = match &self.tasks[i].state {
                    TaskState::Running { .. } => true,
                    TaskState::Paused { .. } => true,
                    _ => false,
                };
                if active {
                    self.tasks[i].state =
                    match outcome {
                        Outcome::Completed => TaskState::Completed,
                        Outcome::Failed(reason) => TaskState::Failed { reason },
                    };
                }
            },
            None => {},
        }
        proof {
            assert(self@.tasks =~= ended);
            lemma_same_ids_distinct(before, ended);
            lemma_active_not_grown(before, ended);
            lemma_admission_bounded(ended, self.limit as nat);
        }
        self.start_waiting()
    }

    /// Takes a report of a worker, and returns the ids of the tasks to
    /// start: none after a new process, those that admission starts after
    /// the end of a task.
    pub fn on_message(&mut self, message: ManagerMessage) -> (started: Vec<String>)
        requires
            old(self).wf(),
        ensures
            final(self).wf(),
            final(self)@.limit == old(self)@.limit,
            match message {
                ManagerMessage::TaskStarted(id, pid) => {
                    &&& final(self)@.tasks == changed(
                        old(self)@.tasks,
                        id@,
                        |s: StateView| after_start(s, pid),
                    )
                    &&& started@.len() == 0
                },
                ManagerMessage::TaskFinished(id, outcome) => {
                    let ended = changed(
                        old(self)@.tasks,
                        id@,
                        |s: StateView| after_finish(s, outcome),
                    );
                    &&& final(self)@.tasks == admitted(ended, free_slots(old(self)@.limit, ended))
                    &&& views(started@) == started_ids(
                        ended,
                        free_slots(old(self)@.limit, ended),
                    )
                },
            },
            old(self).within_ceiling() ==> final(self).within_ceiling(),
    {
        match message {
            ManagerMessage::TaskStarted(id, pid) => {
                let _ = self.task_started(id.as_str(), pid);
                Vec::new()
            },
            ManagerMessage::TaskFinished(id, outcome) => self.task_finished(id.as_str(), outcome),
        }
    }

    /// Pauses a running task: its state becomes paused, and its process is
    /// to be suspended.  For a task that is not running, or has no process
    /// yet, nothing changes.
    pub fn pause(&mut self, id: &str) -> (r: Control)
        requires
            old(self).wf(),
        ensures
            final(self).wf(),
            final(self)@.limit == old(self)@.limit,
            r == pause_control(old(self)@.tasks, id@),
            final(self)@.tasks == changed(old(self)@.tasks, id@, |s: StateView| after_pause(s)),
            active_count(final(self)@.tasks) == active_count(old(self)@.tasks),
            old(self).within_ceiling() ==> final(self).within_ceiling(),
    {
        let ghost before = self@.tasks;
        let r = match self.find(id) {
            Some(i) => {
                proof {
                    lemma_state_of(before, id@, i as int);
                }
                let pid = match &self.tasks[i].state {
                    TaskState::Running { pid } => *pid,
                    _ => None,
                };
                match pid {
                    Some(p) => {
                        self.tasks[i].state = TaskState::Paused { pid: Some(p) };
                        Control::Signal { pid: p }
                    },
                    None => Control::Nothing,
                }
            },
            None => Control::NotFound,
        };
        proof {
            let after = changed(before, id@, |s: StateView| after_pause(s));
            assert(self@.tasks =~= after);
            lemma_same_ids_distinct(before, after);
            lemma_active_kept(before, after);
        }
        r
    }

    /// Resumes a paused task: its state becomes running, and its process is
    /// to be continued.  For a task that is not paused nothing changes.
    pub fn resume(&mut self, id: &str) -> (r: Control)
        requires
            old(self).wf(),
        ensures
            final(self).wf(),
            final(self)@.limit == old(self)@.limit,
            r == resume_control(old(self)@.tasks, id@),
            final(self)@.tasks == changed(old(self)@.tasks, id@, |s: StateView| after_resume(s)),
            active_count(final(self)@.tasks) == active_count(old(self)@.tasks),
            old(self).within_ceiling() ==> final(self).within_ceiling(),
    {
        let ghost before = self@.tasks;
        let r = match self.find(id) {
            Some(i) => {
                proof {
                    lemma_state_of(before, id@, i as int);
                }
                let pid = match &self.tasks[i].state {
                    TaskState::Paused { pid } => *pid,
                    _ => None,
                };
                match pid {
                    Some(p) => {
                        self.tasks[i].state = TaskState::Running { pid: Some(p) };
                        Control::Signal { pid: p }
                    },
                    None => Control::Nothing,
                }
            },
            None => Control::NotFound,
        };
        proof {
            let after = changed(before, id@, |s: StateView| after_resume(s));
            assert(self@.tasks =~= after);
            lemma_same_ids_distinct(before, after);
            lemma_active_kept(before, after);
        }
        r
    }

    /// Cancels a task that has not ended: its state becomes cancelled, its
    /// process, if it has one, is to be terminated, and waiting tasks are
    /// admitted into the slot it leaves.  Returns what to signal and the ids
    /// of the tasks to start.
    pub fn cancel(&mut self, id: &str) -> (r: (Control, Vec<String>))
        requires
            old(self).wf(),
        ensures
            final(self).wf(),
            final(self)@.limit == old(self)@.limit,
            r.0 == cancel_control(old(self)@.tasks, id@),
            ({
                let ended = changed(old(self)@.tasks, id@, |s: StateView| after_cancel(s));
                &&& final(self)@.tasks == admitted(ended, free_slots(old(self)@.limit, ended))
                &&& views(r.1@) == started_ids(ended, free_slots(old(self)@.limit, ended))
            }),
            old(self).within_ceiling() ==> final(self).within_ceiling(),
            active_count(final(self)@.tasks) <= active_count(old(self)@.tasks) || final(self).within_ceiling(),
    {
        let ghost before = self@.tasks;
        let ghost ended = changed(before, id@, |s: StateView| after_cancel(s));
        let control = match self.find(id) {
            Some(i) => {
                proof {
                    lemma_state_of(before, id@, i as int);
                }
                let (live, pid) = match &self.tasks[i].state {
                    TaskState::Queued => (true, None),
                    TaskState::Running { pid } => (true, *pid),
                    TaskState::Paused { pid } => (true, *pid),
                    _ => (false, None),
                };
                if live {
                    self.tasks[i].state = TaskState::Cancelled;
                }
                match pid {
                    Some(p) => Control::Signal { pid: p },
                    None => Control::Nothing,
                }
            },
            None => Control::NotFound,
        };
        proof {
            assert(self@.tasks =~= ended);
            lemma_same_ids_distinct(before, ended);
            lemma_active_not_grown(before, ended);
            lemma_admission_bounded(ended, self.limit as nat);
        }
        let started = self.start_waiting();
        (control, started)
    }

    /// Forgets a task that has ended.  A task that has not ended stays.
    pub fn acknowledge(&mut self, id: &str) -> (removed: bool)
        requires
            old(self).wf(),
        ensures
            final(self).wf(),
            final(self)@.limit == old(self)@.limit,
            removed == (has_task(old(self)@.tasks, id@) && is_terminal(
                state_of(old(self)@.tasks, id@),
            )),
            !removed ==> final(self)@.tasks == old(self)@.tasks,
            removed ==> !has_task(final(self)@.tasks, id@) && exists|i: int|
                0 <= i < old(self)@.tasks.len() && old(self)@.tasks[i].id == id@ && final(self)@.tasks == old(self)@.tasks.remove(i),
            active_count(final(self)@.tasks) == active_count(old(self)@.tasks),
            old(self).within_ceiling() ==> final(self).within_ceiling(),
    {
        let ghost before = self@.tasks;
        match self.find(id) {
            Some(i) => {
                proof {
                    lemma_state_of(before, id@, i as int);
                }
                let ended = match &self.tasks[i].state {
                    TaskState::Completed => true,
                    TaskState::Failed { .. } => true,
                    TaskState::Cancelled => true,
                    _ => false,
                };
                if ended {
                    let _ = self.tasks.remove(i);
                    proof {
                        let after = before.remove(i as int);
                        assert(self@.tasks =~= after);
                        assert forall|a: int, b: int| 0 <= a < b < after.len() implies (
                        #[trigger] after[a]).id != (#[trigger] after[b]).id by {
                            let a0 = if a < i { a } else { a + 1 };
                            let b0 = if b < i { b } else { b + 1 };
                            assert(before[a0].id != before[b0].id);
                        }
                        assert(!has_task(after, id@)) by {
                            if has_task(after, id@) {
                                let k = choose|k: int|
                                    0 <= k < after.len() && (#[trigger] after[k]).id == id@;
                                let k0 = if k < i { k } else { k + 1 };
                                assert(before[k0].id == before[i as int].id);
                            }
                        }
                        lemma_active_after_remove(before, i as int);
                    }
                    true
                } else {
                    false
                }
            },
            None => false,
        }
    }
}

/// Why a submission is refused: what the validator finds, or an id that is
/// already known.
pub open spec fn submit_finding(tasks: Seq<EntryView>, task: &ConversionTask, input: InputFile)
    -> Option<Seq<char>> {
    first_of(
        task_finding(task.file_path@, input, &task.config),
        if has_task(tasks, task.id@) {
            Some("Task already exists: "@ + task.id@)
        } else {
            None
        },
    )
}

/// The life of a task.  A task that has ended stays as it ended, whatever is
/// reported or asked of it.  A waiting task leaves the queue only by being
/// started or cancelled.  An active task stays active until it ends: pause
/// and resume move it between running and paused, and a new process changes
/// neither.
pub proof fn lemma_task_lifecycle(state: StateView, pid: u32, outcome: Outcome)
    ensures
        is_terminal(state) ==> after_pause(state) == state && after_resume(state) == state
            && after_cancel(state) == state && after_start(state, pid) == state && after_finish(
            state,
            outcome,
        ) == state,
        state is Queued ==> after_pause(state) == state && after_resume(state) == state
            && after_start(state, pid) == state && after_finish(state, outcome) == state
            && after_cancel(state) is Cancelled,
        is_active(state) ==> is_active(after_pause(state)) && is_active(after_resume(state))
            && is_active(after_start(state, pid)) && is_terminal(after_finish(state, outcome))
            && after_cancel(state) is Cancelled,
        after_pause(state) is Paused ==> state is Running || state is Paused,
        after_resume(state) is Running ==> state is Running || state is Paused,
{
}

/// With distinct ids, the state of a task is that of the one entry with its
/// id.
pub proof fn lemma_state_of(tasks: Seq<EntryView>, id: Seq<char>, i: int)
    requires
        distinct_ids(tasks),
        0 <= i < tasks.len(),
        tasks[i].id == id,
    ensures
        has_task(tasks, id),
        state_of(tasks, id) == tasks[i].state,
{
    let k = choose|k: int| 0 <= k < tasks.len() && (#[trigger] tasks[k]).id == id;
    if k < i {
        assert(tasks[k].id != tasks[i].id);
    } else if i < k {
        assert(tasks[i].id != tasks[k].id);
    }
}

proof fn lemma_active_kept(before: Seq<EntryView>, after: Seq<EntryView>)
    requires
        before.len() == after.len(),
        forall|k: int|
            0 <= k < before.len() ==> is_active((#[trigger] after[k]).state) == is_active(
                before[k].state,
            ),
    ensures
        active_count(after) == active_count(before),
    decreases before.len(),
{
    if before.len() > 0 {
        assert(after.last() == after[after.len() - 1]);
        assert(is_active(after[after.len() - 1].state) == is_active(before[before.len() - 1].state));
        lemma_active_kept(before.drop_last(), after.drop_last());
    }
}

proof fn lemma_active_not_grown(before: Seq<EntryView>, after: Seq<EntryView>)
    requires
        before.len() == after.len(),
        forall|k: int|
            0 <= k < before.len() ==> (is_active((#[trigger] after[k]).state) ==> is_active(
                before[k].state,
            )),
    ensures
        active_count(after) <= active_count(before),
    decreases before.len(),
{
    if before.len() > 0 {
        assert(is_active(after[after.len() - 1].state) ==> is_active(
            before[before.len() - 1].state,
        ));
        lemma_active_not_grown(before.drop_last(), after.drop_last());
    }
}

proof fn lemma_active_after_remove(tasks: Seq<EntryView>, i: int)
    requires
        0 <= i < tasks.len(),
    ensures
        active_count(tasks.remove(i)) + (if is_active(tasks[i].state) {
            1nat
        } else {
            0nat
        }) == active_count(tasks),
    decreases tasks.len(),
{
    if i == tasks.len() - 1 {
        assert(tasks.remove(i) =~= tasks.drop_last());
    } else {
        assert(tasks.remove(i).drop_last() =~= tasks.drop_last().remove(i));
        assert(tasks.remove(i).last() == tasks.last());
        lemma_active_after_remove(tasks.drop_last(), i);
    }
}

} // verus!
