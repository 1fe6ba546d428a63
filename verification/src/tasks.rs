//! A task queue kept in a key-value backend: the keys it uses, the states
//! a task goes through, and the decisions of its polling loops.

use vstd::prelude::*;
use vstd::string::*;

use crate::models::{fresh_ulid, record_id_from_str, ulid_value};

verus! {

broadcast use vstd::string::group_string_axioms;

/// A trait for IDs that can be used with a backend.
pub trait TaskId: Sized {
    /// A fresh ID.
    fn new() -> Self;
}

/// ULIDs, held as their 128-bit value, serve as task IDs.
impl TaskId for u128 {
    fn new() -> u128 {
        fresh_ulid()
    }
}

/// The key under which a task's parameters are stored.
pub open spec fn task_data_key_text(name: Seq<char>, id: Seq<char>) -> Seq<char> {
    "task:"@ + name + ":data:"@ + id
}

/// The key under which a task's status is stored.
pub open spec fn task_status_key_text(name: Seq<char>, id: Seq<char>) -> Seq<char> {
    "task:"@ + name + ":status:"@ + id
}

/// The key of the queue of a task kind.
pub open spec fn task_queue_key_text(name: Seq<char>) -> Seq<char> {
    "task:"@ + name + ":queue"@
}

/// The key under which a task's parameters are stored.
pub fn task_data_key(name: &str, id: &str) -> (r: String)
    ensures
        r@ == task_data_key_text(name@, id@),
{
    let mut k = String::from_str("task:");
    k.append(name);
    k.append(":data:");
    k.append(id);
    k
}

/// The key under which a task's status is stored.
pub fn task_status_key(name: &str, id: &str) -> (r: String)
    ensures
        r@ == task_status_key_text(name@, id@),
{
    let mut k = String::from_str("task:");
    k.append(name);
    k.append(":status:");
    k.append(id);
    k
}

/// The key of the queue of a task kind.
pub fn task_queue_key(name: &str) -> (r: String)
    ensures
        r@ == task_queue_key_text(name@),
{
    let mut k = String::from_str("task:");
    k.append(name);
    k.append(":queue");
    k
}

/// Represents the status of a task.
#[derive(Debug)]
pub enum Status<R, E> {
    /// Submitted, not yet picked up.
    Pending,
    /// Being run by a worker.
    InProgress { worker_name: String },
    /// Finished with a response.
    Completed(R),
    /// Finished with an error.
    Failed(E),
    /// The task panicked.
    Panicked,
}

/// Represents the status of a task that has completed.
#[derive(Debug)]
pub enum FinishedStatus<R, E> {
    /// Finished with a response.
    Completed(R),
    /// Finished with an error.
    Failed(E),
    /// The task panicked.
    Panicked,
}

/// What a waiter does after reading a task's status.
#[derive(Debug)]
pub enum WaitStep<R, E> {
    /// Stop waiting, with the finished status, or `None` where the task is
    /// unknown.
    Done(Option<FinishedStatus<R, E>>),
    /// The task has not finished: wait and read again.
    Poll,
}

/// What a waiter does with a status it read: stop with the finished
/// status (or `None` for an unknown task), or poll again while the task is
/// pending or running.
pub open spec fn wait_outcome<R, E>(status: Option<Status<R, E>>) -> WaitStep<R, E> {
    match status {
        None => WaitStep::Done(None),
        Some(Status::Completed(x)) => WaitStep::Done(Some(FinishedStatus::Completed(x))),
        Some(Status::Failed(x)) => WaitStep::Done(Some(FinishedStatus::Failed(x))),
        Some(Status::Panicked) => WaitStep::Done(Some(FinishedStatus::Panicked)),
        Some(Status::Pending) => WaitStep::Poll,
        Some(Status::InProgress { .. }) => WaitStep::Poll,
    }
}

/// Decides what a waiter does with the status it read.
pub fn wait_step<R, E>(status: Option<Status<R, E>>) -> (r: WaitStep<R, E>)
    ensures
        r == wait_outcome(status),
{
    match status {
        Some(Status::Completed(response)) => WaitStep::Done(Some(FinishedStatus::Completed(response))),
        Some(Status::Failed(error)) => WaitStep::Done(Some(FinishedStatus::Failed(error))),
        Some(Status::Panicked) => WaitStep::Done(Some(FinishedStatus::Panicked)),
        None => WaitStep::Done(None),
        Some(Status::Pending) => WaitStep::Poll,
        Some(Status::InProgress { .. }) => WaitStep::Poll,
    }
}

/// The status recorded once a task has run: its response, its error, or
/// `Panicked` where running it gave no result (`None`).
pub open spec fn run_status<R, E>(outcome: Option<Result<R, E>>) -> Status<R, E> {
    match outcome {
        Some(Ok(x)) => Status::Completed(x),
        Some(Err(x)) => Status::Failed(x),
        None => Status::Panicked,
    }
}

/// The status recorded once a task has run: its response, its error, or
/// `Panicked` where running it gave no result (`None`).
pub fn status_after_run<R, E>(outcome: Option<Result<R, E>>) -> (r: Status<R, E>)
    ensures
        r == run_status(outcome),
{
    match outcome {
        Some(Ok(response)) => Status::Completed(response),
        Some(Err(task_error)) => Status::Failed(task_error),
        None => Status::Panicked,
    }
}

/// The life of a task as a waiter sees it: while it is pending (as
/// submitted) or in progress (as picked up by a worker) the waiter polls,
/// and once it has run the waiter stops with the outcome of the run.
pub proof fn law_task_lifecycle<R, E>(worker_name: String, outcome: Option<Result<R, E>>)
    ensures
        wait_outcome::<R, E>(Some(Status::Pending)) is Poll,
        wait_outcome::<R, E>(Some(Status::InProgress { worker_name })) is Poll,
        wait_outcome(Some(run_status(outcome))) == WaitStep::Done(
            Some(
                match outcome {
                    Some(Ok(x)) => FinishedStatus::Completed(x),
                    Some(Err(x)) => FinishedStatus::Failed(x),
                    None => FinishedStatus::<R, E>::Panicked,
                },
            ),
        ),
{
}

} // verus!

verus! {

/// What a worker does with the result of popping its queue.
#[derive(Debug)]
pub enum ConsumeStep {
    /// Run the task with this ID.
    Run(u128),
    /// The popped ID was not a task ID: skip it, wait a little and poll again.
    SkipBadId,
    /// The queue was empty: wait a little and poll again.
    Idle,
    /// Popping failed: wait a little and poll again.
    Retry,
}

/// Decides a worker's next step from the result of popping its queue:
/// `Err(())` where the pop failed, `Ok(None)` where the queue was empty, and
/// otherwise the popped text, which runs the task it names where it parses
/// as a ULID and is skipped where it does not.
pub fn consume_step(popped: Result<Option<String>, ()>) -> (r: ConsumeStep)
    ensures
        match popped {
            Ok(Some(s)) => r == match ulid_value(s@) {
                Some(id) => ConsumeStep::Run(id),
                None => ConsumeStep::SkipBadId,
            },
            Ok(None) => r == ConsumeStep::Idle,
            Err(()) => r == ConsumeStep::Retry,
        },
{
    match popped {
        Ok(Some(s)) => match record_id_from_str(s.as_str()) {
            Ok(id) => ConsumeStep::Run(id),
            Err(_) => ConsumeStep::SkipBadId,
        },
        Ok(None) => ConsumeStep::Idle,
        Err(()) => ConsumeStep::Retry,
    }
}

/// The data, status and queue keys of a task never coincide.
pub proof fn law_task_keys_distinct(name: Seq<char>, id: Seq<char>)
    ensures
        task_data_key_text(name, id) != task_status_key_text(name, id),
        task_data_key_text(name, id) != task_queue_key_text(name),
        task_status_key_text(name, id) != task_queue_key_text(name),
{
    reveal_strlit("task:");
    reveal_strlit(":data:");
    reveal_strlit(":status:");
    reveal_strlit(":queue");
    let i: int = name.len() as int + 6;
    assert(task_data_key_text(name, id)[i] == 'd');
    assert(task_status_key_text(name, id)[i] == 's');
    assert(task_queue_key_text(name)[i] == 'q');
}

} // verus!
