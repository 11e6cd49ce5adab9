use vstd::prelude::*;

verus! {

/// Worker threads started per logical processor.
pub const THREADS_PER_CPU: usize = 4;

/// Queue slots per worker: the queue absorbs bursts of this many tasks per worker.
pub const QUEUE_SLOTS_PER_WORKER: usize = 2000;

/// The number of workers for a machine with `cpus` logical processors.
pub fn worker_count(cpus: usize) -> (r: usize)
    requires
        cpus * THREADS_PER_CPU <= usize::MAX,
    ensures
        r == cpus * THREADS_PER_CPU,
{
    cpus * THREADS_PER_CPU
}

/// The capacity of the task queue shared by `workers` workers.
pub fn queue_capacity(workers: usize) -> (r: usize)
    requires
        workers * QUEUE_SLOTS_PER_WORKER <= usize::MAX,
    ensures
        r == workers * QUEUE_SLOTS_PER_WORKER,
{
    workers * QUEUE_SLOTS_PER_WORKER
}

/// How one call of an action ended, as the engine saw it.
#[derive(Debug)]
pub enum Invocation {
    /// No action of that name is registered on the worker.
    Missing,
    /// The action returned; its result as JSON text, where it has one.
    Returned(Option<String>),
    /// The action threw; the exception's message, where there is one.
    Threw(Option<String>),
}

/// A worker's reply to one task.
#[derive(Debug)]
pub enum ActionReply {
    /// The action's result, as JSON text.
    Value(String),
    /// Why the task failed.
    Error(String),
}

pub open spec fn not_found_message(name: Seq<char>) -> Seq<char> {
    "Action '"@ + name + "' not found"@
}

/// The reply for one call of the action `name`: its result, or an error for a
/// missing action, a thrown exception or a result with no JSON form.
pub fn settle(name: &str, outcome: Invocation) -> (r: ActionReply)
    ensures
        match outcome {
            Invocation::Missing => r matches ActionReply::Error(m) && m@ == not_found_message(name@),
            Invocation::Returned(Some(json)) => r matches ActionReply::Value(v) && v@ == json@,
            Invocation::Threw(Some(msg)) => r matches ActionReply::Error(m) && m@ == msg@,
            _ => r matches ActionReply::Error(m) && m@ == "Unknown error"@,
        },
{
    match outcome {
        Invocation::Missing => {
            let mut m = "Action '".to_owned();
            m.append(name);
            m.append("' not found");
            ActionReply::Error(m)
        },
        Invocation::Returned(Some(json)) => ActionReply::Value(json),
        Invocation::Threw(Some(msg)) => ActionReply::Error(msg),
        _ => ActionReply::Error("Unknown error".to_owned()),
    }
}

/// What a caller gets once its task is over: the worker's reply, or an error
/// where the worker went away before replying.
pub fn reply_or_closed(received: Option<ActionReply>) -> (r: ActionReply)
    ensures
        match received {
            Some(reply) => r == reply,
            None => r matches ActionReply::Error(m) && m@ == "Worker channel closed"@,
        },
{
    match received {
        Some(reply) => reply,
        None => ActionReply::Error("Worker channel closed".to_owned()),
    }
}

} // verus!
