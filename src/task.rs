use vstd::prelude::*;

use crate::program::{env_error_text, EnvError};

verus! {

/// What a terminated child left behind: its exit code (none when a signal
/// ended it) and whatever of its output was still captured when it was reaped.
#[derive(Debug, Clone)]
pub struct ProcessOutput {
    pub code: Option<i32>,
    pub stdout: Vec<u8>,
    pub stderr: Vec<u8>,
}

impl ProcessOutput {
    /// Termination counts as success only with exit code zero.
    pub open spec fn succeeded(&self) -> bool {
        self.code == Some(0i32)
    }

    pub fn success(&self) -> (r: bool)
        ensures
            r == self.succeeded(),
    {
        match self.code {
            Some(c) => c == 0,
            None => false,
        }
    }
}

/// The event that ended the wait on a task: whichever of the two arrived first.
#[derive(Debug, Clone)]
pub enum ExitEvent {
    /// The child was reaped with this output.
    Exited(ProcessOutput),
    /// Waiting on the child failed with this message.
    WaitFailed(String),
    /// The supervisor-wide interrupt arrived before the child was seen to exit.
    Interrupt,
}

/// A task that resolved without error.
#[derive(Debug, Clone)]
pub enum ExitResult {
    Output(ProcessOutput),
    Interrupted,
}

/// A task that resolved with an error.
#[derive(Debug, Clone)]
pub enum TaskError {
    IoError(String),
    NonZeroExitCode { code: Option<i32>, output: ProcessOutput },
}

impl TaskError {
    /// The error for a child that did not terminate successfully.
    pub fn from_output(output: ProcessOutput) -> (r: TaskError)
        requires
            !output.succeeded(),
        ensures
            r == (TaskError::NonZeroExitCode { code: output.code, output }),
    {
        TaskError::NonZeroExitCode { code: output.code, output }
    }
}

/// The text of the error for a child that could not be started.
pub open spec fn spawn_failure_text(reason: Seq<char>) -> Seq<char> {
    "failed to spawn: "@ + reason
}

impl TaskError {
    /// A task whose environment could not be materialised fails before it
    /// starts, with the environment error's text.
    pub fn from_env_error(e: &EnvError) -> (r: TaskError)
        ensures
            r is IoError,
            r->IoError_0@ == env_error_text(*e),
    {
        TaskError::IoError(e.message())
    }

    /// A task whose child could not be started fails with the reason given.
    pub fn spawn_failed(reason: &str) -> (r: TaskError)
        ensures
            r is IoError,
            r->IoError_0@ == spawn_failure_text(reason@),
    {
        let mut m = String::from_str("failed to spawn: ");
        m.append(reason);
        TaskError::IoError(m)
    }
}

/// How an exit event resolves a task.
pub open spec fn resolution(e: ExitEvent) -> Result<ExitResult, TaskError> {
    match e {
        ExitEvent::Exited(o) => if o.succeeded() {
            Ok(ExitResult::Output(o))
        } else {
            Err(TaskError::NonZeroExitCode { code: o.code, output: o })
        },
        ExitEvent::WaitFailed(m) => Err(TaskError::IoError(m)),
        ExitEvent::Interrupt => Ok(ExitResult::Interrupted),
    }
}

/// Resolves a task from the event that won the race between its exit and
/// the interrupt.
pub fn resolve_exit(event: ExitEvent) -> (r: Result<ExitResult, TaskError>)
    ensures
        r == resolution(event),
        (r == Ok::<ExitResult, TaskError>(ExitResult::Interrupted)) <==> event is Interrupt,
{
    match event {
        ExitEvent::Exited(o) => {
            if o.success() {
                Ok(ExitResult::Output(o))
            } else {
                Err(TaskError::from_output(o))
            }
        },
        ExitEvent::WaitFailed(m) => Err(TaskError::IoError(m)),
        ExitEvent::Interrupt => Ok(ExitResult::Interrupted),
    }
}

/// An interrupt that arrives first resolves the task as interrupted, and an
/// exit that arrives first resolves it from the exit status alone: as its
/// output on success, as a non-zero exit otherwise, and never as interrupted.
pub proof fn lemma_exit_race(e: ExitEvent)
    ensures
        e is Interrupt ==> resolution(e) == Ok::<ExitResult, TaskError>(ExitResult::Interrupted),
        e is Exited ==> resolution(e) != Ok::<ExitResult, TaskError>(ExitResult::Interrupted),
        e is Exited && e->Exited_0.succeeded() ==> resolution(e) == Ok::<ExitResult, TaskError>(
            ExitResult::Output(e->Exited_0),
        ),
        e is Exited && !e->Exited_0.succeeded() ==> resolution(e) == Err::<ExitResult, TaskError>(
            TaskError::NonZeroExitCode { code: e->Exited_0.code, output: e->Exited_0 },
        ),
{
}

/// One live child process together with its two captured output streams,
/// each of which can be taken out once.
pub struct Task<C, O, E> {
    child: C,
    stdout: Option<O>,
    stderr: Option<E>,
}

impl<C, O, E> Task<C, O, E> {
    pub closed spec fn child_spec(&self) -> C {
        self.child
    }

    pub closed spec fn stdout_slot(&self) -> Option<O> {
        self.stdout
    }

    pub closed spec fn stderr_slot(&self) -> Option<E> {
        self.stderr
    }

    /// The stream handed out by taking stdout, and the handle left behind.
    pub closed spec fn take_stdout_spec(self) -> (Option<O>, Self) {
        (self.stdout, Task { child: self.child, stdout: None, stderr: self.stderr })
    }

    pub fn new(child: C, stdout: Option<O>, stderr: Option<E>) -> (r: Self)
        ensures
            r.child_spec() == child,
            r.stdout_slot() == stdout,
            r.stderr_slot() == stderr,
    {
        Task { child, stdout, stderr }
    }

    /// Takes the captured stdout; every later call returns none.
    pub fn stdout(&mut self) -> (r: Option<O>)
        ensures
            (r, *final(self)) == old(self).take_stdout_spec(),
            r == old(self).stdout_slot(),
            final(self).stdout_slot() is None,
            final(self).stderr_slot() == old(self).stderr_slot(),
            final(self).child_spec() == old(self).child_spec(),
    {
        self.stdout.take()
    }

    /// Takes the captured stderr; every later call returns none.
    pub fn stderr(&mut self) -> (r: Option<E>)
        ensures
            r == old(self).stderr_slot(),
            final(self).stderr_slot() is None,
            final(self).stdout_slot() == old(self).stdout_slot(),
            final(self).child_spec() == old(self).child_spec(),
    {
        self.stderr.take()
    }

    /// Gives up the handle, returning the child to wait on.
    pub fn into_child(self) -> (r: C)
        ensures
            r == self.child_spec(),
    {
        self.child
    }
}

/// Taking stdout twice yields the stream that was captured the first time,
/// and none the second time.
pub proof fn lemma_take_stdout_twice<C, O, E>(t: Task<C, O, E>)
    ensures
        t.take_stdout_spec().0 == t.stdout_slot(),
        t.take_stdout_spec().1.take_stdout_spec().0 is None,
        t.take_stdout_spec().1.take_stdout_spec().1 == t.take_stdout_spec().1,
{
}

} // verus!
