//! Common test utilities for tasks.
use crate::db::MemDb;
use crate::node::Replies;
use crate::task::{due, iteration, run_iteration, RangeProcessor};
use crate::text::{contains, holds};
use vstd::prelude::*;
use vstd::string::*;

verus! {

/// A text as `std`'s `Debug` formats it: within quotes, with its characters escaped.
pub uninterp spec fn debug_text(text: Seq<char>) -> Seq<char>;

/// `<str as Debug>::fmt`, by `format!`. What it returns depends on nothing but the text, so it's
/// claimed to be what's named for the text.
#[verifier::external_body]
fn debug(text: &str) -> (formatted: String)
    ensures
        formatted@ == debug_text(text@),
{
    format!("{text:?}")
}

/// Whether what a task fails with, as it's formatted for debugging, contains a text.
pub fn formatted_contains(message: &str, text: &str) -> (found: bool)
    ensures
        found == holds(debug_text(message@), text@),
{
    let formatted = debug(message);
    contains(formatted.as_str(), text)
}

/// Test helpers for checking task iteration behavior.
pub struct TaskTest;

impl TaskTest {
    /// Check that a task iteration succeeds and returns the expected progress value.
    pub fn task_runs_once_and_matches_progress<T: RangeProcessor>(
        task: &mut T,
        replies: Vec<Replies>,
        made_progress: bool,
    ) -> (matches: bool)
        requires
            old(task).wf(),
            T::cosigning_of(old(task).state()).latest_cosigned_block_number matches Some(latest)
                ==> latest < u64::MAX,
            replies@.len() == due(
                T::cosigning_of(old(task).state()),
                T::start_of(old(task).state()),
            ),
        ensures
            final(task).wf(),
            final(task).state() == iteration::<T>(old(task).state(), replies@).0,
            matches == (iteration::<T>(old(task).state(), replies@).1 matches Ok(progress)
                && progress == made_progress),
    {
        match run_iteration(task, replies) {
            Ok(progress) => progress == made_progress,
            Err(_) => false,
        }
    }

    /// Check that a task iteration fails with an error containing the given string. An error which
    /// halts the process is none the task fails with.
    pub fn task_runs_and_fails_with<T: RangeProcessor>(
        task: &mut T,
        replies: Vec<Replies>,
        error: &str,
    ) -> (matches: bool)
        requires
            old(task).wf(),
            T::cosigning_of(old(task).state()).latest_cosigned_block_number matches Some(latest)
                ==> latest < u64::MAX,
            replies@.len() == due(
                T::cosigning_of(old(task).state()),
                T::start_of(old(task).state()),
            ),
        ensures
            final(task).wf(),
            final(task).state() == iteration::<T>(old(task).state(), replies@).0,
            matches == (iteration::<T>(old(task).state(), replies@).1 matches Err(e)
                && !e.spec_halts() && holds(debug_text(e.text()), error@)),
    {
        match run_iteration(task, replies) {
            Ok(_) => false,
            Err(e) => {
                if e.halts() {
                    return false;
                }
                let message = e.message();
                formatted_contains(message.as_str(), error)
            },
        }
    }
}

/// Shared state used by Serai task tests.
pub struct SeraiTaskTestState<S> {
    /// Serai client used by the task under test.
    pub serai: S,
    /// In-memory database used by the test.
    pub db: MemDb,
}

/// Trait for test structs that can be built from Serai test state.
pub trait SeraiTaskTestStruct<S>: Sized {
    /// Build this test struct from the shared Serai test state.
    fn from_state(state: SeraiTaskTestState<S>) -> Self;
}

/// Trait for test structs that can produce a task.
pub trait IntoTask<S>: SeraiTaskTestStruct<S> {
    /// The task type produced by this test struct.
    type Task: RangeProcessor;

    /// Create the task from this test struct.
    fn task(self) -> Self::Task;
}

} // verus!
