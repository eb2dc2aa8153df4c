//! The adapter's public error taxonomy towards collaborators, and the
//! mapping of whole export result sets into internal task records.

use vstd::prelude::*;

use crate::task::Task;
use crate::taskwarrior::{spec_task_of, TaskwarriorTask};

verus! {

/// The error taxonomy exposed to the adapter's collaborators: outbound
/// data that could not be encoded, and every protocol-level failure of
/// the external store. All of these surface unchanged; none is retried.
#[derive(Debug)]
pub enum ContextswitchError {
    /// Outbound metadata could not be encoded as well-formed data.
    InvalidDataError { message: String },
    /// A protocol-level invariant violation of the external store.
    UnexpectedError { message: String },
}

impl ContextswitchError {
    /// The transport status every error of the taxonomy maps to: an
    /// opaque server error.
    pub fn status_code(&self) -> (r: u16)
        ensures
            r == 500,
    {
        500
    }
}

/// The text of a cause chain: each cause on a line of its own, indented
/// under its marker.
pub open spec fn spec_causes_text(ms: Seq<Seq<char>>) -> Seq<char>
    decreases ms.len(),
{
    if ms.len() == 0 {
        Seq::empty()
    } else {
        "Caused by:\n\t"@ + ms[0] + "\n"@ + spec_causes_text(ms.skip(1))
    }
}

/// The text of an error chain: the error's own message, a blank line,
/// then each cause in order.
pub open spec fn spec_error_chain(ms: Seq<Seq<char>>) -> Seq<char> {
    if ms.len() == 0 {
        Seq::empty()
    } else {
        ms[0] + "\n\n"@ + spec_causes_text(ms.skip(1))
    }
}

/// The text of the causes of an error, one marker line per cause.
fn causes_text(ms: &[String]) -> (r: String)
    ensures
        r@ == spec_causes_text(ms.deep_view()),
    decreases ms@.len(),
{
    if ms.len() == 0 {
        String::new()
    } else {
        let mut s = "Caused by:\n\t".to_owned();
        s.append(vstd::slice::slice_index_get(ms, 0).as_str());
        s.append("\n");
        let rest = vstd::slice::slice_subrange(ms, 1, ms.len());
        proof {
            assert(rest.deep_view() =~~= ms.deep_view().skip(1));
            assert(ms.deep_view()[0] == ms@[0]@);
        }
        let tail = causes_text(rest);
        s.append(tail.as_str());
        s
    }
}

/// Renders an error and its chain of causes, the error's own message
/// first, each cause on a marker line of its own.
pub fn error_chain_fmt(messages: &Vec<String>) -> (r: String)
    ensures
        r@ == spec_error_chain(messages.deep_view()),
{
    if messages.len() == 0 {
        String::new()
    } else {
        let mut s = messages[0].clone();
        s.append("\n\n");
        let rest = vstd::slice::slice_subrange(messages.as_slice(), 1, messages.len());
        proof {
            assert(rest.deep_view() =~~= messages.deep_view().skip(1));
            assert(messages.deep_view()[0] == messages@[0]@);
        }
        let tail = causes_text(rest);
        s.append(tail.as_str());
        s
    }
}

/// Materializes the internal records of a whole export result, in order.
pub fn tasks_from_taskwarrior(tws: &Vec<TaskwarriorTask>) -> (r: Vec<Task>)
    ensures
        r@.len() == tws@.len(),
        forall|i: int| 0 <= i < tws@.len() ==> spec_task_of(tws@[i], #[trigger] r@[i]),
{
    let mut out: Vec<Task> = Vec::new();
    let mut i: usize = 0;
    while i < tws.len()
        invariant
            i <= tws@.len(),
            out@.len() == i,
            forall|j: int| 0 <= j < i ==> spec_task_of(tws@[j], #[trigger] out@[j]),
        decreases tws@.len() - i,
    {
        out.push(Task::from(&tws[i]));
        i = i + 1;
    }
    out
}

} // verus!
