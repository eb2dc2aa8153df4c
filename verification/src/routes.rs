//! The decisions of the HTTP boundary that belong to the adapter: turning
//! a request's filter or definition text into the ordered token sequence
//! the adapter consumes, and the identifier check of the update route.

use vstd::prelude::*;

use crate::task::{NewTask, Task, TaskId};

verus! {

/// The query of the task-listing route: an optional filter text whose
/// space-separated tokens are passed to the external store.
#[derive(Debug, Clone, PartialEq, Eq)]
pub struct TaskQuery {
    pub filter: Option<String>,
}

/// The position of the first space, or the text's length when it has
/// none.
pub open spec fn spec_first_space(s: Seq<char>) -> int
    decreases s.len(),
{
    if s.len() == 0 {
        0
    } else if s[0] == ' ' {
        0
    } else {
        1 + spec_first_space(s.skip(1))
    }
}

/// The space-separated tokens of a text, empty tokens kept: a text
/// without spaces is one token, even when empty.
pub open spec fn spec_split_spaces(s: Seq<char>) -> Seq<Seq<char>>
    decreases s.len(),
{
    let i = spec_first_space(s);
    if 0 <= i && i < s.len() {
        seq![s.take(i)] + spec_split_spaces(s.skip(i + 1))
    } else {
        seq![s]
    }
}

/// The position of the first space.
fn first_space(v: &[char]) -> (r: usize)
    ensures
        r as int == spec_first_space(v@),
        r <= v@.len(),
    decreases v@.len(),
{
    if v.len() == 0 {
        0
    } else if *vstd::slice::slice_index_get(v, 0) == ' ' {
        0
    } else {
        let rest = vstd::slice::slice_subrange(v, 1, v.len());
        proof {
            assert(rest@ =~= v@.skip(1));
        }
        1 + first_space(rest)
    }
}

/// Appends the space-separated tokens of a text.
fn split_spaces_into(v: &[char], out: &mut Vec<String>)
    ensures
        final(out).deep_view() == old(out).deep_view() + spec_split_spaces(v@),
    decreases v@.len(),
{
    let i = first_space(v);
    if i < v.len() {
        let ghost prev = out.deep_view();
        let token = crate::chars::string_of_slice(vstd::slice::slice_subrange(v, 0, i));
        let ghost tv = token@;
        out.push(token);
        proof {
            assert(out.deep_view() =~~= prev.push(tv));
            assert(tv =~= v@.take(i as int));
        }
        let rest = vstd::slice::slice_subrange(v, i + 1, v.len());
        proof {
            assert(rest@ =~= v@.skip(i + 1));
        }
        split_spaces_into(rest, out);
        proof {
            assert(out.deep_view() =~= old(out).deep_view() + spec_split_spaces(v@));
        }
    } else {
        let ghost prev = out.deep_view();
        let token = crate::chars::string_of_slice(v);
        let ghost tv = token@;
        out.push(token);
        proof {
            assert(out.deep_view() =~~= prev.push(tv));
            assert(out.deep_view() =~= old(out).deep_view() + spec_split_spaces(v@));
        }
    }
}

/// The space-separated tokens of a text.
pub fn split_spaces(s: &str) -> (r: Vec<String>)
    ensures
        r.deep_view() == spec_split_spaces(s@),
{
    let v = crate::chars::chars_of(s);
    let mut out: Vec<String> = Vec::new();
    split_spaces_into(v.as_slice(), &mut out);
    proof {
        assert(Seq::<Seq<char>>::empty() + spec_split_spaces(s@) =~= spec_split_spaces(s@));
    }
    out
}

/// The filter tokens of a listing query: none without a filter text,
/// else the text's space-separated tokens in order.
pub fn filter_tokens(q: &TaskQuery) -> (r: Vec<String>)
    ensures
        match q.filter {
            Some(f) => r.deep_view() == spec_split_spaces(f@),
            None => r@.len() == 0,
        },
{
    match &q.filter {
        Some(f) => split_spaces(f.as_str()),
        None => Vec::new(),
    }
}

/// The definition tokens of a task to create: the definition text's
/// space-separated tokens in order.
pub fn definition_tokens(t: &NewTask) -> (r: Vec<String>)
    ensures
        r.deep_view() == spec_split_spaces(t.definition@),
{
    split_spaces(t.definition.as_str())
}

/// Whether an update request addresses the record it carries: the path's
/// identifier must equal the record's durable identifier.
pub fn update_path_matches(path_id: &TaskId, task: &Task) -> (r: bool)
    ensures
        r == (path_id.0 == task.id.0),
{
    path_id.0 == task.id.0
}

} // verus!
