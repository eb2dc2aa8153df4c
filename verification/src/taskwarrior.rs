//! The external store's task representation and the mutation protocol's
//! building blocks: the export-row conversion into typed task records, the
//! action builder for the `modify`-style subcommand, the side-channel id
//! scraper, the uniqueness discipline of addressed lookups, and the
//! store's configuration plan.

use vstd::prelude::*;

use crate::ids::{spec_parse_uuid, spec_uuid_text, TaskwarriorTaskId, TaskwarriorTaskLocalId};
use crate::metadata::{opt_view, spec_decode_metadata_field};
use crate::task::{
    spec_parse_priority, spec_parse_recurrence, spec_parse_status, Priority, Recurrence, Status,
    Task, TaskId,
};
use crate::timestamp::{spec_parse_tw, Timestamp};

verus! {

/// The error taxonomy of the adapter: a process that could not run, output
/// that was not the expected JSON, a field violating its exact encoding,
/// and protocol-level invariant violations. None of these is retried.
#[derive(Debug)]
pub enum TaskwarriorError {
    /// The external process could not be spawned or exited abnormally.
    ExecutionError { message: String },
    /// Captured output was not valid JSON where JSON was expected; carries
    /// the raw captured text for diagnostics.
    OutputParsingError { message: String, output: String },
    /// A scalar field of an export row violated its exact encoding.
    MalformedField { field: String },
    /// A protocol-level invariant violation: a missing marker text, an
    /// unparseable embedded identifier, or a non-unique addressed lookup.
    UnexpectedError { message: String },
}

/// One row of the export subcommand's JSON array, with every scalar still
/// in the external store's textual encoding.
#[derive(Debug, Clone, PartialEq, Eq)]
pub struct RawTask {
    pub uuid: String,
    pub id: u64,
    pub entry: String,
    pub modified: String,
    pub status: String,
    pub description: String,
    pub urgency: String,
    pub due: Option<String>,
    pub start: Option<String>,
    pub end: Option<String>,
    pub wait: Option<String>,
    pub parent: Option<String>,
    pub project: Option<String>,
    pub priority: Option<String>,
    pub recur: Option<String>,
    pub tags: Option<Vec<String>>,
    pub contextswitch: Option<String>,
}

/// A task as the external store keeps it, with decoded scalars and the
/// metadata extension still in its raw text form.
#[derive(Debug, Clone, PartialEq)]
pub struct TaskwarriorTask {
    pub uuid: TaskwarriorTaskId,
    pub id: TaskwarriorTaskLocalId,
    pub entry: Timestamp,
    pub modified: Timestamp,
    pub status: Status,
    pub description: String,
    pub urgency: String,
    pub due: Option<Timestamp>,
    pub start: Option<Timestamp>,
    pub end: Option<Timestamp>,
    pub wait: Option<Timestamp>,
    pub parent: Option<TaskwarriorTaskId>,
    pub project: Option<String>,
    pub priority: Option<Priority>,
    pub recur: Option<Recurrence>,
    pub tags: Option<Vec<String>>,
    pub contextswitch: Option<String>,
}

impl TaskwarriorTask {
    /// Every timestamp of the record lies in its calendar range.
    pub open spec fn well_formed(self) -> bool {
        &&& self.entry.well_formed()
        &&& self.modified.well_formed()
        &&& (self.due matches Some(t) ==> t.well_formed())
        &&& (self.start matches Some(t) ==> t.well_formed())
        &&& (self.end matches Some(t) ==> t.well_formed())
        &&& (self.wait matches Some(t) ==> t.well_formed())
    }
}

/// Whether every field of an export row obeys its exact encoding.
pub open spec fn spec_export_ok(raw: RawTask) -> bool {
    &&& spec_parse_uuid(raw.uuid@) is Some
    &&& spec_parse_tw(raw.entry@) is Some
    &&& spec_parse_tw(raw.modified@) is Some
    &&& spec_parse_status(raw.status@) is Some
    &&& (raw.due matches Some(s) ==> spec_parse_tw(s@) is Some)
    &&& (raw.start matches Some(s) ==> spec_parse_tw(s@) is Some)
    &&& (raw.end matches Some(s) ==> spec_parse_tw(s@) is Some)
    &&& (raw.wait matches Some(s) ==> spec_parse_tw(s@) is Some)
    &&& (raw.parent matches Some(s) ==> spec_parse_uuid(s@) is Some)
    &&& (raw.priority matches Some(s) ==> spec_parse_priority(s@) is Some)
    &&& (raw.recur matches Some(s) ==> spec_parse_recurrence(s@) is Some)
}

/// How a converted record relates to its export row: every scalar is the
/// decoding of the row's text, and the free-text fields carry over
/// unchanged.
pub open spec fn spec_export_matches(raw: RawTask, t: TaskwarriorTask) -> bool {
    &&& spec_parse_uuid(raw.uuid@) == Some(t.uuid.0 as int)
    &&& t.id.0 == raw.id
    &&& spec_parse_tw(raw.entry@) == Some(t.entry)
    &&& spec_parse_tw(raw.modified@) == Some(t.modified)
    &&& spec_parse_status(raw.status@) == Some(t.status)
    &&& t.description@ == raw.description@
    &&& t.urgency@ == raw.urgency@
    &&& match (raw.due, t.due) {
        (Some(s), Some(ts)) => spec_parse_tw(s@) == Some(ts),
        (None, None) => true,
        _ => false,
    }
    &&& match (raw.start, t.start) {
        (Some(s), Some(ts)) => spec_parse_tw(s@) == Some(ts),
        (None, None) => true,
        _ => false,
    }
    &&& match (raw.end, t.end) {
        (Some(s), Some(ts)) => spec_parse_tw(s@) == Some(ts),
        (None, None) => true,
        _ => false,
    }
    &&& match (raw.wait, t.wait) {
        (Some(s), Some(ts)) => spec_parse_tw(s@) == Some(ts),
        (None, None) => true,
        _ => false,
    }
    &&& match (raw.parent, t.parent) {
        (Some(s), Some(id)) => spec_parse_uuid(s@) == Some(id.0 as int),
        (None, None) => true,
        _ => false,
    }
    &&& t.project.deep_view() == raw.project.deep_view()
    &&& match (raw.priority, t.priority) {
        (Some(s), Some(p)) => spec_parse_priority(s@) == Some(p),
        (None, None) => true,
        _ => false,
    }
    &&& match (raw.recur, t.recur) {
        (Some(s), Some(rc)) => spec_parse_recurrence(s@) == Some(rc),
        (None, None) => true,
        _ => false,
    }
    &&& t.tags.deep_view() == raw.tags.deep_view()
    &&& t.contextswitch.deep_view() == raw.contextswitch.deep_view()
}

/// A `MalformedField` error naming the offending field.
fn malformed(field: &str) -> (r: TaskwarriorError)
    ensures
        r matches TaskwarriorError::MalformedField { field: f } && f@ == field@,
{
    TaskwarriorError::MalformedField { field: field.to_owned() }
}

/// The decoded value of an optional timestamp field.
fn parse_opt_tw(field: &Option<String>) -> (r: Option<Option<Timestamp>>)
    ensures
        match r {
            Some(o) => match (*field, o) {
                (Some(s), Some(ts)) => spec_parse_tw(s@) == Some(ts) && ts.well_formed(),
                (None, None) => true,
                _ => false,
            },
            None => field matches Some(s) && spec_parse_tw(s@) is None,
        },
{
    match field {
        None => Some(None),
        Some(s) => match crate::timestamp::parse_tw_timestamp(s.as_str()) {
            Some(ts) => Some(Some(ts)),
            None => None,
        },
    }
}

impl TaskwarriorTask {
    /// Converts one export row into a typed record: every scalar maps
    /// one-to-one through the field codec, and a row whose text violates a
    /// field's exact encoding is rejected with `MalformedField`.
    pub fn from_export(raw: &RawTask) -> (r: Result<TaskwarriorTask, TaskwarriorError>)
        ensures
            r is Ok <==> spec_export_ok(*raw),
            r matches Ok(t) ==> spec_export_matches(*raw, t) && t.well_formed(),
            r is Err ==> (r matches Err(TaskwarriorError::MalformedField { .. })),
    {
        let uuid = match crate::ids::parse_uuid(raw.uuid.as_str()) {
            Some(id) => id,
            None => {
                return Err(malformed("uuid"));
            },
        };
        let entry = match crate::timestamp::parse_tw_timestamp(raw.entry.as_str()) {
            Some(t) => t,
            None => {
                return Err(malformed("entry"));
            },
        };
        let modified = match crate::timestamp::parse_tw_timestamp(raw.modified.as_str()) {
            Some(t) => t,
            None => {
                return Err(malformed("modified"));
            },
        };
        let status = match Status::parse(raw.status.as_str()) {
            Some(s) => s,
            None => {
                return Err(malformed("status"));
            },
        };
        let due = match parse_opt_tw(&raw.due) {
            Some(o) => o,
            None => {
                return Err(malformed("due"));
            },
        };
        let start = match parse_opt_tw(&raw.start) {
            Some(o) => o,
            None => {
                return Err(malformed("start"));
            },
        };
        let end = match parse_opt_tw(&raw.end) {
            Some(o) => o,
            None => {
                return Err(malformed("end"));
            },
        };
        let wait = match parse_opt_tw(&raw.wait) {
            Some(o) => o,
            None => {
                return Err(malformed("wait"));
            },
        };
        let parent = match &raw.parent {
            None => None,
            Some(s) => match crate::ids::parse_uuid(s.as_str()) {
                Some(id) => Some(id),
                None => {
                    return Err(malformed("parent"));
                },
            },
        };
        let priority = match &raw.priority {
            None => None,
            Some(s) => match Priority::parse(s.as_str()) {
                Some(p) => Some(p),
                None => {
                    return Err(malformed("priority"));
                },
            },
        };
        let recur = match &raw.recur {
            None => None,
            Some(s) => match Recurrence::parse(s.as_str()) {
                Some(rc) => Some(rc),
                None => {
                    return Err(malformed("recur"));
                },
            },
        };
        Ok(
            TaskwarriorTask {
                uuid,
                id: TaskwarriorTaskLocalId(raw.id),
                entry,
                modified,
                status,
                description: raw.description.clone(),
                urgency: raw.urgency.clone(),
                due,
                start,
                end,
                wait,
                parent,
                project: crate::chars::clone_opt_string(&raw.project),
                priority,
                recur,
                tags: crate::chars::clone_opt_strings(&raw.tags),
                contextswitch: crate::chars::clone_opt_string(&raw.contextswitch),
            },
        )
    }
}

/// How an internal task record relates to the external store's record it
/// was read from: the durable identifier is the store's stable key (never
/// the transient local id), every scalar carries over, and the metadata
/// extension is the lenient decoding of the raw text field.
pub open spec fn spec_task_of(tw: TaskwarriorTask, t: Task) -> bool {
    &&& t.id == TaskId(tw.uuid.0)
    &&& t.entry == tw.entry
    &&& t.modified == tw.modified
    &&& t.status == tw.status
    &&& t.description@ == tw.description@
    &&& t.urgency@ == tw.urgency@
    &&& t.due == tw.due
    &&& t.start == tw.start
    &&& t.end == tw.end
    &&& t.wait == tw.wait
    &&& t.parent == match tw.parent {
        Some(id) => Some(TaskId(id.0)),
        None => None,
    }
    &&& t.project.deep_view() == tw.project.deep_view()
    &&& t.priority == tw.priority
    &&& t.recur == tw.recur
    &&& t.tags.deep_view() == tw.tags.deep_view()
    &&& match spec_decode_metadata_field(opt_view(tw.contextswitch)) {
        Some(mv) => t.contextswitch matches Some(d) && d@ == mv,
        None => t.contextswitch is None,
    }
}

impl Task {
    /// Materializes the internal task record from the external store's
    /// record. The metadata extension is decoded leniently: malformed
    /// raw text becomes absence, never an error.
    pub fn from(tw: &TaskwarriorTask) -> (r: Task)
        ensures
            spec_task_of(*tw, r),
            tw.well_formed() ==> r.well_formed(),
    {
        Task {
            id: tw.uuid.to_task_id(),
            entry: tw.entry,
            modified: tw.modified,
            status: tw.status,
            description: tw.description.clone(),
            urgency: tw.urgency.clone(),
            due: tw.due,
            start: tw.start,
            end: tw.end,
            wait: tw.wait,
            parent: match &tw.parent {
                Some(id) => Some(id.to_task_id()),
                None => None,
            },
            project: crate::chars::clone_opt_string(&tw.project),
            priority: tw.priority,
            recur: tw.recur,
            tags: crate::chars::clone_opt_strings(&tw.tags),
            contextswitch: crate::metadata::decode_metadata(&tw.contextswitch),
        }
    }
}

/// The ordered argument list for the external store's mutation
/// subcommand, addressed by the durable identifier.
#[derive(Debug, Clone, PartialEq)]
pub struct TaskwarriorAction {
    pub uuid: TaskwarriorTaskId,
    pub args: Vec<String>,
}

/// Joins a field name and a value into the `name:value` argument form the
/// external store's mutation subcommand expects.
pub fn to_arg(arg: &str, value: &str) -> (r: String)
    ensures
        r@ == arg@ + ":"@ + value@,
{
    let mut s = arg.to_owned();
    s.append(":");
    s.append(value);
    s
}

/// The `+tag` arguments of a record, in stored order; a record without
/// tags contributes none.
pub open spec fn spec_tag_args(tags: Option<Seq<Seq<char>>>) -> Seq<Seq<char>> {
    match tags {
        Some(ts) => Seq::new(ts.len(), |i: int| seq!['+'] + ts[i]),
        None => Seq::empty(),
    }
}

/// The text of an optional timestamp in the outbound mutation form; an
/// absent one has empty text, which clears the field.
pub open spec fn spec_opt_date_text(o: Option<Timestamp>) -> Seq<char> {
    match o {
        Some(ts) => crate::timestamp::spec_format_date(ts),
        None => Seq::empty(),
    }
}

/// The full argument list the action builder produces: the description
/// first, the `+tag` arguments in stored order, then one `name:value`
/// argument for every optional field in a fixed order — with the empty
/// value for an absent field, since the external store distinguishes
/// clearing a field from omitting it.
pub open spec fn spec_action_args(t: Task) -> Seq<Seq<char>> {
    seq![t.description@] + spec_tag_args(t.tags.deep_view()) + seq![
        "due:"@ + spec_opt_date_text(t.due),
        "start:"@ + spec_opt_date_text(t.start),
        "end:"@ + spec_opt_date_text(t.end),
        "wait:"@ + spec_opt_date_text(t.wait),
        "parent:"@ + (match t.parent {
            Some(id) => spec_uuid_text(id.0 as int),
            None => Seq::empty(),
        }),
        "project:"@ + (match t.project {
            Some(p) => p@,
            None => Seq::empty(),
        }),
        "priority:"@ + (match t.priority {
            Some(p) => crate::task::spec_priority_label(p),
            None => Seq::empty(),
        }),
        "recur:"@ + (match t.recur {
            Some(rc) => crate::task::spec_recurrence_label(rc),
            None => Seq::empty(),
        }),
        "contextswitch:"@ + (match t.contextswitch {
            Some(d) => crate::metadata::spec_encode_metadata(d@),
            None => Seq::empty(),
        }),
    ]
}

/// Appends one argument, extending the list's mathematical value.
fn push_arg(args: &mut Vec<String>, s: String)
    ensures
        final(args).deep_view() == old(args).deep_view().push(s@),
{
    let ghost prev = args.deep_view();
    let ghost sv = s@;
    args.push(s);
    proof {
        assert(args.deep_view() =~~= prev.push(sv));
    }
}

/// A tag argument: the tag behind a plus sign.
fn plus_tag(tag: &str) -> (r: String)
    ensures
        r@ == seq!['+'] + tag@,
{
    proof {
        reveal_strlit("+");
        assert("+"@ =~= seq!['+']);
    }
    let mut s = "+".to_owned();
    s.append(tag);
    s
}

/// The outbound text of an optional timestamp.
fn opt_date_text(o: &Option<Timestamp>) -> (r: String)
    requires
        o matches Some(t) ==> t.well_formed(),
    ensures
        r@ == spec_opt_date_text(*o),
{
    match o {
        Some(t) => crate::timestamp::format_date(t),
        None => String::new(),
    }
}

impl TaskwarriorAction {
    /// Builds the ordered argument list for mutating a task: fully
    /// deterministic, no I/O. Every optional field is sent explicitly,
    /// using the empty-clears convention.
    #[verifier::rlimit(90)]
    pub fn try_from(task: &Task) -> (r: Result<TaskwarriorAction, crate::api::ContextswitchError>)
        requires
            task.well_formed(),
        ensures
            r is Ok,
            r matches Ok(a) ==> a.uuid == TaskwarriorTaskId(task.id.0) && a.args.deep_view()
                == spec_action_args(*task),
    {
        let mut args: Vec<String> = Vec::new();
        push_arg(&mut args, task.description.clone());
        proof {
            assert(args.deep_view() =~~= seq![task.description@] + spec_tag_args(
                task.tags.deep_view(),
            ).take(0));
        }
        match &task.tags {
            Some(ts) => {
                let mut i: usize = 0;
                while i < ts.len()
                    invariant
                        task.tags matches Some(tsv) && tsv == *ts,
                        i <= ts@.len(),
                        args.deep_view() =~~= seq![task.description@] + spec_tag_args(
                            task.tags.deep_view(),
                        ).take(i as int),
                    decreases ts@.len() - i,
                {
                    push_arg(&mut args, plus_tag(ts[i].as_str()));
                    proof {
                        let tsdv = ts.deep_view();
                        let full = spec_tag_args(task.tags.deep_view());
                        assert(task.tags.deep_view() == Some(tsdv));
                        assert(tsdv[i as int] == ts@[i as int]@);
                        assert(full == Seq::new(tsdv.len(), |k: int| seq!['+'] + tsdv[k]));
                        assert(full[i as int] == seq!['+'] + tsdv[i as int]);
                        assert(args.deep_view() =~~= seq![task.description@] + full.take(i + 1));
                    }
                    i = i + 1;
                }
            },
            None => {},
        }
        let ghost base = seq![task.description@] + spec_tag_args(task.tags.deep_view());
        proof {
            assert(args.deep_view() =~~= base);
        }
        let due_s = opt_date_text(&task.due);
        push_arg(&mut args, to_arg("due", due_s.as_str()));
        let start_s = opt_date_text(&task.start);
        push_arg(&mut args, to_arg("start", start_s.as_str()));
        let end_s = opt_date_text(&task.end);
        push_arg(&mut args, to_arg("end", end_s.as_str()));
        let wait_s = opt_date_text(&task.wait);
        push_arg(&mut args, to_arg("wait", wait_s.as_str()));
        let parent_s = match &task.parent {
            Some(id) => crate::ids::uuid_text(&TaskwarriorTaskId(id.0)),
            None => String::new(),
        };
        push_arg(&mut args, to_arg("parent", parent_s.as_str()));
        let project_s = match &task.project {
            Some(p) => p.clone(),
            None => String::new(),
        };
        push_arg(&mut args, to_arg("project", project_s.as_str()));
        let priority_s = match &task.priority {
            Some(p) => p.label(),
            None => "",
        };
        push_arg(&mut args, to_arg("priority", priority_s));
        let recur_s = match &task.recur {
            Some(rc) => rc.label(),
            None => "",
        };
        push_arg(&mut args, to_arg("recur", recur_s));
        let cs_s = crate::metadata::encode_metadata_field(&task.contextswitch);
        push_arg(&mut args, to_arg("contextswitch", cs_s.as_str()));
        proof {
            reveal_strlit("");
            reveal_strlit(":");
            reveal_strlit("due");
            reveal_strlit("due:");
            reveal_strlit("start");
            reveal_strlit("start:");
            reveal_strlit("end");
            reveal_strlit("end:");
            reveal_strlit("wait");
            reveal_strlit("wait:");
            reveal_strlit("parent");
            reveal_strlit("parent:");
            reveal_strlit("project");
            reveal_strlit("project:");
            reveal_strlit("priority");
            reveal_strlit("priority:");
            reveal_strlit("recur");
            reveal_strlit("recur:");
            reveal_strlit("contextswitch");
            reveal_strlit("contextswitch:");
            assert("due"@ + ":"@ =~= "due:"@);
            assert("start"@ + ":"@ =~= "start:"@);
            assert("end"@ + ":"@ =~= "end:"@);
            assert("wait"@ + ":"@ =~= "wait:"@);
            assert("parent"@ + ":"@ =~= "parent:"@);
            assert("project"@ + ":"@ =~= "project:"@);
            assert("priority"@ + ":"@ =~= "priority:"@);
            assert("recur"@ + ":"@ =~= "recur:"@);
            assert("contextswitch"@ + ":"@ =~= "contextswitch:"@);
            assert(""@ =~= Seq::<char>::empty());
            assert(args.deep_view() =~~= spec_action_args(*task));
        }
        Ok(TaskwarriorAction { uuid: TaskwarriorTaskId::from_task_id(&task.id), args })
    }
}

/// The marker text in front of the generated id in the creation
/// subcommand's human-readable output.
pub open spec fn spec_marker() -> Seq<char> {
    seq!['C', 'r', 'e', 'a', 't', 'e', 'd', ' ', 't', 'a', 's', 'k', ' ']
}

/// Whether the marker text stands at a position.
pub open spec fn spec_marker_at(s: Seq<char>, i: int) -> bool {
    0 <= i && i + 13 <= s.len() && s.subrange(i, i + 13) == spec_marker()
}

/// The length of the run of decimal digits at a position.
pub open spec fn spec_digit_run(s: Seq<char>, i: int) -> int
    decreases s.len() - i,
{
    if 0 <= i < s.len() && crate::timestamp::spec_digit_val(s[i]) is Some {
        1 + spec_digit_run(s, i + 1)
    } else {
        0
    }
}

/// Whether the side-channel pattern matches at a position: the marker,
/// at least one digit, and one more character after the digits — where
/// that character may be the last digit itself if at least two digits
/// stand there, but never a line break.
pub open spec fn spec_match_at(s: Seq<char>, i: int) -> bool {
    let p = i + 13;
    let l = spec_digit_run(s, p);
    &&& spec_marker_at(s, i)
    &&& l >= 1
    &&& (p + l < s.len() && s[p + l] != '\n' || l >= 2)
}

/// The digit text the pattern captures at a matching position: the whole
/// run when a character follows it, otherwise the run except its last
/// digit, which the pattern consumes.
pub open spec fn spec_id_digits_at(s: Seq<char>, i: int) -> Seq<char> {
    let p = i + 13;
    let l = spec_digit_run(s, p);
    if p + l < s.len() && s[p + l] != '\n' {
        s.subrange(p, p + l)
    } else {
        s.subrange(p, p + l - 1)
    }
}

/// The captured digit text at the leftmost matching position, scanning
/// from a position.
pub open spec fn spec_extract_from(s: Seq<char>, i: int) -> Option<Seq<char>>
    decreases s.len() - i,
{
    if i + 13 > s.len() || i < 0 {
        None
    } else if spec_match_at(s, i) {
        Some(spec_id_digits_at(s, i))
    } else {
        spec_extract_from(s, i + 1)
    }
}

/// The value of a digit text, a non-digit counting as zero.
pub open spec fn spec_digits_value(ds: Seq<char>) -> int
    decreases ds.len(),
{
    if ds.len() == 0 {
        0
    } else {
        spec_digits_value(ds.drop_last()) * 10 + crate::timestamp::spec_digit_val(
            ds.last(),
        ).unwrap_or(0)
    }
}

/// The generated local id recovered from the creation subcommand's
/// output, if the side-channel pattern matches anywhere.
pub open spec fn spec_created_id(s: Seq<char>) -> Option<int> {
    match spec_extract_from(s, 0) {
        Some(ds) => Some(spec_digits_value(ds)),
        None => None,
    }
}

/// Whether the marker text stands at a position.
fn marker_at(v: &Vec<char>, i: usize) -> (r: bool)
    ensures
        r == spec_marker_at(v@, i as int),
{
    if v.len() < 13 || i > v.len() - 13 {
        return false;
    }
    let r = v[i] == 'C' && v[i + 1] == 'r' && v[i + 2] == 'e' && v[i + 3] == 'a' && v[i + 4] == 't'
        && v[i + 5] == 'e' && v[i + 6] == 'd' && v[i + 7] == ' ' && v[i + 8] == 't' && v[i + 9]
        == 'a' && v[i + 10] == 's' && v[i + 11] == 'k' && v[i + 12] == ' ';
    proof {
        if r {
            assert(v@.subrange(i as int, i + 13) =~= spec_marker());
        } else {
            assert(v@.subrange(i as int, i + 13) != spec_marker()) by {
                if v@.subrange(i as int, i + 13) == spec_marker() {
                    assert(v@[i as int] == v@.subrange(i as int, i + 13)[0]);
                    assert(v@[i + 1] == v@.subrange(i as int, i + 13)[1]);
                    assert(v@[i + 2] == v@.subrange(i as int, i + 13)[2]);
                    assert(v@[i + 3] == v@.subrange(i as int, i + 13)[3]);
                    assert(v@[i + 4] == v@.subrange(i as int, i + 13)[4]);
                    assert(v@[i + 5] == v@.subrange(i as int, i + 13)[5]);
                    assert(v@[i + 6] == v@.subrange(i as int, i + 13)[6]);
                    assert(v@[i + 7] == v@.subrange(i as int, i + 13)[7]);
                    assert(v@[i + 8] == v@.subrange(i as int, i + 13)[8]);
                    assert(v@[i + 9] == v@.subrange(i as int, i + 13)[9]);
                    assert(v@[i + 10] == v@.subrange(i as int, i + 13)[10]);
                    assert(v@[i + 11] == v@.subrange(i as int, i + 13)[11]);
                    assert(v@[i + 12] == v@.subrange(i as int, i + 13)[12]);
                }
            }
        }
    }
    r
}

/// The length of the digit run at a position.
fn digit_run(v: &Vec<char>, i: usize) -> (r: usize)
    requires
        i <= v@.len(),
    ensures
        r as int == spec_digit_run(v@, i as int),
        i + r <= v@.len(),
    decreases v@.len() - i,
{
    if i < v.len() && crate::timestamp::digit_val(v[i]).is_some() {
        1 + digit_run(v, i + 1)
    } else {
        0
    }
}

/// Copies a range of characters.
fn copy_range(v: &Vec<char>, a: usize, b: usize) -> (r: Vec<char>)
    requires
        a <= b <= v@.len(),
    ensures
        r@ == v@.subrange(a as int, b as int),
{
    let mut out: Vec<char> = Vec::new();
    let mut i: usize = a;
    while i < b
        invariant
            a <= i <= b <= v@.len(),
            out@ == v@.subrange(a as int, i as int),
        decreases b - i,
    {
        out.push(v[i]);
        proof {
            assert(out@ =~= v@.subrange(a as int, i + 1));
        }
        i = i + 1;
    }
    out
}

/// The captured digit text at the leftmost matching position.
fn extract_from(v: &Vec<char>, i: usize) -> (r: Option<Vec<char>>)
    ensures
        match spec_extract_from(v@, i as int) {
            Some(ds) => r matches Some(dv) && dv@ == ds,
            None => r is None,
        },
    decreases v@.len() - i,
{
    if v.len() < 13 || i > v.len() - 13 {
        proof {
            assert(i + 13 > v@.len());
        }
        return None;
    }
    let p = i + 13;
    if marker_at(v, i) {
        let l = digit_run(v, p);
        let trailing = p + l < v.len() && v[p + l] != '\n';
        if l >= 1 && (trailing || l >= 2) {
            if trailing {
                return Some(copy_range(v, p, p + l));
            } else {
                return Some(copy_range(v, p, p + l - 1));
            }
        }
    }
    extract_from(v, i + 1)
}

/// The value of a digit text is never negative.
proof fn lemma_digits_value_nonneg(ds: Seq<char>)
    ensures
        spec_digits_value(ds) >= 0,
    decreases ds.len(),
{
    if ds.len() > 0 {
        lemma_digits_value_nonneg(ds.drop_last());
    }
}

/// A digit text's value is at least the value of each of its prefixes.
proof fn lemma_digits_value_mono(ds: Seq<char>, i: int)
    requires
        0 <= i <= ds.len(),
    ensures
        spec_digits_value(ds.take(i)) <= spec_digits_value(ds),
    decreases ds.len(),
{
    if i < ds.len() {
        assert(ds.take(i) =~= ds.drop_last().take(i));
        lemma_digits_value_mono(ds.drop_last(), i);
        lemma_digits_value_nonneg(ds.drop_last());
    } else {
        assert(ds.take(i) =~= ds);
    }
}

/// The value of a digit text as an unsigned integer, or `None` when it
/// does not fit.
fn digits_value_u64(ds: &Vec<char>) -> (r: Option<u64>)
    ensures
        match r {
            Some(x) => spec_digits_value(ds@) == x as int,
            None => spec_digits_value(ds@) > u64::MAX,
        },
{
    let mut acc: u128 = 0;
    let mut i: usize = 0;
    while i < ds.len()
        invariant
            i <= ds@.len(),
            acc as int == spec_digits_value(ds@.take(i as int)),
            acc <= 0xFFFFFFFFFFFFFFFF,
        decreases ds@.len() - i,
    {
        let d: u8 = match crate::timestamp::digit_val(ds[i]) {
            Some(d) => d,
            None => 0,
        };
        let next: u128 = acc * 10 + d as u128;
        proof {
            assert(ds@.take(i + 1).drop_last() =~= ds@.take(i as int));
            assert(ds@.take(i + 1).last() == ds@[i as int]);
        }
        if next > 0xFFFFFFFFFFFFFFFF {
            proof {
                lemma_digits_value_mono(ds@, i + 1);
            }
            return None;
        }
        acc = next;
        i = i + 1;
    }
    proof {
        assert(ds@.take(ds@.len() as int) =~= ds@);
    }
    Some(acc as u64)
}

/// Recovers the generated local id from the creation subcommand's
/// human-readable output. This is the single narrowly-scoped extraction
/// point of the side channel: a missing marker or an id that does not
/// fit the identifier's range is an `UnexpectedError`.
pub fn extract_created_task_id(output: &str) -> (r: Result<
    TaskwarriorTaskLocalId,
    TaskwarriorError,
>)
    ensures
        r is Ok <==> (spec_created_id(output@) matches Some(v) && v <= u64::MAX),
        r matches Ok(id) ==> spec_created_id(output@) == Some(id.0 as int),
        r is Err ==> (r matches Err(TaskwarriorError::UnexpectedError { .. })),
{
    let v = crate::chars::chars_of(output);
    match extract_from(&v, 0) {
        None => {
            let mut message = "Cannot extract task ID from: ".to_owned();
            message.append(output);
            Err(TaskwarriorError::UnexpectedError { message })
        },
        Some(ds) => match digits_value_u64(&ds) {
            Some(x) => Ok(TaskwarriorTaskLocalId(x)),
            None => Err(
                TaskwarriorError::UnexpectedError {
                    message: "Cannot parse task ID value".to_owned(),
                },
            ),
        },
    }
}

/// Enforces the uniqueness discipline of an addressed lookup: no record
/// and one record pass through, more than one is an invariant violation
/// of the external state, reported and never silently resolved.
pub fn select_unique_task(tasks: Vec<TaskwarriorTask>, message: &str) -> (r: Result<
    Option<TaskwarriorTask>,
    TaskwarriorError,
>)
    ensures
        tasks@.len() == 0 ==> r == Result::<Option<TaskwarriorTask>, TaskwarriorError>::Ok(
            Option::<TaskwarriorTask>::None,
        ),
        tasks@.len() == 1 ==> r == Result::<Option<TaskwarriorTask>, TaskwarriorError>::Ok(
            Some(tasks@[0]),
        ),
        tasks@.len() > 1 ==> (r matches Err(TaskwarriorError::UnexpectedError { message: m })
            && m@ == message@),
{
    if tasks.len() > 1 {
        Err(TaskwarriorError::UnexpectedError { message: message.to_owned() })
    } else {
        let mut ts = tasks;
        Ok(ts.pop())
    }
}

/// Appends copies of the given arguments.
fn extend_args(out: &mut Vec<String>, v: &Vec<String>)
    ensures
        final(out).deep_view() == old(out).deep_view() + v.deep_view(),
{
    let mut i: usize = 0;
    while i < v.len()
        invariant
            i <= v@.len(),
            out.deep_view() == old(out).deep_view() + v.deep_view().take(i as int),
        decreases v@.len() - i,
    {
        proof {
            assert(v.deep_view()[i as int] == v@[i as int]@);
        }
        push_arg(out, v[i].clone());
        proof {
            assert(out.deep_view() =~= old(out).deep_view() + v.deep_view().take(i + 1));
        }
        i = i + 1;
    }
    proof {
        assert(old(out).deep_view() + v.deep_view().take(v@.len() as int) =~= old(
            out,
        ).deep_view() + v.deep_view());
    }
}

/// The argument list of the export subcommand: the filter tokens in
/// order, then the subcommand name.
pub fn export_command_args(filters: &Vec<String>) -> (r: Vec<String>)
    ensures
        r.deep_view() == filters.deep_view() + seq!["export"@],
{
    let mut out: Vec<String> = Vec::new();
    proof {
        assert(out.deep_view() + filters.deep_view() =~= filters.deep_view());
    }
    extend_args(&mut out, filters);
    push_arg(&mut out, "export".to_owned());
    proof {
        assert(out.deep_view() =~= filters.deep_view() + seq!["export"@]);
    }
    out
}

/// The argument list of the creation subcommand: the subcommand name,
/// then the definition tokens in order.
pub fn add_command_args(add_args: &Vec<String>) -> (r: Vec<String>)
    ensures
        r.deep_view() == seq!["add"@] + add_args.deep_view(),
{
    let mut out: Vec<String> = Vec::new();
    push_arg(&mut out, "add".to_owned());
    proof {
        assert(out.deep_view() =~= seq!["add"@]);
    }
    extend_args(&mut out, add_args);
    out
}

/// The argument list of the modification subcommand: the durable
/// identifier's canonical text, the subcommand name, then the action's
/// arguments in order.
pub fn modify_command_args(action: &TaskwarriorAction) -> (r: Vec<String>)
    ensures
        r.deep_view() == seq![spec_uuid_text(action.uuid.0 as int), "mod"@]
            + action.args.deep_view(),
{
    let mut out: Vec<String> = Vec::new();
    push_arg(&mut out, crate::ids::uuid_text(&action.uuid));
    push_arg(&mut out, "mod".to_owned());
    proof {
        assert(out.deep_view() =~= seq![spec_uuid_text(action.uuid.0 as int), "mod"@]);
    }
    extend_args(&mut out, &action.args);
    out
}

/// How the external store's configuration is to be prepared: load an
/// existing configuration file, or write the default one into the data
/// directory.
#[derive(Debug, Clone, PartialEq, Eq)]
pub enum ConfigPlan {
    UseExistingTaskrc { taskrc_location: String },
    WriteDefaultTaskrc { data_location: String, taskrc_location: String },
}

/// Decides the configuration plan from the settings: a named
/// configuration file wins; otherwise the default configuration is
/// written beside the data. One of the two settings must be present.
pub fn load_config_plan(settings: &crate::configuration::TaskwarriorSettings) -> (r: ConfigPlan)
    requires
        settings.taskrc is Some || settings.data_location is Some,
    ensures
        match settings.taskrc {
            Some(t) => r matches ConfigPlan::UseExistingTaskrc { taskrc_location }
                && taskrc_location@ == t@,
            None => match settings.data_location {
                Some(d) => r matches ConfigPlan::WriteDefaultTaskrc {
                    data_location,
                    taskrc_location,
                } && data_location@ == d@ && taskrc_location@ == d@ + "/.taskrc"@,
                None => false,
            },
        },
{
    match &settings.taskrc {
        Some(t) => ConfigPlan::UseExistingTaskrc { taskrc_location: t.clone() },
        None => {
            let d = match &settings.data_location {
                Some(d) => d.clone(),
                None => String::new(),
            };
            let mut taskrc_location = d.clone();
            taskrc_location.append("/.taskrc");
            ConfigPlan::WriteDefaultTaskrc { data_location: d, taskrc_location }
        },
    }
}

/// One key and value of the default configuration.
#[derive(Debug, Clone, PartialEq, Eq)]
pub struct ConfigEntry {
    pub key: String,
    pub value: String,
}

/// The entries of the default configuration written when no
/// configuration file is named: the data location and the declaration of
/// the opaque text field carrying the metadata extension, whose default
/// is the empty object.
pub fn default_config_entries(data_location: &str) -> (r: Vec<ConfigEntry>)
    ensures
        r@.len() == 4,
        r@[0].key@ == "data.location"@ && r@[0].value@ == data_location@,
        r@[1].key@ == "uda.contextswitch.type"@ && r@[1].value@ == "string"@,
        r@[2].key@ == "uda.contextswitch.label"@ && r@[2].value@ == "Contextswitch data"@,
        r@[3].key@ == "uda.contextswitch.default"@ && r@[3].value@ == "{}"@,
{
    let mut out: Vec<ConfigEntry> = Vec::new();
    out.push(
        ConfigEntry { key: "data.location".to_owned(), value: data_location.to_owned() },
    );
    out.push(
        ConfigEntry { key: "uda.contextswitch.type".to_owned(), value: "string".to_owned() },
    );
    out.push(
        ConfigEntry {
            key: "uda.contextswitch.label".to_owned(),
            value: "Contextswitch data".to_owned(),
        },
    );
    out.push(
        ConfigEntry { key: "uda.contextswitch.default".to_owned(), value: "{}".to_owned() },
    );
    out
}

/// Converts a whole export result set, in order; the first row violating
/// a field encoding rejects the whole output, as the export path is
/// strict for every field but the metadata extension.
pub fn tasks_from_export(rows: &Vec<RawTask>) -> (r: Result<Vec<TaskwarriorTask>, TaskwarriorError>)
    ensures
        r is Ok <==> (forall|i: int| 0 <= i < rows@.len() ==> spec_export_ok(#[trigger] rows@[i])),
        r matches Ok(v) ==> v@.len() == rows@.len() && (forall|i: int|
            0 <= i < rows@.len() ==> spec_export_matches(rows@[i], #[trigger] v@[i])
                && v@[i].well_formed()),
        r is Err ==> (r matches Err(TaskwarriorError::MalformedField { .. })),
{
    let mut out: Vec<TaskwarriorTask> = Vec::new();
    let mut i: usize = 0;
    while i < rows.len()
        invariant
            i <= rows@.len(),
            out@.len() == i,
            forall|j: int| 0 <= j < i ==> spec_export_ok(#[trigger] rows@[j]),
            forall|j: int|
                0 <= j < i ==> spec_export_matches(rows@[j], #[trigger] out@[j])
                    && out@[j].well_formed(),
        decreases rows@.len() - i,
    {
        match TaskwarriorTask::from_export(&rows[i]) {
            Ok(t) => {
                out.push(t);
            },
            Err(e) => {
                return Err(e);
            },
        }
        i = i + 1;
    }
    Ok(out)
}

/// The creation protocol's final step: the freshly created record must
/// have been found by its scraped local id; an absent record is an
/// inconsistent external state.
pub fn require_created_task(id: &TaskwarriorTaskLocalId, found: Option<TaskwarriorTask>) -> (r:
    Result<TaskwarriorTask, TaskwarriorError>)
    ensures
        match found {
            Some(t) => r == Result::<TaskwarriorTask, TaskwarriorError>::Ok(t),
            None => r matches Err(TaskwarriorError::UnexpectedError { .. }),
        },
{
    match found {
        Some(t) => Ok(t),
        None => {
            let mut message = "Newly created task with ID ".to_owned();
            let id_text = crate::ids::local_id_text(id);
            message.append(id_text.as_str());
            message.append(" was not found");
            Err(TaskwarriorError::UnexpectedError { message })
        },
    }
}

/// The update protocol's final step: the record must still exist under
/// its durable identifier after the modification.
pub fn require_updated_task(uuid: &TaskwarriorTaskId, found: Option<TaskwarriorTask>) -> (r:
    Result<TaskwarriorTask, TaskwarriorError>)
    ensures
        match found {
            Some(t) => r == Result::<TaskwarriorTask, TaskwarriorError>::Ok(t),
            None => r matches Err(TaskwarriorError::UnexpectedError { .. }),
        },
{
    match found {
        Some(t) => Ok(t),
        None => {
            let mut message = "Updated task with UUID ".to_owned();
            let id_text = crate::ids::uuid_text(uuid);
            message.append(id_text.as_str());
            message.append(" was not found");
            Err(TaskwarriorError::UnexpectedError { message })
        },
    }
}

/// Action-builder determinism law: for a record with every optional field
/// absent and no tags, the built argument list is exactly the description
/// followed by one empty-valued `name:` argument per optional field, in
/// the fixed field order, with no tag arguments.
pub proof fn lemma_action_builder_all_absent(t: Task)
    requires
        t.tags is None,
        t.due is None,
        t.start is None,
        t.end is None,
        t.wait is None,
        t.parent is None,
        t.project is None,
        t.priority is None,
        t.recur is None,
        t.contextswitch is None,
    ensures
        spec_action_args(t) == seq![
            t.description@,
            "due:"@,
            "start:"@,
            "end:"@,
            "wait:"@,
            "parent:"@,
            "project:"@,
            "priority:"@,
            "recur:"@,
            "contextswitch:"@,
        ],
{
    assert(spec_tag_args(t.tags.deep_view()) =~= Seq::<Seq<char>>::empty());
    assert("due:"@ + spec_opt_date_text(t.due) =~= "due:"@);
    assert("start:"@ + spec_opt_date_text(t.start) =~= "start:"@);
    assert("end:"@ + spec_opt_date_text(t.end) =~= "end:"@);
    assert("wait:"@ + spec_opt_date_text(t.wait) =~= "wait:"@);
    assert("parent:"@ + Seq::<char>::empty() =~= "parent:"@);
    assert("project:"@ + Seq::<char>::empty() =~= "project:"@);
    assert("priority:"@ + Seq::<char>::empty() =~= "priority:"@);
    assert("recur:"@ + Seq::<char>::empty() =~= "recur:"@);
    assert("contextswitch:"@ + Seq::<char>::empty() =~= "contextswitch:"@);
    assert(spec_action_args(t) =~~= seq![
        t.description@,
        "due:"@,
        "start:"@,
        "end:"@,
        "wait:"@,
        "parent:"@,
        "project:"@,
        "priority:"@,
        "recur:"@,
        "contextswitch:"@,
    ]);
}

} // verus!
