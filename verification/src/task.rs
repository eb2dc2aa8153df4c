//! The typed task model: the durable task identifier, the status /
//! priority / recurrence enumerations, bookmarks, the structured metadata
//! extension, and the task record itself.

use vstd::prelude::*;

verus! {

/// The durable task identifier: the external store's stable per-task key,
/// a 128-bit value rendered in the canonical hyphenated hexadecimal form.
#[derive(Debug, Clone, Copy, PartialEq, Eq, Structural)]
pub struct TaskId(pub u128);

/// Task status as reported by the external store.
#[derive(Debug, Clone, Copy, PartialEq, Eq, Structural)]
pub enum Status {
    Pending,
    Completed,
    Recurring,
    Deleted,
}

/// Task priority: the external store's small closed set.
#[derive(Debug, Clone, Copy, PartialEq, Eq, Structural)]
pub enum Priority {
    H,
    M,
    L,
}

/// Recurrence period of a recurring task.
#[derive(Debug, Clone, Copy, PartialEq, Eq, Structural)]
pub enum Recurrence {
    Daily,
    Weekly,
    Monthly,
    Yearly,
}

/// A bookmark of the metadata extension: a required URI and optional
/// textual content.
#[derive(Debug, Clone, PartialEq, Eq)]
pub struct Bookmark {
    pub uri: String,
    pub content: Option<String>,
}

/// The mathematical value of a [`Bookmark`].
pub struct BookmarkView {
    pub uri: Seq<char>,
    pub content: Option<Seq<char>>,
}

impl View for Bookmark {
    type V = BookmarkView;

    open spec fn view(&self) -> BookmarkView {
        BookmarkView {
            uri: self.uri@,
            content: match self.content {
                Some(c) => Some(c@),
                None => None,
            },
        }
    }
}

/// The structured metadata extension carried through the external store's
/// opaque text field: an ordered list of bookmarks.
#[derive(Debug, Clone, PartialEq, Eq)]
pub struct ContextswitchData {
    pub bookmarks: Vec<Bookmark>,
}

/// The mathematical value of [`ContextswitchData`].
pub struct ContextswitchDataView {
    pub bookmarks: Seq<BookmarkView>,
}

/// The mathematical values of a sequence of bookmarks.
pub open spec fn bookmarks_view(bs: Seq<Bookmark>) -> Seq<BookmarkView> {
    Seq::new(bs.len(), |i: int| bs[i]@)
}

impl View for ContextswitchData {
    type V = ContextswitchDataView;

    open spec fn view(&self) -> ContextswitchDataView {
        ContextswitchDataView { bookmarks: bookmarks_view(self.bookmarks@) }
    }
}

/// The internal task record. Timestamps are calendar values, the urgency
/// score is carried as the external store's decimal text (it is computed by
/// the store and never interpreted here), and the metadata extension is the
/// decoded structure.
#[derive(Debug, Clone, PartialEq)]
pub struct Task {
    pub id: TaskId,
    pub entry: crate::timestamp::Timestamp,
    pub modified: crate::timestamp::Timestamp,
    pub status: Status,
    pub description: String,
    pub urgency: String,
    pub due: Option<crate::timestamp::Timestamp>,
    pub start: Option<crate::timestamp::Timestamp>,
    pub end: Option<crate::timestamp::Timestamp>,
    pub wait: Option<crate::timestamp::Timestamp>,
    pub parent: Option<TaskId>,
    pub project: Option<String>,
    pub priority: Option<Priority>,
    pub recur: Option<Recurrence>,
    pub tags: Option<Vec<String>>,
    pub contextswitch: Option<ContextswitchData>,
}

impl Task {
    /// Every timestamp of the record lies in its calendar range.
    pub open spec fn well_formed(self) -> bool {
        &&& self.entry.well_formed()
        &&& self.modified.well_formed()
        &&& (self.due matches Some(t) ==> t.well_formed())
        &&& (self.start matches Some(t) ==> t.well_formed())
        &&& (self.end matches Some(t) ==> t.well_formed())
        &&& (self.wait matches Some(t) ==> t.well_formed())
    }
}

/// A task definition as submitted by a collaborator: the free-form tokens
/// of the creation command, space-separated.
#[derive(Debug, Clone, PartialEq, Eq)]
pub struct NewTask {
    pub definition: String,
}

/// The label of a status value in the external store's serialized form.
pub open spec fn spec_status_label(s: Status) -> Seq<char> {
    match s {
        Status::Pending => seq!['p', 'e', 'n', 'd', 'i', 'n', 'g'],
        Status::Completed => seq!['c', 'o', 'm', 'p', 'l', 'e', 't', 'e', 'd'],
        Status::Recurring => seq!['r', 'e', 'c', 'u', 'r', 'r', 'i', 'n', 'g'],
        Status::Deleted => seq!['d', 'e', 'l', 'e', 't', 'e', 'd'],
    }
}

/// The status value encoded by a label, if any.
pub open spec fn spec_parse_status(s: Seq<char>) -> Option<Status> {
    if s == spec_status_label(Status::Pending) {
        Some(Status::Pending)
    } else if s == spec_status_label(Status::Completed) {
        Some(Status::Completed)
    } else if s == spec_status_label(Status::Recurring) {
        Some(Status::Recurring)
    } else if s == spec_status_label(Status::Deleted) {
        Some(Status::Deleted)
    } else {
        None
    }
}

impl Status {
    /// The serialized label of this status.
    pub fn label(&self) -> (r: &'static str)
        ensures
            r@ == spec_status_label(*self),
    {
        proof {
            reveal_strlit("pending");
            reveal_strlit("completed");
            reveal_strlit("recurring");
            reveal_strlit("deleted");
        }
        match self {
            Status::Pending => "pending",
            Status::Completed => "completed",
            Status::Recurring => "recurring",
            Status::Deleted => "deleted",
        }
    }

    /// Decodes a status label; any other text encodes no status.
    pub fn parse(s: &str) -> (r: Option<Status>)
        ensures
            r == spec_parse_status(s@),
    {
        proof {
            reveal_strlit("pending");
            reveal_strlit("completed");
            reveal_strlit("recurring");
            reveal_strlit("deleted");
            assert("pending"@ =~= spec_status_label(Status::Pending));
            assert("completed"@ =~= spec_status_label(Status::Completed));
            assert("recurring"@ =~= spec_status_label(Status::Recurring));
            assert("deleted"@ =~= spec_status_label(Status::Deleted));
        }
        if streq(s, "pending") {
            Some(Status::Pending)
        } else if streq(s, "completed") {
            Some(Status::Completed)
        } else if streq(s, "recurring") {
            Some(Status::Recurring)
        } else if streq(s, "deleted") {
            Some(Status::Deleted)
        } else {
            None
        }
    }
}

/// The label of a priority value, as the mutation protocol spells it.
pub open spec fn spec_priority_label(p: Priority) -> Seq<char> {
    match p {
        Priority::H => seq!['H'],
        Priority::M => seq!['M'],
        Priority::L => seq!['L'],
    }
}

/// The priority value encoded by a label, if any.
pub open spec fn spec_parse_priority(s: Seq<char>) -> Option<Priority> {
    if s == spec_priority_label(Priority::H) {
        Some(Priority::H)
    } else if s == spec_priority_label(Priority::M) {
        Some(Priority::M)
    } else if s == spec_priority_label(Priority::L) {
        Some(Priority::L)
    } else {
        None
    }
}

impl Priority {
    /// The serialized label of this priority.
    pub fn label(&self) -> (r: &'static str)
        ensures
            r@ == spec_priority_label(*self),
    {
        proof {
            reveal_strlit("H");
            reveal_strlit("M");
            reveal_strlit("L");
        }
        match self {
            Priority::H => "H",
            Priority::M => "M",
            Priority::L => "L",
        }
    }

    /// Decodes a priority label; any other text encodes no priority.
    pub fn parse(s: &str) -> (r: Option<Priority>)
        ensures
            r == spec_parse_priority(s@),
    {
        proof {
            reveal_strlit("H");
            reveal_strlit("M");
            reveal_strlit("L");
            assert("H"@ =~= spec_priority_label(Priority::H));
            assert("M"@ =~= spec_priority_label(Priority::M));
            assert("L"@ =~= spec_priority_label(Priority::L));
        }
        if streq(s, "H") {
            Some(Priority::H)
        } else if streq(s, "M") {
            Some(Priority::M)
        } else if streq(s, "L") {
            Some(Priority::L)
        } else {
            None
        }
    }
}

/// The label of a recurrence period, as the mutation protocol spells it.
pub open spec fn spec_recurrence_label(r: Recurrence) -> Seq<char> {
    match r {
        Recurrence::Daily => seq!['d', 'a', 'i', 'l', 'y'],
        Recurrence::Weekly => seq!['w', 'e', 'e', 'k', 'l', 'y'],
        Recurrence::Monthly => seq!['m', 'o', 'n', 't', 'h', 'l', 'y'],
        Recurrence::Yearly => seq!['y', 'e', 'a', 'r', 'l', 'y'],
    }
}

/// The recurrence period encoded by a label, if any.
pub open spec fn spec_parse_recurrence(s: Seq<char>) -> Option<Recurrence> {
    if s == spec_recurrence_label(Recurrence::Daily) {
        Some(Recurrence::Daily)
    } else if s == spec_recurrence_label(Recurrence::Weekly) {
        Some(Recurrence::Weekly)
    } else if s == spec_recurrence_label(Recurrence::Monthly) {
        Some(Recurrence::Monthly)
    } else if s == spec_recurrence_label(Recurrence::Yearly) {
        Some(Recurrence::Yearly)
    } else {
        None
    }
}

impl Recurrence {
    /// The serialized label of this recurrence period.
    pub fn label(&self) -> (r: &'static str)
        ensures
            r@ == spec_recurrence_label(*self),
    {
        proof {
            reveal_strlit("daily");
            reveal_strlit("weekly");
            reveal_strlit("monthly");
            reveal_strlit("yearly");
        }
        match self {
            Recurrence::Daily => "daily",
            Recurrence::Weekly => "weekly",
            Recurrence::Monthly => "monthly",
            Recurrence::Yearly => "yearly",
        }
    }

    /// Decodes a recurrence label; any other text encodes no recurrence.
    pub fn parse(s: &str) -> (r: Option<Recurrence>)
        ensures
            r == spec_parse_recurrence(s@),
    {
        proof {
            reveal_strlit("daily");
            reveal_strlit("weekly");
            reveal_strlit("monthly");
            reveal_strlit("yearly");
            assert("daily"@ =~= spec_recurrence_label(Recurrence::Daily));
            assert("weekly"@ =~= spec_recurrence_label(Recurrence::Weekly));
            assert("monthly"@ =~= spec_recurrence_label(Recurrence::Monthly));
            assert("yearly"@ =~= spec_recurrence_label(Recurrence::Yearly));
        }
        if streq(s, "daily") {
            Some(Recurrence::Daily)
        } else if streq(s, "weekly") {
            Some(Recurrence::Weekly)
        } else if streq(s, "monthly") {
            Some(Recurrence::Monthly)
        } else if streq(s, "yearly") {
            Some(Recurrence::Yearly)
        } else {
            None
        }
    }
}

/// Character-wise string equality.
pub fn streq(a: &str, b: &str) -> (r: bool)
    ensures
        r == (a@ == b@),
{
    let an = a.unicode_len();
    let bn = b.unicode_len();
    if an != bn {
        proof {
            assert(a@.len() != b@.len());
        }
        return false;
    }
    let mut i: usize = 0;
    while i < an
        invariant
            an == a@.len(),
            an == b@.len(),
            i <= an,
            forall|j: int| 0 <= j < i ==> a@[j] == b@[j],
        decreases an - i,
    {
        if a.get_char(i) != b.get_char(i) {
            return false;
        }
        i = i + 1;
    }
    proof {
        assert(a@ =~= b@);
    }
    true
}

} // verus!
