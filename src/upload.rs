//! The decisions of one upload request: which form field is stored, what
//! the request ends with, and which HTTP reply that becomes.
use crate::filename::{is_stored_name, is_token, new_filename};
use vstd::prelude::*;

verus! {

/// How processing one multipart form ended.
pub enum UploadResult {
    /// A file was written under this name, relative to the upload root.
    Stored(String),
    /// The form held no field named `file`.
    NoFileField,
    /// An I/O or protocol error aborted processing.
    Failure(String),
}

/// An HTTP status code with a plain-text body.
pub struct Reply {
    pub status: u16,
    pub body: String,
}

/// Where an upload stands.
pub enum Phase {
    /// Reading fields, none of them named `file` so far.
    Scanning,
    /// The `file` field is being written to the file of this name.
    Writing { name: String },
    /// A result has been given; nothing more happens.
    Finished,
}

/// What the reader of the request body reports.
pub enum Event {
    /// The next form field begins, with its name and the client's filename.
    Field { name: String, filename: Option<String> },
    /// All data of the field being written has reached the file.
    Written,
    /// The body holds no more fields.
    End,
    /// Reading the body, or creating or writing the file, failed.
    Failed { cause: String },
}

/// What the reader is to do next.
pub enum Action {
    /// Drop the data of the current field and read on.
    Discard,
    /// Create this file (failing if it exists) and write the field into it.
    Create { name: String },
    /// Processing is over, with this result.
    Finish(UploadResult),
    /// The event changes nothing.
    Ignore,
}

pub enum PhaseKind {
    Scanning,
    Writing,
    Finished,
}

pub enum EventKind {
    FileField,
    OtherField,
    Written,
    End,
    Failed,
}

pub enum ResultKind {
    Stored,
    NoFileField,
    Failure,
}

pub enum ActionKind {
    Discard,
    Create,
    Finish(ResultKind),
    Ignore,
}

pub open spec fn file_field_name() -> Seq<char> {
    seq!['f', 'i', 'l', 'e']
}

impl Phase {
    pub open spec fn kind(&self) -> PhaseKind {
        match self {
            Phase::Scanning => PhaseKind::Scanning,
            Phase::Writing { .. } => PhaseKind::Writing,
            Phase::Finished => PhaseKind::Finished,
        }
    }
}

impl Event {
    pub open spec fn kind(&self) -> EventKind {
        match self {
            Event::Field { name, .. } => if name@ == file_field_name() {
                EventKind::FileField
            } else {
                EventKind::OtherField
            },
            Event::Written => EventKind::Written,
            Event::End => EventKind::End,
            Event::Failed { .. } => EventKind::Failed,
        }
    }
}

impl UploadResult {
    pub open spec fn kind(&self) -> ResultKind {
        match self {
            UploadResult::Stored(_) => ResultKind::Stored,
            UploadResult::NoFileField => ResultKind::NoFileField,
            UploadResult::Failure(_) => ResultKind::Failure,
        }
    }
}

impl Action {
    pub open spec fn kind(&self) -> ActionKind {
        match self {
            Action::Discard => ActionKind::Discard,
            Action::Create { .. } => ActionKind::Create,
            Action::Finish(r) => ActionKind::Finish(r.kind()),
            Action::Ignore => ActionKind::Ignore,
        }
    }
}

/// The phase after an event.
pub open spec fn next_phase(p: PhaseKind, e: EventKind) -> PhaseKind {
    match (p, e) {
        (PhaseKind::Scanning, EventKind::OtherField) => PhaseKind::Scanning,
        (PhaseKind::Scanning, EventKind::FileField) => PhaseKind::Writing,
        (PhaseKind::Scanning, EventKind::End) => PhaseKind::Finished,
        (PhaseKind::Scanning, EventKind::Failed) => PhaseKind::Finished,
        (PhaseKind::Writing, EventKind::Written) => PhaseKind::Finished,
        (PhaseKind::Writing, EventKind::Failed) => PhaseKind::Finished,
        _ => p,
    }
}

/// The action taken on an event.
pub open spec fn next_action(p: PhaseKind, e: EventKind) -> ActionKind {
    match (p, e) {
        (PhaseKind::Scanning, EventKind::OtherField) => ActionKind::Discard,
        (PhaseKind::Scanning, EventKind::FileField) => ActionKind::Create,
        (PhaseKind::Scanning, EventKind::End) => ActionKind::Finish(ResultKind::NoFileField),
        (PhaseKind::Scanning, EventKind::Failed) => ActionKind::Finish(ResultKind::Failure),
        (PhaseKind::Writing, EventKind::Written) => ActionKind::Finish(ResultKind::Stored),
        (PhaseKind::Writing, EventKind::Failed) => ActionKind::Finish(ResultKind::Failure),
        _ => ActionKind::Ignore,
    }
}

/// The phase after a run of events.
pub open spec fn run(p: PhaseKind, es: Seq<EventKind>) -> PhaseKind
    decreases es.len(),
{
    if es.len() == 0 {
        p
    } else {
        run(next_phase(p, es[0]), es.drop_first())
    }
}

/// How many files a run of events creates.
pub open spec fn files_created(p: PhaseKind, es: Seq<EventKind>) -> nat
    decreases es.len(),
{
    if es.len() == 0 {
        0
    } else {
        (if next_action(p, es[0]) == ActionKind::Create {
            1nat
        } else {
            0nat
        }) + files_created(next_phase(p, es[0]), es.drop_first())
    }
}

/// Whether `s` is the name of the field that carries the upload.
fn is_file_field(s: &str) -> (r: bool)
    ensures
        r == (s@ == file_field_name()),
{
    let n = s.unicode_len();
    if n != 4 {
        return false;
    }
    let r = s.get_char(0) == 'f' && s.get_char(1) == 'i' && s.get_char(2) == 'l' && s.get_char(3)
        == 'e';
    assert(r ==> s@ =~= file_field_name());
    r
}

/// Per-request upload state: fields arrive in order, and only the first one
/// named `file` is stored.
pub struct Upload {
    pub phase: Phase,
}

impl Upload {
    pub fn new() -> (r: Upload)
        ensures
            r.phase is Scanning,
    {
        Upload { phase: Phase::Scanning }
    }

    /// Takes the next event and says what to do.
    pub fn step(&mut self, event: Event) -> (a: Action)
        ensures
            final(self).phase.kind() == next_phase(old(self).phase.kind(), event.kind()),
            a.kind() == next_action(old(self).phase.kind(), event.kind()),
            a matches Action::Create { name } ==> {
                &&& final(self).phase == (Phase::Writing { name })
                &&& event matches Event::Field { filename, .. } && exists|t: Seq<char>|
                    is_token(t) && is_stored_name(
                        name@,
                        match filename {
                            Some(f) => Some(f@),
                            None => None,
                        },
                        t,
                    )
            },
            a matches Action::Finish(UploadResult::Stored(p)) ==> old(self).phase matches Phase::Writing { name } && p == name,
            a matches Action::Finish(UploadResult::Failure(c)) ==> event matches Event::Failed { cause } && c == cause,
            a is Ignore ==> final(self).phase == old(self).phase,
    {
        let mut phase = Phase::Finished;
        core::mem::swap(&mut phase, &mut self.phase);
        match phase {
            Phase::Scanning => match event {
                Event::Field { name, filename } => {
                    if is_file_field(name.as_str()) {
                        let client: Option<&str> = match &filename {
                            Some(f) => Some(f.as_str()),
                            None => None,
                        };
                        let stored = new_filename(client);
                        self.phase = Phase::Writing { name: stored.clone() };
                        Action::Create { name: stored }
                    } else {
                        self.phase = Phase::Scanning;
                        Action::Discard
                    }
                },
                Event::Written => {
                    self.phase = Phase::Scanning;
                    Action::Ignore
                },
                Event::End => Action::Finish(UploadResult::NoFileField),
                Event::Failed { cause } => Action::Finish(UploadResult::Failure(cause)),
            },
            Phase::Writing { name } => match event {
                Event::Written => Action::Finish(UploadResult::Stored(name)),
                Event::Failed { cause } => Action::Finish(UploadResult::Failure(cause)),
                _ => {
                    self.phase = Phase::Writing { name };
                    Action::Ignore
                },
            },
            Phase::Finished => Action::Ignore,
        }
    }
}

/// Once the `file` field has been taken, or processing is over, no run of
/// events creates a file.
proof fn lemma_no_file_after_scanning(p: PhaseKind, es: Seq<EventKind>)
    requires
        p != PhaseKind::Scanning,
    ensures
        files_created(p, es) == 0,
    decreases es.len(),
{
    if es.len() > 0 {
        lemma_no_file_after_scanning(next_phase(p, es[0]), es.drop_first());
    }
}

/// Any run of events, in any phase, creates at most one file: only the
/// first field named `file` is stored.
pub proof fn lemma_at_most_one_file(p: PhaseKind, es: Seq<EventKind>)
    ensures
        files_created(p, es) <= 1,
    decreases es.len(),
{
    if es.len() > 0 {
        if next_phase(p, es[0]) == PhaseKind::Scanning {
            lemma_at_most_one_file(next_phase(p, es[0]), es.drop_first());
        } else {
            lemma_no_file_after_scanning(next_phase(p, es[0]), es.drop_first());
        }
    }
}

/// A form with no field named `file` creates no file, and when its body
/// ends the result is that there is no file.
pub proof fn lemma_no_file_field(es: Seq<EventKind>)
    requires
        forall|i: int| 0 <= i < es.len() ==> es[i] != EventKind::FileField,
    ensures
        files_created(PhaseKind::Scanning, es) == 0,
        run(PhaseKind::Scanning, es) != PhaseKind::Writing,
        run(PhaseKind::Scanning, es) == PhaseKind::Scanning ==> next_action(
            run(PhaseKind::Scanning, es),
            EventKind::End,
        ) == ActionKind::Finish(ResultKind::NoFileField),
    decreases es.len(),
{
    if es.len() > 0 {
        let q = next_phase(PhaseKind::Scanning, es[0]);
        assert(forall|i: int|
            0 <= i < es.drop_first().len() ==> es.drop_first()[i] == es[i + 1]);
        if q == PhaseKind::Scanning {
            lemma_no_file_field(es.drop_first());
        } else {
            lemma_no_file_after_scanning(q, es.drop_first());
            lemma_finished_stays(es.drop_first());
        }
    }
}

proof fn lemma_finished_stays(es: Seq<EventKind>)
    ensures
        run(PhaseKind::Finished, es) == PhaseKind::Finished,
    decreases es.len(),
{
    if es.len() > 0 {
        lemma_finished_stays(es.drop_first());
    }
}

pub open spec fn uploaded_text() -> Seq<char> {
    "Uploaded "@
}

pub open spec fn no_file_text() -> Seq<char> {
    "No file in request"@
}

pub open spec fn not_multipart_text() -> Seq<char> {
    "Expecting multipart/form-data"@
}

/// The reply to a request whose `Content-Type` names no multipart boundary:
/// nothing of its body is read.
pub fn reject_content_type() -> (r: Reply)
    ensures
        r.status == 400,
        r.body@ == not_multipart_text(),
{
    Reply { status: 400, body: String::from_str("Expecting multipart/form-data") }
}

/// The reply for the result of an upload: 200 naming the stored file, 400
/// when the form held no file, 500 with an empty body on failure.
pub fn reply(result: &UploadResult) -> (r: Reply)
    ensures
        match result {
            UploadResult::Stored(p) => r.status == 200 && r.body@ == uploaded_text() + p@,
            UploadResult::NoFileField => r.status == 400 && r.body@ == no_file_text(),
            UploadResult::Failure(_) => r.status == 500 && r.body@.len() == 0,
        },
{
    match result {
        UploadResult::Stored(p) => {
            let mut body = String::from_str("Uploaded ");
            body.append(p.as_str());
            Reply { status: 200, body }
        },
        UploadResult::NoFileField => Reply {
            status: 400,
            body: String::from_str("No file in request"),
        },
        UploadResult::Failure(_) => Reply { status: 500, body: String::new() },
    }
}

} // verus!
