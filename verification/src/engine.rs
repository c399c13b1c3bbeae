//! Per-entry accounting for an extraction run.
//!
//! The extraction loop walks the archive's entries in index order. For each
//! entry the surrounding binary performs the filesystem work that the entry's
//! plan calls for and reports the outcome back as an [`EntryEvent`]; the
//! [`Engine`] folds those events into the running byte total and the list of
//! per-entry error records. No single entry's failure ever stops the run:
//! a failure becomes a record, and the loop moves on.

use vstd::prelude::*;

verus! {

/// What went wrong with one entry. Creating a destination directory (for a
/// directory marker or a file's parent) and creating or writing the
/// destination file are recoverable, per-entry failures. A decoded name that
/// would escape the destination root is reported under its own kind rather
/// than resolved or silently skipped.
#[derive(Clone, Copy, Debug, PartialEq, Eq, Structural)]
pub enum ErrorKind {
    DirCreate,
    FileCreate,
    FileWrite,
    UnsafePath,
}

/// One recorded per-entry failure: the destination (or offending name), the
/// kind of failure, and the underlying cause.
#[derive(Debug)]
pub struct ErrorRecord {
    pub path: String,
    pub kind: ErrorKind,
    pub cause: String,
}

/// Mathematical image of an [`ErrorRecord`].
pub struct ErrorView {
    pub kind: ErrorKind,
    pub path: Seq<char>,
    pub cause: Seq<char>,
}

impl View for ErrorRecord {
    type V = ErrorView;

    open spec fn view(&self) -> ErrorView {
        ErrorView { kind: self.kind, path: self.path@, cause: self.cause@ }
    }
}

/// The views of a list of error records, in order.
pub open spec fn error_views(errs: Seq<ErrorRecord>) -> Seq<ErrorView> {
    errs.map_values(|e: ErrorRecord| e@)
}

/// Outcome of writing one file entry: the full decompressed byte count on
/// success, or the cause of the failure to create or to write the file. A
/// failed entry contributes no bytes, partial or otherwise.
#[derive(Debug)]
pub enum FileOutcome {
    Written { bytes: u64 },
    CreateFailed { cause: String },
    WriteFailed { cause: String },
}

/// What happened to one entry, reported back by the caller who performed the
/// filesystem work. `Rejected` is decided by the planner itself, without
/// touching the filesystem; `DirMade` and `FileDone` carry the destination
/// the work was attempted on. A file entry can fail twice over: creating its
/// parent directory (reported with the parent's path) and then the file
/// itself.
#[derive(Debug)]
pub enum EntryEvent {
    Skipped,
    Rejected { name: String },
    DirMade { path: String, failure: Option<String> },
    FileDone { path: String, parent_failure: Option<(String, String)>, outcome: FileOutcome },
}

/// Why a rejected entry was rejected.
pub open spec fn unsafe_cause() -> Seq<char> {
    "entry name contains a parent-directory segment"@
}

/// Bytes an event contributes to the running total: the decompressed size of
/// a successfully written file entry, and zero for every other event.
pub open spec fn event_bytes(ev: EntryEvent) -> int {
    match ev {
        EntryEvent::FileDone { outcome: FileOutcome::Written { bytes }, .. } => bytes as int,
        _ => 0,
    }
}

/// Error records an event contributes, in the order they are recorded.
pub open spec fn event_errors(ev: EntryEvent) -> Seq<ErrorView> {
    match ev {
        EntryEvent::Skipped => Seq::empty(),
        EntryEvent::Rejected { name } => seq![
            (ErrorView { kind: ErrorKind::UnsafePath, path: name@, cause: unsafe_cause() }),
        ],
        EntryEvent::DirMade { path, failure } => match failure {
            Option::None => Seq::empty(),
            Option::Some(cause) => seq![
                (ErrorView { kind: ErrorKind::DirCreate, path: path@, cause: cause@ }),
            ],
        },
        EntryEvent::FileDone { path, parent_failure, outcome } => {
            let parent_errs = match parent_failure {
                Option::None => Seq::<ErrorView>::empty(),
                Option::Some((parent, cause)) => seq![
                    (ErrorView { kind: ErrorKind::DirCreate, path: parent@, cause: cause@ }),
                ],
            };
            let file_errs = match outcome {
                FileOutcome::Written { .. } => Seq::<ErrorView>::empty(),
                FileOutcome::CreateFailed { cause } => seq![
                    (ErrorView { kind: ErrorKind::FileCreate, path: path@, cause: cause@ }),
                ],
                FileOutcome::WriteFailed { cause } => seq![
                    (ErrorView { kind: ErrorKind::FileWrite, path: path@, cause: cause@ }),
                ],
            };
            parent_errs + file_errs
        },
    }
}

proof fn lemma_error_views_push(s: Seq<ErrorRecord>, e: ErrorRecord)
    ensures
        error_views(s.push(e)) == error_views(s).push(e@),
{
    assert(error_views(s.push(e)) =~= error_views(s).push(e@));
}

/// State of one extraction run over an archive of `count` entries: how many
/// entries have been accounted for, the bytes written so far, and the
/// per-entry failures recorded so far.
pub struct Engine {
    pub count: usize,
    pub next: usize,
    pub total: u64,
    pub errors: Vec<ErrorRecord>,
}

impl Engine {
    /// A run over `count` entries that has not processed any of them: no
    /// bytes, no errors.
    pub fn new(count: usize) -> (e: Engine)
        ensures
            e.count == count,
            e.next == 0,
            e.total == 0,
            e.errors@ == Seq::<ErrorRecord>::empty(),
    {
        let e = Engine { count, next: 0, total: 0, errors: Vec::new() };
        proof {
            assert(e.errors@ =~= Seq::<ErrorRecord>::empty());
        }
        e
    }

    /// Accounts for the next entry: the index advances by one, the total
    /// grows by exactly the event's byte contribution, and the event's error
    /// records — and nothing else — are appended to the list.
    pub fn step(&mut self, ev: EntryEvent)
        requires
            old(self).next < old(self).count,
            old(self).total + event_bytes(ev) <= u64::MAX,
        ensures
            final(self).count == old(self).count,
            final(self).next == old(self).next + 1,
            final(self).total == old(self).total + event_bytes(ev),
            error_views(final(self).errors@) == error_views(old(self).errors@) + event_errors(ev),
    {
        self.next = self.next + 1;
        let ghost errs0 = self.errors@;
        let ghost ev0 = ev;
        match ev {
            EntryEvent::Skipped => {},
            EntryEvent::Rejected { name } => {
                let rec = ErrorRecord {
                    path: name,
                    kind: ErrorKind::UnsafePath,
                    cause: String::from_str("entry name contains a parent-directory segment"),
                };
                proof {
                    lemma_error_views_push(self.errors@, rec);
                }
                self.errors.push(rec);
            },
            EntryEvent::DirMade { path, failure } => {
                match failure {
                    Option::None => {},
                    Option::Some(cause) => {
                        let rec = ErrorRecord { path, kind: ErrorKind::DirCreate, cause };
                        proof {
                            lemma_error_views_push(self.errors@, rec);
                        }
                        self.errors.push(rec);
                    },
                }
            },
            EntryEvent::FileDone { path, parent_failure, outcome } => {
                match parent_failure {
                    Option::None => {},
                    Option::Some((parent, cause)) => {
                        let rec = ErrorRecord { path: parent, kind: ErrorKind::DirCreate, cause };
                        proof {
                            lemma_error_views_push(self.errors@, rec);
                        }
                        self.errors.push(rec);
                    },
                }
                match outcome {
                    FileOutcome::Written { bytes } => {
                        self.total = self.total + bytes;
                    },
                    FileOutcome::CreateFailed { cause } => {
                        let rec = ErrorRecord { path, kind: ErrorKind::FileCreate, cause };
                        proof {
                            lemma_error_views_push(self.errors@, rec);
                        }
                        self.errors.push(rec);
                    },
                    FileOutcome::WriteFailed { cause } => {
                        let rec = ErrorRecord { path, kind: ErrorKind::FileWrite, cause };
                        proof {
                            lemma_error_views_push(self.errors@, rec);
                        }
                        self.errors.push(rec);
                    },
                }
            },
        }
        proof {
            assert(error_views(self.errors@) =~= error_views(errs0) + event_errors(ev0));
        }
    }
}

} // verus!
