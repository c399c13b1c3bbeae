//! A whole extraction run, with every filesystem response supplied as data.
//!
//! The extraction loop alternates decisions with outside work: fetching and
//! decoding an entry, creating directories, writing files. All of that work
//! is represented here by its result — an [`EntryIo`] records what the
//! filesystem answered for one entry, an [`EntryFetch`] whether the entry
//! could be decoded at all — so the run itself, [`extract_all`], is verified
//! for every combination of outcomes. A binary driving a real archive
//! performs the same steps one entry at a time with [`plan_entry`] and
//! [`Engine::step`]; tests and proofs drive this function instead.
//!
//! A corrupt entry record is fatal: without a sound index nothing further
//! can be extracted, so the run stops at the first one and reports its
//! position. Every other failure is confined to its entry.

use crate::engine::Engine;
use crate::engine::EntryEvent;
use crate::engine::ErrorKind;
use crate::engine::ErrorRecord;
use crate::engine::ErrorView;
use crate::engine::FileOutcome;
use crate::engine::error_views;
use crate::engine::event_bytes;
use crate::engine::event_errors;
use crate::engine::unsafe_cause;
use crate::paths::dir_marker;
use crate::paths::drop_last_segment;
use crate::paths::has_dotdot;
use crate::paths::path_join;
use crate::plan::EntryPlan;
use crate::plan::plan_entry;
use vstd::prelude::*;

verus! {

/// One archive entry together with the filesystem responses its actions
/// receive: the raw stored name, the decoded name (when the decoder produced
/// one), and the outcome of whichever directory creation and file write the
/// entry's plan calls for. Fields that the plan does not call for are simply
/// never consulted.
#[derive(Debug)]
pub struct EntryIo {
    pub raw_name: String,
    pub enclosed: Option<String>,
    pub dir_failure: Option<String>,
    pub parent_failure: Option<String>,
    pub file_outcome: FileOutcome,
}

/// One slot of the archive's index: a decodable entry with its filesystem
/// responses, or a corrupt record that cannot be decoded at that index.
#[derive(Debug)]
pub enum EntryFetch {
    Entry { io: EntryIo },
    Corrupt { cause: String },
}

/// A fatal failure: the entry record at `index` could not be decoded, so the
/// run stopped there.
#[derive(Debug)]
pub struct FatalError {
    pub index: usize,
    pub cause: String,
}

/// What a completed run reports: the bytes written across all entries and
/// the per-entry failures met along the way.
#[derive(Debug)]
pub struct Summary {
    pub total: u64,
    pub errors: Vec<ErrorRecord>,
}

/// Bytes one entry contributes: the decompressed size of a file entry whose
/// write succeeded, and zero for everything else.
pub open spec fn io_bytes(e: EntryIo) -> int {
    match e.enclosed {
        Option::None => 0,
        Option::Some(name) => if name@.len() == 0 {
            0
        } else if has_dotdot(name@) {
            0
        } else if dir_marker(e.raw_name@) {
            0
        } else {
            match e.file_outcome {
                FileOutcome::Written { bytes } => bytes as int,
                _ => 0,
            }
        },
    }
}

/// Error records one entry contributes, under the destination root `root`,
/// in the order they are recorded.
pub open spec fn io_errors(root: Seq<char>, e: EntryIo) -> Seq<ErrorView> {
    match e.enclosed {
        Option::None => Seq::empty(),
        Option::Some(name) => if name@.len() == 0 {
            Seq::empty()
        } else if has_dotdot(name@) {
            seq![(ErrorView { kind: ErrorKind::UnsafePath, path: name@, cause: unsafe_cause() })]
        } else if dir_marker(e.raw_name@) {
            match e.dir_failure {
                Option::None => Seq::empty(),
                Option::Some(cause) => seq![
                    (ErrorView {
                        kind: ErrorKind::DirCreate,
                        path: path_join(root, name@),
                        cause: cause@,
                    }),
                ],
            }
        } else {
            let parent_errs = match e.parent_failure {
                Option::None => Seq::<ErrorView>::empty(),
                Option::Some(cause) => seq![
                    (ErrorView {
                        kind: ErrorKind::DirCreate,
                        path: path_join(root, drop_last_segment(name@)),
                        cause: cause@,
                    }),
                ],
            };
            let file_errs = match e.file_outcome {
                FileOutcome::Written { .. } => Seq::<ErrorView>::empty(),
                FileOutcome::CreateFailed { cause } => seq![
                    (ErrorView {
                        kind: ErrorKind::FileCreate,
                        path: path_join(root, name@),
                        cause: cause@,
                    }),
                ],
                FileOutcome::WriteFailed { cause } => seq![
                    (ErrorView {
                        kind: ErrorKind::FileWrite,
                        path: path_join(root, name@),
                        cause: cause@,
                    }),
                ],
            };
            parent_errs + file_errs
        },
    }
}

/// Bytes one index slot contributes; a corrupt slot contributes none.
pub open spec fn fetch_bytes(f: EntryFetch) -> int {
    match f {
        EntryFetch::Entry { io } => io_bytes(io),
        EntryFetch::Corrupt { .. } => 0,
    }
}

/// Error records one index slot contributes; a corrupt slot contributes none
/// (it ends the run instead).
pub open spec fn fetch_errors(root: Seq<char>, f: EntryFetch) -> Seq<ErrorView> {
    match f {
        EntryFetch::Entry { io } => io_errors(root, io),
        EntryFetch::Corrupt { .. } => Seq::empty(),
    }
}

/// Total bytes over a run of index slots, in index order.
pub open spec fn run_bytes(fs: Seq<EntryFetch>) -> int
    decreases fs.len(),
{
    if fs.len() == 0 {
        0
    } else {
        run_bytes(fs.drop_last()) + fetch_bytes(fs.last())
    }
}

/// All error records over a run of index slots, in index order.
pub open spec fn run_errors(root: Seq<char>, fs: Seq<EntryFetch>) -> Seq<ErrorView>
    decreases fs.len(),
{
    if fs.len() == 0 {
        Seq::empty()
    } else {
        run_errors(root, fs.drop_last()) + fetch_errors(root, fs.last())
    }
}

proof fn lemma_run_bytes_nonneg(fs: Seq<EntryFetch>)
    ensures
        run_bytes(fs) >= 0,
    decreases fs.len(),
{
    if fs.len() > 0 {
        lemma_run_bytes_nonneg(fs.drop_last());
    }
}

proof fn lemma_run_bytes_prefix(fs: Seq<EntryFetch>, k: int)
    requires
        0 <= k <= fs.len(),
    ensures
        run_bytes(fs.take(k)) <= run_bytes(fs),
    decreases fs.len(),
{
    if k == fs.len() {
        assert(fs.take(k) =~= fs);
    } else {
        lemma_run_bytes_prefix(fs.drop_last(), k);
        assert(fs.take(k) =~= fs.drop_last().take(k));
    }
}

/// Runs a whole extraction: every index slot in order, stopping only at a
/// corrupt record. The summary's total and error list are exactly the folds
/// of the per-entry contributions; a corrupt record at some index yields the
/// position of the first one, with every slot before it accounted for.
#[verifier::loop_isolation(false)]
pub fn extract_all(root: &str, fetches: Vec<EntryFetch>) -> (r: Result<Summary, FatalError>)
    requires
        run_bytes(fetches@) <= u64::MAX,
    ensures
        match r {
            Result::Ok(s) => {
                &&& forall|j: int| 0 <= j < fetches@.len() ==> fetches@[j] is Entry
                &&& s.total == run_bytes(fetches@)
                &&& error_views(s.errors@) == run_errors(root@, fetches@)
            },
            Result::Err(f) => {
                &&& 0 <= f.index < fetches@.len()
                &&& (fetches@[f.index as int] matches EntryFetch::Corrupt { cause } && f.cause@
                    == cause@)
                &&& forall|j: int| 0 <= j < f.index ==> fetches@[j] is Entry
            },
        },
{
    let ghost all = fetches@;
    let count = fetches.len();
    let mut pending = fetches;
    let mut engine = Engine::new(count);
    let mut i: usize = 0;
    proof {
        assert(all.take(0) =~= Seq::<EntryFetch>::empty());
        assert(all.skip(0) =~= all);
        assert(error_views(engine.errors@) =~= Seq::<ErrorView>::empty());
    }
    while i < count
        invariant
            count == all.len(),
            i <= count,
            pending@ == all.skip(i as int),
            engine.count == count,
            engine.next == i,
            engine.total == run_bytes(all.take(i as int)),
            error_views(engine.errors@) == run_errors(root@, all.take(i as int)),
            forall|j: int| 0 <= j < i ==> all[j] is Entry,
            run_bytes(all) <= u64::MAX,
        decreases count - i,
    {
        let f = pending.remove(0);
        proof {
            assert(all.skip(i as int)[0] == all[i as int]);
            assert(all.skip(i as int).remove(0) =~= all.skip(i as int + 1));
            assert(all.take(i as int + 1).drop_last() =~= all.take(i as int));
            assert(all.take(i as int + 1).last() == all[i as int]);
        }
        match f {
            EntryFetch::Corrupt { cause } => {
                return Result::Err(FatalError { index: i, cause });
            },
            EntryFetch::Entry { io } => {
                let ghost io0 = io;
                let EntryIo { raw_name, enclosed, dir_failure, parent_failure, file_outcome } = io;
                let enc_ref: Option<&str> = match &enclosed {
                    Option::Some(s) => Option::Some(s.as_str()),
                    Option::None => Option::None,
                };
                proof {
                    assert(match enc_ref {
                        Option::Some(s) => io0.enclosed matches Option::Some(n) && s@ == n@,
                        Option::None => io0.enclosed is None,
                    });
                }
                let p = plan_entry(root, raw_name.as_str(), enc_ref);
                let ev = match p {
                    EntryPlan::Skip => EntryEvent::Skipped,
                    EntryPlan::Reject { name } => EntryEvent::Rejected { name },
                    EntryPlan::MakeDir { dest } => EntryEvent::DirMade {
                        path: dest,
                        failure: dir_failure,
                    },
                    EntryPlan::WriteFile { dest, parent } => EntryEvent::FileDone {
                        path: dest,
                        parent_failure: match parent_failure {
                            Option::Some(cause) => Option::Some((parent, cause)),
                            Option::None => Option::None,
                        },
                        outcome: file_outcome,
                    },
                };
                proof {
                    assert(event_bytes(ev) == io_bytes(io0));
                    assert(event_errors(ev) =~= io_errors(root@, io0));
                    lemma_run_bytes_prefix(all, i as int + 1);
                    lemma_run_bytes_nonneg(all.take(i as int));
                }
                engine.step(ev);
            },
        }
        i = i + 1;
    }
    proof {
        assert(all.take(count as int) =~= all);
    }
    Result::Ok(Summary { total: engine.total, errors: engine.errors })
}

/// An archive with no entries extracts to a byte total of zero and an empty
/// error list.
pub proof fn lemma_empty_run(root: Seq<char>)
    ensures
        run_bytes(Seq::<EntryFetch>::empty()) == 0,
        run_errors(root, Seq::<EntryFetch>::empty()) == Seq::<ErrorView>::empty(),
{
}

/// A file entry was planned for writing and its write fully succeeded.
pub open spec fn is_written(f: EntryFetch) -> bool {
    &&& f matches EntryFetch::Entry { io }
    &&& io.enclosed matches Option::Some(name)
    &&& name@.len() > 0
    &&& !has_dotdot(name@)
    &&& !dir_marker(io.raw_name@)
    &&& io.file_outcome is Written
}

/// The successfully written slots of a run, in index order.
pub open spec fn written_only(fs: Seq<EntryFetch>) -> Seq<EntryFetch>
    decreases fs.len(),
{
    if fs.len() == 0 {
        Seq::empty()
    } else if is_written(fs.last()) {
        written_only(fs.drop_last()).push(fs.last())
    } else {
        written_only(fs.drop_last())
    }
}

/// The byte total of a run counts exactly its successfully written file
/// entries; every skipped, rejected, directory or failed slot contributes
/// zero.
pub proof fn lemma_total_counts_written_only(fs: Seq<EntryFetch>)
    ensures
        run_bytes(fs) == run_bytes(written_only(fs)),
        forall|j: int| 0 <= j < fs.len() && !is_written(fs[j]) ==> fetch_bytes(fs[j]) == 0,
    decreases fs.len(),
{
    if fs.len() > 0 {
        lemma_total_counts_written_only(fs.drop_last());
        if is_written(fs.last()) {
            assert(written_only(fs).drop_last() =~= written_only(fs.drop_last()));
        }
        assert(forall|j: int|
            0 <= j < fs.len() - 1 && !is_written(fs[j]) ==> fs.drop_last()[j] == fs[j]);
    }
}

} // verus!
