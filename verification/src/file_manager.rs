//! Batch deletion and pre-deletion validation of selected entries.
//!
//! Deleting a batch is N independent operations: one entry's failure never
//! prevents attempting the rest, and every entry ends up in exactly one of
//! the two reported lists — succeeded paths or failed paths with reasons.

use vstd::prelude::*;
use vstd::string::StringExecFns;
use crate::analyzer::DirectoryEntry;
use crate::fsio;
use crate::platform::DeleteError;
use crate::platform::PlatformUtils;

verus! {

/// The entries at the positions whose flag is set, in order.
pub open spec fn flagged(es: Seq<DirectoryEntry>, keep: Seq<bool>) -> Seq<DirectoryEntry>
    decreases es.len(),
{
    if es.len() == 0 {
        Seq::empty()
    } else {
        let rest = flagged(es.drop_last(), keep.drop_last());
        if keep.last() {
            rest.push(es.last())
        } else {
            rest
        }
    }
}

/// The paths of the entries whose deletion succeeded, in order.
pub open spec fn succeeded_paths(es: Seq<DirectoryEntry>, ok: Seq<bool>) -> Seq<Seq<char>>
    decreases es.len(),
{
    if es.len() == 0 {
        Seq::empty()
    } else {
        let rest = succeeded_paths(es.drop_last(), ok.drop_last());
        if ok.last() {
            rest.push(es.last().path@)
        } else {
            rest
        }
    }
}

/// A failed entry's report: its path with the reason in parentheses.
pub open spec fn failure_report(path: Seq<char>, reason: Seq<char>) -> Seq<char> {
    path + " ("@ + reason + ")"@
}

/// The reports of the entries whose deletion failed, in order.
pub open spec fn failed_reports(es: Seq<DirectoryEntry>, ok: Seq<bool>, reasons: Seq<Seq<char>>) -> Seq<
    Seq<char>,
>
    decreases es.len(),
{
    if es.len() == 0 {
        Seq::empty()
    } else {
        let rest = failed_reports(es.drop_last(), ok.drop_last(), reasons.drop_last());
        if ok.last() {
            rest
        } else {
            rest.push(failure_report(es.last().path@, reasons.last()))
        }
    }
}

/// Each entry of a batch is reported exactly once: as a success or as a
/// failure, never both, so the two lists partition the batch.
pub proof fn lemma_outcome_partition(
    es: Seq<DirectoryEntry>,
    ok: Seq<bool>,
    reasons: Seq<Seq<char>>,
)
    requires
        ok.len() == es.len(),
        reasons.len() == es.len(),
    ensures
        succeeded_paths(es, ok).len() + failed_reports(es, ok, reasons).len() == es.len(),
    decreases es.len(),
{
    if es.len() > 0 {
        lemma_outcome_partition(es.drop_last(), ok.drop_last(), reasons.drop_last());
    }
}

/// Saturating total of the sizes of the given entries.
pub open spec fn total_size_of(es: Seq<DirectoryEntry>) -> u64
    decreases es.len(),
{
    if es.len() == 0 {
        0u64
    } else {
        total_size_of(es.drop_last()).saturating_add(es.last().size_bytes)
    }
}

/// Adds up the sizes of the given entries, clamping at `u64::MAX` instead of
/// overflowing.
pub fn total_size(entries: &Vec<DirectoryEntry>) -> (r: u64)
    ensures
        r == total_size_of(entries@),
{
    let mut r: u64 = 0;
    let mut i: usize = 0;
    while i < entries.len()
        invariant
            i <= entries@.len(),
            r == total_size_of(entries@.take(i as int)),
        decreases entries@.len() - i,
    {
        r = r.saturating_add(entries[i].size_bytes);
        proof {
            assert(entries@.take(i as int + 1).drop_last() =~= entries@.take(i as int));
            assert(entries@.take(i as int + 1).last() == entries@[i as int]);
        }
        i = i + 1;
    }
    proof {
        assert(entries@.take(entries@.len() as int) =~= entries@);
    }
    r
}

/// Saturating total of the sizes of the entries whose path is listed.
pub open spec fn freed_size_of(es: Seq<DirectoryEntry>, paths: Seq<Seq<char>>) -> u64
    decreases es.len(),
{
    if es.len() == 0 {
        0u64
    } else {
        let rest = freed_size_of(es.drop_last(), paths);
        if paths.contains(es.last().path@) {
            rest.saturating_add(es.last().size_bytes)
        } else {
            rest
        }
    }
}

/// True when some listed path reads the same as `p`.
fn path_listed(paths: &Vec<String>, p: &String) -> (r: bool)
    ensures
        r == paths@.map_values(|s: String| s@).contains(p@),
{
    let ghost views = paths@.map_values(|s: String| s@);
    let mut i: usize = 0;
    while i < paths.len()
        invariant
            i <= paths@.len(),
            views == paths@.map_values(|s: String| s@),
            forall|j: int| 0 <= j < i ==> views[j] != p@,
        decreases paths@.len() - i,
    {
        if paths[i] == *p {
            assert(views[i as int] == p@);
            return true;
        }
        i = i + 1;
    }
    false
}

/// Adds up the sizes of the entries whose path is among the deleted ones;
/// the space a deletion round actually freed.
pub fn freed_size(entries: &Vec<DirectoryEntry>, deleted: &Vec<String>) -> (r: u64)
    ensures
        r == freed_size_of(entries@, deleted@.map_values(|s: String| s@)),
{
    let ghost paths = deleted@.map_values(|s: String| s@);
    let mut r: u64 = 0;
    let mut i: usize = 0;
    while i < entries.len()
        invariant
            i <= entries@.len(),
            paths == deleted@.map_values(|s: String| s@),
            r == freed_size_of(entries@.take(i as int), paths),
        decreases entries@.len() - i,
    {
        if path_listed(deleted, &entries[i].path) {
            r = r.saturating_add(entries[i].size_bytes);
        }
        proof {
            assert(entries@.take(i as int + 1).drop_last() =~= entries@.take(i as int));
            assert(entries@.take(i as int + 1).last() == entries@[i as int]);
        }
        i = i + 1;
    }
    proof {
        assert(entries@.take(entries@.len() as int) =~= entries@);
    }
    r
}

/// Performs deletions of user-selected entries and reports the outcomes.
pub struct FileManager {}

impl FileManager {
    pub fn new() -> Self {
        FileManager {  }
    }

    /// Deletes one entry; deletion goes through the platform's safe removal.
    pub fn delete_single_entry(&self, path: &str, is_directory: bool) -> (r: Result<
        (),
        DeleteError,
    >)
        ensures
            r matches Err(DeleteError::NotFound(m)) ==> m@ == crate::platform::delete_not_found_text(
                path@,
            ),
            r matches Err(DeleteError::PermissionDenied(m))
                ==> m@ == crate::platform::permission_denied_text(path@),
            r matches Err(DeleteError::Io(m)) ==> crate::platform::removal_failed_prefix(path@,
                is_directory,
            ).is_prefix_of(m@),
    {
        PlatformUtils::safe_delete(path, is_directory)
    }

    /// Deletes the given entries one by one, never letting one failure stop
    /// the rest, and returns the succeeded paths and the failed paths with
    /// their reasons. Every entry is reported in exactly one of the two
    /// lists.
    pub fn delete_entries(&self, entries: &Vec<DirectoryEntry>) -> (r: (Vec<String>, Vec<String>))
        ensures
            r.0@.len() + r.1@.len() == entries@.len(),
            exists|ok: Seq<bool>, reasons: Seq<Seq<char>>|
                ok.len() == entries@.len() && reasons.len() == entries@.len() && r.0@.map_values(
                    |s: String| s@,
                ) == succeeded_paths(entries@, ok) && r.1@.map_values(|s: String| s@)
                    == failed_reports(entries@, ok, reasons),
    {
        let mut deleted: Vec<String> = Vec::new();
        let mut failed: Vec<String> = Vec::new();
        let ghost mut ok: Seq<bool> = Seq::empty();
        let ghost mut reasons: Seq<Seq<char>> = Seq::empty();
        let mut i: usize = 0;
        while i < entries.len()
            invariant
                i <= entries@.len(),
                ok.len() == i,
                reasons.len() == i,
                deleted@.len() + failed@.len() == i,
                deleted@.map_values(|s: String| s@) == succeeded_paths(
                    entries@.take(i as int),
                    ok,
                ),
                failed@.map_values(|s: String| s@) == failed_reports(
                    entries@.take(i as int),
                    ok,
                    reasons,
                ),
            decreases entries@.len() - i,
        {
            let ghost old_deleted = deleted@;
            let ghost old_failed = failed@;
            let ghost prev_ok = ok;
            let ghost prev_reasons = reasons;
            match PlatformUtils::safe_delete(entries[i].path.as_str(), entries[i].is_directory) {
                Ok(()) => {
                    deleted.push(entries[i].path.clone());
                    proof {
                        ok = ok.push(true);
                        reasons = reasons.push(Seq::empty());
                        assert(deleted@.map_values(|s: String| s@) =~= old_deleted.map_values(
                            |s: String| s@,
                        ).push(entries@[i as int].path@));
                        assert(failed@.map_values(|s: String| s@) =~= old_failed.map_values(
                            |s: String| s@,
                        ));
                    }
                },
                Err(e) => {
                    let reason = e.message();
                    let mut report = entries[i].path.clone();
                    report.append(" (");
                    report.append(reason.as_str());
                    report.append(")");
                    failed.push(report);
                    proof {
                        ok = ok.push(false);
                        reasons = reasons.push(reason@);
                        assert(failed@.map_values(|s: String| s@) =~= old_failed.map_values(
                            |s: String| s@,
                        ).push(failure_report(entries@[i as int].path@, reason@)));
                        assert(deleted@.map_values(|s: String| s@) =~= old_deleted.map_values(
                            |s: String| s@,
                        ));
                    }
                },
            }
            proof {
                assert(entries@.take(i as int + 1).drop_last() =~= entries@.take(i as int));
                assert(entries@.take(i as int + 1).last() == entries@[i as int]);
                assert(ok.drop_last() =~= prev_ok);
                assert(reasons.drop_last() =~= prev_reasons);
            }
            i = i + 1;
        }
        proof {
            assert(entries@.take(entries@.len() as int) =~= entries@);
        }
        (deleted, failed)
    }

    /// Keeps the entries that still exist and can be deleted: a subsequence
    /// of the input, in the input's order.
    pub fn validate_entries(&self, entries: &Vec<DirectoryEntry>) -> (r: Vec<DirectoryEntry>)
        ensures
            exists|keep: Seq<bool>|
                keep.len() == entries@.len() && r@ == flagged(entries@, keep),
    {
        let mut r: Vec<DirectoryEntry> = Vec::new();
        let ghost mut keep: Seq<bool> = Seq::empty();
        let mut i: usize = 0;
        while i < entries.len()
            invariant
                i <= entries@.len(),
                keep.len() == i,
                r@ == flagged(entries@.take(i as int), keep),
            decreases entries@.len() - i,
        {
            let wanted = fsio::path_exists(entries[i].path.as_str()) && PlatformUtils::can_delete(
                entries[i].path.as_str(),
            );
            if wanted {
                r.push(entries[i].duplicate());
            }
            proof {
                let prev = keep;
                keep = keep.push(wanted);
                assert(keep.drop_last() =~= prev);
                assert(entries@.take(i as int + 1).drop_last() =~= entries@.take(i as int));
                assert(entries@.take(i as int + 1).last() == entries@[i as int]);
            }
            i = i + 1;
        }
        proof {
            assert(entries@.take(entries@.len() as int) =~= entries@);
        }
        r
    }

    /// Keeps the entries that exist but cannot be deleted, to warn about:
    /// a subsequence of the input, in the input's order.
    pub fn get_unwritable_entries(&self, entries: &Vec<DirectoryEntry>) -> (r: Vec<DirectoryEntry>)
        ensures
            exists|keep: Seq<bool>|
                keep.len() == entries@.len() && r@ == flagged(entries@, keep),
    {
        let mut r: Vec<DirectoryEntry> = Vec::new();
        let ghost mut keep: Seq<bool> = Seq::empty();
        let mut i: usize = 0;
        while i < entries.len()
            invariant
                i <= entries@.len(),
                keep.len() == i,
                r@ == flagged(entries@.take(i as int), keep),
            decreases entries@.len() - i,
        {
            let wanted = fsio::path_exists(entries[i].path.as_str())
                && !PlatformUtils::can_delete(entries[i].path.as_str());
            if wanted {
                r.push(entries[i].duplicate());
            }
            proof {
                let prev = keep;
                keep = keep.push(wanted);
                assert(keep.drop_last() =~= prev);
                assert(entries@.take(i as int + 1).drop_last() =~= entries@.take(i as int));
                assert(entries@.take(i as int + 1).last() == entries@[i as int]);
            }
            i = i + 1;
        }
        proof {
            assert(entries@.take(entries@.len() as int) =~= entries@);
        }
        r
    }
}

impl Default for FileManager {
    fn default() -> (r: Self)
        ensures
            r == (FileManager {  }),
    {
        FileManager::new()
    }
}

} // verus!
