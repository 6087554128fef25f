//! Directory analysis: recursive, depth-limited size computation over a
//! filesystem tree, and assembly of size-sorted entry lists.

use vstd::prelude::*;
use vstd::string::StringExecFns;
use crate::fsio;
use crate::sorting;

verus! {

/// One entry met during a bounded walk below a directory.
pub struct WalkRow {
    /// Levels below the walk root; the root itself is at 0.
    pub depth: usize,
    /// True for a regular file; symbolic links are never followed.
    pub is_file: bool,
    /// The file's length, when its metadata could be read.
    pub len: Option<u64>,
}

/// The bytes a walked entry contributes: a readable regular file contributes
/// its length, everything else contributes nothing.
pub open spec fn row_len(r: WalkRow) -> u64 {
    match r.len {
        Option::Some(n) => n,
        Option::None => 0u64,
    }
}

/// Saturating sum of the lengths of the regular files among `rows` that lie
/// within `depth` levels of the walk root. Inaccessible files count as 0 and
/// overflow clamps to `u64::MAX`.
pub open spec fn tree_size(rows: Seq<WalkRow>, depth: usize) -> u64
    decreases rows.len(),
{
    if rows.len() == 0 {
        0u64
    } else {
        let rest = tree_size(rows.drop_last(), depth);
        if rows.last().is_file && rows.last().depth <= depth {
            rest.saturating_add(row_len(rows.last()))
        } else {
            rest
        }
    }
}

/// Relies on `walkdir::WalkDir` with `follow_links(false)` and
/// `max_depth(max_depth)`: it yields the entries reachable within `max_depth`
/// levels below `path` (never deeper, and it does not follow symbolic links),
/// each with its depth and file type; entries that cannot be accessed are
/// skipped, and a file whose metadata cannot be read is reported without a
/// length.
#[verifier::external_body]
fn walk_tree(path: &str, max_depth: usize) -> (rows: Vec<WalkRow>)
    ensures
        forall|i: int| 0 <= i < rows@.len() ==> #[trigger] rows@[i].depth <= max_depth,
{
    walkdir::WalkDir::new(path)
        .follow_links(false)
        .max_depth(max_depth)
        .into_iter()
        .filter_map(|e| e.ok())
        .map(|e| WalkRow {
            depth: e.depth(),
            is_file: e.file_type().is_file(),
            len: e.metadata().ok().map(|m| m.len()),
        })
        .collect()
}

/// Relies on `std::path::Path::read_dir`: the paths of the immediate children
/// of `path` in the order the directory yields them, or the message of the
/// first listing error.
#[verifier::external_body]
fn list_children(path: &str) -> Result<Vec<String>, String> {
    let mut out: Vec<String> = Vec::new();
    let rd = match std::path::Path::new(path).read_dir() {
        Ok(rd) => rd,
        Err(e) => return Err(e.to_string()),
    };
    for ent in rd {
        match ent {
            Ok(en) => out.push(en.path().to_string_lossy().into_owned()),
            Err(e) => return Err(e.to_string()),
        }
    }
    Ok(out)
}

/// Adds up the contributions of the walked entries within the depth bound,
/// saturating instead of overflowing.
pub fn sum_tree_sizes(rows: &Vec<WalkRow>, depth: usize) -> (total: u64)
    ensures
        total == tree_size(rows@, depth),
{
    let mut total: u64 = 0;
    let mut i: usize = 0;
    while i < rows.len()
        invariant
            i <= rows@.len(),
            total == tree_size(rows@.take(i as int), depth),
        decreases rows@.len() - i,
    {
        if rows[i].is_file && rows[i].depth <= depth {
            let add = match rows[i].len {
                Option::Some(n) => n,
                Option::None => 0,
            };
            total = total.saturating_add(add);
        }
        proof {
            assert(rows@.take(i as int + 1).drop_last() =~= rows@.take(i as int));
            assert(rows@.take(i as int + 1).last() == rows@[i as int]);
        }
        i = i + 1;
    }
    proof {
        assert(rows@.take(rows@.len() as int) =~= rows@);
    }
    total
}

/// Why an analysis call failed as a whole.
#[derive(Debug)]
pub enum AnalysisError {
    /// The analysis root does not exist.
    NotFound(String),
    /// The analysis root exists but is not a directory.
    NotADirectory(String),
    /// Listing the analysis root failed; carries the system's message.
    Io(String),
}

impl AnalysisError {
    /// The human-readable text carried by this error.
    pub open spec fn text(&self) -> Seq<char> {
        match self {
            AnalysisError::NotFound(m) => m@,
            AnalysisError::NotADirectory(m) => m@,
            AnalysisError::Io(m) => m@,
        }
    }

    /// Returns the carried message.
    pub fn message(&self) -> (r: String)
        ensures
            r@ == self.text(),
    {
        match self {
            AnalysisError::NotFound(m) => m.clone(),
            AnalysisError::NotADirectory(m) => m.clone(),
            AnalysisError::Io(m) => m.clone(),
        }
    }
}

/// The human-readable rendering of a byte count: decimal (1000-based) units
/// with the precision that `humansize` uses for its `DECIMAL` options.
/// The text is a function of the byte count alone; it is given a name here
/// rather than a definition, and verified code relies only on that name.
pub uninterp spec fn human_size_of(bytes: u64) -> Seq<char>;

/// Relies on `humansize::format_size` with `humansize::DECIMAL`: it renders a
/// byte count into text (for example `1024` into `"1.02 kB"`), and the result
/// depends on the byte count alone.
#[verifier::external_body]
fn format_size_decimal(bytes: u64) -> (r: String)
    ensures
        r@ == human_size_of(bytes),
{
    humansize::format_size(bytes, humansize::DECIMAL)
}

/// A filesystem entry (file or directory) paired with its computed size.
///
/// `size_bytes` is the file's length for a file and the recursive total for a
/// directory; `size_human` is derived from `size_bytes` at construction.
#[derive(Debug, Clone)]
pub struct DirectoryEntry {
    /// Full filesystem path to this entry.
    pub path: String,
    /// Size in bytes (recursive for directories).
    pub size_bytes: u64,
    /// Human-readable size text (for example "1.2 GB").
    pub size_human: String,
    /// True if this entry is a directory, false if it is a file.
    pub is_directory: bool,
}

impl DirectoryEntry {
    /// Builds an entry, deriving the human-readable size from `size_bytes`.
    pub fn new(path: String, size_bytes: u64, is_directory: bool) -> (r: Self)
        ensures
            r.path == path,
            r.size_bytes == size_bytes,
            r.is_directory == is_directory,
            r.size_human@ == human_size_of(size_bytes),
    {
        let size_human = format_size_decimal(size_bytes);
        DirectoryEntry { path, size_bytes, size_human, is_directory }
    }

    /// Field-wise copy; the copy is equal to the original.
    pub fn duplicate(&self) -> (r: Self)
        ensures
            r == *self,
    {
        DirectoryEntry {
            path: self.path.clone(),
            size_bytes: self.size_bytes,
            size_human: self.size_human.clone(),
            is_directory: self.is_directory,
        }
    }
}

/// Two entries are the same entry when path, size and type all match.
impl PartialEq for DirectoryEntry {
    fn eq(&self, other: &Self) -> (r: bool) {
        self.path == other.path && self.size_bytes == other.size_bytes
            && self.is_directory == other.is_directory
    }
}

impl vstd::std_specs::cmp::PartialEqSpecImpl for DirectoryEntry {
    open spec fn obeys_eq_spec() -> bool {
        true
    }

    open spec fn eq_spec(&self, other: &Self) -> bool {
        self.path@ == other.path@ && self.size_bytes == other.size_bytes
            && self.is_directory == other.is_directory
    }
}

/// The mathematical value of an entry: path text, size, size text, type.
/// Two analyses agree when they produce the same multiset of these values.
pub open spec fn entry_model(e: DirectoryEntry) -> (Seq<char>, u64, Seq<char>, bool) {
    (e.path@, e.size_bytes, e.size_human@, e.is_directory)
}

/// The entry-value mapping as a function value, for mapping whole sequences.
pub open spec fn entry_model_fn() -> spec_fn(DirectoryEntry) -> (Seq<char>, u64, Seq<char>, bool) {
    |e: DirectoryEntry| entry_model(e)
}

/// True when an entry of size `size` passes a minimum-size threshold;
/// no threshold keeps everything.
pub open spec fn entry_passes(min_size: Option<u64>, size: u64) -> bool {
    match min_size {
        Option::Some(m) => size >= m,
        Option::None => true,
    }
}

/// The size-threshold predicate on whole entries, as a function value.
pub open spec fn min_size_pred(min_size: Option<u64>) -> spec_fn(DirectoryEntry) -> bool {
    |e: DirectoryEntry| entry_passes(min_size, e.size_bytes)
}

/// The entry-type predicate chosen by the two display filters: directories
/// only, files only, or everything.
pub open spec fn type_pred(dirs_only: bool, files_only: bool) -> spec_fn(DirectoryEntry) -> bool {
    |e: DirectoryEntry| if dirs_only {
        e.is_directory
    } else if files_only {
        !e.is_directory
    } else {
        true
    }
}

/// Keeps exactly the entries of the requested type, in order: directories
/// when `dirs_only`, files when `files_only`, everything otherwise.
pub fn filter_by_type(entries: &Vec<DirectoryEntry>, dirs_only: bool, files_only: bool) -> (r: Vec<
    DirectoryEntry,
>)
    ensures
        r@ == entries@.filter(type_pred(dirs_only, files_only)),
{
    let ghost pred = type_pred(dirs_only, files_only);
    let mut r: Vec<DirectoryEntry> = Vec::new();
    proof {
        reveal(Seq::filter);
        assert(entries@.take(0).filter(pred) =~= Seq::<DirectoryEntry>::empty());
    }
    let mut i: usize = 0;
    while i < entries.len()
        invariant
            i <= entries@.len(),
            pred == type_pred(dirs_only, files_only),
            r@ == entries@.take(i as int).filter(pred),
        decreases entries@.len() - i,
    {
        let keep = if dirs_only {
            entries[i].is_directory
        } else if files_only {
            !entries[i].is_directory
        } else {
            true
        };
        if keep {
            r.push(entries[i].duplicate());
        }
        proof {
            reveal(Seq::filter);
            let s1 = entries@.take(i as int + 1);
            assert(s1.drop_last() =~= entries@.take(i as int));
            assert(s1.last() == entries@[i as int]);
            assert(keep == pred(entries@[i as int]));
            if pred(entries@[i as int]) {
                assert(s1.filter(pred) == entries@.take(i as int).filter(pred).push(
                    entries@[i as int],
                ));
            } else {
                assert(s1.filter(pred) == entries@.take(i as int).filter(pred));
            }
        }
        i = i + 1;
    }
    proof {
        assert(entries@.take(entries@.len() as int) =~= entries@);
    }
    r
}

/// Depth-limited directory size analysis.
pub struct DiskAnalyzer {
    /// Maximum number of directory levels descended during size computation.
    pub max_depth: usize,
}

/// The text of the error reported when the analysis root does not exist.
pub open spec fn not_found_text(path: Seq<char>) -> Seq<char> {
    "Directory '"@ + path + "' does not exist"@
}

/// The text of the error reported when the analysis root is not a directory.
pub open spec fn not_a_directory_text(path: Seq<char>) -> Seq<char> {
    "'"@ + path + "' is not a directory"@
}

fn msg_not_found(path: &str) -> (m: String)
    ensures
        m@ == not_found_text(path@),
{
    let mut m = String::from_str("Directory '");
    m.append(path);
    m.append("' does not exist");
    m
}

fn msg_not_a_directory(path: &str) -> (m: String)
    ensures
        m@ == not_a_directory_text(path@),
{
    let mut m = String::from_str("'");
    m.append(path);
    m.append("' is not a directory");
    m
}

impl DiskAnalyzer {
    pub fn new(max_depth: usize) -> (r: Self)
        ensures
            r.max_depth == max_depth,
    {
        DiskAnalyzer { max_depth }
    }

    /// Recursive size of a single file or directory, bounded at
    /// `self.max_depth` levels of descent.
    ///
    /// A path that does not exist has size 0: entries may vanish between
    /// listing and probing. A regular file's metadata length is returned
    /// directly, and only there a hard error is possible. A directory is
    /// walked without following symbolic links; within the depth bound every
    /// readable regular file adds its length with saturating addition, and
    /// entries that cannot be accessed add nothing.
    pub fn calculate_size(&self, path: &str) -> (r: Result<u64, AnalysisError>)
        ensures
            r matches Err(e) ==> e is Io,
    {
        if !fsio::path_exists(path) {
            return Ok(0);
        }
        if fsio::path_is_file(path) {
            return match fsio::file_length(path) {
                Ok(n) => Ok(n),
                Err(m) => Err(AnalysisError::Io(m)),
            };
        }
        let rows = walk_tree(path, self.max_depth);
        Ok(sum_tree_sizes(&rows, self.max_depth))
    }

    /// Analyzes the immediate children of `path` and returns one entry per
    /// child, sorted descending by size (ties keep discovery order).
    ///
    /// A directory child is probed with one level of depth budget spent; a
    /// file child contributes its own length. A child whose size cannot be
    /// computed counts as empty rather than failing the analysis.
    pub fn analyze_directory(&self, path: &str) -> (r: Result<Vec<DirectoryEntry>, AnalysisError>)
        ensures
            r matches Ok(entries) ==> sorting::sorted_desc(entries@),
            r matches Ok(entries) ==> forall|i: int|
                0 <= i < entries@.len() ==> (#[trigger] entries@[i]).size_human@ == human_size_of(
                    entries@[i].size_bytes,
                ),
            r matches Err(AnalysisError::NotFound(m)) ==> m@ == not_found_text(path@),
            r matches Err(AnalysisError::NotADirectory(m)) ==> m@ == not_a_directory_text(path@),
    {
        if !fsio::path_exists(path) {
            return Err(AnalysisError::NotFound(msg_not_found(path)));
        }
        if !fsio::path_is_dir(path) {
            return Err(AnalysisError::NotADirectory(msg_not_a_directory(path)));
        }
        let children = match list_children(path) {
            Ok(c) => c,
            Err(m) => {
                return Err(AnalysisError::Io(m));
            },
        };
        let mut built: Vec<DirectoryEntry> = Vec::new();
        let mut i: usize = 0;
        while i < children.len()
            invariant
                i <= children@.len(),
                forall|j: int|
                    0 <= j < built@.len() ==> (#[trigger] built@[j]).size_human@ == human_size_of(
                        built@[j].size_bytes,
                    ),
            decreases children@.len() - i,
        {
            let child_path = children[i].clone();
            let is_directory = fsio::path_is_dir(child_path.as_str());
            let child_depth = if is_directory {
                self.max_depth.saturating_sub(1)
            } else {
                1
            };
            let probe = DiskAnalyzer::new(child_depth);
            let size = match probe.calculate_size(child_path.as_str()) {
                Ok(n) => n,
                Err(_) => 0,
            };
            built.push(DirectoryEntry::new(child_path, size, is_directory));
            i = i + 1;
        }
        let entries = sorting::sort_entries_desc(&built);
        proof {
            sorting::lemma_sort_elements(built@);
        }
        Ok(entries)
    }

    /// Keeps exactly the entries whose size meets the threshold, in order.
    pub fn filter_entries(&self, entries: &Vec<DirectoryEntry>, min_size: Option<u64>) -> (r: Vec<
        DirectoryEntry,
    >)
        ensures
            r@ == entries@.filter(min_size_pred(min_size)),
    {
        let ghost pred = min_size_pred(min_size);
        let mut r: Vec<DirectoryEntry> = Vec::new();
        proof {
            reveal(Seq::filter);
            assert(entries@.take(0).filter(pred) =~= Seq::<DirectoryEntry>::empty());
        }
        let mut i: usize = 0;
        while i < entries.len()
            invariant
                i <= entries@.len(),
                pred == min_size_pred(min_size),
                r@ == entries@.take(i as int).filter(pred),
            decreases entries@.len() - i,
        {
            let keep = match min_size {
                Option::Some(m) => entries[i].size_bytes >= m,
                Option::None => true,
            };
            if keep {
                r.push(entries[i].duplicate());
            }
            proof {
                reveal(Seq::filter);
                let s1 = entries@.take(i as int + 1);
                assert(s1.drop_last() =~= entries@.take(i as int));
                assert(s1.last() == entries@[i as int]);
                assert(keep == entry_passes(min_size, entries@[i as int].size_bytes));
                assert(pred(entries@[i as int]) == entry_passes(
                    min_size,
                    entries@[i as int].size_bytes,
                ));
                if pred(entries@[i as int]) {
                    assert(s1.filter(pred) == entries@.take(i as int).filter(pred).push(
                        entries@[i as int],
                    ));
                } else {
                    assert(s1.filter(pred) == entries@.take(i as int).filter(pred));
                }
            }
            i = i + 1;
        }
        proof {
            assert(entries@.take(entries@.len() as int) =~= entries@);
        }
        r
    }
}

} // verus!
