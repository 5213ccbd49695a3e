use vstd::prelude::*;
use vstd::string::StringExecFns;
use vstd::string::StrSliceExecFns;

use crate::filter::{basename_str, spec_basename};
use crate::structures::EntryModel;
use crate::structures::ZipFileEntry;

verus! {

/// The command-line surface: a source that is a path or an HTTP URL, an
/// include list, flags for listing and extraction, exclude patterns, and
/// overwrite policy. The collaborator that parses arguments fills this in;
/// every decision made from it is a function here.
#[derive(Debug, Clone)]
pub struct Cli {
    /// ZIP file path or HTTP URL
    pub file: String,
    /// Files to extract (empty: all)
    pub files: Vec<String>,
    /// List files, short format
    pub list: bool,
    /// List files verbosely
    pub verbose: bool,
    /// Extract to standard output, no messages
    pub pipe: bool,
    /// Directory to extract into
    pub extract_dir: Option<String>,
    /// Patterns of files to exclude
    pub exclude: Vec<String>,
    /// Never overwrite existing files
    pub never_overwrite: bool,
    /// Overwrite existing files without prompting
    pub overwrite: bool,
    /// Extract without creating directories
    pub junk_paths: bool,
    /// Quietness, counted: once for quiet, twice for quieter
    pub quiet: u8,
}

/// Whether a source string names a remote archive: it starts with
/// "http://" or "https://".
pub open spec fn spec_is_http_url(s: Seq<char>) -> bool {
    ||| (s.len() >= 7 && s.subrange(0, 7) == "http://"@)
    ||| (s.len() >= 8 && s.subrange(0, 8) == "https://"@)
}

/// Whether `s` begins with the characters of `p`.
fn starts_with_chars(s: &str, p: &str) -> (r: bool)
    ensures
        r == (s@.len() >= p@.len() && s@.subrange(0, p@.len() as int) == p@),
{
    let n = s.unicode_len();
    let m = p.unicode_len();
    if n < m {
        return false;
    }
    let mut i: usize = 0;
    while i < m
        invariant
            i <= m,
            m == p@.len() <= s@.len() == n,
            forall|j: int| 0 <= j < i ==> s@[j] == #[trigger] p@[j],
        decreases m - i,
    {
        if s.get_char(i) != p.get_char(i) {
            proof {
                if s@.subrange(0, p@.len() as int) == p@ {
                    assert(s@.subrange(0, p@.len() as int)[i as int] == s@[i as int]);
                    assert(false);
                }
            }
            return false;
        }
        i = i + 1;
    }
    proof {
        assert(s@.subrange(0, p@.len() as int) =~= p@);
    }
    true
}

impl Cli {
    /// Whether the source is a remote archive to read over HTTP.
    pub fn is_http_url(&self) -> (r: bool)
        ensures
            r == spec_is_http_url(self.file@),
    {
        proof {
            reveal_strlit("http://");
            reveal_strlit("https://");
        }
        starts_with_chars(self.file.as_str(), "http://") || starts_with_chars(
            self.file.as_str(),
            "https://",
        )
    }

    /// Whether informational messages are suppressed: by the quiet flag,
    /// or by pipe mode, whose output must stay clean.
    pub fn is_quiet(&self) -> (r: bool)
        ensures
            r == (self.quiet > 0 || self.pipe),
    {
        self.quiet > 0 || self.pipe
    }

    /// Whether everything but errors is suppressed.
    pub fn is_very_quiet(&self) -> (r: bool)
        ensures
            r == (self.quiet > 1),
    {
        self.quiet > 1
    }
}

/// What becomes of one entry that is about to be written to disk.
#[derive(Debug, Clone, Copy, PartialEq, Eq, Structural)]
pub enum WriteDecision {
    /// Write the file, creating or replacing it
    Write,
    /// Leave an existing file: overwriting is forbidden
    SkipExisting,
    /// Leave an existing file: overwriting was not requested
    SkipWithoutOverwrite,
}

/// The overwrite policy: a missing file is always written; an existing one
/// is kept when overwriting is forbidden, kept with a hint when it was
/// simply not requested, and replaced only on request. Skipping is not an
/// error.
pub open spec fn spec_write_decision(
    target_exists: bool,
    never_overwrite: bool,
    overwrite: bool,
) -> WriteDecision {
    if !target_exists {
        WriteDecision::Write
    } else if never_overwrite {
        WriteDecision::SkipExisting
    } else if !overwrite {
        WriteDecision::SkipWithoutOverwrite
    } else {
        WriteDecision::Write
    }
}

/// Decide whether an entry is written over what the target path holds.
pub fn write_decision(target_exists: bool, never_overwrite: bool, overwrite: bool) -> (r:
    WriteDecision)
    ensures
        r == spec_write_decision(target_exists, never_overwrite, overwrite),
{
    if !target_exists {
        WriteDecision::Write
    } else if never_overwrite {
        WriteDecision::SkipExisting
    } else if !overwrite {
        WriteDecision::SkipWithoutOverwrite
    } else {
        WriteDecision::Write
    }
}

/// The path an entry is extracted to: its name, or its basename when
/// paths are junked, placed under the extraction directory when one was
/// given.
pub open spec fn spec_output_path(
    name: Seq<char>,
    junk_paths: bool,
    extract_dir: Option<Seq<char>>,
) -> Seq<char> {
    let file_part = if junk_paths {
        spec_basename(name)
    } else {
        name
    };
    match extract_dir {
        Some(d) => d + "/"@ + file_part,
        None => file_part,
    }
}

/// Compute the path an entry is extracted to.
pub fn output_path(name: &String, junk_paths: bool, extract_dir: &Option<String>) -> (r: String)
    ensures
        r@ == spec_output_path(
            name@,
            junk_paths,
            match extract_dir {
                Some(d) => Some(d@),
                None => None,
            },
        ),
{
    let file_part: &str = if junk_paths {
        basename_str(name.as_str())
    } else {
        name.as_str()
    };
    match extract_dir {
        Some(d) => {
            let mut out = String::new();
            out.append(d.as_str());
            out.append("/");
            out.append(file_part);
            out
        },
        None => file_part.to_owned(),
    }
}

/// The integer percentage saved by compression: one hundred less the
/// compressed share, zero for an empty file, and zero where the data
/// grew.
pub open spec fn spec_ratio(uncompressed: u64, compressed: u64) -> int {
    if uncompressed == 0 {
        0
    } else {
        let share = (compressed * 100) / (uncompressed as int);
        if share > 100 {
            0
        } else {
            100 - share
        }
    }
}

/// Compute the compression-ratio percentage of a listing line.
pub fn compression_ratio(uncompressed: u64, compressed: u64) -> (r: u64)
    ensures
        r == spec_ratio(uncompressed, compressed),
{
    if uncompressed == 0 {
        return 0;
    }
    let share: u128 = (compressed as u128) * 100 / (uncompressed as u128);
    if share > 100 {
        0
    } else {
        (100 - share) as u64
    }
}

/// A value clamped to what an unsigned 64-bit counter can hold.
pub open spec fn sat64(v: int) -> int {
    if v > u64::MAX {
        u64::MAX as int
    } else {
        v
    }
}

/// The summary totals of a listing: uncompressed bytes, compressed bytes
/// and file count, accumulated over the entries that are not directories,
/// each byte counter saturating at its width.
pub open spec fn spec_totals(s: Seq<EntryModel>) -> (int, int, int)
    decreases s.len(),
{
    if s.len() == 0 {
        (0, 0, 0)
    } else {
        let p = spec_totals(s.drop_last());
        let e = s.last();
        if e.is_directory {
            p
        } else {
            (sat64(p.0 + e.uncompressed_size), sat64(p.1 + e.compressed_size), p.2 + 1)
        }
    }
}

/// Accumulate the listing's summary totals over the non-directory
/// entries.
pub fn listing_totals(entries: &Vec<ZipFileEntry>) -> (r: (u64, u64, usize))
    ensures
        r.0 == spec_totals(entries.deep_view()).0,
        r.1 == spec_totals(entries.deep_view()).1,
        r.2 == spec_totals(entries.deep_view()).2,
{
    let ghost d = entries.deep_view();
    let mut uncompressed: u64 = 0;
    let mut compressed: u64 = 0;
    let mut count: usize = 0;
    let n = entries.len();
    proof {
        assert(d.len() == entries@.len());
        assert(d.take(0) =~= Seq::<EntryModel>::empty());
    }
    let mut i: usize = 0;
    while i < n
        invariant
            i <= n,
            n == entries@.len(),
            d == entries.deep_view(),
            d.len() == n,
            count <= i,
            uncompressed == spec_totals(d.take(i as int)).0,
            compressed == spec_totals(d.take(i as int)).1,
            count == spec_totals(d.take(i as int)).2,
        decreases n - i,
    {
        let e = &entries[i];
        proof {
            assert(d.take(i + 1).drop_last() =~= d.take(i as int));
            assert(d.take(i + 1).last() == d[i as int]);
            assert(d[i as int] == entries@[i as int]@);
        }
        if !e.is_directory {
            uncompressed = uncompressed.saturating_add(e.uncompressed_size);
            compressed = compressed.saturating_add(e.compressed_size);
            count = count + 1;
        }
        i = i + 1;
    }
    proof {
        assert(d.take(n as int) =~= d);
    }
    (uncompressed, compressed, count)
}

} // verus!
