//! Which reader a file needs, and the preview shown before mapping columns.

use vstd::prelude::*;
use std::path::Path;
use crate::text::{lower_case, to_lowercase};

verus! {

/// How many data rows a preview shows.
pub const PREVIEW_SAMPLE_SIZE: usize = 20;

/// The two kinds of file the converter reads.
#[derive(Debug, Clone, Copy, PartialEq, Eq, Structural)]
pub enum FileKind {
    /// An Excel workbook (`.xlsx` or `.xls`).
    Spreadsheet,
    /// A CSV file.
    Csv,
}

/// The reader for an already lower-cased extension.
pub open spec fn kind_of_extension(lower: Seq<char>) -> Option<FileKind> {
    if lower == "xlsx"@ || lower == "xls"@ {
        Some(FileKind::Spreadsheet)
    } else if lower == "csv"@ {
        Some(FileKind::Csv)
    } else {
        None
    }
}

/// The outcome of choosing a reader by extension: the kind, or the message
/// naming the (lower-cased) extension that is not supported.
pub open spec fn extension_outcome(extension: Seq<char>) -> Result<FileKind, Seq<char>> {
    let lower = lower_case(extension);
    match kind_of_extension(lower) {
        Some(kind) => Ok(kind),
        None => Err("Formato de ficheiro não suportado: ."@ + lower),
    }
}

pub open spec fn kind_outcome(r: Result<FileKind, String>) -> Result<FileKind, Seq<char>> {
    match r {
        Ok(k) => Ok(k),
        Err(e) => Err(e@),
    }
}

/// Chooses the reader for a file extension, in any case.
pub fn classify_extension(extension: &str) -> (r: Result<FileKind, String>)
    ensures
        kind_outcome(r) == extension_outcome(extension@),
{
    let lower = to_lowercase(extension);
    if crate::text::equals_str(&lower, "xlsx") || crate::text::equals_str(&lower, "xls") {
        Ok(FileKind::Spreadsheet)
    } else if crate::text::equals_str(&lower, "csv") {
        Ok(FileKind::Csv)
    } else {
        let mut msg = "Formato de ficheiro não suportado: .".to_string();
        msg.append(lower.as_str());
        Err(msg)
    }
}

/// The part of a path after its last `/` (the whole path when it has none).
pub open spec fn last_segment(p: Seq<char>) -> Seq<char> {
    p.subrange(last_index_of(p, '/') + 1, p.len() as int)
}

/// A path that every platform splits the same way, into segments at `/`, with
/// a file name last: no `\` and no `:` (no Windows prefix or separator of its
/// own), not starting with `//` (a network share on Windows), and a last segment
/// that is not empty and not made of points only (`.` and `..` name directories).
pub open spec fn portable_path(p: Seq<char>) -> bool {
    &&& forall|i: int| 0 <= i < p.len() ==> #[trigger] p[i] != '\\' && p[i] != ':'
    &&& !(p.len() >= 2 && p[0] == '/' && p[1] == '/')
    &&& exists|i: int| 0 <= i < last_segment(p).len() && #[trigger] last_segment(p)[i] != '.'
}

/// Position of the last `c` in `p`, or -1.
pub open spec fn last_index_of(p: Seq<char>, c: char) -> int
    decreases p.len(),
{
    if p.len() == 0 {
        -1
    } else if p.last() == c {
        p.len() - 1
    } else {
        last_index_of(p.drop_last(), c)
    }
}

/// The extension of a file name: what follows its last point, unless it has no
/// point or its only point is its first character.
pub open spec fn name_extension(name: Seq<char>) -> Option<Seq<char>> {
    let i = last_index_of(name, '.');
    if i <= 0 {
        None
    } else {
        Some(name.subrange(i + 1, name.len() as int))
    }
}

/// Position of the last character of `p` that ends a directory or drive on
/// some platform (`/`, `\` or `:`), or -1.
pub open spec fn last_separator(p: Seq<char>) -> int {
    let a = last_index_of(p, '/');
    let b = last_index_of(p, '\\');
    let c = last_index_of(p, ':');
    if a >= b && a >= c {
        a
    } else if b >= c {
        b
    } else {
        c
    }
}

/// What follows the last `/`, `\` or `:` of `p`: the file name, on every
/// platform, of a path that has one.
pub open spec fn final_name(p: Seq<char>) -> Seq<char> {
    p.subrange(last_separator(p) + 1, p.len() as int)
}

/// A character that separates directories on Windows (`/` or `\`).
pub open spec fn is_slash(c: char) -> bool {
    c == '/' || c == '\\'
}

/// A path as a file dialog gives it, on Unix or on Windows: it does not start
/// with two slashes (a network share or a device), and it ends in a file name
/// with a point after its first character and a character other than a point
/// (so not `.` or `..`, nor a name that starts with its only point).
pub open spec fn everyday_path(p: Seq<char>) -> bool {
    &&& !(p.len() >= 2 && is_slash(p[0]) && is_slash(p[1]))
    &&& last_index_of(final_name(p), '.') > 0
    &&& exists|i: int| 0 <= i < final_name(p).len() && #[trigger] final_name(p)[i] != '.'
}

/// Calls `Path::extension` (and `OsStr::to_str`, which always succeeds on text
/// that came from a `&str`). Claims what `Path::extension` documents on every
/// platform: no extension without a point in the path; an extension holds no
/// point; and, for a path that every platform splits at `/` alike, the
/// extension is that of its file name, the last segment: the text after the
/// name's last point, none when that point is the name's first character. Of a
/// path as a file dialog gives it (`everyday_path`), on Unix, where only `/`
/// separates, or on Windows, where `\` and `/` do and a drive such as `C:`
/// may come first, it claims that the extension is the text after the last
/// point of what follows the last `/`, `\` or `:`: both platforms find that
/// point in the file name they split off. How other paths (a leading `//` or
/// `\\`, or ending in `/`, `.` or `..`) split into components depends on the
/// platform and is left unstated.
#[verifier::external_body]
fn path_extension(path: &str) -> (r: Option<String>)
    ensures
        !path@.contains('.') ==> r is None,
        r matches Some(e) ==> !e@.contains('.'),
        portable_path(path@) ==> match r {
            Some(e) => name_extension(last_segment(path@)) == Some(e@),
            None => name_extension(last_segment(path@)) is None,
        },
        everyday_path(path@) ==> r is Some && name_extension(final_name(path@)) == Some(r->0@),
{
    match Path::new(path).extension() {
        Some(ext) => match ext.to_str() {
            Some(text) => Some(text.to_string()),
            None => None,
        },
        None => None,
    }
}

/// Chooses the reader for a file by the extension of its path (none counting as
/// the empty extension).
pub fn file_kind_for_path(path: &str) -> (r: Result<FileKind, String>)
    ensures
        !path@.contains('.') ==> kind_outcome(r) == extension_outcome(Seq::empty()),
        portable_path(path@) ==> kind_outcome(r) == extension_outcome(
            match name_extension(last_segment(path@)) {
                Some(e) => e,
                None => Seq::empty(),
            },
        ),
        everyday_path(path@) ==> kind_outcome(r) == extension_outcome(
            name_extension(final_name(path@))->0,
        ),
        exists|extension: Seq<char>|
            !extension.contains('.') && kind_outcome(r) == #[trigger] extension_outcome(extension),
{
    match path_extension(path) {
        Some(extension) => classify_extension(extension.as_str()),
        None => {
            let none = String::new();
            let r = classify_extension(none.as_str());
            assert(!none@.contains('.'));
            r
        },
    }
}

/// The headers and first rows of a file, shown before the mapping is set up.
pub struct FilePreview {
    pub headers: Vec<String>,
    pub sample_rows: Vec<Vec<String>>,
    pub total_rows_estimate: usize,
}

pub open spec fn smaller(a: int, b: int) -> int {
    if a <= b { a } else { b }
}

/// The preview of a sheet whose leading rows are `rows` (the first being the
/// header row) and whose height, header row included, is `height`; a sheet with
/// no row is an error.
pub fn sheet_preview(rows: Vec<Vec<String>>, height: usize) -> (r: Result<FilePreview, String>)
    ensures
        rows@.len() == 0 <==> r is Err,
        r matches Err(e) ==> e@ == "O ficheiro Excel está vazio."@,
        r matches Ok(p) ==> {
            &&& p.headers == rows@[0]
            &&& p.sample_rows@ == rows@.subrange(1, smaller(rows@.len() as int, PREVIEW_SAMPLE_SIZE + 1))
            &&& p.sample_rows@.len() <= PREVIEW_SAMPLE_SIZE
            &&& p.total_rows_estimate == height
        },
{
    if rows.len() == 0 {
        return Err("O ficheiro Excel está vazio.".to_string());
    }
    let ghost original = rows@;
    let mut rows = rows;
    if rows.len() > PREVIEW_SAMPLE_SIZE + 1 {
        rows.truncate(PREVIEW_SAMPLE_SIZE + 1);
    }
    let sample_rows = rows.split_off(1);
    let headers = rows.pop().unwrap();
    assert(sample_rows@ =~= original.subrange(1, smaller(original.len() as int, PREVIEW_SAMPLE_SIZE + 1)));
    Ok(FilePreview { headers, sample_rows, total_rows_estimate: height })
}

impl FilePreview {
    /// Starts the preview of a CSV file from its header record; a file with no
    /// header field is an error.
    pub fn from_csv_headers(headers: Vec<String>) -> (r: Result<FilePreview, String>)
        ensures
            headers@.len() == 0 <==> r is Err,
            r matches Err(e) ==> e@ == "O ficheiro CSV está vazio."@,
            r matches Ok(p) ==> p.headers == headers && p.sample_rows@.len() == 0 && p.total_rows_estimate == 0,
    {
        if headers.len() == 0 {
            return Err("O ficheiro CSV está vazio.".to_string());
        }
        Ok(FilePreview { headers, sample_rows: Vec::new(), total_rows_estimate: 0 })
    }

    /// The sample is full: a CSV preview reads no record past this point.
    pub open spec fn sample_complete(&self) -> bool {
        self.sample_rows@.len() >= PREVIEW_SAMPLE_SIZE
    }

    /// Counts one more CSV record, keeping it while the sample is not full, and
    /// says whether the sample is now full (the reading stops there, so the total
    /// counts the records read).
    pub fn add_csv_record(&mut self, record: Vec<String>) -> (complete: bool)
        requires
            old(self).total_rows_estimate < usize::MAX,
        ensures
            final(self).headers == old(self).headers,
            final(self).total_rows_estimate == old(self).total_rows_estimate + 1,
            final(self).sample_rows@ == if old(self).sample_rows@.len() < PREVIEW_SAMPLE_SIZE {
                old(self).sample_rows@.push(record)
            } else {
                old(self).sample_rows@
            },
            old(self).sample_rows@.len() <= PREVIEW_SAMPLE_SIZE ==> final(self).sample_rows@.len() <= PREVIEW_SAMPLE_SIZE,
            complete == final(self).sample_complete(),
    {
        if self.sample_rows.len() < PREVIEW_SAMPLE_SIZE {
            self.sample_rows.push(record);
        }
        self.total_rows_estimate += 1;
        self.sample_rows.len() >= PREVIEW_SAMPLE_SIZE
    }
}

} // verus!
