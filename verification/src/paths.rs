//! Joining path text, and the names of a job's scratch files.
use vstd::prelude::*;
use crate::text::{decimal_padded3, padded3_string};

verus! {

/// How paths are written on the host: which characters separate components and
/// which one a join inserts.
#[derive(Clone, Copy, Debug, PartialEq, Eq, Structural)]
pub enum PathStyle {
    Unix,
    Windows,
}

pub open spec fn is_separator(c: char, style: PathStyle) -> bool {
    c == '/' || (style == PathStyle::Windows && c == '\\')
}

pub open spec fn main_separator(style: PathStyle) -> char {
    match style {
        PathStyle::Unix => '/',
        PathStyle::Windows => '\\',
    }
}

/// A bare Windows drive such as `C:`, to which a join adds no separator.
pub open spec fn is_bare_drive(dir: Seq<char>, style: PathStyle) -> bool {
    style == PathStyle::Windows && dir.len() == 2 && dir[1] == ':'
}

/// `dir` joined with the relative name `name` (as `Path::join` does for a relative
/// name): a separator is inserted unless `dir` is empty, already ends with one, or
/// is a bare drive.
pub open spec fn joined(dir: Seq<char>, name: Seq<char>, style: PathStyle) -> Seq<char> {
    if dir.len() == 0 || is_separator(dir.last(), style) || is_bare_drive(dir, style) {
        dir + name
    } else {
        dir.push(main_separator(style)) + name
    }
}

/// Joins the relative name `name` onto `dir`.
pub fn join_path(dir: &str, name: &str, style: PathStyle) -> (p: String)
    ensures
        p@ == joined(dir@, name@, style),
{
    let n = dir.unicode_len();
    let mut p = String::from_str(dir);
    let needs_separator = if n == 0 {
        false
    } else {
        let last = dir.get_char(n - 1);
        let separator = last == '/' || (style == PathStyle::Windows && last == '\\');
        let drive = style == PathStyle::Windows && n == 2 && dir.get_char(1) == ':';
        !separator && !drive
    };
    if needs_separator {
        match style {
            PathStyle::Unix => p.push('/'),
            PathStyle::Windows => p.push('\\'),
        }
    }
    p.append(name);
    p
}

/// Name of a job's scratch directory: `pdftool-<job id>`.
pub open spec fn scratch_dir_name(job_id: Seq<char>) -> Seq<char> {
    "pdftool-"@ + job_id
}

pub fn scratch_dir_name_of(job_id: &str) -> (s: String)
    ensures
        s@ == scratch_dir_name(job_id@),
{
    let mut s = String::from_str("pdftool-");
    s.append(job_id);
    s
}

/// `<prefix><index padded to three digits>.pdf`, as in `chunk_007.pdf`.
pub open spec fn numbered_pdf(prefix: Seq<char>, index: nat) -> Seq<char> {
    prefix + decimal_padded3(index) + ".pdf"@
}

pub fn numbered_pdf_name(prefix: &str, index: usize) -> (s: String)
    ensures
        s@ == numbered_pdf(prefix@, index as nat),
{
    let mut s = String::from_str(prefix);
    let digits = padded3_string(index);
    s.append(digits.as_str());
    s.append(".pdf");
    s
}

} // verus!
