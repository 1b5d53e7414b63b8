//! Describing the files a user picked.
use vstd::prelude::*;

verus! {

/// What the file list shows for one picked path.
#[derive(Debug)]
pub struct InspectedFile {
    pub path: String,
    pub name: String,
    pub exists: bool,
    pub size_bytes: u64,
    pub error: Option<String>,
}

/// What the file system says of one path: its final component, and its size or the
/// error that reading its metadata gave (as text).
#[derive(Debug)]
pub struct FileFacts {
    pub path: String,
    pub file_name: Option<String>,
    pub metadata: Result<u64, String>,
}

pub struct InspectedFileView {
    pub path: Seq<char>,
    pub name: Seq<char>,
    pub exists: bool,
    pub size_bytes: u64,
    pub error: Option<Seq<char>>,
}

impl View for InspectedFile {
    type V = InspectedFileView;

    open spec fn view(&self) -> InspectedFileView {
        InspectedFileView {
            path: self.path@,
            name: self.name@,
            exists: self.exists,
            size_bytes: self.size_bytes,
            error: match self.error {
                Some(e) => Some(e@),
                None => None,
            },
        }
    }
}

/// The entry for a path: named by its final component (the whole path when it has
/// none); present with its size, or absent with size 0 and the error.
pub open spec fn inspected(f: FileFacts) -> InspectedFileView {
    InspectedFileView {
        path: f.path@,
        name: match f.file_name {
            Some(n) => n@,
            None => f.path@,
        },
        exists: f.metadata is Ok,
        size_bytes: match f.metadata {
            Ok(len) => len,
            Err(_) => 0,
        },
        error: match f.metadata {
            Ok(_) => None,
            Err(e) => Some(e@),
        },
    }
}

/// Describes one path.
pub fn inspect_file(f: FileFacts) -> (r: InspectedFile)
    ensures
        r@ == inspected(f),
{
    let FileFacts { path, file_name, metadata } = f;
    let name = match file_name {
        Some(n) => n,
        None => path.clone(),
    };
    match metadata {
        Ok(len) => InspectedFile { path, name, exists: true, size_bytes: len, error: None },
        Err(e) => InspectedFile { path, name, exists: false, size_bytes: 0, error: Some(e) },
    }
}

/// Describes each path, in order.
pub fn inspect_files(paths: Vec<FileFacts>) -> (r: Vec<InspectedFile>)
    ensures
        r@.len() == paths@.len(),
        forall|i: int| 0 <= i < paths@.len() ==> #[trigger] r@[i]@ == inspected(paths@[i]),
{
    let ghost given = paths@;
    let mut paths = paths;
    let mut r: Vec<InspectedFile> = Vec::new();
    let n = paths.len();
    while paths.len() > 0
        invariant
            n == given.len(),
            r@.len() + paths@.len() == n,
            paths@ =~= given.subrange(r@.len() as int, n as int),
            forall|i: int| 0 <= i < r@.len() ==> #[trigger] r@[i]@ == inspected(given[i]),
        decreases paths@.len(),
    {
        let ghost k = r@.len() as int;
        let f = paths.remove(0);
        assert(f == given[k]);
        r.push(inspect_file(f));
        assert(paths@ =~= given.subrange(k + 1, n as int));
    }
    r
}

/// Every picked path is listed under its own path, and named by its final
/// component (by the whole path when it has none). A path whose metadata could be
/// read is listed as present, whatever its size (an empty file included), with that
/// size and no error; a path whose metadata could not be read is listed as absent,
/// with size 0 and the error.
pub proof fn inspection_follows_metadata(f: FileFacts)
    ensures
        inspected(f).path == f.path@,
        f.file_name matches Some(n) ==> inspected(f).name == n@,
        f.file_name is None ==> inspected(f).name == f.path@,
        inspected(f).exists <==> f.metadata is Ok,
        inspected(f).error is None <==> f.metadata is Ok,
        f.metadata matches Ok(len) ==> inspected(f).size_bytes == len,
        f.metadata matches Err(e) ==> inspected(f).size_bytes == 0 && inspected(f).error == Some(
            e@,
        ),
{
}

} // verus!
