//! The bytes of one file, held in memory.

use crate::data_provider::{range_of, DataProvider};
use crate::dump::{format_line, line_text};
use std::collections::HashMap;
use std::path::{Path, PathBuf};
use vstd::prelude::*;

verus! {

/// `std::path::PathBuf`, carried through as it is.
#[verifier::external_type_specification]
#[verifier::external_body]
pub struct ExPathBuf(PathBuf);

/// `std::path::Path`, carried through as it is.
#[verifier::external_type_specification]
#[verifier::external_body]
pub struct ExPath(Path);

/// The path that an owned path holds, as a borrowed `Path`: what
/// `PathBuf::as_path` returns.
pub uninterp spec fn lent_path(path: &PathBuf) -> &Path;

/// `PathBuf::as_path` of the standard library: it lends out the path that
/// the owned path holds, and so returns the same for the same owned path.
/// Believed, not proved.
pub assume_specification[ PathBuf::as_path ](path: &PathBuf) -> (r: &Path)
    ensures
        r == lent_path(path),
;

/// The content of a file and the path it was read from. The lines of its
/// dump are kept once they have been asked for.
#[derive(Debug)]
pub struct FileDataProvider {
    path: PathBuf,
    bytes: Vec<u8>,
    lines: HashMap<i32, String>,
}

impl View for FileDataProvider {
    type V = Seq<u8>;

    closed spec fn view(&self) -> Seq<u8> {
        self.bytes@
    }
}

impl FileDataProvider {
    /// Every line that is kept is the text of its row.
    pub closed spec fn wf(&self) -> bool {
        forall|line: i32| #[trigger]
            self.lines@.contains_key(line) ==> line_text(self.bytes@, line as int) == Some(
                self.lines@[line]@,
            )
    }

    /// The path that the bytes were read from.
    pub closed spec fn path(&self) -> PathBuf {
        self.path
    }

    /// The provider of `bytes`, the content of the file at `path`.
    pub fn new(path: PathBuf, bytes: Vec<u8>) -> (provider: Self)
        ensures
            provider.wf(),
            provider@ == bytes@,
            provider.path() == path,
    {
        broadcast use vstd::std_specs::hash::group_hash_axioms;

        Self { path, bytes, lines: HashMap::new() }
    }

    /// The path that the bytes were read from: the one given to
    /// [`FileDataProvider::new`], lent out.
    pub fn to_path(&self) -> (path: &Path)
        ensures
            path == lent_path(&self.path()),
    {
        self.path.as_path()
    }

    /// The text of the row `line` of the dump; `None` where the row holds no
    /// byte.
    pub fn get_line(&mut self, line: i32) -> (text: Option<String>)
        requires
            old(self).wf(),
        ensures
            final(self).wf(),
            text is Some <==> line_text(old(self)@, line as int) is Some,
            text matches Some(s) ==> line_text(old(self)@, line as int) == Some(s@),
            final(self)@ == old(self)@,
            final(self).path() == old(self).path(),
    {
        broadcast use vstd::std_specs::hash::group_hash_axioms;

        if let Some(s) = self.lines.get(&line) {
            return Some(s.clone());
        }
        match format_line(self.bytes.as_slice(), line) {
            Some(s) => {
                self.lines.insert(line, s.clone());
                Some(s)
            },
            None => None,
        }
    }
}

impl DataProvider for FileDataProvider {
    open spec fn read(&self, offset: usize, count: usize) -> Option<Seq<u8>> {
        range_of(self@, offset as int, count as int)
    }

    fn len(&self) -> (n: usize)
        ensures
            n == self@.len(),
    {
        self.bytes.len()
    }

    fn get(&self, offset: usize, count: usize) -> (bytes: Option<&[u8]>) {
        let len = self.bytes.len();
        if offset >= len {
            return None;
        }
        let end = if count <= len - offset {
            offset + count
        } else {
            len
        };
        Some(vstd::slice::slice_subrange(self.bytes.as_slice(), offset, end))
    }
}

} // verus!
