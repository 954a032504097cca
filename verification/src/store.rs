//! A store of files that lives in memory, behind both file capabilities.

use crate::entries::{lemma_position_is, position, value_of, with_entry};
use crate::handlers::{FileReading, FileWriting};
use crate::strings::str_eq;
use vstd::prelude::*;
use vstd::slice::slice_to_vec;
use vstd::utf8::{decode_utf8, valid_utf8};

verus! {

/// The text that a file's bytes hold, if they are UTF-8.
///
/// Trusted: `String::from_utf8` gives the string whose bytes are the given
/// ones where these are valid UTF-8, and an error where they are not.
#[verifier::external_body]
fn text_of(bytes: Vec<u8>) -> (text: Option<String>)
    ensures
        match text {
            Some(string) => valid_utf8(bytes@) && string@ == decode_utf8(bytes@),
            None => !valid_utf8(bytes@),
        },
{
    String::from_utf8(bytes).ok()
}

/// The error of a read of a file that is not there.
///
/// Trusted: `std::io::Error::from` makes an error of the given kind. Nothing
/// is claimed of it.
#[verifier::external_body]
fn not_found_error() -> std::io::Error {
    std::io::Error::from(std::io::ErrorKind::NotFound)
}

/// The error of a read of a file that holds no text.
///
/// Trusted: `std::io::Error::from` makes an error of the given kind. Nothing
/// is claimed of it.
#[verifier::external_body]
fn invalid_data_error() -> std::io::Error {
    std::io::Error::from(std::io::ErrorKind::InvalidData)
}

/// What a read of `path` gives in a store with these files: the text of
/// the file, or `None` where no file has this path or its bytes are no UTF-8.
pub open spec fn text_at(files: Seq<(Seq<char>, Seq<u8>)>, path: Seq<char>) -> Option<Seq<char>> {
    match value_of(files, path) {
        Some(bytes) => if valid_utf8(bytes) {
            Some(decode_utf8(bytes))
        } else {
            None
        },
        None => None,
    }
}

/// The texts and bytes of a list of files.
pub open spec fn file_models(files: Seq<(String, Vec<u8>)>) -> Seq<(Seq<char>, Seq<u8>)> {
    Seq::new(files.len(), |i: int| (files[i].0@, files[i].1@))
}

/// Files kept in memory, each under its path.
#[derive(Debug)]
pub struct MemoryStore {
    files: Vec<(String, Vec<u8>)>,
}

impl View for MemoryStore {
    type V = Seq<(Seq<char>, Seq<u8>)>;

    /// The files as pairs of a path and the bytes under it.
    closed spec fn view(&self) -> Seq<(Seq<char>, Seq<u8>)> {
        file_models(self.files@)
    }
}

impl MemoryStore {
    /// A store without files.
    pub fn new() -> (store: MemoryStore)
        ensures
            store@ == Seq::<(Seq<char>, Seq<u8>)>::empty(),
    {
        let store = MemoryStore { files: Vec::new() };
        assert(store@ =~= Seq::<(Seq<char>, Seq<u8>)>::empty());
        store
    }

    /// Where the file at `path` stands, or the number of files if there is none.
    fn find(&self, path: &str) -> (at: usize)
        ensures
            at == position(self@, path@, 0),
            at <= self@.len(),
            self@.len() == self.files@.len(),
    {
        let mut i: usize = 0;
        while i < self.files.len()
            invariant
                i <= self@.len(),
                self@.len() == self.files@.len(),
                forall|j: int| 0 <= j < i ==> (#[trigger] self@[j]).0 != path@,
            decreases self@.len() - i,
        {
            if str_eq(self.files[i].0.as_str(), path) {
                proof {
                    lemma_position_is(self@, path@, 0, i as int);
                }
                return i;
            }
            i += 1;
        }
        proof {
            lemma_position_is(self@, path@, 0, i as int);
        }
        i
    }

    /// The bytes of the file at `path`.
    pub fn contents(&self, path: &str) -> (bytes: Option<&Vec<u8>>)
        ensures
            match bytes {
                Some(found) => value_of(self@, path@) == Some(found@),
                None => value_of(self@, path@) is None,
            },
    {
        let at = self.find(path);
        if at < self.files.len() {
            Some(&self.files[at].1)
        } else {
            None
        }
    }

    /// Puts `bytes` under `path`, in place of what was there.
    pub fn put(&mut self, path: &str, bytes: &[u8])
        ensures
            final(self)@ == with_entry(old(self)@, path@, bytes@),
    {
        let at = self.find(path);
        let entry = (path.to_owned(), slice_to_vec(bytes));
        if at < self.files.len() {
            self.files.set(at, entry);
        } else {
            self.files.push(entry);
        }
        assert(self@ =~= with_entry(old(self)@, path@, bytes@));
    }
}

impl FileReading for MemoryStore {
    /// A read changes nothing, and gives the text under the path.
    open spec fn reads(&self, path: Seq<char>, outcome: Option<Seq<char>>, after: &Self) -> bool {
        *after == *self && outcome == text_at(self@, path)
    }

    fn read_to_string(&mut self, path: &str) -> (result: Result<String, std::io::Error>) {
        let bytes = match self.contents(path) {
            Some(bytes) => slice_to_vec(bytes.as_slice()),
            None => {
                return Err(not_found_error());
            },
        };
        match text_of(bytes) {
            Some(text) => Ok(text),
            None => Err(invalid_data_error()),
        }
    }
}

impl FileWriting for MemoryStore {
    /// A write ends well, and puts the bytes under the path.
    open spec fn writes(&self, path: Seq<char>, bytes: Seq<u8>, done: bool, after: &Self) -> bool {
        done && after@ == with_entry(self@, path, bytes)
    }

    fn write_bytes_to_file(&mut self, path: &str, bytes: &[u8]) -> (result: Result<
        (),
        std::io::Error,
    >) {
        self.put(path, bytes);
        Ok(())
    }
}

} // verus!
