//! Pluggable sources of file text, so the loader around the engine can be
//! driven by the real file system or by fixed data under test.

use vstd::prelude::*;
use core::cmp::Ordering;

use crate::order::{lemma_cmp_chars_equal, str_compare};

verus! {

/// A source of file text. The loader asks it for the text behind a path;
/// `None` means the source cannot provide it.
pub trait FileIO {
    /// The text behind `path`, if the source holds it.
    fn read_path(&mut self, path: &str) -> (r: Option<String>);
}

/// A fixed in-memory file system for driving the loader under test.
pub struct FakeFileIO {
    pub fake_fs: Vec<(String, String)>,
}

impl FakeFileIO {
    /// The fixed fixture: one period file with one balanced transaction.
    pub fn new() -> (r: FakeFileIO)
        ensures
            r.fake_fs@.len() == 1,
            r.fake_fs@[0].0@ == "grouping.yaml"@,
            r.fake_fs@[0].1@
                == "---\nname: file-grouping\ntransactions:\n  - name: file-transaction\n    date: 2023-01-30\n    transfers:\n      debts: -300\n      money: 300\n"@,
    {
        let mut fake_fs: Vec<(String, String)> = Vec::new();
        fake_fs.push(
            (
                "grouping.yaml".to_owned(),
                "---\nname: file-grouping\ntransactions:\n  - name: file-transaction\n    date: 2023-01-30\n    transfers:\n      debts: -300\n      money: 300\n".to_owned(),
            ),
        );
        FakeFileIO { fake_fs }
    }

    /// The text stored under `path`, if any.
    pub fn lookup(&self, path: &str) -> (r: Option<String>)
        ensures
            match r {
                Some(text) => exists|i: int|
                    0 <= i < self.fake_fs@.len() && (#[trigger] self.fake_fs@[i]).0@ == path@
                        && self.fake_fs@[i].1@ == text@,
                None => forall|i: int|
                    0 <= i < self.fake_fs@.len() ==> (#[trigger] self.fake_fs@[i]).0@ != path@,
            },
    {
        let n = self.fake_fs.len();
        let mut i: usize = 0;
        while i < n
            invariant
                i <= n,
                n == self.fake_fs@.len(),
                forall|q: int| 0 <= q < i ==> (#[trigger] self.fake_fs@[q]).0@ != path@,
            decreases n - i,
        {
            let entry = &self.fake_fs[i];
            let same = match str_compare(entry.0.as_str(), path) {
                Ordering::Equal => true,
                _ => false,
            };
            proof {
                lemma_cmp_chars_equal(entry.0@, path@);
            }
            if same {
                return Some(entry.1.clone());
            }
            i = i + 1;
        }
        None
    }
}

impl FileIO for FakeFileIO {
    fn read_path(&mut self, path: &str) -> (r: Option<String>) {
        self.lookup(path)
    }
}

/// A source that holds nothing, for code paths that must never read a file.
pub struct DummyFileIO {}

impl FileIO for DummyFileIO {
    fn read_path(&mut self, path: &str) -> (r: Option<String>) {
        None
    }
}

} // verus!
