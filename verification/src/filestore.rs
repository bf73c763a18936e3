//! An in-memory name-to-contents store.
//!
//! The executor threads one of these through a run: stages that read or
//! write named files (`cat -F`, `tee -O`, `redirect`) act on it, so their
//! behaviour is part of the verified model. A driver doing real file I/O
//! loads and unloads the store at the run's edges.

use vstd::prelude::*;

use crate::bytes::{bytes_eq, copy_bytes};

verus! {

pub struct FileEntry {
    pub name: Vec<u8>,
    pub data: Vec<u8>,
}

/// Named byte strings; later writes of a name replace earlier ones.
pub struct FileStore {
    files: Vec<FileEntry>,
}

/// The map denoted by an entry list, later entries winning.
spec fn file_map(s: Seq<FileEntry>) -> Map<Seq<u8>, Seq<u8>>
    decreases s.len(),
{
    if s.len() == 0 {
        Map::empty()
    } else {
        file_map(s.drop_last()).insert(s.last().name@, s.last().data@)
    }
}

impl View for FileStore {
    type V = Map<Seq<u8>, Seq<u8>>;

    closed spec fn view(&self) -> Map<Seq<u8>, Seq<u8>> {
        file_map(self.files@)
    }
}

proof fn lemma_file_map_found(s: Seq<FileEntry>, i: int, n: Seq<u8>)
    requires
        0 <= i < s.len(),
        s[i].name@ == n,
        forall|j: int| i < j < s.len() ==> s[j].name@ != n,
    ensures
        file_map(s).contains_key(n),
        file_map(s)[n] == s[i].data@,
    decreases s.len(),
{
    if i < s.len() - 1 {
        assert(s.drop_last()[i] == s[i]);
        lemma_file_map_found(s.drop_last(), i, n);
    }
}

proof fn lemma_file_map_absent(s: Seq<FileEntry>, n: Seq<u8>)
    requires
        forall|j: int| 0 <= j < s.len() ==> s[j].name@ != n,
    ensures
        !file_map(s).contains_key(n),
    decreases s.len(),
{
    if s.len() > 0 {
        assert(forall|j: int| 0 <= j < s.len() - 1 ==> s.drop_last()[j] == #[trigger] s[j]);
        lemma_file_map_absent(s.drop_last(), n);
    }
}

impl FileStore {
    /// An empty store.
    pub fn new() -> (r: FileStore)
        ensures
            r@ == Map::<Seq<u8>, Seq<u8>>::empty(),
    {
        FileStore { files: Vec::new() }
    }

    /// The contents under a name, if present.
    pub fn get(&self, name: &[u8]) -> (r: Option<Vec<u8>>)
        ensures
            match r {
                Some(v) => self@.contains_key(name@) && self@[name@] == v@,
                None => !self@.contains_key(name@),
            },
    {
        let mut i: usize = self.files.len();
        while i > 0
            invariant
                i <= self.files@.len(),
                forall|j: int| i <= j < self.files@.len() ==> self.files@[j].name@ != name@,
            decreases i,
        {
            i -= 1;
            if bytes_eq(self.files[i].name.as_slice(), name) {
                proof {
                    lemma_file_map_found(self.files@, i as int, name@);
                }
                return Some(copy_bytes(self.files[i].data.as_slice()));
            }
        }
        proof {
            lemma_file_map_absent(self.files@, name@);
        }
        None
    }

    /// Writes contents under a name, replacing what was there.
    pub fn put(&mut self, name: &[u8], data: &[u8])
        ensures
            final(self)@ == old(self)@.insert(name@, data@),
    {
        let e = FileEntry { name: copy_bytes(name), data: copy_bytes(data) };
        self.files.push(e);
        proof {
            assert(self.files@.drop_last() =~= old(self).files@);
        }
    }

    /// The names currently stored, for a driver unloading the store:
    /// every listed name is stored, and every stored name is listed.
    pub fn names(&self) -> (r: Vec<Vec<u8>>)
        ensures
            forall|i: int| 0 <= i < r@.len() ==> self@.contains_key(#[trigger] r@[i]@),
            forall|n: Seq<u8>|
                self@.contains_key(n) ==> exists|i: int|
                    0 <= i < r@.len() && (#[trigger] r@[i])@ == n,
    {
        let mut r: Vec<Vec<u8>> = Vec::new();
        let mut i: usize = 0;
        while i < self.files.len()
            invariant
                i <= self.files@.len(),
                r@.len() == i,
                forall|j: int| 0 <= j < i ==> (#[trigger] r@[j])@ == self.files@[j].name@,
                forall|j: int| 0 <= j < r@.len() ==> self@.contains_key(#[trigger] r@[j]@),
            decreases self.files@.len() - i,
        {
            proof {
                lemma_file_map_contains(self.files@, i as int);
            }
            r.push(copy_bytes(self.files[i].name.as_slice()));
            i += 1;
        }
        proof {
            assert forall|n: Seq<u8>| self@.contains_key(n) implies exists|k: int|
                0 <= k < r@.len() && (#[trigger] r@[k])@ == n by {
                lemma_file_map_key_has_entry(self.files@, n);
                let j = choose|j: int| 0 <= j < self.files@.len() && self.files@[j].name@ == n;
                assert(0 <= j < r@.len() && r@[j]@ == n);
            }
        }
        r
    }
}

/// A key the map holds was put there by some entry.
proof fn lemma_file_map_key_has_entry(s: Seq<FileEntry>, n: Seq<u8>)
    requires
        file_map(s).contains_key(n),
    ensures
        exists|j: int| 0 <= j < s.len() && (#[trigger] s[j]).name@ == n,
    decreases s.len(),
{
    if s.len() > 0 {
        if s.last().name@ == n {
            assert(s[s.len() - 1].name@ == n);
        } else {
            lemma_file_map_key_has_entry(s.drop_last(), n);
            let j = choose|j: int| 0 <= j < s.drop_last().len() && s.drop_last()[j].name@ == n;
            assert(s[j].name@ == n);
        }
    }
}

proof fn lemma_file_map_contains(s: Seq<FileEntry>, i: int)
    requires
        0 <= i < s.len(),
    ensures
        file_map(s).contains_key(s[i].name@),
    decreases s.len(),
{
    if i < s.len() - 1 {
        assert(s.drop_last()[i] == s[i]);
        lemma_file_map_contains(s.drop_last(), i);
    }
}

} // verus!
