//! An in-memory image of the files that an extraction produces: each path
//! holds one file's bytes. Directories are implied by the paths.

use vstd::prelude::*;

verus! {

/// Moves the file at `from` to `to`, replacing what `to` held; nothing
/// happens when there is no file at `from`.
pub open spec fn move_file(files: Map<Seq<char>, Seq<u8>>, from: Seq<char>, to: Seq<char>) -> Map<
    Seq<char>,
    Seq<u8>,
> {
    if files.contains_key(from) {
        files.remove(from).insert(to, files[from])
    } else {
        files
    }
}

/// Files by path.
pub struct Tree {
    files: Vec<(String, Vec<u8>)>,
    model: Ghost<Map<Seq<char>, Seq<u8>>>,
}

impl Tree {
    pub closed spec fn view(&self) -> Map<Seq<char>, Seq<u8>> {
        self.model@
    }

    /// Paths are unique, and the model holds exactly the stored pairs.
    pub closed spec fn wf(&self) -> bool {
        &&& forall|i: int, j: int|
            0 <= i < j < self.files@.len() ==> #[trigger] self.files@[i].0@
                != #[trigger] self.files@[j].0@
        &&& forall|i: int|
            0 <= i < self.files@.len() ==> self.model@.contains_key(#[trigger] self.files@[i].0@)
                && self.model@[self.files@[i].0@] == self.files@[i].1@
        &&& forall|k: Seq<char>|
            #[trigger] self.model@.contains_key(k) ==> exists|i: int|
                0 <= i < self.files@.len() && #[trigger] self.files@[i].0@ == k
    }

    pub fn new() -> (r: Self)
        ensures
            r.wf(),
            r@ == Map::<Seq<char>, Seq<u8>>::empty(),
    {
        Tree { files: Vec::new(), model: Ghost(Map::empty()) }
    }

    /// Number of files.
    pub fn len(&self) -> (r: usize)
        requires
            self.wf(),
        ensures
            r == self@.dom().len(),
    {
        proof {
            self.lemma_dom_len();
        }
        self.files.len()
    }

    proof fn lemma_dom_len(&self)
        requires
            self.wf(),
        ensures
            self@.dom().finite(),
            self@.dom().len() == self.files@.len(),
    {
        let keys = self.files@.map_values(|e: (String, Vec<u8>)| e.0@);
        assert(keys.no_duplicates()) by {
            assert forall|i: int, j: int| 0 <= i < keys.len() && 0 <= j < keys.len() && i != j
                implies keys[i] != keys[j] by {
                if i < j {
                    assert(self.files@[i].0@ != self.files@[j].0@);
                } else {
                    assert(self.files@[j].0@ != self.files@[i].0@);
                }
            }
        }
        assert(keys.to_set() =~= self@.dom()) by {
            assert forall|k: Seq<char>| self@.dom().contains(k) implies keys.to_set().contains(k) by {
                let i = choose|i: int| 0 <= i < self.files@.len() && #[trigger] self.files@[i].0@ == k;
                assert(keys[i] == k);
            }
        }
        keys.unique_seq_to_set();
    }

    /// Index of the file at `path`, if there is one.
    fn find(&self, path: &String) -> (r: Option<usize>)
        requires
            self.wf(),
        ensures
            r.is_some() == self@.contains_key(path@),
            r.is_some() ==> r.unwrap() < self.files@.len() && self.files@[r.unwrap() as int].0@
                == path@,
    {
        let mut i: usize = 0;
        while i < self.files.len()
            invariant
                self.wf(),
                i <= self.files@.len(),
                forall|j: int| 0 <= j < i ==> self.files@[j].0@ != path@,
            decreases self.files@.len() - i,
        {
            if self.files[i].0 == *path {
                return Some(i);
            }
            i = i + 1;
        }
        None
    }

    /// The bytes of the file at `path`, if there is one.
    pub fn get(&self, path: &String) -> (r: Option<&Vec<u8>>)
        requires
            self.wf(),
        ensures
            r.is_some() == self@.contains_key(path@),
            r.is_some() ==> r.unwrap()@ == self@[path@],
    {
        match self.find(path) {
            Some(i) => Some(&self.files[i].1),
            None => None,
        }
    }

    /// The paths of all files.
    pub fn paths(&self) -> (r: Vec<String>)
        requires
            self.wf(),
        ensures
            r@.len() == self@.dom().len(),
            forall|k: Seq<char>| self@.contains_key(k) <==> exists|i: int|
                0 <= i < r@.len() && #[trigger] r@[i]@ == k,
    {
        proof {
            self.lemma_dom_len();
        }
        let mut r: Vec<String> = Vec::new();
        let mut i: usize = 0;
        while i < self.files.len()
            invariant
                self.wf(),
                i <= self.files@.len(),
                r@.len() == i,
                forall|j: int| 0 <= j < i ==> #[trigger] r@[j]@ == self.files@[j].0@,
            decreases self.files@.len() - i,
        {
            r.push(self.files[i].0.clone());
            i = i + 1;
        }
        assert forall|k: Seq<char>| self@.contains_key(k) <==> exists|i: int|
            0 <= i < r@.len() && #[trigger] r@[i]@ == k by {
            if self@.contains_key(k) {
                let i = choose|i: int| 0 <= i < self.files@.len() && #[trigger] self.files@[i].0@ == k;
                assert(r@[i]@ == k);
            }
            if exists|i: int| 0 <= i < r@.len() && #[trigger] r@[i]@ == k {
                let i = choose|i: int| 0 <= i < r@.len() && #[trigger] r@[i]@ == k;
                assert(self.files@[i].0@ == k);
            }
        }
        r
    }

    /// Writes `data` as the file at `path`, replacing any file there.
    pub fn write(&mut self, path: String, data: Vec<u8>)
        requires
            old(self).wf(),
        ensures
            final(self).wf(),
            final(self)@ == old(self)@.insert(path@, data@),
    {
        let ghost k = path@;
        let ghost v = data@;
        match self.find(&path) {
            Some(i) => {
                self.files.set(i, (path, data));
                self.model = Ghost(self.model@.insert(k, v));
                assert forall|q: Seq<char>| #[trigger] self.model@.contains_key(q) implies exists|j: int|
                    0 <= j < self.files@.len() && #[trigger] self.files@[j].0@ == q by {
                    if q != k {
                        let j = choose|j: int| 0 <= j < old(self).files@.len() && #[trigger] old(self).files@[j].0@ == q;
                        assert(self.files@[j].0@ == q);
                    } else {
                        assert(self.files@[i as int].0@ == q);
                    }
                }
            },
            None => {
                self.files.push((path, data));
                self.model = Ghost(self.model@.insert(k, v));
                let ghost n = self.files@.len() - 1;
                assert forall|q: Seq<char>| #[trigger] self.model@.contains_key(q) implies exists|j: int|
                    0 <= j < self.files@.len() && #[trigger] self.files@[j].0@ == q by {
                    if q != k {
                        let j = choose|j: int| 0 <= j < old(self).files@.len() && #[trigger] old(self).files@[j].0@ == q;
                        assert(self.files@[j].0@ == q);
                    } else {
                        assert(self.files@[n].0@ == q);
                    }
                }
                assert forall|i: int| 0 <= i < self.files@.len() implies self.model@.contains_key(#[trigger] self.files@[i].0@)
                    && self.model@[self.files@[i].0@] == self.files@[i].1@ by {
                    if i < n {
                        assert(old(self).files@[i] == self.files@[i]);
                        assert(self.files@[i].0@ != k);
                    }
                }
            },
        }
    }

    /// Moves the file at `from` to `to`, replacing what `to` held. Returns
    /// whether there was a file at `from`; where there was none, nothing changes.
    pub fn rename(&mut self, from: &String, to: String) -> (r: bool)
        requires
            old(self).wf(),
        ensures
            final(self).wf(),
            r == old(self)@.contains_key(from@),
            final(self)@ == move_file(old(self)@, from@, to@),
    {
        match self.find(from) {
            None => false,
            Some(i) => {
                let entry = self.files.remove(i);
                let ghost k = from@;
                self.model = Ghost(self.model@.remove(k));
                assert forall|q: Seq<char>| #[trigger] self.model@.contains_key(q) implies exists|j: int|
                    0 <= j < self.files@.len() && #[trigger] self.files@[j].0@ == q by {
                    let j = choose|j: int| 0 <= j < old(self).files@.len() && #[trigger] old(self).files@[j].0@ == q;
                    assert(j != i);
                    if j < i {
                        assert(self.files@[j].0@ == q);
                    } else {
                        assert(self.files@[j - 1].0@ == q);
                    }
                }
                assert forall|a: int, b: int|
                    0 <= a < b < self.files@.len() implies #[trigger] self.files@[a].0@
                        != #[trigger] self.files@[b].0@ by {
                    let a2 = if a < i { a } else { a + 1 };
                    let b2 = if b < i { b } else { b + 1 };
                    assert(self.files@[a] == old(self).files@[a2]);
                    assert(self.files@[b] == old(self).files@[b2]);
                    assert(old(self).files@[a2].0@ != old(self).files@[b2].0@);
                }
                assert forall|a: int| 0 <= a < self.files@.len() implies self.model@.contains_key(#[trigger] self.files@[a].0@)
                    && self.model@[self.files@[a].0@] == self.files@[a].1@ by {
                    let a2 = if a < i { a } else { a + 1 };
                    assert(self.files@[a] == old(self).files@[a2]);
                    assert(old(self).files@[a2].0@ != old(self).files@[i as int].0@);
                }
                self.write(to, entry.1);
                true
            },
        }
    }
}

} // verus!
