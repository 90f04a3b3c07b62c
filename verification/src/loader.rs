use crate::span::{bytes_eq, clone_bytes};
use vstd::prelude::*;

verus! {

/// Dense identifier of a loaded source file.
#[derive(Debug, Clone, Copy, PartialEq, Eq, Structural)]
pub struct FileId(pub usize);

/// What an in-memory picture of the file system knows about one path.
#[derive(Debug, Clone)]
pub enum FileStatus {
    /// The path exists and holds these bytes.
    Present(Vec<u8>),
    /// The path is known not to exist.
    Absent,
    /// Nothing has been recorded about the path yet.
    Unknown,
}

/// An in-memory picture of the file system: a list of paths, each either
/// present with its bytes or known absent. Compilation is a pure function of
/// this picture; whoever runs the compiler fills it from the real disk.
pub struct SourceTree {
    pub entries: Vec<(Vec<u8>, Option<Vec<u8>>)>,
}

/// The first entry of `files` whose path equals `path`:
/// `None` when no entry records the path, `Some(None)` when the path is
/// recorded absent, `Some(Some(bytes))` when it is present.
pub open spec fn s_lookup(files: Seq<(Seq<u8>, Option<Seq<u8>>)>, path: Seq<u8>) -> Option<
    Option<Seq<u8>>,
>
    decreases files.len(),
{
    if files.len() == 0 {
        None
    } else if files[0].0 == path {
        Some(files[0].1)
    } else {
        s_lookup(files.drop_first(), path)
    }
}

impl SourceTree {
    pub open spec fn view(&self) -> Seq<(Seq<u8>, Option<Seq<u8>>)> {
        self.entries@.map_values(
            |p: (Vec<u8>, Option<Vec<u8>>)|
                (
                    p.0@,
                    match p.1 {
                        Some(b) => Some(b@),
                        None => None,
                    },
                ),
        )
    }

    pub fn new() -> (r: SourceTree)
        ensures
            r@ == Seq::<(Seq<u8>, Option<Seq<u8>>)>::empty(),
    {
        let r = SourceTree { entries: Vec::new() };
        proof {
            assert(r@ =~= Seq::<(Seq<u8>, Option<Seq<u8>>)>::empty());
        }
        r
    }

    /// Records that `path` holds `bytes` (or is absent, for `None`).
    pub fn record(&mut self, path: Vec<u8>, bytes: Option<Vec<u8>>)
        ensures
            final(self)@ == old(self)@.push(
                (
                    path@,
                    match bytes {
                        Some(b) => Some(b@),
                        None => None::<Seq<u8>>,
                    },
                ),
            ),
    {
        let ghost before = self@;
        let ghost pushed: (Seq<u8>, Option<Seq<u8>>) = (
            path@,
            match &bytes {
                Some(b) => Some(b@),
                None => None,
            },
        );
        self.entries.push((path, bytes));
        proof {
            assert(self@ =~= before.push(pushed));
        }
    }

    /// Looks a path up, reporting present bytes, recorded absence, or that the
    /// picture does not cover the path yet.
    pub fn lookup(&self, path: &Vec<u8>) -> (r: FileStatus)
        ensures
            (match s_lookup(self@, path@) {
                None => r is Unknown,
                Some(None) => r is Absent,
                Some(Some(b)) => r matches FileStatus::Present(v) && v@ == b,
            }),
    {
        let mut i: usize = 0;
        proof {
            assert(self@.skip(0) =~= self@);
        }
        while i < self.entries.len()
            invariant
                0 <= i <= self.entries@.len(),
                self@.len() == self.entries@.len(),
                s_lookup(self@, path@) == s_lookup(self@.skip(i as int), path@),
            decreases self.entries@.len() - i,
        {
            proof {
                assert(self@.skip(i as int)[0] == self@[i as int]);
                assert(self@.skip(i as int).drop_first() =~= self@.skip(i + 1));
            }
            if bytes_eq(&self.entries[i].0, path) {
                match &self.entries[i].1 {
                    Some(b) => {
                        return FileStatus::Present(clone_bytes(b));
                    },
                    None => {
                        return FileStatus::Absent;
                    },
                }
            }
            i = i + 1;
        }
        proof {
            assert(self@.skip(i as int) =~= Seq::<(Seq<u8>, Option<Seq<u8>>)>::empty());
        }
        FileStatus::Unknown
    }
}

/// Why the loader could not hand out a file id for a path.
#[derive(Debug, Clone, PartialEq, Eq, Structural)]
pub enum OpenFault {
    /// The path is recorded absent: an I/O failure of the compilation.
    Missing,
    /// The in-memory picture does not cover the path yet.
    Unknown,
}

/// Owns the bytes of every opened source file and issues dense ids for them.
/// Opening the same path twice hands out a fresh id each time.
pub struct FileLoader {
    pub store: Vec<Vec<u8>>,
}

impl FileLoader {
    pub open spec fn view(&self) -> Seq<Seq<u8>> {
        self.store.deep_view()
    }

    pub fn new() -> (r: FileLoader)
        ensures
            r@ == Seq::<Seq<u8>>::empty(),
    {
        let r = FileLoader { store: Vec::new() };
        proof {
            assert(r@ =~= Seq::<Seq<u8>>::empty());
        }
        r
    }

    /// Opens `path` against the in-memory file picture: copies its bytes into
    /// the store and returns the new dense id.
    pub fn open(&mut self, path: &Vec<u8>, files: &SourceTree) -> (r: Result<FileId, OpenFault>)
        ensures
            (match s_lookup(files@, path@) {
                Some(Some(b)) => r == Ok::<FileId, OpenFault>(FileId(old(self)@.len() as usize))
                    && final(self)@ == old(self)@.push(b),
                Some(None) => r == Err::<FileId, OpenFault>(OpenFault::Missing) && final(self)@
                    == old(self)@,
                None => r == Err::<FileId, OpenFault>(OpenFault::Unknown) && final(self)@ == old(
                    self,
                )@,
            }),
    {
        match files.lookup(path) {
            FileStatus::Present(bytes) => {
                let id = FileId(self.store.len());
                let ghost before = self@;
                let ghost b = bytes@;
                self.store.push(bytes);
                proof {
                    assert forall|j: int| 0 <= j < self@.len() implies self@[j] == before.push(b)[j]
                    by {
                        assert(self@[j] == self.store@[j]@);
                    }
                    assert(self@ =~= before.push(b));
                }
                Ok(id)
            },
            FileStatus::Absent => Err(OpenFault::Missing),
            FileStatus::Unknown => Err(OpenFault::Unknown),
        }
    }

    /// Total on previously issued ids: the bytes the id was issued for.
    pub fn load(&self, input: FileId) -> (r: &Vec<u8>)
        requires
            input.0 < self@.len(),
        ensures
            r@ == self@[input.0 as int],
    {
        &self.store[input.0]
    }
}

} // verus!
