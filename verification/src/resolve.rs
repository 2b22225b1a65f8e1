//! The content-resolution capability: maps a splice path to readable text.

use vstd::prelude::*;

verus! {

/// A capability that resolves a path to the text it names, or reports that it
/// cannot. The directive machine splices the resolved text in place of the
/// directive line.
///
/// `resolves` is the mathematical model of the capability: what text (or
/// which error) each path maps to during one processing run. `find_content`
/// must return exactly that.
pub trait Includes {
    type Error;

    spec fn resolves(&self, path: Seq<char>) -> Result<Seq<char>, Self::Error>;

    fn find_content(&self, path: &str) -> (r: Result<String, Self::Error>)
        ensures
            match r {
                Ok(content) => self.resolves(path@) matches Ok(c) && c == content@,
                Err(e) => self.resolves(path@) matches Err(e2) && e == e2,
            },
    ;
}

/// The error of `NoIncludes`: splicing is not supported in this context.
pub struct NotSupported;

/// A resolver that refuses every path.
pub struct NoIncludes;

impl Includes for NoIncludes {
    type Error = NotSupported;

    open spec fn resolves(&self, path: Seq<char>) -> Result<Seq<char>, NotSupported> {
        Err(NotSupported)
    }

    fn find_content(&self, path: &str) -> (r: Result<String, NotSupported>) {
        Err(NotSupported)
    }
}

/// An in-memory resolver: a fixed list of `(path, content)` pairs. A path not
/// in the list is refused with `NotSupported`.
pub struct MapIncludes {
    pub entries: Vec<(String, String)>,
}

impl MapIncludes {
    /// The first entry for `path`, if any.
    pub open spec fn spec_lookup(entries: Seq<(String, String)>, path: Seq<char>) -> Result<
        Seq<char>,
        NotSupported,
    >
        decreases entries.len(),
    {
        if entries.len() == 0 {
            Err(NotSupported)
        } else if entries[0].0@ == path {
            Ok(entries[0].1@)
        } else {
            Self::spec_lookup(entries.skip(1), path)
        }
    }

    pub fn new() -> (r: MapIncludes)
        ensures
            r.entries@ =~= Seq::<(String, String)>::empty(),
    {
        MapIncludes { entries: Vec::new() }
    }

    /// Register `content` under `path`.
    pub fn add(&mut self, path: &str, content: &str)
        ensures
            final(self).entries@.len() == old(self).entries@.len() + 1,
            final(self).entries@.last().0@ == path@,
            final(self).entries@.last().1@ == content@,
            forall|j: int|
                0 <= j < old(self).entries@.len() ==> final(self).entries@[j] == old(
                    self,
                ).entries@[j],
    {
        let p = String::from_str(path);
        let c = String::from_str(content);
        self.entries.push((p, c));
    }
}

impl Includes for MapIncludes {
    type Error = NotSupported;

    open spec fn resolves(&self, path: Seq<char>) -> Result<Seq<char>, NotSupported> {
        Self::spec_lookup(self.entries@, path)
    }

    fn find_content(&self, path: &str) -> (r: Result<String, NotSupported>) {
        let key = String::from_str(path);
        proof {
            assert(self.entries@.skip(0) =~= self.entries@);
        }
        let mut i: usize = 0;
        while i < self.entries.len()
            invariant
                0 <= i <= self.entries@.len(),
                key@ == path@,
                Self::spec_lookup(self.entries@, path@) == Self::spec_lookup(
                    self.entries@.skip(i as int),
                    path@,
                ),
            decreases self.entries@.len() - i,
        {
            proof {
                assert(self.entries@.skip(i as int).len() == self.entries@.len() - i);
                assert(self.entries@.skip(i as int)[0] == self.entries@[i as int]);
            }
            if self.entries[i].0 == key {
                let c = self.entries[i].1.clone();
                proof {
                    assert(Self::spec_lookup(self.entries@.skip(i as int), path@) == Ok::<
                        Seq<char>,
                        NotSupported,
                    >(self.entries@[i as int].1@));
                }
                return Ok(c);
            }
            proof {
                assert(self.entries@.skip(i as int).skip(1) =~= self.entries@.skip(i + 1));
                assert(Self::spec_lookup(self.entries@.skip(i as int), path@)
                    == Self::spec_lookup(self.entries@.skip(i + 1), path@));
            }
            i = i + 1;
        }
        Err(NotSupported)
    }
}

} // verus!
