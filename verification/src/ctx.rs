//! The suppression context: the set of error kinds to ignore and the set of
//! file names to skip.  Written during setup, read-only while validating.

use vstd::prelude::*;
use vstd::string::StringSliceAdditionalSpecFns;

use crate::error::Error;

verus! {

/// Error kinds to ignore and file names to skip, consulted by every
/// validation decision.
pub struct Context {
    ignored: Vec<Error>,
    skipped: Vec<Vec<u8>>,
}

impl Context {
    /// The set of ignored error kinds.
    pub closed spec fn ignored_set(&self) -> Set<Error> {
        self.ignored@.to_set()
    }

    /// The set of skipped file names, as byte strings.
    pub closed spec fn skipped_set(&self) -> Set<Seq<u8>> {
        self.skipped.deep_view().to_set()
    }

    /// An empty context: nothing ignored, nothing skipped.
    pub fn new() -> (r: Self)
        ensures
            r.ignored_set() == Set::<Error>::empty(),
            r.skipped_set() == Set::<Seq<u8>>::empty(),
    {
        let r = Context { ignored: Vec::new(), skipped: Vec::new() };
        proof {
            assert(r.ignored_set() =~= Set::<Error>::empty());
            assert(r.skipped.deep_view() =~= Seq::<Seq<u8>>::empty());
            assert(r.skipped_set() =~= Set::<Seq<u8>>::empty());
        }
        r
    }

    /// Adds a file name, given as raw bytes, to the skip set.
    pub fn skip_bytes(&mut self, s: &[u8])
        ensures
            final(self).skipped_set() == old(self).skipped_set().insert(s@),
            final(self).ignored_set() == old(self).ignored_set(),
    {
        let ghost pre = self.skipped.deep_view();
        let name = vstd::slice::slice_to_vec(s);
        self.skipped.push(name);
        proof {
            assert(self.skipped.deep_view() =~~= pre.push(name@));
            pre.lemma_push_to_set_commute(name@);
        }
    }

    /// Adds a file name to the skip set; adding it again changes nothing.
    pub fn skip(&mut self, s: &str)
        ensures
            final(self).skipped_set() == old(self).skipped_set().insert(s.spec_bytes()),
            final(self).ignored_set() == old(self).ignored_set(),
    {
        self.skip_bytes(s.as_bytes());
    }

    /// Adds an error kind to the ignore set; adding it again changes nothing.
    pub fn ignore(&mut self, e: Error)
        ensures
            final(self).ignored_set() == old(self).ignored_set().insert(e),
            final(self).skipped_set() == old(self).skipped_set(),
    {
        let ghost pre = self.ignored@;
        self.ignored.push(e);
        proof {
            pre.lemma_push_to_set_commute(e);
            assert(final(self).skipped_set() =~= old(self).skipped_set());
        }
    }

    /// Whether an error kind is in the ignore set.
    pub fn should_ignore(&self, e: &Error) -> (r: bool)
        ensures
            r == self.ignored_set().contains(*e),
    {
        let mut i: usize = 0;
        while i < self.ignored.len()
            invariant
                i <= self.ignored@.len(),
                forall|j: int| 0 <= j < i ==> self.ignored@[j] != *e,
            decreases self.ignored@.len() - i,
        {
            if self.ignored[i] == *e {
                assert(self.ignored@.contains(*e));
                return true;
            }
            i += 1;
        }
        assert(!self.ignored@.contains(*e));
        false
    }

    /// Whether a file name is in the skip set.
    pub fn should_skip(&self, s: &str) -> (r: bool)
        ensures
            r == self.skipped_set().contains(s.spec_bytes()),
    {
        let b = s.as_bytes();
        let mut i: usize = 0;
        while i < self.skipped.len()
            invariant
                i <= self.skipped@.len(),
                b@ == s.spec_bytes(),
                forall|j: int| 0 <= j < i ==> self.skipped.deep_view()[j] != b@,
            decreases self.skipped@.len() - i,
        {
            if crate::text::bytes_eq(self.skipped[i].as_slice(), b) {
                assert(self.skipped.deep_view()[i as int] == b@);
                assert(self.skipped.deep_view().contains(b@));
                return true;
            }
            proof {
                assert(self.skipped.deep_view()[i as int] =~= self.skipped@[i as int]@);
            }
            i += 1;
        }
        assert(!self.skipped.deep_view().contains(b@));
        false
    }
}

impl Default for Context {
    /// An empty context, as [`Context::new`] builds it.
    fn default() -> (r: Self)
        ensures
            r.ignored_set() == Set::<Error>::empty(),
            r.skipped_set() == Set::<Seq<u8>>::empty(),
    {
        Context::new()
    }
}

} // verus!
