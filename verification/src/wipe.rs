use vstd::prelude::*;
use crate::random::{DIR_SEPARATOR, DOT, basename_is_ascii, in_basename};

verus! {

/// The most empty files the inode wipe creates.
pub const MAXINODEWIPE: usize = 4194304;

/// How many failed creations end the inode wipe.
pub const MAX_CREATE_FAILURES: u32 = 5;

/// The placeholder file name that the inode wipe randomizes.
pub open spec fn placeholder() -> Seq<u8> {
    seq![0x78u8, 0x78, 0x78, 0x78, 0x78, 0x78, 0x78, 0x78, DOT, 0x78, 0x78, 0x78]
}

/// The name template for the files of the inode wipe in directory `loc`:
/// `loc`, a separator unless `loc` ends with one, and `xxxxxxxx.xxx`.
pub open spec fn inode_template_spec(loc: Seq<u8>) -> Seq<u8> {
    let dir = if loc.len() > 0 && loc.last() == DIR_SEPARATOR {
        loc
    } else {
        loc.push(DIR_SEPARATOR)
    };
    dir + placeholder()
}

/// Builds the name template for the inode wipe in directory `loc`; its file
/// name part is ASCII, so it can be randomized.
pub fn inode_template(loc: &[u8]) -> (t: Vec<u8>)
    requires
        loc@.len() + 13 <= usize::MAX,
    ensures
        t@ == inode_template_spec(loc@),
        basename_is_ascii(t@),
{
    let mut t: Vec<u8> = Vec::new();
    let mut i: usize = 0;
    while i < loc.len()
        invariant
            i <= loc@.len(),
            t@ == loc@.subrange(0, i as int),
        decreases loc.len() - i,
    {
        t.push(loc[i]);
        i = i + 1;
        assert(t@ =~= loc@.subrange(0, i as int));
    }
    assert(t@ =~= loc@);
    if !(loc.len() > 0 && loc[loc.len() - 1] == DIR_SEPARATOR) {
        t.push(DIR_SEPARATOR);
    }
    let ghost dir = t@;
    let mut k: usize = 0;
    while k < 8
        invariant
            k <= 8,
            t@ == dir + placeholder().subrange(0, k as int),
        decreases 8 - k,
    {
        t.push(0x78);
        k = k + 1;
        assert(t@ =~= dir + placeholder().subrange(0, k as int));
    }
    t.push(DOT);
    t.push(0x78);
    t.push(0x78);
    t.push(0x78);
    assert(t@ =~= dir + placeholder());
    assert(dir.len() > 0 && dir.last() == DIR_SEPARATOR);
    assert forall|i: int| #[trigger] in_basename(t@, i) implies t@[i] < 0x80 by {
        if i < dir.len() {
            assert(t@[dir.len() - 1] == DIR_SEPARATOR);
        }
    }
    t
}

/// The inode wipe's count of created files and failed creations.
pub struct InodeWipe {
    pub created: usize,
    pub failed: u32,
}

impl InodeWipe {
    /// The counts stay within their limits, and never both reach them:
    /// counting stops at the first limit reached.
    pub open spec fn wf(&self) -> bool {
        &&& self.created <= MAXINODEWIPE
        &&& self.failed <= MAX_CREATE_FAILURES
        &&& (self.created < MAXINODEWIPE || self.failed < MAX_CREATE_FAILURES)
    }

    /// Nothing created, nothing failed.
    pub fn new() -> (w: InodeWipe)
        ensures
            w.created == 0,
            w.failed == 0,
            w.wf(),
    {
        InodeWipe { created: 0, failed: 0 }
    }

    /// Whether to try creating one more file: fewer than the most files,
    /// fewer than five failures.
    pub fn keep_going(&self) -> (r: bool)
        ensures
            r == (self.created < MAXINODEWIPE && self.failed < MAX_CREATE_FAILURES),
    {
        self.created < MAXINODEWIPE && self.failed < MAX_CREATE_FAILURES
    }

    /// Counts the outcome of one creation.
    pub fn record(&mut self, created_ok: bool)
        requires
            old(self).created < MAXINODEWIPE,
            old(self).failed < MAX_CREATE_FAILURES,
        ensures
            created_ok ==> final(self).created == old(self).created + 1 && final(self).failed == old(
                self,
            ).failed,
            !created_ok ==> final(self).failed == old(self).failed + 1 && final(self).created == old(
                self,
            ).created,
            final(self).wf(),
    {
        if created_ok {
            self.created = self.created + 1;
        } else {
            self.failed = self.failed + 1;
        }
    }

    /// Whether the wipe warns that not all inodes were wiped: when it ended
    /// with fewer than five failures.
    pub fn warns_incomplete(&self) -> (r: bool)
        ensures
            r == (self.failed < MAX_CREATE_FAILURES),
    {
        self.failed < MAX_CREATE_FAILURES
    }
}

/// Each creation attempt counts towards one of the two limits, and counting
/// stops as soon as one is reached, so the wipe stops after at most
/// 4194304 + 4 attempts, and it stops exactly when one limit is reached.
pub proof fn lemma_inode_wipe_ends(w: InodeWipe)
    requires
        w.wf(),
    ensures
        (w.created + w.failed) <= MAXINODEWIPE + MAX_CREATE_FAILURES - 1,
        !(w.created < MAXINODEWIPE && w.failed < MAX_CREATE_FAILURES) <==> (w.created == MAXINODEWIPE
            || w.failed == MAX_CREATE_FAILURES),
{
}

} // verus!
