use vstd::prelude::*;

use crate::text::chars_of;

verus! {

/// `name` ends in `.rs` with a non-empty stem, which is when its extension
/// is `rs`.
pub open spec fn has_rs_extension(name: Seq<char>) -> bool {
    name.len() > 3 && name.subrange(name.len() - 3, name.len() as int) == ".rs"@
}

/// A file of this name is annotated: a Rust source file other than a module
/// index.
pub open spec fn is_candidate(name: Seq<char>) -> bool {
    has_rs_extension(name) && name != "mod.rs"@
}

/// Whether `hay` ends with `suffix`.
fn ends_with_chars(hay: &Vec<char>, suffix: &Vec<char>) -> (r: bool)
    ensures
        r == (suffix.len() <= hay.len() && hay@.subrange(
            hay.len() - suffix.len(),
            hay.len() as int,
        ) == suffix@),
{
    if suffix.len() > hay.len() {
        return false;
    }
    let start = hay.len() - suffix.len();
    let mut j: usize = 0;
    while j < suffix.len()
        invariant
            start == hay.len() - suffix.len(),
            j <= suffix.len(),
            forall|m: int| 0 <= m < j ==> hay@[start + m] == suffix@[m],
        decreases suffix.len() - j,
    {
        if hay[start + j] != suffix[j] {
            assert(hay@.subrange(start as int, hay.len() as int)[j as int] != suffix@[j as int]);
            return false;
        }
        j = j + 1;
    }
    assert(hay@.subrange(start as int, hay.len() as int) =~= suffix@);
    true
}

/// Whether the file called `file_name` is one to annotate: its extension is
/// `rs` and it is not `mod.rs`.
pub fn is_candidate_file(file_name: &str) -> (r: bool)
    ensures
        r == is_candidate(file_name@),
{
    let name = chars_of(file_name);
    let ext = chars_of(".rs");
    let index = chars_of("mod.rs");
    proof {
        reveal_strlit(".rs");
    }
    if name.len() <= 3 || !ends_with_chars(&name, &ext) {
        return false;
    }
    let is_index = name.len() == index.len() && ends_with_chars(&name, &index);
    if is_index {
        assert(name@ =~= name@.subrange(0, name.len() as int));
    } else if name.len() == index.len() {
        assert(name@ =~= name@.subrange(0, name.len() as int));
    }
    !is_index
}

/// What became of one file.
#[derive(Debug, Clone, Copy, PartialEq, Eq)]
pub enum FileOutcome {
    Modified,
    Unchanged,
    Failed,
}

/// Counts of the files of one run.
#[derive(Debug)]
pub struct Summary {
    pub total: usize,
    pub modified: usize,
    pub failed: usize,
}

impl Summary {
    /// Modified and failed files are among those counted.
    pub open spec fn wf(&self) -> bool {
        self.modified + self.failed <= self.total
    }

    /// No file seen yet.
    pub fn new() -> (r: Self)
        ensures
            r.wf(),
            r.total == 0,
            r.modified == 0,
            r.failed == 0,
    {
        Summary { total: 0, modified: 0, failed: 0 }
    }

    /// Counts one more file with its outcome.
    pub fn record(&mut self, outcome: FileOutcome)
        requires
            old(self).wf(),
            old(self).total < usize::MAX,
        ensures
            final(self).wf(),
            final(self).total == old(self).total + 1,
            final(self).modified == old(self).modified + if outcome == FileOutcome::Modified {
                1int
            } else {
                0int
            },
            final(self).failed == old(self).failed + if outcome == FileOutcome::Failed {
                1int
            } else {
                0int
            },
    {
        self.total = self.total + 1;
        match outcome {
            FileOutcome::Modified => self.modified = self.modified + 1,
            FileOutcome::Unchanged => {},
            FileOutcome::Failed => self.failed = self.failed + 1,
        }
    }

    /// The files that were read and needed no change.
    pub fn unchanged(&self) -> (r: usize)
        requires
            self.wf(),
        ensures
            r == self.total - self.modified - self.failed,
    {
        self.total - self.modified - self.failed
    }
}

} // verus!
