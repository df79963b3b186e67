//! Matching the leading bytes of a file against a prefix pattern.
use vstd::prelude::*;

verus! {

/// A pattern byte with this value matches any byte of the file.
pub const WILDCARD: u8 = 0x1A;

/// One position of the pattern accepts one byte of the file.
pub open spec fn byte_accepted(want: u8, got: u8) -> bool {
    want == WILDCARD || want == got
}

/// The file `f` starts with the pattern `p`: it is at least as long, and
/// each pattern byte is the wildcard or equals the file byte at its position.
pub open spec fn matches_prefix(p: Seq<u8>, f: Seq<u8>) -> bool {
    &&& f.len() >= p.len()
    &&& forall|i: int| 0 <= i < p.len() ==> byte_accepted(#[trigger] p[i], f[i])
}

/// Whether `head`, the leading bytes of a file, starts with `pattern`.
pub fn has_prefix(pattern: &[u8], head: &[u8]) -> (r: bool)
    ensures
        r == matches_prefix(pattern@, head@),
{
    if head.len() < pattern.len() {
        return false;
    }
    let mut i: usize = 0;
    while i < pattern.len()
        invariant
            head@.len() >= pattern@.len(),
            i <= pattern@.len(),
            forall|k: int| 0 <= k < i ==> byte_accepted(#[trigger] pattern@[k], head@[k]),
        decreases pattern@.len() - i,
    {
        let want = pattern[i];
        if want != WILDCARD && want != head[i] {
            return false;
        }
        i = i + 1;
    }
    true
}


/// What reading the leading bytes of a file gave.
pub enum ReadOutcome {
    /// The first bytes of the file, as many as the pattern has or, where the
    /// file ends sooner, the whole file.
    Head(Vec<u8>),
    /// Reading failed for another reason than the end of the file.
    Failed,
    /// The file could not be opened: the run cannot go on.
    NotOpened,
}

/// A file to check: its path and what reading its leading bytes gave.
pub struct FileHead {
    pub path: String,
    pub outcome: ReadOutcome,
}

/// A file with this read outcome complies with the pattern `p`. The empty
/// pattern needs no byte, so a failed read complies with it and with no other;
/// a file that was never opened complies with nothing.
pub open spec fn outcome_complies(p: Seq<u8>, outcome: ReadOutcome) -> bool {
    match outcome {
        ReadOutcome::Head(head) => matches_prefix(p, head@),
        ReadOutcome::Failed => p.len() == 0,
        ReadOutcome::NotOpened => false,
    }
}

/// Whether a file with this read outcome complies with `pattern`.
pub fn is_compliant(pattern: &[u8], outcome: &ReadOutcome) -> (r: bool)
    ensures
        r == outcome_complies(pattern@, *outcome),
{
    match outcome {
        ReadOutcome::Head(head) => has_prefix(pattern, head.as_slice()),
        ReadOutcome::Failed => pattern.len() == 0,
        ReadOutcome::NotOpened => false,
    }
}

/// Whether a file matches depends on its first `p.len()` bytes alone: a reader
/// may stop there, or at the end of a shorter file.
pub proof fn lemma_head_decides(p: Seq<u8>, f: Seq<u8>)
    ensures
        matches_prefix(p, f) == matches_prefix(
            p,
            f.take(if f.len() < p.len() { f.len() as int } else { p.len() as int }),
        ),
{
}

/// The empty pattern matches every file.
pub proof fn lemma_empty_pattern_matches(f: Seq<u8>)
    ensures
        matches_prefix(Seq::empty(), f),
{
}

/// A file shorter than the pattern never matches it.
pub proof fn lemma_short_file_fails(p: Seq<u8>, f: Seq<u8>)
    requires
        f.len() < p.len(),
    ensures
        !matches_prefix(p, f),
{
}

} // verus!
