//! Checking the selected files and reporting the violations.
use vstd::prelude::*;
use crate::order::{insert_sorted, lemma_path_lt_total, path_seq, strictly_sorted};
use crate::error::SetupError;
use crate::prefix::{is_compliant, outcome_complies, FileHead, ReadOutcome};

verus! {

/// The paths of `files` whose read outcome does not comply with `p`.
pub open spec fn violating_paths(p: Seq<u8>, files: Seq<FileHead>) -> Set<Seq<char>> {
    Set::new(
        |x: Seq<char>|
            exists|i: int|
                0 <= i < files.len() && (#[trigger] files[i]).path@ == x && !outcome_complies(
                    p,
                    files[i].outcome,
                ),
    )
}

/// The report: each path followed by a line break.
pub open spec fn lines(s: Seq<Seq<char>>) -> Seq<char>
    decreases s.len(),
{
    if s.len() == 0 {
        Seq::empty()
    } else {
        lines(s.drop_last()) + s.last() + "\n"@
    }
}

/// The paths of the files that do not comply with `pattern`, each once, in
/// order. A file whose read failed is a violation.
pub fn find_violations(pattern: &[u8], files: &Vec<FileHead>) -> (r: Vec<String>)
    ensures
        strictly_sorted(path_seq(r@)),
        path_seq(r@).to_set() == violating_paths(pattern@, files@),
{
    let mut r: Vec<String> = Vec::new();
    let mut i: usize = 0;
    proof {
        assert(path_seq(r@).to_set() =~= Set::empty());
    }
    while i < files.len()
        invariant
            i <= files@.len(),
            strictly_sorted(path_seq(r@)),
            path_seq(r@).to_set() == violating_paths(pattern@, files@.take(i as int)),
        decreases files@.len() - i,
    {
        let ghost before = path_seq(r@).to_set();
        let file = &files[i];
        let complies = is_compliant(pattern, &file.outcome);
        if !complies {
            insert_sorted(&mut r, file.path.clone());
        }
        proof {
            let prev = files@.take(i as int);
            let next = files@.take(i + 1);
            assert forall|k: int| 0 <= k < i implies next[k] == prev[k] by {}
            assert(next[i as int] == files@[i as int]);
            assert(path_seq(r@).to_set() =~= violating_paths(pattern@, next)) by {
                assert forall|x: Seq<char>|
                    violating_paths(pattern@, next).contains(x) implies #[trigger] path_seq(
                    r@,
                ).to_set().contains(x) by {
                    let k = choose|k: int|
                        0 <= k < next.len() && (#[trigger] next[k]).path@ == x && !outcome_complies(
                            pattern@,
                            next[k].outcome,
                        );
                    if k < i {
                        assert(prev[k] == next[k]);
                        assert(before.contains(x));
                    }
                }
                assert forall|x: Seq<char>| #[trigger]
                    path_seq(r@).to_set().contains(x) implies violating_paths(
                    pattern@,
                    next,
                ).contains(x) by {
                    if before.contains(x) {
                        let k = choose|k: int|
                            0 <= k < prev.len() && (#[trigger] prev[k]).path@ == x
                                && !outcome_complies(pattern@, prev[k].outcome);
                        assert(next[k] == prev[k]);
                    } else {
                        assert(next[i as int].path@ == x);
                    }
                }
            }
        }
        i = i + 1;
    }
    proof {
        assert(files@.take(files@.len() as int) =~= files@);
    }
    r
}

/// Checks the files: the first one that could not be opened stops the run,
/// else the paths of the files that do not comply with `pattern`, each once,
/// in order.
pub fn check_files(pattern: &[u8], files: &Vec<FileHead>) -> (r: Result<Vec<String>, SetupError>)
    ensures
        r is Err <==> exists|i: int|
            0 <= i < files@.len() && (#[trigger] files@[i]).outcome is NotOpened,
        r is Err ==> exists|i: int|
            0 <= i < files@.len() && (#[trigger] files@[i]).outcome is NotOpened && (forall|j: int|
                0 <= j < i ==> !((#[trigger] files@[j]).outcome is NotOpened)) && r
                == Err::<Vec<String>, SetupError>(SetupError::SourceNotOpened(files@[i].path)),
        r is Ok ==> strictly_sorted(path_seq(r->Ok_0@)) && path_seq(r->Ok_0@).to_set()
            == violating_paths(pattern@, files@),
{
    let mut i: usize = 0;
    while i < files.len()
        invariant
            i <= files@.len(),
            forall|j: int| 0 <= j < i ==> !((#[trigger] files@[j]).outcome is NotOpened),
        decreases files@.len() - i,
    {
        if let ReadOutcome::NotOpened = files[i].outcome {
            return Err(SetupError::SourceNotOpened(files[i].path.clone()));
        }
        i = i + 1;
    }
    Ok(find_violations(pattern, files))
}

/// The report text for `paths`: each path followed by a line break.
pub fn render_lines(paths: &Vec<String>) -> (r: String)
    ensures
        r@ == lines(path_seq(paths@)),
{
    let mut r = String::new();
    let mut i: usize = 0;
    while i < paths.len()
        invariant
            i <= paths@.len(),
            r@ == lines(path_seq(paths@).take(i as int)),
        decreases paths@.len() - i,
    {
        proof {
            let s = path_seq(paths@).take(i + 1);
            assert(s.drop_last() =~= path_seq(paths@).take(i as int));
            assert(s.last() == paths@[i as int]@);
        }
        r.append(paths[i].as_str());
        r.append("\n");
        i = i + 1;
    }
    proof {
        assert(path_seq(paths@).take(paths@.len() as int) =~= path_seq(paths@));
    }
    r
}

/// When every file complies, no path is reported.
pub proof fn lemma_all_compliant_report_nothing(p: Seq<u8>, files: Seq<FileHead>)
    requires
        forall|i: int| 0 <= i < files.len() ==> outcome_complies(p, (#[trigger] files[i]).outcome),
    ensures
        violating_paths(p, files) == Set::<Seq<char>>::empty(),
{
    assert(violating_paths(p, files) =~= Set::<Seq<char>>::empty());
}

/// When exactly one file does not comply, the report is that file's path
/// followed by a line break, and nothing else.
pub proof fn lemma_single_violation_report(
    p: Seq<u8>,
    files: Seq<FileHead>,
    i: int,
    reported: Seq<Seq<char>>,
)
    requires
        0 <= i < files.len(),
        !outcome_complies(p, files[i].outcome),
        forall|j: int| 0 <= j < files.len() && j != i ==> outcome_complies(p, (#[trigger] files[j]).outcome),
        strictly_sorted(reported),
        reported.to_set() == violating_paths(p, files),
    ensures
        reported == seq![files[i].path@],
        lines(reported) == files[i].path@ + "\n"@,
{
    let x = files[i].path@;
    assert(violating_paths(p, files) =~= set![x]);
    assert(reported.no_duplicates()) by {
        assert forall|a: int, b: int| 0 <= a < reported.len() && 0 <= b < reported.len() && a != b
            implies reported[a] != reported[b] by {
            lemma_path_lt_total(reported[a], reported[b]);
        }
    }
    reported.unique_seq_to_set();
    assert(set![x].len() == 1);
    assert(reported.to_set().contains(reported[0]));
    assert(reported =~= seq![x]);
    assert(reported.drop_last() =~= Seq::<Seq<char>>::empty());
    assert(lines(reported) == lines(reported.drop_last()) + x + "\n"@);
    assert(Seq::<char>::empty() + x =~= x);
}

} // verus!
