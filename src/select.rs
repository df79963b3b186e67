//! Package selection: which packages of a workspace a filter picks, and the
//! source paths of their targets.
use vstd::prelude::*;
use crate::error::SetupError;
use crate::order::{insert_sorted, path_seq, strictly_sorted};

verus! {

/// A package of a workspace.
pub struct Package {
    /// The name, unique within the workspace.
    pub name: String,
    /// Whether the package is among the members built by default.
    pub is_default: bool,
    /// The source path of each of its targets.
    pub source_paths: Vec<String>,
}

/// A resolved workspace: every member package.
pub struct Workspace {
    pub packages: Vec<Package>,
}

/// Which packages to check.
pub enum Filter {
    /// The default members.
    Default,
    /// Every member.
    All,
    /// The members with one of these names; unknown names match nothing.
    Packages(Vec<String>),
    /// Every member but those with one of these names.
    AllExcept(Vec<String>),
    /// The default members but those with one of these names.
    DefaultExcept(Vec<String>),
}

/// `name` is one of `names`.
pub open spec fn listed(names: Seq<String>, name: Seq<char>) -> bool {
    exists|i: int| 0 <= i < names.len() && (#[trigger] names[i])@ == name
}

/// The filter `f` accepts the package `p`.
pub open spec fn accepts(f: Filter, p: Package) -> bool {
    match f {
        Filter::Default => p.is_default,
        Filter::All => true,
        Filter::Packages(names) => listed(names@, p.name@),
        Filter::AllExcept(names) => !listed(names@, p.name@),
        Filter::DefaultExcept(names) => p.is_default && !listed(names@, p.name@),
    }
}

/// `x` is a source path of a target of the package `p`.
pub open spec fn has_source(p: Package, x: Seq<char>) -> bool {
    exists|j: int| 0 <= j < p.source_paths@.len() && (#[trigger] p.source_paths@[j])@ == x
}

/// The source paths of the targets of the packages of `ws` that `f` accepts.
pub open spec fn selected_paths(ws: Workspace, f: Filter) -> Set<Seq<char>> {
    Set::new(
        |x: Seq<char>|
            exists|k: int|
                0 <= k < ws.packages@.len() && accepts(f, #[trigger] ws.packages@[k]) && has_source(
                    ws.packages@[k],
                    x,
                ),
    )
}

impl Filter {
    /// The filter that the command-line flags describe. An explicit package
    /// list stands alone: with `all` or with packages to exclude it is an
    /// error. Otherwise the default members, or every member with `all`, less
    /// those excluded. No workspace is looked at.
    pub fn from_flags(all: bool, exclude: Vec<String>, package: Vec<String>) -> (r: Result<
        Filter,
        SetupError,
    >)
        ensures
            package@.len() > 0 && all ==> r == Err::<Filter, SetupError>(
                SetupError::ConflictingFilter,
            ),
            package@.len() > 0 && !all && exclude@.len() > 0 ==> r == Err::<Filter, SetupError>(
                SetupError::ExcludeWithPackages,
            ),
            package@.len() > 0 && !all && exclude@.len() == 0 ==> r == Ok::<Filter, SetupError>(
                Filter::Packages(package),
            ),
            package@.len() == 0 && all && exclude@.len() > 0 ==> r == Ok::<Filter, SetupError>(
                Filter::AllExcept(exclude),
            ),
            package@.len() == 0 && !all && exclude@.len() > 0 ==> r == Ok::<Filter, SetupError>(
                Filter::DefaultExcept(exclude),
            ),
            package@.len() == 0 && all && exclude@.len() == 0 ==> r == Ok::<Filter, SetupError>(
                Filter::All,
            ),
            package@.len() == 0 && !all && exclude@.len() == 0 ==> r == Ok::<Filter, SetupError>(
                Filter::Default,
            ),
    {
        if package.len() > 0 {
            if all {
                Err(SetupError::ConflictingFilter)
            } else if exclude.len() > 0 {
                Err(SetupError::ExcludeWithPackages)
            } else {
                Ok(Filter::Packages(package))
            }
        } else if exclude.len() > 0 {
            if all {
                Ok(Filter::AllExcept(exclude))
            } else {
                Ok(Filter::DefaultExcept(exclude))
            }
        } else if all {
            Ok(Filter::All)
        } else {
            Ok(Filter::Default)
        }
    }

    /// Whether this filter accepts the package `p`.
    pub fn accepts(&self, p: &Package) -> (r: bool)
        ensures
            r == accepts(*self, *p),
    {
        match self {
            Filter::Default => p.is_default,
            Filter::All => true,
            Filter::Packages(names) => is_listed(names, &p.name),
            Filter::AllExcept(names) => !is_listed(names, &p.name),
            Filter::DefaultExcept(names) => p.is_default && !is_listed(names, &p.name),
        }
    }
}

/// Whether `name` is one of `names`.
pub fn is_listed(names: &Vec<String>, name: &String) -> (r: bool)
    ensures
        r == listed(names@, name@),
{
    let mut i: usize = 0;
    while i < names.len()
        invariant
            i <= names@.len(),
            forall|k: int| 0 <= k < i ==> (#[trigger] names@[k])@ != name@,
        decreases names@.len() - i,
    {
        if names[i] == *name {
            return true;
        }
        i = i + 1;
    }
    false
}

/// The source paths of the targets of every package that `filter` accepts,
/// each once, in order.
pub fn select(ws: &Workspace, filter: &Filter) -> (r: Vec<String>)
    ensures
        strictly_sorted(path_seq(r@)),
        path_seq(r@).to_set() == selected_paths(*ws, *filter),
{
    let mut r: Vec<String> = Vec::new();
    let mut k: usize = 0;
    proof {
        assert(path_seq(r@).to_set() =~= Set::empty());
    }
    while k < ws.packages.len()
        invariant
            k <= ws.packages@.len(),
            strictly_sorted(path_seq(r@)),
            path_seq(r@).to_set() == Set::new(
                |x: Seq<char>|
                    exists|m: int|
                        0 <= m < k && accepts(*filter, #[trigger] ws.packages@[m]) && has_source(
                            ws.packages@[m],
                            x,
                        ),
            ),
        decreases ws.packages@.len() - k,
    {
        let p = &ws.packages[k];
        let ghost done = path_seq(r@).to_set();
        if filter.accepts(p) {
            let mut j: usize = 0;
            while j < p.source_paths.len()
                invariant
                    j <= p.source_paths@.len(),
                    strictly_sorted(path_seq(r@)),
                    path_seq(r@).to_set() == done.union(
                        Set::new(
                            |x: Seq<char>|
                                exists|i: int| 0 <= i < j && (#[trigger] p.source_paths@[i])@ == x,
                        ),
                    ),
                decreases p.source_paths@.len() - j,
            {
                let path = p.source_paths[j].clone();
                insert_sorted(&mut r, path);
                j = j + 1;
            }
        }
        k = k + 1;
    }
    r
}

/// The source paths to check: those that `filter` selects, each once, in
/// order. Selecting no path at all is an error.
pub fn paths_to_check(ws: &Workspace, filter: &Filter) -> (r: Result<Vec<String>, SetupError>)
    ensures
        selected_paths(*ws, *filter).len() == 0 <==> r == Err::<Vec<String>, SetupError>(
            SetupError::NoMatchingPackages,
        ),
        r is Err ==> r == Err::<Vec<String>, SetupError>(SetupError::NoMatchingPackages),
        r is Ok ==> strictly_sorted(path_seq(r->Ok_0@)) && path_seq(r->Ok_0@).to_set()
            == selected_paths(*ws, *filter),
{
    let paths = select(ws, filter);
    proof {
        let ps = path_seq(paths@);
        ps.lemma_cardinality_of_set();
        if paths@.len() > 0 {
            assert(ps[0] == paths@[0]@);
            assert(ps.to_set().contains(ps[0]));
        } else {
            assert(ps.to_set() =~= Set::<Seq<char>>::empty());
        }
    }
    if paths.len() == 0 {
        Err(SetupError::NoMatchingPackages)
    } else {
        Ok(paths)
    }
}

/// Listing packages by name selects exactly the paths that listing each part
/// of the list separately selects, together.
pub proof fn lemma_packages_union(ws: Workspace, a: Vec<String>, b: Vec<String>, c: Vec<String>)
    requires
        c@ == a@ + b@,
    ensures
        selected_paths(ws, Filter::Packages(c)) == selected_paths(ws, Filter::Packages(a)).union(
            selected_paths(ws, Filter::Packages(b)),
        ),
{
    assert forall|n: Seq<char>| listed(c@, n) <==> listed(a@, n) || listed(b@, n) by {
        if listed(c@, n) {
            let i = choose|i: int| 0 <= i < c@.len() && (#[trigger] c@[i])@ == n;
            if i < a@.len() {
                assert(a@[i] == c@[i]);
            } else {
                assert(b@[i - a@.len()] == c@[i]);
            }
        }
        if listed(a@, n) {
            let i = choose|i: int| 0 <= i < a@.len() && (#[trigger] a@[i])@ == n;
            assert(c@[i] == a@[i]);
        }
        if listed(b@, n) {
            let i = choose|i: int| 0 <= i < b@.len() && (#[trigger] b@[i])@ == n;
            assert(c@[i + a@.len()] == b@[i]);
        }
    }
    assert(selected_paths(ws, Filter::Packages(c)) =~= selected_paths(
        ws,
        Filter::Packages(a),
    ).union(selected_paths(ws, Filter::Packages(b))));
}

/// A list of names of which none is a member's selects no path.
pub proof fn lemma_unknown_names_select_nothing(ws: Workspace, names: Vec<String>)
    requires
        forall|k: int| 0 <= k < ws.packages@.len() ==> !listed(names@, (#[trigger] ws.packages@[k]).name@),
    ensures
        selected_paths(ws, Filter::Packages(names)) == Set::<Seq<char>>::empty(),
{
    assert(selected_paths(ws, Filter::Packages(names)) =~= Set::<Seq<char>>::empty());
}

/// The default members' paths are among every member's paths, and excluding
/// packages only takes paths away.
pub proof fn lemma_selection_nesting(ws: Workspace, names: Vec<String>)
    ensures
        selected_paths(ws, Filter::Default).subset_of(selected_paths(ws, Filter::All)),
        selected_paths(ws, Filter::DefaultExcept(names)).subset_of(
            selected_paths(ws, Filter::Default),
        ),
        selected_paths(ws, Filter::AllExcept(names)).subset_of(selected_paths(ws, Filter::All)),
{
}

} // verus!
