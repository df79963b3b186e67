use cargo_ensure_prefix::error::SetupError;
use cargo_ensure_prefix::select::{is_listed, paths_to_check, select, Filter, Package, Workspace};

const ROOT: &str = "/work/tests/projects/workspace_root";

fn package(name: &str, is_default: bool, paths: &[String]) -> Package {
    Package {
        name: name.to_owned(),
        is_default,
        source_paths: paths.to_vec(),
    }
}

fn root_lib() -> String {
    format!("{}/src/lib.rs", ROOT)
}

fn wbin_main() -> String {
    format!("{}/wbin/src/main.rs", ROOT)
}

fn wlib_lib() -> String {
    format!("{}/wlib/src/lib.rs", ROOT)
}

/// The workspace at `workspace_root`: the root package and `wlib` are default
/// members, `wbin` is a member only.
fn workspace_root() -> Workspace {
    Workspace {
        packages: vec![
            package("workspace_root", true, &[root_lib()]),
            package("wbin", false, &[wbin_main()]),
            package("wlib", true, &[wlib_lib()]),
        ],
    }
}

fn names(ns: &[&str]) -> Vec<String> {
    ns.iter().map(|s| s.to_string()).collect()
}

fn sorted(mut v: Vec<String>) -> Vec<String> {
    v.sort();
    v
}

#[test]
fn single_package_multiple_explicit_targets() {
    let base = "/work/tests/projects/single_package_explicit_targets";
    let targets = vec![
        format!("{}/src/lib.rs", base),
        format!("{}/src/bin/one.rs", base),
        format!("{}/src/bin/two.rs", base),
        format!("{}/src/lib.rs", base),
    ];
    let ws = Workspace {
        packages: vec![package("single_package_explicit_targets", true, &targets)],
    };
    let got = select(&ws, &Filter::Default);
    assert_eq!(
        got,
        sorted(vec![
            format!("{}/src/lib.rs", base),
            format!("{}/src/bin/one.rs", base),
            format!("{}/src/bin/two.rs", base),
        ])
    );
}

#[test]
fn workspace_default() {
    assert_eq!(
        select(&workspace_root(), &Filter::Default),
        sorted(vec![root_lib(), wlib_lib()])
    );
}

#[test]
fn workspace_all() {
    assert_eq!(
        select(&workspace_root(), &Filter::All),
        sorted(vec![root_lib(), wbin_main(), wlib_lib()])
    );
}

#[test]
fn workspace_package_list() {
    assert_eq!(
        select(&workspace_root(), &Filter::Packages(names(&["wbin"]))),
        vec![wbin_main()]
    );
    assert_eq!(
        select(
            &workspace_root(),
            &Filter::Packages(names(&["wbin", "workspace_root"]))
        ),
        sorted(vec![wbin_main(), root_lib()])
    );
}

#[test]
fn workspace_package_not_found() {
    let filter = Filter::Packages(names(&["doesnotexist"]));
    assert_eq!(select(&workspace_root(), &filter), Vec::<String>::new());
    match paths_to_check(&workspace_root(), &filter) {
        Err(SetupError::NoMatchingPackages) => {}
        _ => panic!("an unknown package must select nothing"),
    }
}

#[test]
fn manifest_is_in_workspace() {
    // Resolving a member's manifest into the workspace is cargo's work, done
    // outside the library, and is not tested here. This only checks that the
    // resolved workspace, whichever manifest it came from, selects the same.
    assert_eq!(
        select(&workspace_root(), &Filter::Default),
        sorted(vec![root_lib(), wlib_lib()])
    );
    assert_eq!(
        select(&workspace_root(), &Filter::All),
        sorted(vec![root_lib(), wbin_main(), wlib_lib()])
    );
    assert_eq!(
        select(&workspace_root(), &Filter::Packages(names(&["wbin"]))),
        vec![wbin_main()]
    );
}

#[test]
fn excluded_packages_are_left_out() {
    assert_eq!(
        select(&workspace_root(), &Filter::AllExcept(names(&["wlib"]))),
        sorted(vec![root_lib(), wbin_main()])
    );
    assert_eq!(
        select(&workspace_root(), &Filter::DefaultExcept(names(&["workspace_root"]))),
        vec![wlib_lib()]
    );
    assert_eq!(
        select(&workspace_root(), &Filter::AllExcept(names(&["doesnotexist"]))),
        sorted(vec![root_lib(), wbin_main(), wlib_lib()])
    );
}

#[test]
fn package_union_is_union_of_selections() {
    let ws = workspace_root();
    let a = select(&ws, &Filter::Packages(names(&["wbin"])));
    let b = select(&ws, &Filter::Packages(names(&["workspace_root"])));
    let both = select(&ws, &Filter::Packages(names(&["wbin", "workspace_root"])));
    let mut union = a.clone();
    union.extend(b);
    assert_eq!(both, sorted(union));
}

#[test]
fn shared_paths_are_reported_once() {
    let ws = Workspace {
        packages: vec![
            package("a", true, &["/x/b.rs".to_owned(), "/x/a.rs".to_owned()]),
            package("b", true, &["/x/a.rs".to_owned()]),
        ],
    };
    assert_eq!(
        select(&ws, &Filter::All),
        vec!["/x/a.rs".to_owned(), "/x/b.rs".to_owned()]
    );
}

#[test]
fn empty_workspace_selects_nothing() {
    let ws = Workspace { packages: vec![] };
    assert!(select(&ws, &Filter::All).is_empty());
    assert!(matches!(
        paths_to_check(&ws, &Filter::All),
        Err(SetupError::NoMatchingPackages)
    ));
}

#[test]
fn paths_to_check_returns_the_selection() {
    match paths_to_check(&workspace_root(), &Filter::Packages(names(&["wlib"]))) {
        Ok(paths) => assert_eq!(paths, vec![wlib_lib()]),
        Err(_) => panic!("wlib is a member"),
    }
}

#[test]
fn flags_make_filters() {
    assert!(matches!(
        Filter::from_flags(false, vec![], vec![]),
        Ok(Filter::Default)
    ));
    assert!(matches!(Filter::from_flags(true, vec![], vec![]), Ok(Filter::All)));
    match Filter::from_flags(false, vec![], names(&["wbin"])) {
        Ok(Filter::Packages(ns)) => assert_eq!(ns, names(&["wbin"])),
        _ => panic!("expected a package list"),
    }
    match Filter::from_flags(true, names(&["wbin"]), vec![]) {
        Ok(Filter::AllExcept(ns)) => assert_eq!(ns, names(&["wbin"])),
        _ => panic!("expected every member but some"),
    }
    match Filter::from_flags(false, names(&["wbin"]), vec![]) {
        Ok(Filter::DefaultExcept(ns)) => assert_eq!(ns, names(&["wbin"])),
        _ => panic!("expected the default members but some"),
    }
}

#[test]
fn all_and_package() {
    let r = Filter::from_flags(true, vec![], names(&["wlib"]));
    match r {
        Err(e) => {
            assert!(matches!(e, SetupError::ConflictingFilter));
            assert_eq!(e.message(), "Cannot specify --all and --package");
            assert_eq!(e.exit_code(), 2);
        }
        Ok(_) => panic!("--all with --package must be refused"),
    }
}

#[test]
fn exclude_and_package() {
    match Filter::from_flags(false, names(&["wbin"]), names(&["wlib"])) {
        Err(e) => {
            assert!(matches!(e, SetupError::ExcludeWithPackages));
            assert_eq!(e.message(), "Cannot specify --exclude and --package");
        }
        Ok(_) => panic!("--exclude with --package must be refused"),
    }
}

#[test]
fn names_are_matched_exactly() {
    let ns = names(&["wbin", "wlib"]);
    assert!(is_listed(&ns, &"wlib".to_owned()));
    assert!(!is_listed(&ns, &"wli".to_owned()));
    assert!(!is_listed(&Vec::new(), &"wlib".to_owned()));
}
