use cauldron::mod_info::{SafeCauldronModDependency, SafeCauldronModInfo};
use cauldron::resolver::{
    dependency_graph, find_version, resolve, validate_dependencies, validate_versions, LoadError,
};

fn s(text: &str) -> String {
    text.to_string()
}

fn dep(name: &str, version: Option<&str>, optional: bool) -> SafeCauldronModDependency {
    SafeCauldronModDependency { name: s(name), version: version.map(s), optional }
}

fn module(name: &str, version: &str, dependencies: Vec<SafeCauldronModDependency>) -> SafeCauldronModInfo {
    SafeCauldronModInfo {
        name: s(name),
        version: s(version),
        display_name: None,
        description: None,
        homepage_url: None,
        source_url: None,
        issue_tracker_url: None,
        authors: Vec::new(),
        dependencies,
    }
}

fn run(mods: &Vec<SafeCauldronModInfo>) -> Result<Vec<usize>, LoadError> {
    resolve(&s("hfw"), &s("1.5.80+0"), mods)
}

#[test]
fn absent_required_dependency_is_unsatisfied() {
    let mods = vec![module("a", "1.0.0", vec![dep("b", Some(">=1.0.0"), false)])];
    assert_eq!(
        run(&mods),
        Err(LoadError::UnsatisfiedDependency {
            module: s("a"),
            dependency: s("b"),
            requirement: s(">=1.0.0"),
        })
    );
}

#[test]
fn absent_optional_dependency_is_skipped() {
    let mods = vec![module("a", "1.0.0", vec![dep("b", Some(">=1.0.0"), true)])];
    assert_eq!(run(&mods), Ok(vec![0]));
}

#[test]
fn mutual_dependency_is_a_cycle_naming_both() {
    let mods = vec![
        module("a", "1.0.0", vec![dep("b", None, false)]),
        module("b", "1.0.0", vec![dep("a", None, false)]),
    ];
    assert_eq!(run(&mods), Err(LoadError::Cycle { modules: vec![s("a"), s("b")] }));
}

#[test]
fn chain_loads_dependencies_first() {
    let mods = vec![
        module("x", "1.0.0", vec![dep("y", None, false)]),
        module("y", "1.0.0", vec![dep("z", None, false)]),
        module("z", "1.0.0", vec![]),
        module("w", "0.1.0", vec![]),
    ];
    assert_eq!(run(&mods), Ok(vec![2, 1, 0, 3]));
}

#[test]
fn unparsable_version_aborts_the_run() {
    let mods = vec![
        module("good", "1.0.0", vec![]),
        module("bad", "not-a-version", vec![]),
        module("later", "also bad", vec![]),
    ];
    assert_eq!(
        run(&mods),
        Err(LoadError::ParseError { module: s("bad"), text: s("not-a-version") })
    );
}

#[test]
fn unparsable_host_version_names_the_host() {
    let mods = vec![module("a", "1.0.0", vec![])];
    assert_eq!(
        resolve(&s("hfw"), &s("1.0"), &mods),
        Err(LoadError::ParseError { module: s("hfw"), text: s("1.0") })
    );
}

#[test]
fn unparsable_requirement_is_a_parse_error() {
    let mods = vec![
        module("a", "1.0.0", vec![dep("b", Some("@1.0.0"), false)]),
        module("b", "1.0.0", vec![]),
    ];
    assert_eq!(run(&mods), Err(LoadError::ParseError { module: s("a"), text: s("@1.0.0") }));
}

#[test]
fn mismatch_aborts_for_required_and_optional_alike() {
    let required = vec![
        module("a", "1.0.0", vec![dep("b", Some(">=2.0.0"), false)]),
        module("b", "1.4.0", vec![]),
    ];
    assert_eq!(
        run(&required),
        Err(LoadError::VersionMismatch {
            module: s("a"),
            dependency: s("b"),
            requirement: s(">=2.0.0"),
            present: s("1.4.0"),
        })
    );
    let optional = vec![
        module("a", "1.0.0", vec![dep("b", Some(">=2.0.0"), true)]),
        module("b", "1.4.0", vec![]),
    ];
    assert_eq!(
        run(&optional),
        Err(LoadError::VersionMismatch {
            module: s("a"),
            dependency: s("b"),
            requirement: s(">=2.0.0"),
            present: s("1.4.0"),
        })
    );
}

#[test]
fn matching_requirement_orders_the_modules() {
    let mods = vec![
        module("a", "1.0.0", vec![dep("b", Some(">=1.2.0, <2.0.0"), false)]),
        module("b", "1.4.0", vec![]),
    ];
    assert_eq!(run(&mods), Ok(vec![1, 0]));
}

#[test]
fn host_is_a_candidate_but_not_loaded() {
    let mods = vec![module("a", "1.0.0", vec![dep("hfw", Some("^1.5"), false)])];
    assert_eq!(run(&mods), Ok(vec![0]));
    let too_new = vec![module("a", "1.0.0", vec![dep("hfw", Some(">=2.0.0"), false)])];
    assert_eq!(
        run(&too_new),
        Err(LoadError::VersionMismatch {
            module: s("a"),
            dependency: s("hfw"),
            requirement: s(">=2.0.0"),
            present: s("1.5.80+0"),
        })
    );
}

#[test]
fn version_faults_come_before_dependency_faults() {
    let mods = vec![
        module("a", "1.0.0", vec![dep("missing", None, false)]),
        module("b", "one", vec![]),
    ];
    assert_eq!(run(&mods), Err(LoadError::ParseError { module: s("b"), text: s("one") }));
}

#[test]
fn first_faulty_dependency_in_discovery_order_is_reported() {
    let mods = vec![
        module("a", "1.0.0", vec![dep("b", None, false), dep("m1", None, false)]),
        module("b", "1.0.0", vec![dep("m2", None, false)]),
    ];
    assert_eq!(
        run(&mods),
        Err(LoadError::UnsatisfiedDependency {
            module: s("a"),
            dependency: s("m1"),
            requirement: s("*"),
        })
    );
}

#[test]
fn independent_modules_keep_discovery_order() {
    let mods = vec![module("c", "1.0.0", vec![]), module("a", "1.0.0", vec![]), module("b", "1.0.0", vec![])];
    assert_eq!(run(&mods), Ok(vec![0, 1, 2]));
    assert_eq!(run(&Vec::new()), Ok(vec![]));
}

#[test]
fn cycle_does_not_name_modules_that_only_wait_for_it() {
    let mods = vec![
        module("waits", "1.0.0", vec![dep("a", None, false)]),
        module("a", "1.0.0", vec![dep("b", None, false)]),
        module("b", "1.0.0", vec![dep("a", None, false)]),
        module("free", "1.0.0", vec![]),
    ];
    assert_eq!(run(&mods), Err(LoadError::Cycle { modules: vec![s("a"), s("b")] }));
}

#[test]
fn self_dependency_is_a_cycle_of_one() {
    let mods = vec![module("a", "1.0.0", vec![]), module("b", "1.0.0", vec![dep("b", None, false)])];
    assert_eq!(run(&mods), Err(LoadError::Cycle { modules: vec![s("b")] }));
}

#[test]
fn cycle_names_every_module_on_it() {
    let mods = vec![
        module("free", "1.0.0", vec![]),
        module("a", "1.0.0", vec![dep("b", None, false)]),
        module("b", "1.0.0", vec![dep("c", None, false)]),
        module("c", "1.0.0", vec![dep("a", None, false)]),
    ];
    assert_eq!(run(&mods), Err(LoadError::Cycle { modules: vec![s("a"), s("b"), s("c")] }));
}

#[test]
fn phases_can_be_run_one_by_one() {
    let mods = vec![
        module("a", "1.0.0", vec![dep("b", None, false), dep("gone", None, true)]),
        module("b", "2.0.0-rc.1", vec![]),
    ];
    assert_eq!(validate_versions(&s("hfw"), &s("1.0.0"), &mods), Ok(()));
    assert_eq!(
        validate_dependencies(&s("hfw"), &s("1.0.0"), &mods),
        Err(LoadError::VersionMismatch {
            module: s("a"),
            dependency: s("b"),
            requirement: s("*"),
            present: s("2.0.0-rc.1"),
        })
    );
    assert_eq!(dependency_graph(&mods).after, vec![vec![1], vec![]]);
}

#[test]
fn lookup_prefers_the_last_module_of_a_name() {
    let mods = vec![module("a", "1.0.0", vec![]), module("a", "2.0.0", vec![]), module("hfw", "9.9.9", vec![])];
    let host_name = s("hfw");
    let host_version = s("1.0.0");
    assert_eq!(find_version(&host_name, &host_version, &mods, &s("a")), Some(&s("2.0.0")));
    assert_eq!(find_version(&host_name, &host_version, &mods, &s("hfw")), Some(&s("9.9.9")));
    assert_eq!(find_version(&host_name, &host_version, &mods, &s("b")), None);
    assert_eq!(find_version(&host_name, &host_version, &Vec::new(), &s("hfw")), Some(&s("1.0.0")));
}
