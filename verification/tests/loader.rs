use cauldron::loader::{Loader, LoaderAction, LoaderPhase};
use cauldron::mod_info::{SafeCauldronModDependency, SafeCauldronModInfo};
use cauldron::resolver::LoadError;

fn s(text: &str) -> String {
    text.to_string()
}

fn module(name: &str, version: &str, needs: &[&str]) -> SafeCauldronModInfo {
    SafeCauldronModInfo {
        name: s(name),
        version: s(version),
        display_name: None,
        description: None,
        homepage_url: None,
        source_url: None,
        issue_tracker_url: None,
        authors: Vec::new(),
        dependencies: needs
            .iter()
            .map(|n| SafeCauldronModDependency { name: s(n), version: None, optional: false })
            .collect(),
    }
}

fn resolved_run(mods: Vec<SafeCauldronModInfo>) -> Loader {
    let mut run = Loader::new(s("hfw"), s("1.0.0"), mods);
    assert_eq!(run.phase, LoaderPhase::Discovered);
    while run.next_action() == LoaderAction::Resolve {
        run.advance();
    }
    run
}

#[test]
fn run_goes_through_every_phase() {
    let mut run = Loader::new(s("hfw"), s("1.0.0"), vec![module("a", "1.0.0", &["b"]), module("b", "1.0.0", &[])]);
    assert_eq!(run.next_action(), LoaderAction::Resolve);
    run.advance();
    assert_eq!(run.phase, LoaderPhase::VersionValidated);
    run.advance();
    assert_eq!(run.phase, LoaderPhase::DependencyValidated);
    run.advance();
    assert_eq!(run.phase, LoaderPhase::Ordered { next: 0, confirmed: false });
    assert_eq!(run.order, vec![1, 0]);

    assert_eq!(run.next_action(), LoaderAction::ConfirmInfo { module: 1 });
    run.info_received(&module("b", "1.0.0", &[]));
    assert_eq!(run.next_action(), LoaderAction::Load { module: 1 });
    run.load_finished(true);
    assert_eq!(run.next_action(), LoaderAction::ConfirmInfo { module: 0 });
    run.info_received(&module("a", "1.0.0", &["b"]));
    assert_eq!(run.next_action(), LoaderAction::Load { module: 0 });
    run.load_finished(true);
    assert_eq!(run.phase, LoaderPhase::Loaded);
    assert_eq!(run.next_action(), LoaderAction::Finished);
    run.advance();
    run.load_finished(false);
    assert_eq!(run.phase, LoaderPhase::Loaded);
}

#[test]
fn unparsable_version_aborts_before_any_module_loads() {
    let mut run = Loader::new(
        s("hfw"),
        s("1.0.0"),
        vec![module("good", "1.0.0", &[]), module("bad", "not-a-version", &[])],
    );
    run.advance();
    assert_eq!(
        run.phase,
        LoaderPhase::Aborted { reason: LoadError::ParseError { module: s("bad"), text: s("not-a-version") } }
    );
    assert_eq!(run.next_action(), LoaderAction::Abort);
    run.advance();
    run.info_received(&module("good", "1.0.0", &[]));
    run.load_finished(true);
    assert_eq!(run.next_action(), LoaderAction::Abort);
}

#[test]
fn unsatisfied_dependency_aborts_in_the_second_step() {
    let mut run = Loader::new(s("hfw"), s("1.0.0"), vec![module("a", "1.0.0", &["b"])]);
    run.advance();
    assert_eq!(run.phase, LoaderPhase::VersionValidated);
    run.advance();
    assert_eq!(
        run.phase,
        LoaderPhase::Aborted {
            reason: LoadError::UnsatisfiedDependency {
                module: s("a"),
                dependency: s("b"),
                requirement: s("*"),
            }
        }
    );
}

#[test]
fn cycle_aborts_in_the_third_step() {
    let run = resolved_run(vec![module("a", "1.0.0", &["b"]), module("b", "1.0.0", &["a"])]);
    assert_eq!(
        run.phase,
        LoaderPhase::Aborted { reason: LoadError::Cycle { modules: vec![s("a"), s("b")] } }
    );
}

#[test]
fn run_without_modules_is_loaded_at_once() {
    let run = resolved_run(Vec::new());
    assert_eq!(run.phase, LoaderPhase::Loaded);
}

#[test]
fn failed_load_aborts_the_run() {
    let mut run = resolved_run(vec![module("a", "1.0.0", &[]), module("b", "1.0.0", &[])]);
    run.info_received(&module("a", "1.0.0", &[]));
    run.load_finished(false);
    assert_eq!(
        run.phase,
        LoaderPhase::Aborted { reason: LoadError::ModuleLoadFailure { module: s("a") } }
    );
    assert_eq!(run.next_action(), LoaderAction::Abort);
}

#[test]
fn changed_identity_aborts_the_run() {
    let mut run = resolved_run(vec![module("a", "1.0.0", &[])]);
    run.info_received(&module("a", "1.0.1", &[]));
    assert_eq!(
        run.phase,
        LoaderPhase::Aborted { reason: LoadError::ModuleLoadFailure { module: s("a") } }
    );
    let mut other = resolved_run(vec![module("a", "1.0.0", &[])]);
    other.info_received(&module("b", "1.0.0", &[]));
    assert_eq!(other.next_action(), LoaderAction::Abort);
}

#[test]
fn load_result_is_ignored_before_identity_is_confirmed() {
    let mut run = resolved_run(vec![module("a", "1.0.0", &[])]);
    run.load_finished(true);
    assert_eq!(run.phase, LoaderPhase::Ordered { next: 0, confirmed: false });
    run.info_received(&module("a", "1.0.0", &[]));
    run.info_received(&module("zzz", "0.0.0", &[]));
    assert_eq!(run.phase, LoaderPhase::Ordered { next: 0, confirmed: true });
}
