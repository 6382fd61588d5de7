//! The dependency resolver: it checks every version and every dependency of
//! the discovered modules against the host and each other, and decides the
//! order in which the modules are loaded. Any fault aborts the whole run.

use crate::graph::{
    cycle_nodes_below, load_order, on_cycle, topological_order, DependencyGraph,
};
use crate::mod_info::{SafeCauldronModDependency, SafeCauldronModInfo};
use crate::version::{
    is_requirement, is_version, requirement_admits, requirement_matches, requirement_parses,
    version_parses,
};
use vstd::prelude::*;

verus! {

/// Why a loading run was aborted.
#[derive(Debug, Clone, PartialEq, Eq)]
pub enum LoadError {
    /// `text`, a version or a version requirement stated by `module`, does
    /// not parse.
    ParseError { module: String, text: String },
    /// `module` requires `dependency` in a version that meets `requirement`,
    /// and `dependency` is not present.
    UnsatisfiedDependency { module: String, dependency: String, requirement: String },
    /// `dependency` is present in the version `present`, which does not meet
    /// the `requirement` that `module` states.
    VersionMismatch { module: String, dependency: String, requirement: String, present: String },
    /// These modules cannot be ordered: they wait for each other.
    Cycle { modules: Vec<String> },
    /// The load entry point of `module` reported failure.
    ModuleLoadFailure { module: String },
}

/// A `LoadError` as plain values.
pub ghost enum Fault {
    ParseError { module: Seq<char>, text: Seq<char> },
    UnsatisfiedDependency { module: Seq<char>, dependency: Seq<char>, requirement: Seq<char> },
    VersionMismatch {
        module: Seq<char>,
        dependency: Seq<char>,
        requirement: Seq<char>,
        present: Seq<char>,
    },
    Cycle { modules: Seq<Seq<char>> },
    ModuleLoadFailure { module: Seq<char> },
}

impl View for LoadError {
    type V = Fault;

    open spec fn view(&self) -> Fault {
        match self {
            LoadError::ParseError { module, text } => Fault::ParseError {
                module: module@,
                text: text@,
            },
            LoadError::UnsatisfiedDependency {
                module,
                dependency,
                requirement,
            } => Fault::UnsatisfiedDependency {
                module: module@,
                dependency: dependency@,
                requirement: requirement@,
            },
            LoadError::VersionMismatch {
                module,
                dependency,
                requirement,
                present,
            } => Fault::VersionMismatch {
                module: module@,
                dependency: dependency@,
                requirement: requirement@,
                present: present@,
            },
            LoadError::Cycle { modules } => Fault::Cycle {
                modules: modules@.map_values(|name: String| name@),
            },
            LoadError::ModuleLoadFailure { module } => Fault::ModuleLoadFailure { module: module@ },
        }
    }
}

/// The requirement that a dependency states; one without a requirement
/// accepts any version.
pub open spec fn requirement_text(dependency: SafeCauldronModDependency) -> Seq<char> {
    match dependency.version {
        Some(text) => text@,
        None => "*"@,
    }
}

/// The version under which `name` is present among the host and the modules,
/// if it is. Of several modules with one name the last one counts, and a
/// module takes precedence over the host.
pub open spec fn known_version(
    host_name: Seq<char>,
    host_version: Seq<char>,
    mods: Seq<SafeCauldronModInfo>,
    name: Seq<char>,
) -> Option<Seq<char>>
    decreases mods.len(),
{
    if mods.len() == 0 {
        if name == host_name {
            Some(host_version)
        } else {
            None
        }
    } else if mods.last().name@ == name {
        Some(mods.last().version@)
    } else {
        known_version(host_name, host_version, mods.drop_last(), name)
    }
}

/// The fault in the version of module `i`, if it has one.
pub open spec fn version_fault(mods: Seq<SafeCauldronModInfo>, i: int) -> Option<Fault> {
    if is_version(mods[i].version@) {
        None
    } else {
        Some(Fault::ParseError { module: mods[i].name@, text: mods[i].version@ })
    }
}

/// Whether `fault` is what the check of all versions has to report: the
/// host's version comes first, then the modules in discovery order, and the
/// first version that does not parse is the fault.
pub open spec fn versions_checked(
    host_name: Seq<char>,
    host_version: Seq<char>,
    mods: Seq<SafeCauldronModInfo>,
    fault: Option<Fault>,
) -> bool {
    if !is_version(host_version) {
        fault == Some(Fault::ParseError { module: host_name, text: host_version })
    } else {
        match fault {
            None => forall|i: int| 0 <= i < mods.len() ==> version_fault(mods, i) is None,
            Some(f) => exists|i: int|
                0 <= i < mods.len() && #[trigger] version_fault(mods, i) == Some(f) && forall|
                    j: int,
                | 0 <= j < i ==> version_fault(mods, j) is None,
        }
    }
}

/// The fault in dependency `d` of module `i`, if it has one: a requirement
/// that does not parse; a required target that is absent; or a target,
/// required or optional, that is present in a version the requirement does
/// not admit.
pub open spec fn dependency_fault(
    host_name: Seq<char>,
    host_version: Seq<char>,
    mods: Seq<SafeCauldronModInfo>,
    i: int,
    d: int,
) -> Option<Fault> {
    let dependency = mods[i].dependencies@[d];
    let wanted = requirement_text(dependency);
    if !is_requirement(wanted) {
        Some(Fault::ParseError { module: mods[i].name@, text: wanted })
    } else {
        match known_version(host_name, host_version, mods, dependency.name@) {
            None => if dependency.optional {
                None
            } else {
                Some(
                    Fault::UnsatisfiedDependency {
                        module: mods[i].name@,
                        dependency: dependency.name@,
                        requirement: wanted,
                    },
                )
            },
            Some(present) => if requirement_admits(wanted, present) {
                None
            } else {
                Some(
                    Fault::VersionMismatch {
                        module: mods[i].name@,
                        dependency: dependency.name@,
                        requirement: wanted,
                        present,
                    },
                )
            },
        }
    }
}

/// Whether module `i` has no faulty dependency among its first `count`.
pub open spec fn dependencies_sound(
    host_name: Seq<char>,
    host_version: Seq<char>,
    mods: Seq<SafeCauldronModInfo>,
    i: int,
    count: int,
) -> bool {
    forall|d: int|
        0 <= d < count ==> #[trigger] dependency_fault(host_name, host_version, mods, i, d) is None
}

/// Whether `fault` is what the check of all dependencies has to report: the
/// modules are taken in discovery order, the dependencies of each in the
/// order stated, and the first faulty one is the fault.
pub open spec fn dependencies_checked(
    host_name: Seq<char>,
    host_version: Seq<char>,
    mods: Seq<SafeCauldronModInfo>,
    fault: Option<Fault>,
) -> bool {
    match fault {
        None => forall|i: int|
            0 <= i < mods.len() ==> #[trigger] dependencies_sound(
                host_name,
                host_version,
                mods,
                i,
                mods[i].dependencies@.len() as int,
            ),
        Some(f) => exists|i: int, d: int|
            0 <= i < mods.len() && 0 <= d < mods[i].dependencies@.len()
                && #[trigger] dependency_fault(host_name, host_version, mods, i, d) == Some(f)
                && dependencies_sound(host_name, host_version, mods, i, d) && forall|j: int|
                0 <= j < i ==> #[trigger] dependencies_sound(
                    host_name,
                    host_version,
                    mods,
                    j,
                    mods[j].dependencies@.len() as int,
                ),
    }
}

/// Whether module `a` names module `b` among its dependencies.
pub open spec fn requires_module(mods: Seq<SafeCauldronModInfo>, a: int, b: int) -> bool {
    exists|d: int|
        0 <= d < mods[a].dependencies@.len() && (#[trigger] mods[a].dependencies@[d]).name@
            == mods[b].name@
}

/// The edges of the dependency graph: `(a, b)` where module `a` has to load
/// after module `b`.
pub open spec fn dependency_edges(mods: Seq<SafeCauldronModInfo>) -> Set<(int, int)> {
    Set::new(
        |p: (int, int)|
            0 <= p.0 < mods.len() && 0 <= p.1 < mods.len() && requires_module(mods, p.0, p.1),
    )
}

/// The names of the modules at the given indices.
pub open spec fn names_of(mods: Seq<SafeCauldronModInfo>, indices: Seq<usize>) -> Seq<Seq<char>> {
    indices.map_values(|i: usize| mods[i as int].name@)
}

/// Whether `outcome` is what ordering the modules has to give: the load
/// order, or, where a cycle keeps modules back, the names of the modules
/// that lie on a dependency cycle, in discovery order.
pub open spec fn ordered(mods: Seq<SafeCauldronModInfo>, outcome: Result<Seq<usize>, Fault>) -> bool {
    let order = load_order(mods.len() as int, dependency_edges(mods));
    match outcome {
        Ok(found) => order.len() == mods.len() && found == order,
        Err(fault) => order.len() < mods.len() && fault == Fault::Cycle {
            modules: names_of(
                mods,
                cycle_nodes_below(mods.len() as int, dependency_edges(mods), mods.len() as int),
            ),
        },
    }
}

/// Whether `outcome` is what resolving the modules has to give: the first
/// version fault; else the first dependency fault; else what ordering the
/// modules gives.
pub open spec fn resolved(
    host_name: Seq<char>,
    host_version: Seq<char>,
    mods: Seq<SafeCauldronModInfo>,
    outcome: Result<Seq<usize>, Fault>,
) -> bool {
    match outcome {
        Ok(found) => {
            &&& versions_checked(host_name, host_version, mods, None)
            &&& dependencies_checked(host_name, host_version, mods, None)
            &&& ordered(mods, outcome)
        },
        Err(fault) => {
            ||| versions_checked(host_name, host_version, mods, Some(fault))
            ||| {
                &&& versions_checked(host_name, host_version, mods, None)
                &&& dependencies_checked(host_name, host_version, mods, Some(fault))
            }
            ||| {
                &&& versions_checked(host_name, host_version, mods, None)
                &&& dependencies_checked(host_name, host_version, mods, None)
                &&& ordered(mods, outcome)
            }
        },
    }
}

/// Whether no two modules have the same name.
pub open spec fn names_unique(mods: Seq<SafeCauldronModInfo>) -> bool {
    forall|i: int, j: int| 0 <= i < j < mods.len() ==> mods[i].name@ != mods[j].name@
}

/// Among modules with unique names, the version under which the name of a
/// module is present is that module's own version.
pub proof fn unique_name_finds_own_version(
    host_name: Seq<char>,
    host_version: Seq<char>,
    mods: Seq<SafeCauldronModInfo>,
    i: int,
)
    requires
        names_unique(mods),
        0 <= i < mods.len(),
    ensures
        known_version(host_name, host_version, mods, mods[i].name@) == Some(mods[i].version@),
    decreases mods.len(),
{
    if i < mods.len() - 1 {
        let front = mods.drop_last();
        assert(front[i] == mods[i]);
        assert(names_unique(front)) by {
            assert forall|a: int, b: int| 0 <= a < b < front.len() implies front[a].name@
                != front[b].name@ by {
                assert(front[a] == mods[a] && front[b] == mods[b]);
            }
        }
        unique_name_finds_own_version(host_name, host_version, front, i);
    }
}

/// A module whose version does not parse aborts the run: resolving gives no
/// order. Where the host's version and the versions of all modules discovered
/// before it parse, the error is the parse error that names this module and
/// its version text.
pub proof fn unparsable_version_aborts(
    host_name: Seq<char>,
    host_version: Seq<char>,
    mods: Seq<SafeCauldronModInfo>,
    i: int,
    outcome: Result<Seq<usize>, Fault>,
)
    requires
        0 <= i < mods.len(),
        !is_version(mods[i].version@),
        resolved(host_name, host_version, mods, outcome),
    ensures
        outcome is Err,
        outcome->Err_0 is ParseError,
        is_version(host_version) && (forall|j: int| 0 <= j < i ==> is_version(mods[j].version@))
            ==> outcome == Err::<Seq<usize>, Fault>(
            Fault::ParseError { module: mods[i].name@, text: mods[i].version@ },
        ),
{
    assert(version_fault(mods, i) is Some);
    assert(!versions_checked(host_name, host_version, mods, None));
}

/// Where no version is at fault, the first faulty dependency decides the
/// outcome: resolving gives exactly its fault.
pub proof fn first_faulty_dependency_aborts(
    host_name: Seq<char>,
    host_version: Seq<char>,
    mods: Seq<SafeCauldronModInfo>,
    i: int,
    d: int,
    outcome: Result<Seq<usize>, Fault>,
)
    requires
        0 <= i < mods.len(),
        0 <= d < mods[i].dependencies@.len(),
        versions_checked(host_name, host_version, mods, None),
        dependency_fault(host_name, host_version, mods, i, d) is Some,
        dependencies_sound(host_name, host_version, mods, i, d),
        forall|j: int|
            0 <= j < i ==> #[trigger] dependencies_sound(
                host_name,
                host_version,
                mods,
                j,
                mods[j].dependencies@.len() as int,
            ),
        resolved(host_name, host_version, mods, outcome),
    ensures
        outcome == Err::<Seq<usize>, Fault>(
            dependency_fault(host_name, host_version, mods, i, d)->0,
        ),
{
    let fault = dependency_fault(host_name, host_version, mods, i, d)->0;
    assert(!dependencies_sound(host_name, host_version, mods, i, mods[i].dependencies@.len() as int));
    assert(!dependencies_checked(host_name, host_version, mods, None));
    assert(is_version(host_version));
    assert(outcome is Err);
    let reported = outcome->Err_0;
    assert(!versions_checked(host_name, host_version, mods, Some(reported))) by {
        if versions_checked(host_name, host_version, mods, Some(reported)) {
            let k = choose|k: int|
                0 <= k < mods.len() && #[trigger] version_fault(mods, k) == Some(reported);
            assert(version_fault(mods, k) is None);
        }
    }
    assert(dependencies_checked(host_name, host_version, mods, Some(reported)));
    let (i2, d2) = choose|i2: int, d2: int|
        0 <= i2 < mods.len() && 0 <= d2 < mods[i2].dependencies@.len()
            && #[trigger] dependency_fault(host_name, host_version, mods, i2, d2) == Some(reported)
            && dependencies_sound(host_name, host_version, mods, i2, d2) && forall|j: int|
            0 <= j < i2 ==> #[trigger] dependencies_sound(
                host_name,
                host_version,
                mods,
                j,
                mods[j].dependencies@.len() as int,
            );
    if i2 < i {
        assert(dependencies_sound(
            host_name,
            host_version,
            mods,
            i2,
            mods[i2].dependencies@.len() as int,
        ));
    } else if i < i2 {
        assert(dependencies_sound(
            host_name,
            host_version,
            mods,
            i,
            mods[i].dependencies@.len() as int,
        ));
    }
}

/// A required dependency on a module that is absent, stated with a
/// requirement that parses, has the fault `UnsatisfiedDependency`, which
/// names the module, the absent dependency and the requirement; an optional
/// one has no fault.
pub proof fn absent_dependency_fault(
    host_name: Seq<char>,
    host_version: Seq<char>,
    mods: Seq<SafeCauldronModInfo>,
    i: int,
    d: int,
)
    requires
        0 <= i < mods.len(),
        0 <= d < mods[i].dependencies@.len(),
        is_requirement(requirement_text(mods[i].dependencies@[d])),
        known_version(host_name, host_version, mods, mods[i].dependencies@[d].name@) is None,
    ensures
        dependency_fault(host_name, host_version, mods, i, d) == if mods[i].dependencies@[d].optional {
            None
        } else {
            Some(
                Fault::UnsatisfiedDependency {
                    module: mods[i].name@,
                    dependency: mods[i].dependencies@[d].name@,
                    requirement: requirement_text(mods[i].dependencies@[d]),
                },
            )
        },
{
}

/// A dependency on a module that is present in a version that its
/// requirement does not admit is a fault whether it is optional or not.
pub proof fn mismatch_ignores_optional(
    host_name: Seq<char>,
    host_version: Seq<char>,
    mods: Seq<SafeCauldronModInfo>,
    i: int,
    d: int,
)
    requires
        0 <= i < mods.len(),
        0 <= d < mods[i].dependencies@.len(),
        is_requirement(requirement_text(mods[i].dependencies@[d])),
        known_version(host_name, host_version, mods, mods[i].dependencies@[d].name@) matches Some(
            present,
        ) && !requirement_admits(requirement_text(mods[i].dependencies@[d]), present),
    ensures
        dependency_fault(host_name, host_version, mods, i, d) == Some(
            Fault::VersionMismatch {
                module: mods[i].name@,
                dependency: mods[i].dependencies@[d].name@,
                requirement: requirement_text(mods[i].dependencies@[d]),
                present: known_version(
                    host_name,
                    host_version,
                    mods,
                    mods[i].dependencies@[d].name@,
                )->0,
            },
        ),
{
}

/// Two modules that each depend on the other abort the run, versions and
/// dependencies being sound: resolving gives `Cycle`, and the error names
/// both modules.
pub proof fn mutual_dependency_is_cycle(
    host_name: Seq<char>,
    host_version: Seq<char>,
    mods: Seq<SafeCauldronModInfo>,
    a: int,
    b: int,
    outcome: Result<Seq<usize>, Fault>,
)
    requires
        mods.len() <= usize::MAX,
        0 <= a < mods.len(),
        0 <= b < mods.len(),
        requires_module(mods, a, b),
        requires_module(mods, b, a),
        versions_checked(host_name, host_version, mods, None),
        dependencies_checked(host_name, host_version, mods, None),
        resolved(host_name, host_version, mods, outcome),
    ensures
        outcome is Err,
        outcome->Err_0 is Cycle,
        outcome->Err_0->modules.contains(mods[a].name@),
        outcome->Err_0->modules.contains(mods[b].name@),
{
    let n = mods.len() as int;
    let edges = dependency_edges(mods);
    let order = load_order(n, edges);
    assert(edges.contains((a, b)));
    assert(edges.contains((b, a)));
    crate::graph::mutual_requirement_blocks_both(n, edges, a, b);
    crate::graph::load_order_is_well_ordered(n, edges);
    if order.len() == mods.len() {
        crate::graph::complete_order_holds_every_node(n, edges, order, a);
    }
    assert(outcome is Err);
    let reported = outcome->Err_0;
    assert(!versions_checked(host_name, host_version, mods, Some(reported))) by {
        if versions_checked(host_name, host_version, mods, Some(reported)) {
            let k = choose|k: int|
                0 <= k < mods.len() && #[trigger] version_fault(mods, k) == Some(reported);
            assert(version_fault(mods, k) is None);
        }
    }
    assert(!dependencies_checked(host_name, host_version, mods, Some(reported))) by {
        if dependencies_checked(host_name, host_version, mods, Some(reported)) {
            let (i2, d2) = choose|i2: int, d2: int|
                0 <= i2 < mods.len() && 0 <= d2 < mods[i2].dependencies@.len()
                    && #[trigger] dependency_fault(host_name, host_version, mods, i2, d2) == Some(
                    reported,
                );
            assert(dependencies_sound(
                host_name,
                host_version,
                mods,
                i2,
                mods[i2].dependencies@.len() as int,
            ));
        }
    }
    let cycle = cycle_nodes_below(n, edges, n);
    crate::graph::cycle_nodes_are_the_nodes_on_cycles(n, edges, n, a);
    crate::graph::cycle_nodes_are_the_nodes_on_cycles(n, edges, n, b);
    let names = names_of(mods, cycle);
    let pa = choose|p: int| 0 <= p < cycle.len() && cycle[p] == a as usize;
    assert(names[pa] == mods[a].name@);
    let pb = choose|p: int| 0 <= p < cycle.len() && cycle[p] == b as usize;
    assert(names[pb] == mods[b].name@);
}

/// Where versions and dependencies are sound, the modules can be ordered
/// if and only if no module lies on a dependency cycle; and where they
/// cannot, the error names the modules on a cycle and no others.
pub proof fn cycle_is_the_only_obstacle(
    host_name: Seq<char>,
    host_version: Seq<char>,
    mods: Seq<SafeCauldronModInfo>,
    outcome: Result<Seq<usize>, Fault>,
)
    requires
        mods.len() <= usize::MAX,
        versions_checked(host_name, host_version, mods, None),
        dependencies_checked(host_name, host_version, mods, None),
        resolved(host_name, host_version, mods, outcome),
    ensures
        outcome is Ok <==> forall|v: int|
            0 <= v < mods.len() ==> !#[trigger] on_cycle(
                mods.len() as int,
                dependency_edges(mods),
                v,
            ),
        outcome is Err ==> outcome->Err_0 is Cycle && outcome->Err_0->modules.len() > 0
            && forall|v: int|
            0 <= v < mods.len() ==> (#[trigger] on_cycle(
                mods.len() as int,
                dependency_edges(mods),
                v,
            ) <==> cycle_nodes_below(
                mods.len() as int,
                dependency_edges(mods),
                mods.len() as int,
            ).contains(v as usize)),
{
    let n = mods.len() as int;
    let edges = dependency_edges(mods);
    crate::graph::order_is_complete_unless_cyclic(n, edges);
    crate::graph::load_order_is_well_ordered(n, edges);
    if outcome is Err {
        let reported = outcome->Err_0;
        assert(!versions_checked(host_name, host_version, mods, Some(reported))) by {
            if versions_checked(host_name, host_version, mods, Some(reported)) {
                let k = choose|k: int|
                    0 <= k < mods.len() && #[trigger] version_fault(mods, k) == Some(reported);
                assert(version_fault(mods, k) is None);
            }
        }
        assert(!dependencies_checked(host_name, host_version, mods, Some(reported))) by {
            if dependencies_checked(host_name, host_version, mods, Some(reported)) {
                let (i2, d2) = choose|i2: int, d2: int|
                    0 <= i2 < mods.len() && 0 <= d2 < mods[i2].dependencies@.len()
                        && #[trigger] dependency_fault(host_name, host_version, mods, i2, d2)
                        == Some(reported);
                assert(dependencies_sound(
                    host_name,
                    host_version,
                    mods,
                    i2,
                    mods[i2].dependencies@.len() as int,
                ));
            }
        }
        crate::graph::incomplete_order_has_cycle(n, edges);
        let v = choose|v: int| 0 <= v < n && on_cycle(n, edges, v);
        crate::graph::cycle_nodes_are_the_nodes_on_cycles(n, edges, n, v);
        assert forall|w: int| 0 <= w < mods.len() implies (#[trigger] on_cycle(n, edges, w)
            <==> cycle_nodes_below(n, edges, n).contains(w as usize)) by {
            crate::graph::cycle_nodes_are_the_nodes_on_cycles(n, edges, n, w);
        }
    }
}

/// In a resolved load order every module stands behind the modules it
/// depends on: where module `a` names module `b` among its dependencies,
/// `b` is loaded before `a`.
pub proof fn dependencies_load_first(
    host_name: Seq<char>,
    host_version: Seq<char>,
    mods: Seq<SafeCauldronModInfo>,
    order: Seq<usize>,
    a: int,
    b: int,
    at: int,
)
    requires
        mods.len() <= usize::MAX,
        resolved(host_name, host_version, mods, Ok(order)),
        0 <= a < mods.len(),
        0 <= b < mods.len(),
        requires_module(mods, a, b),
        0 <= at < order.len(),
        order[at] == a,
    ensures
        exists|before: int| 0 <= before < at && order[before] == b,
{
    let edges = dependency_edges(mods);
    assert(edges.contains((a, b)));
    crate::graph::requirement_comes_first(mods.len() as int, edges, a, b, at);
}

/// A resolved load order holds every module exactly once.
pub proof fn load_order_is_complete(
    host_name: Seq<char>,
    host_version: Seq<char>,
    mods: Seq<SafeCauldronModInfo>,
    order: Seq<usize>,
    i: int,
)
    requires
        mods.len() <= usize::MAX,
        resolved(host_name, host_version, mods, Ok(order)),
        0 <= i < mods.len(),
    ensures
        order.len() == mods.len(),
        order.contains(i as usize),
        forall|p: int, q: int| 0 <= p < q < order.len() ==> order[p] != order[q],
{
    let edges = dependency_edges(mods);
    crate::graph::load_order_is_well_ordered(mods.len() as int, edges);
    crate::graph::complete_order_holds_every_node(mods.len() as int, edges, order, i);
}


/// Modules of which none depends on another are loaded in the order in
/// which they were discovered.
pub proof fn independent_modules_keep_discovery_order(
    host_name: Seq<char>,
    host_version: Seq<char>,
    mods: Seq<SafeCauldronModInfo>,
    order: Seq<usize>,
)
    requires
        mods.len() <= usize::MAX,
        resolved(host_name, host_version, mods, Ok(order)),
        forall|a: int, b: int|
            0 <= a < mods.len() && 0 <= b < mods.len() ==> !requires_module(mods, a, b),
    ensures
        order == Seq::new(mods.len(), |i: int| i as usize),
{
    crate::graph::independent_nodes_keep_their_order(mods.len() as int, dependency_edges(mods));
}


/// Checks that the version of the host and of every module parses.
pub fn validate_versions(
    host_name: &String,
    host_version: &String,
    mods: &Vec<SafeCauldronModInfo>,
) -> (outcome: Result<(), LoadError>)
    ensures
        versions_checked(
            host_name@,
            host_version@,
            mods@,
            match outcome {
                Ok(_) => None,
                Err(e) => Some(e@),
            },
        ),
{
    if !version_parses(host_version.as_str()) {
        return Err(
            LoadError::ParseError { module: host_name.clone(), text: host_version.clone() },
        );
    }
    let mut i: usize = 0;
    while i < mods.len()
        invariant
            i <= mods@.len(),
            is_version(host_version@),
            forall|j: int| 0 <= j < i ==> version_fault(mods@, j) is None,
        decreases mods@.len() - i,
    {
        if !version_parses(mods[i].version.as_str()) {
            let e = LoadError::ParseError {
                module: mods[i].name.clone(),
                text: mods[i].version.clone(),
            };
            assert(version_fault(mods@, i as int) == Some(e@));
            return Err(e);
        }
        i += 1;
    }
    Ok(())
}

/// Looks up the version under which `name` is present.
pub fn find_version<'a>(
    host_name: &'a String,
    host_version: &'a String,
    mods: &'a Vec<SafeCauldronModInfo>,
    name: &String,
) -> (found: Option<&'a String>)
    ensures
        match found {
            Some(version) => known_version(host_name@, host_version@, mods@, name@) == Some(
                version@,
            ),
            None => known_version(host_name@, host_version@, mods@, name@) is None,
        },
{
    let mut k: usize = mods.len();
    proof {
        assert(mods@.subrange(0, k as int) =~= mods@);
    }
    while k > 0
        invariant
            k <= mods@.len(),
            known_version(host_name@, host_version@, mods@, name@) == known_version(
                host_name@,
                host_version@,
                mods@.subrange(0, k as int),
                name@,
            ),
        decreases k,
    {
        proof {
            assert(mods@.subrange(0, k as int).drop_last() =~= mods@.subrange(0, k - 1));
        }
        if mods[k - 1].name == *name {
            return Some(&mods[k - 1].version);
        }
        k -= 1;
    }
    if *name == *host_name {
        Some(host_version)
    } else {
        None
    }
}

/// Checks one dependency of one module.
fn check_dependency(
    host_name: &String,
    host_version: &String,
    mods: &Vec<SafeCauldronModInfo>,
    i: usize,
    d: usize,
) -> (outcome: Result<(), LoadError>)
    requires
        i < mods@.len(),
        d < mods@[i as int].dependencies@.len(),
    ensures
        dependency_fault(host_name@, host_version@, mods@, i as int, d as int) == match outcome {
            Ok(_) => None,
            Err(e) => Some(e@),
        },
{
    let module = &mods[i];
    let dependency = &module.dependencies[d];
    let wanted: String = match &dependency.version {
        Some(text) => text.clone(),
        None => "*".to_owned(),
    };
    if !requirement_parses(wanted.as_str()) {
        return Err(LoadError::ParseError { module: module.name.clone(), text: wanted });
    }
    match find_version(host_name, host_version, mods, &dependency.name) {
        None => {
            if dependency.optional {
                Ok(())
            } else {
                Err(
                    LoadError::UnsatisfiedDependency {
                        module: module.name.clone(),
                        dependency: dependency.name.clone(),
                        requirement: wanted,
                    },
                )
            }
        },
        Some(present) => {
            if requirement_matches(wanted.as_str(), present.as_str()) {
                Ok(())
            } else {
                Err(
                    LoadError::VersionMismatch {
                        module: module.name.clone(),
                        dependency: dependency.name.clone(),
                        requirement: wanted,
                        present: present.clone(),
                    },
                )
            }
        },
    }
}

/// Checks every dependency of every module against the host and the modules
/// that are present.
pub fn validate_dependencies(
    host_name: &String,
    host_version: &String,
    mods: &Vec<SafeCauldronModInfo>,
) -> (outcome: Result<(), LoadError>)
    ensures
        dependencies_checked(
            host_name@,
            host_version@,
            mods@,
            match outcome {
                Ok(_) => None,
                Err(e) => Some(e@),
            },
        ),
{
    let mut i: usize = 0;
    while i < mods.len()
        invariant
            i <= mods@.len(),
            forall|j: int|
                0 <= j < i ==> #[trigger] dependencies_sound(
                    host_name@,
                    host_version@,
                    mods@,
                    j,
                    mods@[j].dependencies@.len() as int,
                ),
        decreases mods@.len() - i,
    {
        let mut d: usize = 0;
        while d < mods[i].dependencies.len()
            invariant
                i < mods@.len(),
                d <= mods@[i as int].dependencies@.len(),
                dependencies_sound(host_name@, host_version@, mods@, i as int, d as int),
                forall|j: int|
                    0 <= j < i ==> #[trigger] dependencies_sound(
                        host_name@,
                        host_version@,
                        mods@,
                        j,
                        mods@[j].dependencies@.len() as int,
                    ),
            decreases mods@[i as int].dependencies@.len() - d,
        {
            match check_dependency(host_name, host_version, mods, i, d) {
                Ok(_) => {},
                Err(e) => {
                    return Err(e);
                },
            }
            d += 1;
        }
        i += 1;
    }
    Ok(())
}

fn names_module(mods: &Vec<SafeCauldronModInfo>, a: usize, b: usize) -> (yes: bool)
    requires
        a < mods@.len(),
        b < mods@.len(),
    ensures
        yes == requires_module(mods@, a as int, b as int),
{
    let dependencies = &mods[a].dependencies;
    let mut d: usize = 0;
    while d < dependencies.len()
        invariant
            a < mods@.len(),
            b < mods@.len(),
            dependencies == &mods@[a as int].dependencies,
            d <= dependencies@.len(),
            forall|k: int| 0 <= k < d ==> (#[trigger] dependencies@[k]).name@ != mods@[b as int].name@,
        decreases dependencies@.len() - d,
    {
        if dependencies[d].name == mods[b].name {
            return true;
        }
        d += 1;
    }
    false
}

/// Builds the dependency graph of the modules: module `a` comes after every
/// module that one of its dependencies names.
pub fn dependency_graph(mods: &Vec<SafeCauldronModInfo>) -> (graph: DependencyGraph)
    ensures
        graph.wf(),
        graph.size() == mods@.len(),
        graph.edges() == dependency_edges(mods@),
        forall|a: int, k: int, m: int|
            0 <= a < graph.size() && 0 <= k < m < graph.after@[a]@.len() ==> graph.after@[a]@[k]
                < graph.after@[a]@[m],
{
    let n = mods.len();
    let mut after: Vec<Vec<usize>> = Vec::new();
    let mut a: usize = 0;
    while a < n
        invariant
            n == mods@.len(),
            a <= n,
            after@.len() == a,
            forall|x: int, k: int|
                0 <= x < a && 0 <= k < after@[x]@.len() ==> (#[trigger] after@[x]@[k]) < n,
            forall|x: int, k: int, m: int|
                0 <= x < a && 0 <= k < m < after@[x]@.len() ==> after@[x]@[k] < after@[x]@[m],
            forall|x: int, y: int|
                0 <= x < a && 0 <= y < n ==> (after@[x]@.contains(y as usize) <==> requires_module(
                    mods@,
                    x,
                    y,
                )),
        decreases n - a,
    {
        let mut list: Vec<usize> = Vec::new();
        let mut b: usize = 0;
        while b < n
            invariant
                n == mods@.len(),
                a < n,
                b <= n,
                forall|k: int| 0 <= k < list@.len() ==> (#[trigger] list@[k]) < b,
                forall|k: int, m: int| 0 <= k < m < list@.len() ==> list@[k] < list@[m],
                forall|y: int|
                    0 <= y < b ==> (list@.contains(y as usize) <==> requires_module(
                        mods@,
                        a as int,
                        y,
                    )),
            decreases n - b,
        {
            let ghost before = list@;
            if names_module(mods, a, b) {
                list.push(b);
                proof {
                    assert(list@[before.len() as int] == b);
                    assert forall|y: int| 0 <= y < b + 1 implies (list@.contains(y as usize)
                        <==> requires_module(mods@, a as int, y)) by {
                        if before.contains(y as usize) {
                            let p = choose|p: int| 0 <= p < before.len() && before[p] == y as usize;
                            assert(list@[p] == y as usize);
                        }
                        if list@.contains(y as usize) && y != b {
                            let p = choose|p: int| 0 <= p < list@.len() && list@[p] == y as usize;
                            assert(before[p] == y as usize);
                        }
                    }
                }
            } else {
                proof {
                    assert forall|y: int| 0 <= y < b + 1 implies (list@.contains(y as usize)
                        <==> requires_module(mods@, a as int, y)) by {
                        if list@.contains(y as usize) {
                            let p = choose|p: int| 0 <= p < list@.len() && list@[p] == y as usize;
                            assert(list@[p] < b);
                        }
                    }
                }
            }
            b += 1;
        }
        let ghost earlier = after@;
        after.push(list);
        proof {
            assert forall|x: int, k: int|
                0 <= x < a + 1 && 0 <= k < after@[x]@.len() implies (#[trigger] after@[x]@[k])
                < n by {
                if x < a {
                    assert(after@[x] == earlier[x]);
                }
            }
            assert forall|x: int, y: int| 0 <= x < a + 1 && 0 <= y < n implies (
            after@[x]@.contains(y as usize) <==> requires_module(mods@, x, y)) by {
                if x < a {
                    assert(after@[x] == earlier[x]);
                }
            }
            assert forall|x: int, k: int, m: int|
                0 <= x < a + 1 && 0 <= k < m < after@[x]@.len() implies after@[x]@[k]
                < after@[x]@[m] by {
                if x < a {
                    assert(after@[x] == earlier[x]);
                }
            }
        }
        a += 1;
    }
    let graph = DependencyGraph { after };
    proof {
        assert(graph.edges() =~= dependency_edges(mods@));
    }
    graph
}

fn module_names(mods: &Vec<SafeCauldronModInfo>, indices: &Vec<usize>) -> (names: Vec<String>)
    requires
        forall|k: int| 0 <= k < indices@.len() ==> (#[trigger] indices@[k]) < mods@.len(),
    ensures
        names@.map_values(|name: String| name@) == names_of(mods@, indices@),
{
    let mut names: Vec<String> = Vec::new();
    let mut k: usize = 0;
    while k < indices.len()
        invariant
            k <= indices@.len(),
            forall|j: int| 0 <= j < indices@.len() ==> (#[trigger] indices@[j]) < mods@.len(),
            names@.len() == k,
            forall|j: int| 0 <= j < k ==> (#[trigger] names@[j])@ == mods@[indices@[j] as int].name@,
        decreases indices@.len() - k,
    {
        names.push(mods[indices[k]].name.clone());
        k += 1;
    }
    proof {
        assert(names@.map_values(|name: String| name@) =~= names_of(mods@, indices@));
    }
    names
}

/// Resolves a set of discovered modules against the host: checks versions,
/// then dependencies, then orders the modules so that each loads after the
/// modules it depends on, earlier discoveries first where nothing else
/// decides. The order holds indices into `mods`.
pub fn resolve(host_name: &String, host_version: &String, mods: &Vec<SafeCauldronModInfo>) -> (outcome:
    Result<Vec<usize>, LoadError>)
    ensures
        resolved(
            host_name@,
            host_version@,
            mods@,
            match outcome {
                Ok(order) => Ok(order@),
                Err(e) => Err(e@),
            },
        ),
{
    match validate_versions(host_name, host_version, mods) {
        Ok(_) => {},
        Err(e) => {
            return Err(e);
        },
    }
    match validate_dependencies(host_name, host_version, mods) {
        Ok(_) => {},
        Err(e) => {
            return Err(e);
        },
    }
    order_modules(mods)
}

/// Orders the modules so that each loads after the modules it depends on,
/// earlier discoveries first where nothing else decides.
pub fn order_modules(mods: &Vec<SafeCauldronModInfo>) -> (outcome: Result<Vec<usize>, LoadError>)
    ensures
        ordered(
            mods@,
            match outcome {
                Ok(order) => Ok(order@),
                Err(e) => Err(e@),
            },
        ),
{
    let count = mods.len();
    let graph = dependency_graph(mods);
    match topological_order(&graph) {
        Ok(order) => Ok(order),
        Err(cycle) => {
            proof {
                assert forall|k: int| 0 <= k < cycle@.len() implies (#[trigger] cycle@[k])
                    < mods@.len() by {
                    assert(cycle@.contains(cycle@[k]));
                    crate::graph::cycle_nodes_are_the_nodes_on_cycles(
                        count as int,
                        dependency_edges(mods@),
                        count as int,
                        cycle@[k] as int,
                    );
                }
            }
            Err(LoadError::Cycle { modules: module_names(mods, &cycle) })
        },
    }
}

} // verus!
