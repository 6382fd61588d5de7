//! One loading run as a state machine. The machine decides; its driver does
//! what only the platform can do (calling a module's entry points) and
//! reports back. A run ends in `Loaded` or in `Aborted`, and a fault of any
//! module aborts the run for all of them.

use crate::mod_info::SafeCauldronModInfo;
use crate::resolver::{
    dependencies_checked, order_modules, ordered, resolved, validate_dependencies,
    validate_versions, versions_checked, Fault, LoadError,
};
use crate::version::is_version;
use vstd::prelude::*;

verus! {

/// How far a loading run has come.
#[derive(Debug, Clone, PartialEq, Eq)]
pub enum LoaderPhase {
    /// The modules are known; nothing is checked yet.
    Discovered,
    /// Every version parses.
    VersionValidated,
    /// Every dependency is sound.
    DependencyValidated,
    /// The load order stands, and the module at position `next` of it is the
    /// next to load; `confirmed` says whether it has stated its identity
    /// again.
    Ordered { next: usize, confirmed: bool },
    /// Every module is loaded.
    Loaded,
    /// The run was aborted.
    Aborted { reason: LoadError },
}

/// What the driver of a loading run has to do next.
#[derive(Debug, Clone, Copy, PartialEq, Eq, Structural)]
pub enum LoaderAction {
    /// Let the machine check and order the modules: call `advance`.
    Resolve,
    /// Call the info entry point of the module and report with
    /// `info_received`.
    ConfirmInfo { module: usize },
    /// Call the load entry point of the module and report with
    /// `load_finished`.
    Load { module: usize },
    /// Nothing is left to do: every module is loaded.
    Finished,
    /// Nothing is left to do: the run was aborted.
    Abort,
}

/// A loading run.
pub struct Loader {
    pub host_name: String,
    pub host_version: String,
    pub mods: Vec<SafeCauldronModInfo>,
    /// The load order, as indices into `mods`; empty until it is decided.
    pub order: Vec<usize>,
    pub phase: LoaderPhase,
}

impl Loader {
    /// Whether the order of the run is the one that resolving its modules
    /// gives.
    pub open spec fn order_stands(&self) -> bool {
        &&& resolved(self.host_name@, self.host_version@, self.mods@, Ok(self.order@))
        &&& forall|k: int| 0 <= k < self.order@.len() ==> (#[trigger] self.order@[k]) < self.mods@.len()
    }

    /// What each phase stands for.
    pub open spec fn wf(&self) -> bool {
        match self.phase {
            LoaderPhase::Discovered => true,
            LoaderPhase::VersionValidated => versions_checked(
                self.host_name@,
                self.host_version@,
                self.mods@,
                None,
            ),
            LoaderPhase::DependencyValidated => {
                &&& versions_checked(self.host_name@, self.host_version@, self.mods@, None)
                &&& dependencies_checked(self.host_name@, self.host_version@, self.mods@, None)
            },
            LoaderPhase::Ordered { next, confirmed } => self.order_stands() && next
                < self.order@.len(),
            LoaderPhase::Loaded => self.order_stands(),
            LoaderPhase::Aborted { reason } => {
                ||| resolved(self.host_name@, self.host_version@, self.mods@, Err(reason@))
                ||| self.order_stands() && exists|k: int|
                    0 <= k < self.order@.len() && reason@ == Fault::ModuleLoadFailure {
                        module: self.mods@[#[trigger] self.order@[k] as int].name@,
                    }
            },
        }
    }

    /// Whether the run has the same host and modules as `other`.
    pub open spec fn same_modules(&self, other: &Loader) -> bool {
        &&& self.host_name == other.host_name
        &&& self.host_version == other.host_version
        &&& self.mods == other.mods
    }

    /// The action that the run asks for.
    pub open spec fn action(&self) -> LoaderAction {
        match self.phase {
            LoaderPhase::Discovered => LoaderAction::Resolve,
            LoaderPhase::VersionValidated => LoaderAction::Resolve,
            LoaderPhase::DependencyValidated => LoaderAction::Resolve,
            LoaderPhase::Ordered { next, confirmed } => if confirmed {
                LoaderAction::Load { module: self.order@[next as int] }
            } else {
                LoaderAction::ConfirmInfo { module: self.order@[next as int] }
            },
            LoaderPhase::Loaded => LoaderAction::Finished,
            LoaderPhase::Aborted { reason } => LoaderAction::Abort,
        }
    }

    /// A run over the host and the modules discovered, in discovery order.
    pub fn new(host_name: String, host_version: String, mods: Vec<SafeCauldronModInfo>) -> (run:
        Self)
        ensures
            run.wf(),
            run.phase == LoaderPhase::Discovered,
            run.host_name == host_name,
            run.host_version == host_version,
            run.mods == mods,
            run.order@.len() == 0,
    {
        Loader { host_name, host_version, mods, order: Vec::new(), phase: LoaderPhase::Discovered }
    }

    /// What the driver has to do next.
    pub fn next_action(&self) -> (action: LoaderAction)
        requires
            self.wf(),
        ensures
            action == self.action(),
    {
        match &self.phase {
            LoaderPhase::Discovered => LoaderAction::Resolve,
            LoaderPhase::VersionValidated => LoaderAction::Resolve,
            LoaderPhase::DependencyValidated => LoaderAction::Resolve,
            LoaderPhase::Ordered { next, confirmed } => {
                if *confirmed {
                    LoaderAction::Load { module: self.order[*next] }
                } else {
                    LoaderAction::ConfirmInfo { module: self.order[*next] }
                }
            },
            LoaderPhase::Loaded => LoaderAction::Finished,
            LoaderPhase::Aborted { reason } => LoaderAction::Abort,
        }
    }

    /// Takes the next step of resolving: from `Discovered` the versions are
    /// checked, from `VersionValidated` the dependencies, from
    /// `DependencyValidated` the order is decided. A fault aborts the run;
    /// with no module to load the run is over at once. In every other phase
    /// nothing changes.
    pub fn advance(&mut self)
        requires
            old(self).wf(),
        ensures
            final(self).wf(),
            final(self).same_modules(old(self)),
            match old(self).phase {
                LoaderPhase::Discovered => final(self).order == old(self).order && match final(self).phase {
                    LoaderPhase::VersionValidated => true,
                    LoaderPhase::Aborted { reason } => versions_checked(
                        old(self).host_name@,
                        old(self).host_version@,
                        old(self).mods@,
                        Some(reason@),
                    ),
                    _ => false,
                },
                LoaderPhase::VersionValidated => final(self).order == old(self).order && match final(self).phase {
                    LoaderPhase::DependencyValidated => true,
                    LoaderPhase::Aborted { reason } => dependencies_checked(
                        old(self).host_name@,
                        old(self).host_version@,
                        old(self).mods@,
                        Some(reason@),
                    ),
                    _ => false,
                },
                LoaderPhase::DependencyValidated => match final(self).phase {
                    LoaderPhase::Ordered { next, confirmed } => next == 0 && !confirmed
                        && final(self).mods@.len() > 0,
                    LoaderPhase::Loaded => final(self).mods@.len() == 0,
                    LoaderPhase::Aborted { reason } => ordered(
                        old(self).mods@,
                        Err(reason@),
                    ),
                    _ => false,
                },
                _ => final(self).phase == old(self).phase && final(self).order == old(self).order,
            },
    {
        match &self.phase {
            LoaderPhase::Discovered => {
                match validate_versions(&self.host_name, &self.host_version, &self.mods) {
                    Ok(_) => {
                        self.phase = LoaderPhase::VersionValidated;
                    },
                    Err(reason) => {
                        self.phase = LoaderPhase::Aborted { reason };
                    },
                }
            },
            LoaderPhase::VersionValidated => {
                match validate_dependencies(&self.host_name, &self.host_version, &self.mods) {
                    Ok(_) => {
                        self.phase = LoaderPhase::DependencyValidated;
                    },
                    Err(reason) => {
                        self.phase = LoaderPhase::Aborted { reason };
                    },
                }
            },
            LoaderPhase::DependencyValidated => {
                let count = self.mods.len();
                match order_modules(&self.mods) {
                    Ok(order) => {
                        proof {
                            crate::graph::load_order_is_well_ordered(
                                count as int,
                                crate::resolver::dependency_edges(self.mods@),
                            );
                        }
                        if order.len() == 0 {
                            self.phase = LoaderPhase::Loaded;
                        } else {
                            self.phase = LoaderPhase::Ordered { next: 0, confirmed: false };
                        }
                        self.order = order;
                    },
                    Err(reason) => {
                        self.phase = LoaderPhase::Aborted { reason };
                    },
                }
            },
            _ => {},
        }
    }

    /// Takes the descriptor that the module next in line gave when asked
    /// again. Where it states the name and version under which the module
    /// was discovered, the module may be loaded; where it does not, the run
    /// is aborted with `ModuleLoadFailure`, which names the module as it was
    /// discovered. Where no descriptor is awaited, nothing changes.
    pub fn info_received(&mut self, info: &SafeCauldronModInfo)
        requires
            old(self).wf(),
        ensures
            final(self).wf(),
            final(self).same_modules(old(self)),
            final(self).order == old(self).order,
            match old(self).phase {
                LoaderPhase::Ordered { next, confirmed: false } => {
                    let known = old(self).mods@[old(self).order@[next as int] as int];
                    if info.name@ == known.name@ && info.version@ == known.version@ {
                        final(self).phase == (LoaderPhase::Ordered { next, confirmed: true })
                    } else {
                        final(self).phase matches LoaderPhase::Aborted { reason } && reason@
                            == (Fault::ModuleLoadFailure { module: known.name@ })
                    }
                },
                _ => final(self).phase == old(self).phase,
            },
    {
        let (next, awaited): (usize, bool) = match &self.phase {
            LoaderPhase::Ordered { next, confirmed } => (*next, !*confirmed),
            _ => (0, false),
        };
        if awaited {
            let known = &self.mods[self.order[next]];
            if info.name == known.name && info.version == known.version {
                self.phase = LoaderPhase::Ordered { next, confirmed: true };
            } else {
                let reason = LoadError::ModuleLoadFailure { module: known.name.clone() };
                self.phase = LoaderPhase::Aborted { reason };
            }
        }
    }

    /// Takes the result of the load entry point of the module next in line.
    /// Success moves the run on to the next module, or ends it in `Loaded`
    /// after the last; failure aborts the run with `ModuleLoadFailure`. Where
    /// no result is awaited, nothing changes.
    pub fn load_finished(&mut self, succeeded: bool)
        requires
            old(self).wf(),
        ensures
            final(self).wf(),
            final(self).same_modules(old(self)),
            final(self).order == old(self).order,
            match old(self).phase {
                LoaderPhase::Ordered { next, confirmed: true } => {
                    if !succeeded {
                        final(self).phase matches LoaderPhase::Aborted { reason } && reason@
                            == (Fault::ModuleLoadFailure {
                            module: old(self).mods@[old(self).order@[next as int] as int].name@,
                        })
                    } else if next + 1 == old(self).order@.len() {
                        final(self).phase == LoaderPhase::Loaded
                    } else {
                        final(self).phase == (LoaderPhase::Ordered {
                            next: (next + 1) as usize,
                            confirmed: false,
                        })
                    }
                },
                _ => final(self).phase == old(self).phase,
            },
    {
        let (next, awaited): (usize, bool) = match &self.phase {
            LoaderPhase::Ordered { next, confirmed } => (*next, *confirmed),
            _ => (0, false),
        };
        if awaited {
            let count = self.order.len();
            if !succeeded {
                let reason = LoadError::ModuleLoadFailure {
                    module: self.mods[self.order[next]].name.clone(),
                };
                self.phase = LoaderPhase::Aborted { reason };
            } else if next + 1 == count {
                self.phase = LoaderPhase::Loaded;
            } else {
                self.phase = LoaderPhase::Ordered { next: next + 1, confirmed: false };
            }
        }
    }
}

/// A run with a module whose version does not parse never asks to load a
/// module, in whatever phase it is: it is still being resolved, or aborted.
pub proof fn unparsable_version_loads_nothing(run: Loader, i: int)
    requires
        run.wf(),
        0 <= i < run.mods@.len(),
        !is_version(run.mods@[i].version@),
    ensures
        !(run.action() is Load),
        !(run.action() is ConfirmInfo),
        !(run.action() is Finished),
        run.phase is Discovered || run.phase is Aborted,
{
    assert(crate::resolver::version_fault(run.mods@, i) is Some);
    assert(!versions_checked(run.host_name@, run.host_version@, run.mods@, None));
}

} // verus!
