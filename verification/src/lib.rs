//! Packler: a static-asset pipeline. Images and compiled stylesheets are
//! named after a fingerprint of their content, listed in a manifest, and
//! optionally uploaded to object storage.
//!
//! The library decides; it performs no input or output. Its caller walks
//! directories, runs the compiler, reads and writes files and talks to the
//! object store, and reports each outcome back.

use vstd::prelude::*;
pub use crate::config::{PacklerConfig, PacklerParams};
use crate::paths::{parent_dir, parent_of};

pub mod common;
pub mod config;
pub mod fingerprint;
pub mod paths;
pub mod pipelines;
pub mod text;
pub mod watch;

verus! {

/// Why a run could not be set up.
#[derive(Debug, Clone, PartialEq, Eq)]
pub enum Error {
    /// The given component does not exist.
    UnknownComponent(String),
}

impl Error {
    /// What `message` returns.
    pub open spec fn message_text(&self) -> Seq<char> {
        match *self {
            Error::UnknownComponent(component) => "Component '"@ + component@ + "' does not exist"@,
        }
    }

    /// The error in words.
    pub fn message(&self) -> (text: String)
        ensures
            text@ == self.message_text(),
    {
        match self {
            Error::UnknownComponent(component) => crate::text::concat3(
                "Component '",
                component.as_str(),
                "' does not exist",
            ),
        }
    }
}

/// Options of the `build` subcommand.
#[derive(Debug, Clone, Copy, PartialEq, Eq, Structural)]
pub struct BuildOpts {
    /// Rebuild when a source changes.
    pub watch: bool,
}

/// What the user asked for.
#[derive(Debug, Clone, Copy, PartialEq, Eq, Structural)]
pub enum Action {
    Build(BuildOpts),
    Clean,
    Deploy,
    Unknown,
}

/// A part of the project that can be built, cleaned or deployed.
#[derive(Debug, Clone, PartialEq, Eq)]
pub enum Component {
    Backend,
    /// Assets are what is served without being code: images, stylesheets.
    Assets,
    Frontend(String),
}

/// A component as plain data.
pub enum ComponentKind {
    Backend,
    Assets,
    Frontend(Seq<char>),
}

impl View for Component {
    type V = ComponentKind;

    open spec fn view(&self) -> ComponentKind {
        match *self {
            Component::Backend => ComponentKind::Backend,
            Component::Assets => ComponentKind::Assets,
            Component::Frontend(name) => ComponentKind::Frontend(name@),
        }
    }
}

/// The components of a list as plain data, in the same order.
pub open spec fn kinds_of(components: Seq<Component>) -> Seq<ComponentKind> {
    Seq::new(components.len(), |i: int| components[i]@)
}

/// What a run cannot do yet.
#[derive(Debug, Clone, Copy, PartialEq, Eq, Structural)]
pub enum Missing {
    /// The action itself is not known.
    Action,
    /// Nothing is implemented for the backend.
    Backend,
    /// Nothing is implemented for frontends.
    Frontend,
}

/// One thing a run does.
#[derive(Debug, Clone, Copy, PartialEq, Eq, Structural)]
pub enum Step {
    /// Build the assets and write the manifest; with `watch`, go on
    /// rebuilding whenever the asset sources change.
    BuildAssets { watch: bool },
    /// Delete the published assets.
    CleanAssets,
    /// Build the assets, upload them and write the manifest.
    DeployAssets,
    /// Report that this part is not implemented, and stop.
    NotImplemented(Missing),
}

/// A package of the workspace: its name and where its `Cargo.toml` lies.
#[derive(Debug, Clone, PartialEq, Eq)]
pub struct WorkspacePackage {
    pub name: String,
    pub manifest_path: String,
}

/// The lower-case form of a text, as the standard library computes it.
pub uninterp spec fn lowercase_of(text: Seq<char>) -> Seq<char>;

/// Trusted: `str::to_lowercase` of the standard library returns the
/// lower-case form of its argument, which depends on nothing but the
/// characters given (it follows Unicode, not a locale).
pub assume_specification[ str::to_lowercase ](text: &str) -> (lower: String)
    ensures
        lower@ == lowercase_of(text@),
;

/// The component that a name in lower case stands for.
pub open spec fn component_named(lower: Seq<char>) -> Option<ComponentKind> {
    if lower == "backend"@ {
        Some(ComponentKind::Backend)
    } else if lower == "assets"@ {
        Some(ComponentKind::Assets)
    } else if lower == "frontend"@ {
        Some(ComponentKind::Frontend(Seq::empty()))
    } else {
        None
    }
}

/// The components that a list of names selects: each name is put in lower
/// case, and names that stand for no component are passed over.
pub open spec fn selected(names: Seq<String>) -> Seq<ComponentKind>
    decreases names.len(),
{
    if names.len() == 0 {
        Seq::empty()
    } else {
        let before = selected(names.drop_last());
        match component_named(lowercase_of(names.last()@)) {
            Some(kind) => before.push(kind),
            None => before,
        }
    }
}

/// The components of a run: those selected by name, or the backend and the
/// assets when no name was given.
pub open spec fn components_for(names: Seq<String>) -> Seq<ComponentKind> {
    if names.len() == 0 {
        seq![ComponentKind::Backend, ComponentKind::Assets]
    } else {
        selected(names)
    }
}

/// The action that a subcommand stands for.
pub open spec fn action_for(subcommand: Option<Seq<char>>, watch: bool) -> Action {
    match subcommand {
        Some(name) => if name == "build"@ {
            Action::Build(BuildOpts { watch })
        } else if name == "clean"@ {
            Action::Clean
        } else if name == "deploy"@ {
            Action::Deploy
        } else {
            Action::Unknown
        },
        None => Action::Unknown,
    }
}

/// What `action` means for one component. Only the assets are implemented.
pub open spec fn step_for(action: Action, component: ComponentKind) -> Step {
    match component {
        ComponentKind::Assets => match action {
            Action::Build(opts) => Step::BuildAssets { watch: opts.watch },
            Action::Clean => Step::CleanAssets,
            Action::Deploy => Step::DeployAssets,
            Action::Unknown => Step::NotImplemented(Missing::Action),
        },
        ComponentKind::Backend => Step::NotImplemented(Missing::Backend),
        ComponentKind::Frontend(_) => Step::NotImplemented(Missing::Frontend),
    }
}

/// The steps of a run: one per component, in order, up to and including
/// the first that is not implemented. An unknown action is a single step
/// that says so.
pub open spec fn steps_for(action: Action, components: Seq<ComponentKind>) -> Seq<Step>
    decreases components.len(),
{
    if action is Unknown {
        seq![Step::NotImplemented(Missing::Action)]
    } else if components.len() == 0 {
        Seq::empty()
    } else {
        let first = step_for(action, components[0]);
        if first is NotImplemented {
            seq![first]
        } else {
            seq![first] + steps_for(action, components.drop_first())
        }
    }
}

/// A run stops where it meets something that is not implemented: no step
/// but the last can be a `NotImplemented`.
pub proof fn lemma_not_implemented_is_last(action: Action, components: Seq<ComponentKind>, i: int)
    requires
        0 <= i < steps_for(action, components).len() - 1,
    ensures
        !(steps_for(action, components)[i] is NotImplemented),
    decreases components.len(),
{
    if !(action is Unknown) && components.len() > 0 {
        let first = step_for(action, components[0]);
        if !(first is NotImplemented) && i > 0 {
            lemma_not_implemented_is_last(action, components.drop_first(), i - 1);
        }
    }
}

/// The first package of the workspace that is called `name`.
pub open spec fn find_package(packages: Seq<WorkspacePackage>, name: Seq<char>) -> Option<
    WorkspacePackage,
>
    decreases packages.len(),
{
    if packages.len() == 0 {
        None
    } else if packages[0].name@ == name {
        Some(packages[0])
    } else {
        find_package(packages.drop_first(), name)
    }
}

/// The directory whose changes concern a component: for the backend the
/// directory of its package, for the assets their source directory, for a
/// frontend none.
pub open spec fn watched_path(
    params: PacklerParams,
    config: PacklerConfig,
    packages: Seq<WorkspacePackage>,
    component: ComponentKind,
) -> Option<Seq<char>> {
    match component {
        ComponentKind::Backend => match params.backend_crate {
            Some(name) => match find_package(packages, name@) {
                Some(package) => parent_dir(package.manifest_path@),
                None => None,
            },
            None => None,
        },
        ComponentKind::Assets => Some(config.assets_source_dir@),
        ComponentKind::Frontend(_) => None,
    }
}

impl Component {
    /// The component that `lower`, a name already in lower case, stands for.
    pub fn from_lowercase(lower: &str) -> (r: Result<Component, Error>)
        ensures
            match component_named(lower@) {
                Some(kind) => r matches Ok(component) && component@ == kind,
                None => r matches Err(Error::UnknownComponent(name)) && name@ == lower@,
            },
    {
        if lower.eq("backend") {
            Ok(Component::Backend)
        } else if lower.eq("assets") {
            Ok(Component::Assets)
        } else if lower.eq("frontend") {
            Ok(Component::Frontend(String::new()))
        } else {
            Err(Error::UnknownComponent(lower.to_owned()))
        }
    }

    /// The component that `value` names, whatever the case of its letters.
    pub fn new(value: &str) -> (r: Result<Component, Error>)
        ensures
            match component_named(lowercase_of(value@)) {
                Some(kind) => r matches Ok(component) && component@ == kind,
                None => r matches Err(Error::UnknownComponent(name)) && name@ == lowercase_of(
                    value@,
                ),
            },
    {
        let lower = value.to_lowercase();
        Component::from_lowercase(lower.as_str())
    }
}

/// The directory to watch for changes that concern `component`.
pub fn path_to_watch(
    params: &PacklerParams,
    config: &PacklerConfig,
    packages: &Vec<WorkspacePackage>,
    component: &Component,
) -> (r: Option<String>)
    ensures
        r.deep_view() == watched_path(*params, *config, packages@, component@),
{
    match component {
        Component::Backend => match &params.backend_crate {
            Some(name) => {
                let mut i: usize = 0;
                assert(packages@.skip(0) == packages@);
                while i < packages.len()
                    invariant
                        i <= packages.len(),
                        *component == Component::Backend,
                        params.backend_crate == Some(*name),
                        find_package(packages@, name@) == find_package(
                            packages@.skip(i as int),
                            name@,
                        ),
                    decreases packages.len() - i,
                {
                    proof {
                        assert(packages@.skip(i as int).drop_first() == packages@.skip(i + 1));
                        assert(packages@.skip(i as int)[0] == packages@[i as int]);
                    }
                    if packages[i].name.as_str().eq(name.as_str()) {
                        return parent_of(packages[i].manifest_path.as_str());
                    }
                    i = i + 1;
                }
                None
            },
            None => None,
        },
        Component::Assets => Some(config.assets_source_dir.clone()),
        Component::Frontend(_) => None,
    }
}

/// One invocation of Packler.
#[derive(Debug, Clone, PartialEq, Eq)]
pub struct Run {
    pub params: PacklerParams,
    pub config: PacklerConfig,
    pub action: Action,
    pub components: Vec<Component>,
}

impl Run {
    /// Sets up a run from what the command line held: the subcommand, if
    /// any, its `--watch` flag, and the values of `--components`.
    pub fn new(
        params: PacklerParams,
        config: PacklerConfig,
        subcommand: Option<&str>,
        watch: bool,
        raw_components: &Vec<String>,
    ) -> (run: Self)
        ensures
            run.params == params,
            run.config == config,
            run.action == action_for(
                match subcommand {
                    Some(name) => Some(name@),
                    None => None,
                },
                watch,
            ),
            kinds_of(run.components@) == components_for(raw_components@),
    {
        let action = match subcommand {
            Some(name) => {
                if name.eq("build") {
                    Action::Build(BuildOpts { watch })
                } else if name.eq("clean") {
                    Action::Clean
                } else if name.eq("deploy") {
                    Action::Deploy
                } else {
                    Action::Unknown
                }
            },
            None => Action::Unknown,
        };
        let mut components: Vec<Component> = Vec::new();
        if raw_components.len() == 0 {
            components.push(Component::Backend);
            components.push(Component::Assets);
            assert(kinds_of(components@) =~= components_for(raw_components@));
        } else {
            let mut i: usize = 0;
            assert(kinds_of(components@) =~= selected(raw_components@.take(0)));
            while i < raw_components.len()
                invariant
                    i <= raw_components.len(),
                    kinds_of(components@) == selected(raw_components@.take(i as int)),
                decreases raw_components.len() - i,
            {
                proof {
                    assert(raw_components@.take(i + 1).drop_last() == raw_components@.take(
                        i as int,
                    ));
                }
                let ghost before = components@;
                match Component::new(raw_components[i].as_str()) {
                    Ok(component) => {
                        components.push(component);
                        assert(kinds_of(components@) =~= kinds_of(before).push(component@));
                    },
                    Err(_) => {},
                }
                i = i + 1;
            }
            assert(raw_components@.take(i as int) == raw_components@);
        }
        Run { params, config, action, components }
    }

    /// The steps of this run, in the order in which they are to be taken.
    /// The caller performs them one after the other; a `NotImplemented`
    /// step is always the last, and is to be reported as a failure.
    pub fn start(&self) -> (steps: Vec<Step>)
        ensures
            steps@ == steps_for(self.action, kinds_of(self.components@)),
    {
        let mut steps: Vec<Step> = Vec::new();
        match self.action {
            Action::Unknown => {
                steps.push(Step::NotImplemented(Missing::Action));
                assert(steps@ =~= seq![Step::NotImplemented(Missing::Action)]);
                return steps;
            },
            _ => {},
        }
        let ghost kinds = kinds_of(self.components@);
        let mut i: usize = 0;
        assert(kinds.skip(0) == kinds);
        while i < self.components.len()
            invariant
                i <= self.components.len(),
                !(self.action is Unknown),
                kinds == kinds_of(self.components@),
                steps_for(self.action, kinds) == steps@ + steps_for(
                    self.action,
                    kinds.skip(i as int),
                ),
            decreases self.components.len() - i,
        {
            let step = match &self.components[i] {
                Component::Assets => match self.action {
                    Action::Build(opts) => Step::BuildAssets { watch: opts.watch },
                    Action::Clean => Step::CleanAssets,
                    Action::Deploy => Step::DeployAssets,
                    Action::Unknown => Step::NotImplemented(Missing::Action),
                },
                Component::Backend => Step::NotImplemented(Missing::Backend),
                Component::Frontend(_) => Step::NotImplemented(Missing::Frontend),
            };
            proof {
                let rest = kinds.skip(i as int);
                assert(rest[0] == self.components@[i as int]@);
                assert(rest.drop_first() == kinds.skip(i + 1));
                assert(step == step_for(self.action, rest[0]));
                if !(step is NotImplemented) {
                    assert(steps@ + (seq![step] + steps_for(self.action, kinds.skip(i + 1)))
                        == steps@.push(step) + steps_for(self.action, kinds.skip(i + 1)));
                } else {
                    assert(steps@ + seq![step] == steps@.push(step));
                }
            }
            steps.push(step);
            match step {
                Step::NotImplemented(_) => {
                    return steps;
                },
                _ => {},
            }
            i = i + 1;
        }
        assert(steps@ + Seq::<Step>::empty() == steps@);
        steps
    }
}

} // verus!
