use packler::config::{PacklerConfig, PacklerParams};
use packler::{path_to_watch, Action, BuildOpts, Component, Error, Missing, Run, Step, WorkspacePackage};

fn params() -> PacklerParams {
    PacklerParams::new(vec!["main.scss".to_string()], Vec::new(), Some("server".to_string()), None)
}

fn config() -> PacklerConfig {
    PacklerConfig::with_target("target".to_string())
}

fn names(list: &[&str]) -> Vec<String> {
    list.iter().map(|s| s.to_string()).collect()
}

#[test]
fn component_names_are_known() {
    assert_eq!(Component::new("backend"), Ok(Component::Backend));
    assert_eq!(Component::new("assets"), Ok(Component::Assets));
    assert_eq!(Component::new("frontend"), Ok(Component::Frontend(String::new())));
}

#[test]
fn component_names_ignore_case() {
    assert_eq!(Component::new("ASSETS"), Ok(Component::Assets));
    assert_eq!(Component::new("BackEnd"), Ok(Component::Backend));
    // The Kelvin sign lowers to the letter k.
    assert_eq!(Component::new("BAC\u{212A}END"), Ok(Component::Backend));
}

#[test]
fn unknown_component_is_refused() {
    assert_eq!(Component::new("Database"), Err(Error::UnknownComponent("database".to_string())));
    assert_eq!(Component::new(""), Err(Error::UnknownComponent(String::new())));
    assert_eq!(Component::from_lowercase("ASSETS"), Err(Error::UnknownComponent("ASSETS".to_string())));
}

#[test]
fn unknown_component_message() {
    let error = Error::UnknownComponent("database".to_string());
    assert_eq!(error.message(), "Component 'database' does not exist");
}

#[test]
fn subcommands_become_actions() {
    let run = Run::new(params(), config(), Some("build"), true, &names(&["assets"]));
    assert_eq!(run.action, Action::Build(BuildOpts { watch: true }));
    let run = Run::new(params(), config(), Some("build"), false, &names(&["assets"]));
    assert_eq!(run.action, Action::Build(BuildOpts { watch: false }));
    let run = Run::new(params(), config(), Some("clean"), true, &names(&["assets"]));
    assert_eq!(run.action, Action::Clean);
    let run = Run::new(params(), config(), Some("deploy"), false, &names(&["assets"]));
    assert_eq!(run.action, Action::Deploy);
    let run = Run::new(params(), config(), Some("publish"), false, &names(&["assets"]));
    assert_eq!(run.action, Action::Unknown);
    let run = Run::new(params(), config(), None, false, &names(&["assets"]));
    assert_eq!(run.action, Action::Unknown);
}

#[test]
fn no_component_means_backend_and_assets() {
    let run = Run::new(params(), config(), Some("build"), false, &Vec::new());
    assert_eq!(run.components, vec![Component::Backend, Component::Assets]);
    assert_eq!(run.params, params());
    assert_eq!(run.config, config());
}

#[test]
fn unknown_components_are_passed_over() {
    let run = Run::new(
        params(),
        config(),
        Some("build"),
        false,
        &names(&["Assets", "nonsense", "frontend", "BACKEND"]),
    );
    assert_eq!(
        run.components,
        vec![Component::Assets, Component::Frontend(String::new()), Component::Backend]
    );
    let run = Run::new(params(), config(), Some("build"), false, &names(&["nonsense"]));
    assert_eq!(run.components, Vec::new());
}

#[test]
fn assets_steps_follow_the_action() {
    let only_assets = names(&["assets"]);
    let run = Run::new(params(), config(), Some("build"), true, &only_assets);
    assert_eq!(run.start(), vec![Step::BuildAssets { watch: true }]);
    let run = Run::new(params(), config(), Some("build"), false, &only_assets);
    assert_eq!(run.start(), vec![Step::BuildAssets { watch: false }]);
    let run = Run::new(params(), config(), Some("clean"), false, &only_assets);
    assert_eq!(run.start(), vec![Step::CleanAssets]);
    let run = Run::new(params(), config(), Some("deploy"), false, &only_assets);
    assert_eq!(run.start(), vec![Step::DeployAssets]);
}

#[test]
fn other_components_are_not_implemented() {
    let run = Run::new(params(), config(), Some("build"), false, &names(&["backend"]));
    assert_eq!(run.start(), vec![Step::NotImplemented(Missing::Backend)]);
    let run = Run::new(params(), config(), Some("deploy"), false, &names(&["frontend"]));
    assert_eq!(run.start(), vec![Step::NotImplemented(Missing::Frontend)]);
}

#[test]
fn run_stops_at_first_missing_part() {
    let run = Run::new(params(), config(), Some("clean"), false, &names(&["assets", "backend", "assets"]));
    assert_eq!(run.start(), vec![Step::CleanAssets, Step::NotImplemented(Missing::Backend)]);
    let run = Run::new(params(), config(), Some("build"), false, &Vec::new());
    assert_eq!(run.start(), vec![Step::NotImplemented(Missing::Backend)]);
}

#[test]
fn unknown_action_is_not_implemented() {
    let run = Run::new(params(), config(), None, false, &names(&["assets"]));
    assert_eq!(run.start(), vec![Step::NotImplemented(Missing::Action)]);
    let run = Run::new(params(), config(), Some("publish"), false, &names(&["nonsense"]));
    assert_eq!(run.start(), vec![Step::NotImplemented(Missing::Action)]);
}

#[test]
fn run_without_components_does_nothing() {
    let run = Run::new(params(), config(), Some("build"), false, &names(&["nonsense"]));
    assert_eq!(run.start(), Vec::new());
}

#[test]
fn assets_are_watched_at_their_source() {
    assert_eq!(
        path_to_watch(&params(), &config(), &Vec::new(), &Component::Assets),
        Some("assets".to_string())
    );
}

#[test]
fn backend_is_watched_at_its_package() {
    let packages = vec![
        WorkspacePackage { name: "xtask".to_string(), manifest_path: "/ws/xtask/Cargo.toml".to_string() },
        WorkspacePackage { name: "server".to_string(), manifest_path: "/ws/server/Cargo.toml".to_string() },
        WorkspacePackage { name: "server".to_string(), manifest_path: "/ws/other/Cargo.toml".to_string() },
    ];
    assert_eq!(
        path_to_watch(&params(), &config(), &packages, &Component::Backend),
        Some("/ws/server".to_string())
    );
}

#[test]
fn backend_without_package_is_not_watched() {
    let packages = vec![WorkspacePackage {
        name: "xtask".to_string(),
        manifest_path: "/ws/xtask/Cargo.toml".to_string(),
    }];
    assert_eq!(path_to_watch(&params(), &config(), &packages, &Component::Backend), None);
    let no_backend = PacklerParams::new(Vec::new(), Vec::new(), None, None);
    assert_eq!(path_to_watch(&no_backend, &config(), &packages, &Component::Backend), None);
}

#[test]
fn frontend_is_not_watched() {
    assert_eq!(
        path_to_watch(&params(), &config(), &Vec::new(), &Component::Frontend("app".to_string())),
        None
    );
}
