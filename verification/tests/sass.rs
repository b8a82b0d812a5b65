use packler::common::CommandOutcome;
use packler::config::PacklerConfig;
use packler::fingerprint::hash_to_hex;
use packler::pipelines::assets::sass::{
    CompileJob, EntryAction, EntryEvent, EntryState, SassRun,
};
use packler::pipelines::assets::{AssetMetadata, Error};

fn run() -> SassRun {
    SassRun::new(PacklerConfig::with_target("target".to_string()))
}

fn done(name: &str) -> EntryState {
    EntryState::Done(run().record(name, 7).unwrap())
}

#[test]
fn scratch_directory_is_under_target() {
    assert_eq!(run().intermediate_dir(), "target/packler/sass");
}

#[test]
fn compile_job_arguments() {
    let job = run().compile_job("site/main.scss", false);
    assert_eq!(
        job,
        CompileJob {
            source_path: "assets/css/site/main.scss".to_string(),
            output_path: "target/packler/sass/site/main.css".to_string(),
            args: vec![
                "--no-source-map".to_string(),
                "-s".to_string(),
                "expanded".to_string(),
                "assets/css/site/main.scss".to_string(),
                "target/packler/sass/site/main.css".to_string(),
            ],
        }
    );
    let job = run().compile_job("main.scss", true);
    assert_eq!(job.args[2], "compressed");
}

#[test]
fn stylesheet_record() {
    let metadata = run().record("site/main.scss", 0x1a2b3c4d5e6f7890).unwrap();
    assert_eq!(
        metadata,
        AssetMetadata {
            source_path: "assets/css/site/main.scss".to_string(),
            logical_path: "css/site/main.scss".to_string(),
            processed_relative_path: "css/site/main-1a2b3c4d5e6f7890.css".to_string(),
            hash: 0x1a2b3c4d5e6f7890,
        }
    );
    assert_eq!(
        run().published_path("site/main.scss", 0x1a2b3c4d5e6f7890),
        "dist/css/site/main-1a2b3c4d5e6f7890.css"
    );
}

#[test]
fn absolute_entry_has_no_record() {
    assert_eq!(
        run().record("/etc/main.scss", 1),
        Err(Error::NotUnderRoot("/etc/main.scss".to_string()))
    );
}

#[test]
fn entry_goes_through_all_steps() {
    let run = run();
    let css = b"body { margin: 0; }\n".to_vec();
    let hex = hash_to_hex(seahash::hash(&css));

    let (state, action) = run.begin("main.scss");
    assert_eq!(state, EntryState::Probing);
    assert_eq!(action, EntryAction::Probe("assets/css/main.scss".to_string()));

    let (state, action) = run.run("main.scss", false, state, EntryEvent::Exists(true));
    assert_eq!(state, EntryState::Compiling);
    assert_eq!(action, EntryAction::Compile(run.compile_job("main.scss", false)));

    let outcome = CommandOutcome::Exited { success: true };
    let (state, action) = run.run("main.scss", false, state, EntryEvent::Ran(outcome));
    assert_eq!(state, EntryState::Reading);
    assert_eq!(action, EntryAction::Read("target/packler/sass/main.css".to_string()));

    let (state, action) = run.run("main.scss", false, state, EntryEvent::Content(css.clone()));
    let expected = AssetMetadata {
        source_path: "assets/css/main.scss".to_string(),
        logical_path: "css/main.scss".to_string(),
        processed_relative_path: format!("css/main-{hex}.css"),
        hash: seahash::hash(&css),
    };
    assert_eq!(state, EntryState::Moving(expected.clone()));
    assert_eq!(
        action,
        EntryAction::Move {
            from: "target/packler/sass/main.css".to_string(),
            to: format!("dist/css/main-{hex}.css"),
        }
    );

    let (state, action) = run.run("main.scss", false, state, EntryEvent::Moved);
    assert_eq!(state, EntryState::Done(expected));
    assert_eq!(action, EntryAction::Stop);
}

#[test]
fn missing_entry_point_fails_that_entry() {
    let run = run();
    let (state, _) = run.begin("gone.scss");
    let (state, action) = run.run("gone.scss", false, state, EntryEvent::Exists(false));
    assert_eq!(state, EntryState::Failed(Error::EntryPointDoesNotExist("gone.scss".to_string())));
    assert_eq!(action, EntryAction::Stop);
}

#[test]
fn missing_entry_point_leaves_others_alone() {
    let run = run();
    let (probing, _) = run.begin("gone.scss");
    let (gone, _) = run.run("gone.scss", false, probing, EntryEvent::Exists(false));
    let files = SassRun::collect(vec![done("a.scss"), gone, done("b.scss")]);
    let logical: Vec<&str> = files.iter().map(|m| m.logical_path.as_str()).collect();
    assert_eq!(logical, vec!["css/a.scss", "css/b.scss"]);
}

#[test]
fn compiler_failure_fails_that_entry() {
    let run = run();
    let outcome = CommandOutcome::Exited { success: false };
    let (state, action) =
        run.run("main.scss", false, EntryState::Compiling, EntryEvent::Ran(outcome));
    assert_eq!(
        state,
        EntryState::Failed(Error::ExternalTool("sass call returned a bad status".to_string()))
    );
    assert_eq!(action, EntryAction::Stop);

    let outcome = CommandOutcome::SpawnFailed("no such file".to_string());
    let (state, _) = run.run("main.scss", false, EntryState::Compiling, EntryEvent::Ran(outcome));
    assert_eq!(
        state,
        EntryState::Failed(Error::ExternalTool("error spawning sass call: no such file".to_string()))
    );
}

#[test]
fn failed_file_operation_fails_that_entry() {
    let run = run();
    let event = EntryEvent::IoFailed("cannot read".to_string());
    let (state, action) = run.run("main.scss", false, EntryState::Reading, event);
    assert_eq!(state, EntryState::Failed(Error::Io("cannot read".to_string())));
    assert_eq!(action, EntryAction::Stop);

    let moving = EntryState::Moving(run.record("main.scss", 1).unwrap());
    let event = EntryEvent::IoFailed("cannot copy".to_string());
    let (state, _) = run.run("main.scss", false, moving, event);
    assert_eq!(state, EntryState::Failed(Error::Io("cannot copy".to_string())));
}

#[test]
fn entry_outside_of_assets_is_dropped_after_reading() {
    let run = run();
    let (state, action) =
        run.run("/abs/main.scss", false, EntryState::Reading, EntryEvent::Content(vec![1, 2, 3]));
    assert_eq!(state, EntryState::Failed(Error::NotUnderRoot("/abs/main.scss".to_string())));
    assert_eq!(action, EntryAction::Stop);
}

#[test]
fn finished_entry_stays_finished() {
    let run = run();
    let finished = done("main.scss");
    let (state, action) = run.run("main.scss", false, finished.clone(), EntryEvent::Exists(true));
    assert_eq!(state, finished);
    assert_eq!(action, EntryAction::Stop);
    let failed = EntryState::Failed(Error::Io("x".to_string()));
    let (state, action) = run.run("main.scss", false, failed.clone(), EntryEvent::Moved);
    assert_eq!(state, failed);
    assert_eq!(action, EntryAction::Stop);
}

#[test]
fn outcome_out_of_order_fails_the_entry() {
    let run = run();
    let (state, action) = run.run("main.scss", false, EntryState::Probing, EntryEvent::Moved);
    assert_eq!(state, EntryState::Failed(Error::OutOfOrder));
    assert_eq!(action, EntryAction::Stop);
    let (state, _) = run.run("main.scss", false, EntryState::Compiling, EntryEvent::Exists(true));
    assert_eq!(state, EntryState::Failed(Error::OutOfOrder));
    let (state, _) = run.run("main.scss", false, EntryState::Reading, EntryEvent::Moved);
    assert_eq!(state, EntryState::Failed(Error::OutOfOrder));
    let moving = EntryState::Moving(run.record("main.scss", 1).unwrap());
    let (state, _) = run.run("main.scss", false, moving, EntryEvent::Content(Vec::new()));
    assert_eq!(state, EntryState::Failed(Error::OutOfOrder));
}

#[test]
fn same_css_gives_same_name() {
    let run = run();
    let css = b"a { color: red }".to_vec();
    let (first, _) = run.run("main.scss", false, EntryState::Reading, EntryEvent::Content(css.clone()));
    let (second, _) = run.run("main.scss", false, EntryState::Reading, EntryEvent::Content(css));
    assert_eq!(first, second);
    let (other, _) = run.run(
        "main.scss",
        false,
        EntryState::Reading,
        EntryEvent::Content(b"a { color: blue }".to_vec()),
    );
    assert_ne!(first, other);
}

#[test]
fn stage_without_compiler_fails() {
    let compiler: Result<String, String> = Err("sass 1.59.3 cannot be downloaded".to_string());
    assert_eq!(
        run().start(&compiler),
        Err(Error::ExternalTool("sass 1.59.3 cannot be downloaded".to_string()))
    );
}

#[test]
fn stage_clears_scratch_and_published_directories() {
    let compiler: Result<String, String> = Ok("/opt/sass/sass".to_string());
    assert_eq!(
        run().start(&compiler),
        Ok(vec!["target/packler/sass".to_string(), "dist/css".to_string()])
    );
}

#[test]
fn collect_keeps_successes_in_order() {
    let states = vec![
        done("a.scss"),
        EntryState::Failed(Error::Io("x".to_string())),
        EntryState::Reading,
        done("sub/b.scss"),
    ];
    let files = SassRun::collect(states);
    assert_eq!(
        files,
        vec![run().record("a.scss", 7).unwrap(), run().record("sub/b.scss", 7).unwrap()]
    );
}

#[test]
fn total_failure_gives_empty_list() {
    let states = vec![
        EntryState::Failed(Error::EntryPointDoesNotExist("a.scss".to_string())),
        EntryState::Failed(Error::ExternalTool("bad".to_string())),
    ];
    assert_eq!(SassRun::collect(states), Vec::new());
    assert_eq!(SassRun::collect(Vec::new()), Vec::new());
}

#[test]
fn stylesheet_record_paths_are_relative_and_plain() {
    let mut config = PacklerConfig::with_target("target".to_string());
    config.assets_source_dir = "assets/".to_string();
    config.dist_dir = "dist//".to_string();
    let run = SassRun::new(config);
    let metadata = run.record("site//main.scss", 1).unwrap();
    assert_eq!(metadata.logical_path, "css/site/main.scss");
    assert_eq!(metadata.processed_relative_path, "css/site/main-0000000000000001.css");
    assert!(!metadata.logical_path.starts_with('/'));
    assert!(!metadata.processed_relative_path.starts_with('/'));
}

#[test]
fn stylesheet_record_is_never_absolute() {
    let mut config = PacklerConfig::with_target("target".to_string());
    config.assets_source_dir = String::new();
    config.sass_dir_name = "/css".to_string();
    let run = SassRun::new(config);
    assert_eq!(
        run.record("main.scss", 1),
        Err(Error::NotUnderRoot("/css/main.scss".to_string()))
    );
}
