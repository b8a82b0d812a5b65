use packler::config::{PacklerConfig, PacklerParams};
use packler::pipelines::assets::bucket::AssetsBucketParams;
use packler::pipelines::assets::{
    batch_status, build_assets, build_assets_inner, build_tally, clean_assets, deploy_assets,
    exit_code, stage_tally, upload_tally, write_metadata_file, AssetMetadata, AssetsOutput,
    BatchStatus, Error, Tally,
};

fn config() -> PacklerConfig {
    PacklerConfig::with_target("target".to_string())
}

fn asset(logical: &str, processed: &str) -> AssetMetadata {
    AssetMetadata {
        source_path: format!("assets/{logical}"),
        logical_path: logical.to_string(),
        processed_relative_path: processed.to_string(),
        hash: 9,
    }
}

fn built() -> AssetsOutput {
    AssetsOutput {
        images: vec![asset("images/logo.png", "images/logo-1a2b3c4d5e6f7890.png")],
        sass: vec![asset("css/main.scss", "css/main-0000000000000001.css")],
    }
}

fn with_bucket() -> PacklerParams {
    PacklerParams::new(
        Vec::new(),
        Vec::new(),
        None,
        Some(AssetsBucketParams {
            bucket_name: "static".to_string(),
            bucket_region: "fr-par".to_string(),
            bucket_endpoint_url: "https://s3.fr-par.scw.cloud".to_string(),
            allowed_origins: vec!["https://example.org".to_string()],
        }),
    )
}

#[test]
fn iteration_is_images_then_stylesheets() {
    let manifest = built();
    let items = manifest.iter();
    assert_eq!(items, vec![&manifest.images[0], &manifest.sass[0]]);
    let empty = AssetsOutput { images: Vec::new(), sass: Vec::new() };
    assert!(empty.iter().is_empty());
}

#[test]
fn results_are_merged() {
    let manifest = built();
    let merged = build_assets_inner(Ok(manifest.images.clone()), Ok(manifest.sass.clone()));
    assert_eq!(merged, Ok(manifest));
}

#[test]
fn failed_pipeline_counts_as_empty() {
    let manifest = built();
    let merged = build_assets_inner(Err(Error::Io("walk failed".to_string())), Ok(manifest.sass.clone()));
    assert_eq!(merged, Ok(AssetsOutput { images: Vec::new(), sass: manifest.sass.clone() }));
    let merged = build_assets_inner(
        Ok(manifest.images.clone()),
        Err(Error::ExternalTool("no compiler".to_string())),
    );
    assert_eq!(merged, Ok(AssetsOutput { images: manifest.images, sass: Vec::new() }));
    let merged = build_assets_inner(Err(Error::OutOfOrder), Err(Error::OutOfOrder));
    assert_eq!(merged, Ok(AssetsOutput { images: Vec::new(), sass: Vec::new() }));
}

#[test]
fn manifest_is_written_to_the_configured_file() {
    let write = write_metadata_file(&config(), &built());
    assert_eq!(write.path, "dist/assets.json");
    assert_eq!(write.content, packler::pipelines::assets::manifest::encode(&built().images, &built().sass));
}

#[test]
fn manifest_is_written_even_when_empty() {
    let output = build_assets(&config(), Err(Error::OutOfOrder), Err(Error::OutOfOrder)).unwrap();
    assert_eq!(output.metadata, AssetsOutput { images: Vec::new(), sass: Vec::new() });
    assert_eq!(output.manifest.path, "dist/assets.json");
    assert_eq!(output.manifest.content, "{\n  \"images\": [],\n  \"sass\": []\n}");
}

#[test]
fn build_returns_manifest_and_file() {
    let manifest = built();
    let output = build_assets(&config(), Ok(manifest.images.clone()), Ok(manifest.sass.clone())).unwrap();
    assert_eq!(output.metadata, manifest);
    assert_eq!(output.manifest, write_metadata_file(&config(), &manifest));
}

#[test]
fn clean_names_both_published_directories() {
    assert_eq!(clean_assets(&config()), vec!["dist/images".to_string(), "dist/css".to_string()]);
}

#[test]
fn deploy_without_bucket_is_a_configuration_error() {
    let params = PacklerParams::new(Vec::new(), Vec::new(), None, None);
    assert_eq!(deploy_assets(&params, &config(), &built()), Err(Error::BucketNotConfigured));
}

#[test]
fn deploy_uploads_then_writes_then_sets_cors() {
    let plan = deploy_assets(&with_bucket(), &config(), &built()).unwrap();
    let keys: Vec<&str> = plan.uploads.iter().map(|u| u.key.as_str()).collect();
    assert_eq!(keys, vec!["images/logo-1a2b3c4d5e6f7890.png", "css/main-0000000000000001.css"]);
    assert!(plan.uploads.iter().all(|u| u.bucket == "static"));
    assert_eq!(plan.manifest, write_metadata_file(&config(), &built()));
    assert_eq!(plan.cors.bucket, "static");
    assert_eq!(plan.cors.policy.allowed_origins, vec!["https://example.org".to_string()]);
    assert_eq!(plan.cors.policy.allowed_headers, vec!["*".to_string()]);
    assert_eq!(plan.cors.policy.allowed_methods, vec!["GET".to_string(), "HEAD".to_string()]);
    assert_eq!(plan.cors.policy.expose_headers, vec!["Etag".to_string()]);
    assert_eq!(plan.cors.policy.max_age_seconds, 360);
}

#[test]
fn error_messages() {
    assert_eq!(
        Error::BucketNotConfigured.message(),
        "Cannot deploy assets: bucket parameters were not provided"
    );
    assert_eq!(
        Error::EntryPointDoesNotExist("main.scss".to_string()).message(),
        "Entrypoint 'main.scss' does not exist"
    );
    assert_eq!(
        Error::NotUnderRoot("/x".to_string()).message(),
        "Path '/x' is outside of its source directory"
    );
    assert_eq!(Error::ExternalTool("boom".to_string()).message(), "External tool failed: 'boom'");
    assert_eq!(Error::Io("boom".to_string()).message(), "File operation failed: 'boom'");
    assert_eq!(
        Error::CannotSerializeMetadataFile("boom".to_string()).message(),
        "Could not serialize json metadata output: 'boom'"
    );
    assert_eq!(
        Error::CannotWriteMetadataFile("boom".to_string()).message(),
        "Cannot write file: 'boom'"
    );
    assert_eq!(Error::Upload("boom".to_string()).message(), "Could not upload: 'boom'");
    assert_eq!(Error::OutOfOrder.message(), "An outcome was reported out of order");
    assert_eq!(Error::InvalidManifest.message(), "The manifest cannot be read");
}

#[test]
fn status_tells_full_partial_and_failed_apart() {
    assert_eq!(batch_status(0, 0), BatchStatus::Succeeded);
    assert_eq!(batch_status(3, 3), BatchStatus::Succeeded);
    assert_eq!(batch_status(3, 4), BatchStatus::Succeeded);
    assert_eq!(batch_status(3, 1), BatchStatus::Partial);
    assert_eq!(batch_status(3, 0), BatchStatus::Failed);
    assert_eq!(exit_code(BatchStatus::Succeeded), 0);
    assert_eq!(exit_code(BatchStatus::Failed), 1);
    assert_eq!(exit_code(BatchStatus::Partial), 2);
}

#[test]
fn stage_that_failed_counts_as_one_item() {
    let failed = Err(Error::Io("walk".to_string()));
    assert_eq!(stage_tally(7, &failed), Tally { attempted: 1, succeeded: 0 });
    let ended = Ok(built().images);
    assert_eq!(stage_tally(3, &ended), Tally { attempted: 3, succeeded: 1 });
}

#[test]
fn build_tally_adds_both_stages() {
    let images = Ok(built().images);
    let sass = Ok(Vec::new());
    let tally = build_tally(1, &images, 2, &sass);
    assert_eq!(tally, Tally { attempted: 3, succeeded: 1 });
    assert_eq!(tally.status(), BatchStatus::Partial);
    let none = build_tally(0, &Ok(Vec::new()), 0, &Ok(Vec::new()));
    assert_eq!(none, Tally::new());
    assert_eq!(none.status(), BatchStatus::Succeeded);
    let lost = build_tally(0, &Err(Error::OutOfOrder), 2, &Err(Error::OutOfOrder));
    assert_eq!(lost, Tally { attempted: 2, succeeded: 0 });
    assert_eq!(lost.status(), BatchStatus::Failed);
}

#[test]
fn tallies_merge_without_overflow() {
    let mut tally = Tally { attempted: usize::MAX - 1, succeeded: 5 };
    tally.merge(Tally { attempted: 9, succeeded: 1 });
    assert_eq!(tally, Tally { attempted: usize::MAX, succeeded: 6 });
}

#[test]
fn upload_tally_counts_requests() {
    let plan = deploy_assets(&with_bucket(), &config(), &built()).unwrap();
    assert_eq!(upload_tally(&plan, 1), Tally { attempted: 2, succeeded: 1 });
    assert_eq!(upload_tally(&plan, 9), Tally { attempted: 2, succeeded: 2 });
}
