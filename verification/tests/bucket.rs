use packler::config::PacklerConfig;
use packler::pipelines::assets::bucket::{
    content_type_of, content_type_or_default, AssetBucket, AssetsBucketParams, CorsPolicy,
    ObjectAcl, PutObject, CORS_MAX_AGE_SECONDS, FALLBACK_CONTENT_TYPE,
};
use packler::pipelines::assets::{AssetMetadata, AssetsOutput};

fn target() -> AssetsBucketParams {
    AssetsBucketParams {
        bucket_name: "static".to_string(),
        bucket_region: "fr-par".to_string(),
        bucket_endpoint_url: "https://s3.fr-par.scw.cloud".to_string(),
        allowed_origins: vec!["https://example.org".to_string(), "https://example.com".to_string()],
    }
}

fn asset(logical: &str, processed: &str) -> AssetMetadata {
    AssetMetadata {
        source_path: format!("assets/{logical}"),
        logical_path: logical.to_string(),
        processed_relative_path: processed.to_string(),
        hash: 1,
    }
}

#[test]
fn content_type_is_guessed_from_extension() {
    assert_eq!(content_type_of("dist/images/logo-1a2b3c4d5e6f7890.png"), "image/png");
    assert_eq!(content_type_of("dist/css/main-1a2b3c4d5e6f7890.css"), "text/css");
    assert_eq!(content_type_of("x.JPG"), "image/jpeg");
    assert_eq!(content_type_of("x.svg"), "image/svg+xml");
}

#[test]
fn unknown_type_falls_back_to_binary() {
    assert_eq!(content_type_of("dist/images/README"), "application/octet-stream");
    assert_eq!(content_type_of("dist/images/file.unknown-extension"), "application/octet-stream");
    assert_eq!(content_type_or_default(None), FALLBACK_CONTENT_TYPE);
    assert_eq!(content_type_or_default(Some("image/webp".to_string())), "image/webp");
}

#[test]
fn cors_rule_of_the_bucket() {
    let bucket = AssetBucket::new(&target());
    assert_eq!(bucket.bucket_name, "static");
    assert_eq!(bucket.bucket_region, "fr-par");
    assert_eq!(bucket.bucket_endpoint_url, "https://s3.fr-par.scw.cloud");
    assert_eq!(
        bucket.cors_config,
        CorsPolicy {
            allowed_origins: vec!["https://example.org".to_string(), "https://example.com".to_string()],
            allowed_headers: vec!["*".to_string()],
            allowed_methods: vec!["GET".to_string(), "HEAD".to_string()],
            expose_headers: vec!["Etag".to_string()],
            max_age_seconds: 360,
        }
    );
    assert_eq!(CORS_MAX_AGE_SECONDS, 360);
}

#[test]
fn cors_request_carries_the_rule() {
    let bucket = AssetBucket::new(&target());
    let request = bucket.send_cors();
    assert_eq!(request.bucket, "static");
    assert_eq!(request.policy, bucket.cors_config);
}

#[test]
fn one_public_put_per_asset() {
    let bucket = AssetBucket::new(&target());
    let config = PacklerConfig::with_target("target".to_string());
    let manifest = AssetsOutput {
        images: vec![
            asset("images/logo.png", "images/logo-1a2b3c4d5e6f7890.png"),
            asset("images/raw", "images/raw-00000000000000ff"),
        ],
        sass: vec![asset("css/main.scss", "css/main-0000000000000001.css")],
    };
    let requests = bucket.send_assets(&config, &manifest);
    assert_eq!(
        requests,
        vec![
            PutObject {
                bucket: "static".to_string(),
                key: "images/logo-1a2b3c4d5e6f7890.png".to_string(),
                local_path: "dist/images/logo-1a2b3c4d5e6f7890.png".to_string(),
                content_type: "image/png".to_string(),
                acl: ObjectAcl::PublicRead,
            },
            PutObject {
                bucket: "static".to_string(),
                key: "images/raw-00000000000000ff".to_string(),
                local_path: "dist/images/raw-00000000000000ff".to_string(),
                content_type: "application/octet-stream".to_string(),
                acl: ObjectAcl::PublicRead,
            },
            PutObject {
                bucket: "static".to_string(),
                key: "css/main-0000000000000001.css".to_string(),
                local_path: "dist/css/main-0000000000000001.css".to_string(),
                content_type: "text/css".to_string(),
                acl: ObjectAcl::PublicRead,
            },
        ]
    );
}

#[test]
fn empty_build_uploads_nothing() {
    let bucket = AssetBucket::new(&target());
    let config = PacklerConfig::with_target("target".to_string());
    let manifest = AssetsOutput { images: Vec::new(), sass: Vec::new() };
    assert_eq!(bucket.send_assets(&config, &manifest), Vec::new());
}

#[test]
fn new_content_is_put_under_new_key() {
    let bucket = AssetBucket::new(&target());
    let config = PacklerConfig::with_target("target".to_string());
    let old = packler::pipelines::assets::images::record(&config, "assets/images/a.png", 1).unwrap();
    let new = packler::pipelines::assets::images::record(&config, "assets/images/a.png", 2).unwrap();
    let first = bucket.upload(&config, &old, "image/png".to_string());
    let second = bucket.upload(&config, &new, "image/png".to_string());
    assert_ne!(first.key, second.key);
}
