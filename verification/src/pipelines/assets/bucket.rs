//! Uploading processed assets to an S3-compatible bucket.
//!
//! Deploying only ever adds: every asset is put under its published path,
//! which embeds the fingerprint of its content, so an upload can meet an
//! older object only where the content is the same. Nothing is deleted.
//! This module states the requests; the caller sends them.

use vstd::prelude::*;
use crate::config::PacklerConfig;
use crate::paths::{join, join_paths};
use crate::pipelines::assets::{AssetMetadata, AssetRecord, AssetsOutput};

verus! {

/// The bucket that receives the assets.
#[derive(Debug, Clone, PartialEq, Eq)]
pub struct AssetsBucketParams {
    pub bucket_name: String,
    /// For instance `fr-par`.
    pub bucket_region: String,
    /// For instance `https://s3.fr-par.scw.cloud`.
    pub bucket_endpoint_url: String,
    /// The origins named in the CORS rule of the bucket.
    pub allowed_origins: Vec<String>,
}

/// The content type sent for a file whose type cannot be guessed.
pub const FALLBACK_CONTENT_TYPE: &'static str = "application/octet-stream";

/// How long a browser may cache the CORS answer of the bucket, in seconds.
pub const CORS_MAX_AGE_SECONDS: i32 = 360;

/// Who may read an uploaded object.
#[derive(Debug, Clone, Copy, PartialEq, Eq, Structural)]
pub enum ObjectAcl {
    /// Everyone.
    PublicRead,
}

/// A request to store one object. It is the only kind of request made for
/// an asset: there is none that deletes.
#[derive(Debug, Clone, PartialEq, Eq)]
pub struct PutObject {
    /// The bucket that receives the object.
    pub bucket: String,
    /// The name of the object in the bucket.
    pub key: String,
    /// The local file whose bytes are the body.
    pub local_path: String,
    pub content_type: String,
    pub acl: ObjectAcl,
}

/// The single CORS rule of the bucket.
#[derive(Debug, Clone, PartialEq, Eq)]
pub struct CorsPolicy {
    pub allowed_origins: Vec<String>,
    pub allowed_headers: Vec<String>,
    pub allowed_methods: Vec<String>,
    pub expose_headers: Vec<String>,
    pub max_age_seconds: i32,
}

/// A request to set the CORS configuration of a bucket.
#[derive(Debug, Clone, PartialEq, Eq)]
pub struct PutBucketCors {
    pub bucket: String,
    pub policy: CorsPolicy,
}

/// A bucket to deploy to, with the CORS rule it is given.
#[derive(Debug, Clone, PartialEq, Eq)]
pub struct AssetBucket {
    pub bucket_name: String,
    pub bucket_region: String,
    pub bucket_endpoint_url: String,
    pub cors_config: CorsPolicy,
}

/// The first media type that `mime_guess` knows for the extension of a path.
pub uninterp spec fn guessed_mime(path: Seq<char>) -> Option<Seq<char>>;

/// Trusted: `mime_guess::from_path` followed by `MimeGuess::first_raw`.
/// The guess looks at the text of the path only (no file is opened) and
/// finds the media type in a table compiled into the crate, so it is the
/// same for the same path; it is absent when the path has no extension or
/// the table does not know it.
#[verifier::external_body]
fn guess_mime(path: &str) -> (guess: Option<String>)
    ensures
        guess.deep_view() == guessed_mime(path@),
{
    mime_guess::from_path(path).first_raw().map(String::from)
}

/// The content type to send, given what was guessed: the guess, or the
/// generic binary type when there is none.
pub open spec fn content_type_from(guess: Option<Seq<char>>) -> Seq<char> {
    match guess {
        Some(media_type) => media_type,
        None => FALLBACK_CONTENT_TYPE@,
    }
}

/// Whether `policy` is the CORS rule for the given origins: those origins,
/// any header, the methods `GET` and `HEAD`, the exposed header `Etag`, and
/// the fixed maximum age.
pub open spec fn is_cors_policy_for(policy: CorsPolicy, origins: Seq<String>) -> bool {
    &&& policy.allowed_origins.deep_view() == Seq::new(origins.len(), |i: int| origins[i]@)
    &&& policy.allowed_headers.deep_view() == seq!["*"@]
    &&& policy.allowed_methods.deep_view() == seq!["GET"@, "HEAD"@]
    &&& policy.expose_headers.deep_view() == seq!["Etag"@]
    &&& policy.max_age_seconds == CORS_MAX_AGE_SECONDS
}

/// Whether `request` uploads the asset `record` of a build into `bucket`
/// with the content type `content_type`.
pub open spec fn uploads_record(
    request: PutObject,
    bucket: Seq<char>,
    config: PacklerConfig,
    record: AssetRecord,
    content_type: Seq<char>,
) -> bool {
    &&& request.bucket@ == bucket
    &&& request.key@ == record.processed_relative_path
    &&& request.local_path@ == join(config.dist_dir@, record.processed_relative_path)
    &&& request.content_type@ == content_type
    &&& request.acl == ObjectAcl::PublicRead
}

/// The content type to send, given what was guessed.
pub fn content_type_or_default(guess: Option<String>) -> (content_type: String)
    ensures
        content_type@ == content_type_from(guess.deep_view()),
{
    match guess {
        Some(media_type) => media_type,
        None => FALLBACK_CONTENT_TYPE.to_owned(),
    }
}

/// The content type for the file at `path`, guessed from its extension.
pub fn content_type_of(path: &str) -> (content_type: String)
    ensures
        content_type@ == content_type_from(guessed_mime(path@)),
{
    content_type_or_default(guess_mime(path))
}

fn copy_strings(items: &Vec<String>) -> (copy: Vec<String>)
    ensures
        copy.deep_view() == items.deep_view(),
{
    let mut copy: Vec<String> = Vec::new();
    let mut i: usize = 0;
    while i < items.len()
        invariant
            i <= items.len(),
            copy@.len() == i,
            forall|k: int| 0 <= k < i ==> copy@[k]@ == items@[k]@,
        decreases items.len() - i,
    {
        copy.push(items[i].clone());
        i = i + 1;
    }
    assert(copy.deep_view() =~= items.deep_view());
    copy
}

fn copy_policy(policy: &CorsPolicy) -> (copy: CorsPolicy)
    ensures
        copy.allowed_origins.deep_view() == policy.allowed_origins.deep_view(),
        copy.allowed_headers.deep_view() == policy.allowed_headers.deep_view(),
        copy.allowed_methods.deep_view() == policy.allowed_methods.deep_view(),
        copy.expose_headers.deep_view() == policy.expose_headers.deep_view(),
        copy.max_age_seconds == policy.max_age_seconds,
{
    CorsPolicy {
        allowed_origins: copy_strings(&policy.allowed_origins),
        allowed_headers: copy_strings(&policy.allowed_headers),
        allowed_methods: copy_strings(&policy.allowed_methods),
        expose_headers: copy_strings(&policy.expose_headers),
        max_age_seconds: policy.max_age_seconds,
    }
}

impl AssetBucket {
    /// Whether this is the bucket that `params` describes, with its CORS rule.
    pub open spec fn describes(&self, params: AssetsBucketParams) -> bool {
        &&& self.bucket_name@ == params.bucket_name@
        &&& self.bucket_region@ == params.bucket_region@
        &&& self.bucket_endpoint_url@ == params.bucket_endpoint_url@
        &&& is_cors_policy_for(self.cors_config, params.allowed_origins@)
    }

    /// The bucket that `config` describes, with its CORS rule.
    pub fn new(config: &AssetsBucketParams) -> (bucket: Self)
        ensures
            bucket.describes(*config),
    {
        let allowed_origins = copy_strings(&config.allowed_origins);
        let mut allowed_headers: Vec<String> = Vec::new();
        allowed_headers.push("*".to_owned());
        let mut allowed_methods: Vec<String> = Vec::new();
        allowed_methods.push("GET".to_owned());
        allowed_methods.push("HEAD".to_owned());
        let mut expose_headers: Vec<String> = Vec::new();
        expose_headers.push("Etag".to_owned());
        proof {
            let origins = config.allowed_origins@;
            assert(allowed_origins.deep_view() =~= Seq::new(origins.len(), |i: int| origins[i]@));
            assert(allowed_headers.deep_view() =~= seq!["*"@]);
            assert(allowed_methods.deep_view() =~= seq!["GET"@, "HEAD"@]);
            assert(expose_headers.deep_view() =~= seq!["Etag"@]);
        }
        AssetBucket {
            bucket_name: config.bucket_name.clone(),
            bucket_region: config.bucket_region.clone(),
            bucket_endpoint_url: config.bucket_endpoint_url.clone(),
            cors_config: CorsPolicy {
                allowed_origins,
                allowed_headers,
                allowed_methods,
                expose_headers,
                max_age_seconds: CORS_MAX_AGE_SECONDS,
            },
        }
    }

    /// The request that sets the CORS rule of the bucket. It is sent after
    /// the uploads; whether it fails changes nothing of the deploy.
    pub fn send_cors(&self) -> (request: PutBucketCors)
        ensures
            request.bucket@ == self.bucket_name@,
            request.policy.allowed_origins.deep_view() == self.cors_config.allowed_origins.deep_view(),
            request.policy.allowed_headers.deep_view() == self.cors_config.allowed_headers.deep_view(),
            request.policy.allowed_methods.deep_view() == self.cors_config.allowed_methods.deep_view(),
            request.policy.expose_headers.deep_view() == self.cors_config.expose_headers.deep_view(),
            request.policy.max_age_seconds == self.cors_config.max_age_seconds,
    {
        PutBucketCors { bucket: self.bucket_name.clone(), policy: copy_policy(&self.cors_config) }
    }

    /// The request that uploads `item` with the given content type.
    pub fn upload(&self, cfg: &PacklerConfig, item: &AssetMetadata, content_type: String) -> (request:
        PutObject)
        ensures
            uploads_record(request, self.bucket_name@, *cfg, item@, content_type@),
    {
        PutObject {
            bucket: self.bucket_name.clone(),
            key: item.processed_relative_path.clone(),
            local_path: join_paths(cfg.dist_dir.as_str(), item.processed_relative_path.as_str()),
            content_type,
            acl: ObjectAcl::PublicRead,
        }
    }

    /// The uploads of a deploy: one request per asset of the manifest,
    /// images first, then stylesheets. Each puts the published file under
    /// its published path as a public object, with the content type guessed
    /// from the file's extension. Everything is uploaded again every time;
    /// nothing is removed. A failed upload is skipped by the caller and
    /// does not stop the others.
    pub fn send_assets(&self, cfg: &PacklerConfig, metadata: &AssetsOutput) -> (requests: Vec<
        PutObject,
    >)
        ensures
            requests@.len() == metadata.records().len(),
            forall|i: int|
                0 <= i < requests@.len() ==> uploads_record(
                    #[trigger] requests@[i],
                    self.bucket_name@,
                    *cfg,
                    metadata.records()[i],
                    content_type_from(
                        guessed_mime(
                            join(cfg.dist_dir@, metadata.records()[i].processed_relative_path),
                        ),
                    ),
                ),
    {
        let items = metadata.iter();
        let mut requests: Vec<PutObject> = Vec::new();
        let mut i: usize = 0;
        while i < items.len()
            invariant
                i <= items.len(),
                items@.len() == metadata.records().len(),
                forall|k: int| 0 <= k < items@.len() ==> (#[trigger] items@[k])@ == metadata.records()[k],
                requests@.len() == i,
                forall|k: int|
                    0 <= k < i ==> uploads_record(
                        #[trigger] requests@[k],
                        self.bucket_name@,
                        *cfg,
                        metadata.records()[k],
                        content_type_from(
                            guessed_mime(
                                join(cfg.dist_dir@, metadata.records()[k].processed_relative_path),
                            ),
                        ),
                    ),
            decreases items.len() - i,
        {
            let item = items[i];
            let local = join_paths(cfg.dist_dir.as_str(), item.processed_relative_path.as_str());
            let content_type = content_type_of(local.as_str());
            let request = self.upload(cfg, item, content_type);
            requests.push(request);
            i = i + 1;
        }
        requests
    }
}

} // verus!
