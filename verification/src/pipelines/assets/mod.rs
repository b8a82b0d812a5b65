//! The asset pipeline: images and stylesheets in, fingerprinted files and a
//! manifest out.

use vstd::prelude::*;
use crate::config::{PacklerConfig, PacklerParams};
use crate::pipelines::assets::bucket::{
    content_type_from, guessed_mime, is_cors_policy_for, uploads_record, AssetBucket,
    PutBucketCors, PutObject,
};
use crate::pipelines::assets::manifest::manifest_json;
use crate::paths::join;
use crate::text::concat3;

pub mod bucket;
pub mod images;
pub mod manifest;
pub mod reader;
pub mod sass;

verus! {

/// One processed asset.
#[derive(Debug, Clone, PartialEq, Eq)]
pub struct AssetMetadata {
    /// Where the source file lies.
    pub source_path: String,
    /// The path of the asset below the asset source directory. It names the
    /// asset whatever its content.
    pub logical_path: String,
    /// The path of the processed file below the output directory: the
    /// logical path with the fingerprint inserted into the file name.
    pub processed_relative_path: String,
    /// The fingerprint of the processed bytes. It is not written to the
    /// manifest.
    pub hash: u64,
}

/// An asset record as plain data.
pub struct AssetRecord {
    pub source_path: Seq<char>,
    pub logical_path: Seq<char>,
    pub processed_relative_path: Seq<char>,
    pub hash: u64,
}

impl View for AssetMetadata {
    type V = AssetRecord;

    open spec fn view(&self) -> AssetRecord {
        AssetRecord {
            source_path: self.source_path@,
            logical_path: self.logical_path@,
            processed_relative_path: self.processed_relative_path@,
            hash: self.hash,
        }
    }
}

impl DeepView for AssetMetadata {
    type V = AssetRecord;

    open spec fn deep_view(&self) -> AssetRecord {
        self@
    }
}

/// Everything one build produced: the manifest.
#[derive(Debug, Clone, PartialEq, Eq)]
pub struct AssetsOutput {
    pub images: Vec<AssetMetadata>,
    pub sass: Vec<AssetMetadata>,
}

/// The records held by a list of assets, in the same order.
pub open spec fn records_of(items: Seq<AssetMetadata>) -> Seq<AssetRecord> {
    Seq::new(items.len(), |i: int| items[i]@)
}

/// Adding an asset to a list adds its record to the records.
pub proof fn lemma_records_push(items: Seq<AssetMetadata>, item: AssetMetadata)
    ensures
        records_of(items.push(item)) == records_of(items).push(item@),
{
    assert(records_of(items.push(item)) =~= records_of(items).push(item@));
}

impl AssetsOutput {
    /// The records of the manifest in order: images first, then stylesheets.
    pub open spec fn records(&self) -> Seq<AssetRecord> {
        records_of(self.images@) + records_of(self.sass@)
    }

    /// Every asset of the manifest, images first, then stylesheets.
    pub fn iter(&self) -> (items: Vec<&AssetMetadata>)
        ensures
            items@.len() == self.images@.len() + self.sass@.len(),
            forall|i: int| 0 <= i < self.images@.len() ==> *items@[i] == self.images@[i],
            forall|j: int|
                0 <= j < self.sass@.len() ==> *items@[self.images@.len() + j] == self.sass@[j],
    {
        let mut items: Vec<&AssetMetadata> = Vec::new();
        let mut i: usize = 0;
        while i < self.images.len()
            invariant
                i <= self.images.len(),
                items@.len() == i,
                forall|k: int| 0 <= k < i ==> *items@[k] == self.images@[k],
            decreases self.images.len() - i,
        {
            items.push(&self.images[i]);
            i = i + 1;
        }
        let mut j: usize = 0;
        while j < self.sass.len()
            invariant
                j <= self.sass.len(),
                items@.len() == self.images@.len() + j,
                forall|k: int| 0 <= k < self.images@.len() ==> *items@[k] == self.images@[k],
                forall|k: int| 0 <= k < j ==> *items@[self.images@.len() + k] == self.sass@[k],
            decreases self.sass.len() - j,
        {
            items.push(&self.sass[j]);
            j = j + 1;
        }
        items
    }
}

/// Why a step of the asset pipeline failed.
#[derive(Debug, Clone, PartialEq, Eq)]
pub enum Error {
    /// Deploy was asked for but no bucket is configured.
    BucketNotConfigured,
    /// A stylesheet entry point names a file that does not exist.
    EntryPointDoesNotExist(String),
    /// A source file does not lie under the directory it should be relative to.
    NotUnderRoot(String),
    /// The stylesheet compiler could not be run or reported a failure.
    ExternalTool(String),
    /// Reading, copying or removing a file failed.
    Io(String),
    /// The manifest could not be put into text.
    CannotSerializeMetadataFile(String),
    /// The manifest file could not be written.
    CannotWriteMetadataFile(String),
    /// An object could not be uploaded.
    Upload(String),
    /// An outcome was reported that does not answer the action that was pending.
    OutOfOrder,
    /// A text that should be a manifest is not one.
    InvalidManifest,
}

impl Error {
    /// What `message` returns.
    pub open spec fn message_text(&self) -> Seq<char> {
        match *self {
            Error::BucketNotConfigured => "Cannot deploy assets: bucket parameters were not provided"@,
            Error::EntryPointDoesNotExist(entrypoint) => "Entrypoint '"@ + entrypoint@
                + "' does not exist"@,
            Error::NotUnderRoot(path) => "Path '"@ + path@ + "' is outside of its source directory"@,
            Error::ExternalTool(source) => "External tool failed: '"@ + source@ + "'"@,
            Error::Io(source) => "File operation failed: '"@ + source@ + "'"@,
            Error::CannotSerializeMetadataFile(source) => "Could not serialize json metadata output: '"@
                + source@ + "'"@,
            Error::CannotWriteMetadataFile(source) => "Cannot write file: '"@ + source@ + "'"@,
            Error::Upload(source) => "Could not upload: '"@ + source@ + "'"@,
            Error::OutOfOrder => "An outcome was reported out of order"@,
            Error::InvalidManifest => "The manifest cannot be read"@,
        }
    }

    /// The error in words, for logs and for the user.
    pub fn message(&self) -> (text: String)
        ensures
            text@ == self.message_text(),
    {
        match self {
            Error::BucketNotConfigured => {
                "Cannot deploy assets: bucket parameters were not provided".to_owned()
            },
            Error::EntryPointDoesNotExist(entrypoint) => concat3(
                "Entrypoint '",
                entrypoint.as_str(),
                "' does not exist",
            ),
            Error::NotUnderRoot(path) => concat3(
                "Path '",
                path.as_str(),
                "' is outside of its source directory",
            ),
            Error::ExternalTool(source) => concat3("External tool failed: '", source.as_str(), "'"),
            Error::Io(source) => concat3("File operation failed: '", source.as_str(), "'"),
            Error::CannotSerializeMetadataFile(source) => concat3(
                "Could not serialize json metadata output: '",
                source.as_str(),
                "'",
            ),
            Error::CannotWriteMetadataFile(source) => concat3(
                "Cannot write file: '",
                source.as_str(),
                "'",
            ),
            Error::Upload(source) => concat3("Could not upload: '", source.as_str(), "'"),
            Error::OutOfOrder => "An outcome was reported out of order".to_owned(),
            Error::InvalidManifest => "The manifest cannot be read".to_owned(),
        }
    }
}

/// An order to write a file: `content` replaces whatever is at `path`.
#[derive(Debug, Clone, PartialEq, Eq)]
pub struct FileWrite {
    pub path: String,
    pub content: String,
}

/// The result of a build: the manifest and the order to write it to disk.
#[derive(Debug, Clone, PartialEq, Eq)]
pub struct BuildOutput {
    pub metadata: AssetsOutput,
    pub manifest: FileWrite,
}

/// Everything a deploy sends and writes, in the order in which it happens:
/// the uploads, then the manifest file, then the CORS rule.
#[derive(Debug, Clone, PartialEq, Eq)]
pub struct DeployPlan {
    pub uploads: Vec<PutObject>,
    pub manifest: FileWrite,
    pub cors: PutBucketCors,
}

/// What a pipeline contributes to the manifest: its records, or nothing
/// when the pipeline as a whole failed.
pub open spec fn stage_result(stage: Result<Vec<AssetMetadata>, Error>) -> Seq<AssetMetadata> {
    match stage {
        Ok(assets) => assets@,
        Err(_) => Seq::empty(),
    }
}

/// Whether `write` stores the manifest `metadata` in the manifest file of `config`.
pub open spec fn writes_manifest(
    write: FileWrite,
    config: PacklerConfig,
    metadata: AssetsOutput,
) -> bool {
    &&& write.path@ == config.metadata_file_path()
    &&& write.content@ == manifest_json(records_of(metadata.images@), records_of(metadata.sass@))
}

/// Whether `plan` deploys the manifest `metadata` to the bucket described by `target`.
pub open spec fn deploys(
    plan: DeployPlan,
    target: bucket::AssetsBucketParams,
    config: PacklerConfig,
    metadata: AssetsOutput,
) -> bool {
    &&& plan.uploads@.len() == metadata.records().len()
    &&& forall|i: int|
        0 <= i < plan.uploads@.len() ==> uploads_record(
            #[trigger] plan.uploads@[i],
            target.bucket_name@,
            config,
            metadata.records()[i],
            content_type_from(
                guessed_mime(join(config.dist_dir@, metadata.records()[i].processed_relative_path)),
            ),
        )
    &&& writes_manifest(plan.manifest, config, metadata)
    &&& plan.cors.bucket@ == target.bucket_name@
    &&& is_cors_policy_for(plan.cors.policy, target.allowed_origins@)
}

/// Puts the results of the two pipelines together: the images first, then
/// the stylesheets. A pipeline that failed as a whole contributes nothing
/// and does not stop the build, so this always succeeds.
pub fn build_assets_inner(
    images: Result<Vec<AssetMetadata>, Error>,
    sass: Result<Vec<AssetMetadata>, Error>,
) -> (r: Result<AssetsOutput, Error>)
    ensures
        r matches Ok(output) && output.images@ == stage_result(images) && output.sass@
            == stage_result(sass),
{
    let images = match images {
        Ok(images) => images,
        Err(_) => Vec::new(),
    };
    let sass = match sass {
        Ok(sass) => sass,
        Err(_) => Vec::new(),
    };
    Ok(AssetsOutput { images, sass })
}

/// The order to write the manifest: its text, and the path of the manifest
/// file. The file is replaced as a whole.
pub fn write_metadata_file(config: &PacklerConfig, metadata: &AssetsOutput) -> (write: FileWrite)
    ensures
        writes_manifest(write, *config, *metadata),
{
    FileWrite {
        path: config.metadata_file(),
        content: manifest::encode(&metadata.images, &metadata.sass),
    }
}

/// Finishes a build from the results of the two pipelines: the manifest,
/// and the order to write it. The manifest is written whatever the
/// pipelines gave, also when both gave nothing.
pub fn build_assets(
    cfg: &PacklerConfig,
    images: Result<Vec<AssetMetadata>, Error>,
    sass: Result<Vec<AssetMetadata>, Error>,
) -> (r: Result<BuildOutput, Error>)
    ensures
        r matches Ok(output) && output.metadata.images@ == stage_result(images)
            && output.metadata.sass@ == stage_result(sass) && writes_manifest(
            output.manifest,
            *cfg,
            output.metadata,
        ),
{
    match build_assets_inner(images, sass) {
        Ok(metadata) => {
            let manifest = write_metadata_file(cfg, &metadata);
            Ok(BuildOutput { metadata, manifest })
        },
        Err(error) => Err(error),
    }
}

/// The directories that hold published assets, to be deleted with all they
/// hold: that of the images, then that of the stylesheets.
pub fn clean_assets(cfg: &PacklerConfig) -> (dirs: Vec<String>)
    ensures
        dirs.deep_view() == seq![cfg.dist_image_path(), cfg.dist_sass_path()],
{
    let mut dirs: Vec<String> = Vec::new();
    dirs.push(cfg.dist_image_dir());
    dirs.push(cfg.dist_sass_dir());
    assert(dirs.deep_view() =~= seq![cfg.dist_image_path(), cfg.dist_sass_path()]);
    dirs
}

/// Plans the deploy of a freshly built manifest. Without a configured
/// bucket nothing is sent and the result is `BucketNotConfigured`;
/// otherwise the plan holds one upload per asset, the manifest file, and
/// the CORS rule of the bucket.
pub fn deploy_assets(params: &PacklerParams, cfg: &PacklerConfig, metadata: &AssetsOutput) -> (r:
    Result<DeployPlan, Error>)
    ensures
        match params.bucket_asset {
            Some(target) => r matches Ok(plan) && deploys(plan, target, *cfg, *metadata),
            None => r == Err::<DeployPlan, Error>(Error::BucketNotConfigured),
        },
{
    match &params.bucket_asset {
        Some(target) => {
            let bucket = AssetBucket::new(target);
            let uploads = bucket.send_assets(cfg, metadata);
            let manifest = write_metadata_file(cfg, metadata);
            let cors = bucket.send_cors();
            Ok(DeployPlan { uploads, manifest, cors })
        },
        None => Err(Error::BucketNotConfigured),
    }
}

/// How a batch of work ended, for the exit code of the process.
#[derive(Debug, Clone, Copy, PartialEq, Eq, Structural)]
pub enum BatchStatus {
    /// Every item went through (also when there was none).
    Succeeded,
    /// Some items went through, some were dropped.
    Partial,
    /// There were items and every one was dropped.
    Failed,
}

/// The status of a batch of `attempted` items of which `succeeded` went through.
pub open spec fn status_of(attempted: usize, succeeded: usize) -> BatchStatus {
    if succeeded >= attempted {
        BatchStatus::Succeeded
    } else if succeeded == 0 {
        BatchStatus::Failed
    } else {
        BatchStatus::Partial
    }
}

/// Tells apart a batch that fully succeeded, one that partly succeeded and
/// one that fully failed.
pub fn batch_status(attempted: usize, succeeded: usize) -> (status: BatchStatus)
    ensures
        status == status_of(attempted, succeeded),
{
    if succeeded >= attempted {
        BatchStatus::Succeeded
    } else if succeeded == 0 {
        BatchStatus::Failed
    } else {
        BatchStatus::Partial
    }
}

/// The exit code that reports a status: 0 for success, 1 for failure, 2
/// for partial success.
pub fn exit_code(status: BatchStatus) -> (code: u8)
    ensures
        code == match status {
            BatchStatus::Succeeded => 0u8,
            BatchStatus::Failed => 1u8,
            BatchStatus::Partial => 2u8,
        },
{
    match status {
        BatchStatus::Succeeded => 0,
        BatchStatus::Failed => 1,
        BatchStatus::Partial => 2,
    }
}

/// How many items were taken up and how many of them went through.
#[derive(Debug, Clone, Copy, PartialEq, Eq, Structural)]
pub struct Tally {
    pub attempted: usize,
    pub succeeded: usize,
}

/// The sum of two counts, held at the largest count there is.
pub open spec fn capped_sum(a: usize, b: usize) -> usize {
    if a + b > usize::MAX {
        usize::MAX
    } else {
        (a + b) as usize
    }
}

/// What a stage adds to the tally. A stage that ended takes up `attempted`
/// items, of which as many went through as it returned assets; a stage
/// that failed as a whole counts as one item that did not go through.
pub open spec fn stage_counts(attempted: usize, stage: Result<Vec<AssetMetadata>, Error>) -> Tally {
    match stage {
        Ok(assets) => Tally { attempted, succeeded: assets@.len() as usize },
        Err(_) => Tally { attempted: 1, succeeded: 0 },
    }
}

/// Two tallies put together.
pub open spec fn merged(a: Tally, b: Tally) -> Tally {
    Tally {
        attempted: capped_sum(a.attempted, b.attempted),
        succeeded: capped_sum(a.succeeded, b.succeeded),
    }
}

fn add_capped(a: usize, b: usize) -> (sum: usize)
    ensures
        sum == capped_sum(a, b),
{
    if a > usize::MAX - b {
        usize::MAX
    } else {
        a + b
    }
}

impl Tally {
    /// The tally of nothing.
    pub fn new() -> (tally: Self)
        ensures
            tally == (Tally { attempted: 0, succeeded: 0 }),
    {
        Tally { attempted: 0, succeeded: 0 }
    }

    /// Adds the items of `other`.
    pub fn merge(&mut self, other: Tally)
        ensures
            *final(self) == merged(*old(self), other),
    {
        self.attempted = add_capped(self.attempted, other.attempted);
        self.succeeded = add_capped(self.succeeded, other.succeeded);
    }

    /// Whether everything went through, some of it, or nothing.
    pub fn status(&self) -> (status: BatchStatus)
        ensures
            status == status_of(self.attempted, self.succeeded),
    {
        batch_status(self.attempted, self.succeeded)
    }
}

/// What a stage adds to the tally, given how many items it took up and
/// how it ended.
pub fn stage_tally(attempted: usize, stage: &Result<Vec<AssetMetadata>, Error>) -> (tally: Tally)
    ensures
        tally == stage_counts(attempted, *stage),
{
    match stage {
        Ok(assets) => Tally { attempted, succeeded: assets.len() },
        Err(_) => Tally { attempted: 1, succeeded: 0 },
    }
}

/// The tally of a build: the images that the walk found against those in
/// place, and the entry points against the stylesheets published.
pub fn build_tally(
    images_found: usize,
    images: &Result<Vec<AssetMetadata>, Error>,
    entry_points: usize,
    sass: &Result<Vec<AssetMetadata>, Error>,
) -> (tally: Tally)
    ensures
        tally == merged(stage_counts(images_found, *images), stage_counts(entry_points, *sass)),
{
    let mut tally = stage_tally(images_found, images);
    tally.merge(stage_tally(entry_points, sass));
    tally
}

/// The tally of the uploads of a deploy: the requests of the plan against
/// those that went through.
pub fn upload_tally(plan: &DeployPlan, sent: usize) -> (tally: Tally)
    ensures
        tally.attempted == plan.uploads@.len(),
        tally.succeeded == (if sent <= plan.uploads@.len() {
            sent
        } else {
            plan.uploads@.len() as usize
        }),
{
    let planned = plan.uploads.len();
    Tally {
        attempted: planned,
        succeeded: if sent <= planned {
            sent
        } else {
            planned
        },
    }
}

} // verus!
