//! What a run is asked to do, and where things live on disk.

use vstd::prelude::*;
use crate::paths::{join, join_paths};
use crate::pipelines::assets::bucket::AssetsBucketParams;

verus! {

pub const DEFAULT_SASS_VERSION: &'static str = "1.59.3";

pub const DEFAULT_OUTPUT_DIR: &'static str = "dist";

pub const DEFAULT_ASSETS_DIR: &'static str = "assets";

pub const DEFAULT_IMAGES_DIR: &'static str = "images";

pub const DEFAULT_SASS_DIR: &'static str = "css";

pub const DEFAULT_METADATA_FILENAME: &'static str = "assets.json";

/// What the project asks Packler to handle.
#[derive(Debug, Clone, PartialEq, Eq)]
pub struct PacklerParams {
    /// The stylesheet entry points, relative to the stylesheet source
    /// directory. Each is compiled to CSS.
    pub sass_entrypoints: Vec<String>,
    /// The name of the backend crate.
    pub backend_crate: Option<String>,
    /// The names of the frontend crates.
    pub frontend_crates: Vec<String>,
    /// Where assets are uploaded on deploy, if anywhere.
    pub bucket_asset: Option<AssetsBucketParams>,
}

impl PacklerParams {
    pub fn new(
        sass_entrypoints: Vec<String>,
        frontend_crates: Vec<String>,
        backend_crate: Option<String>,
        bucket_asset: Option<AssetsBucketParams>,
    ) -> (params: Self)
        ensures
            params.sass_entrypoints == sass_entrypoints,
            params.frontend_crates == frontend_crates,
            params.backend_crate == backend_crate,
            params.bucket_asset == bucket_asset,
    {
        Self { sass_entrypoints, backend_crate, frontend_crates, bucket_asset }
    }
}

/// Where sources are read and results written. Every field can be set by
/// the user; `with_target` fills in the usual layout.
#[derive(Debug, Clone, PartialEq, Eq)]
pub struct PacklerConfig {
    /// Directory that holds the assets to process (images, stylesheets).
    pub assets_source_dir: String,
    /// The subdirectory of `assets_source_dir` that holds the images; the
    /// processed images go to the subdirectory of that name in `dist_dir`.
    pub images_dir_name: String,
    /// The subdirectory of `assets_source_dir` that holds the stylesheet
    /// sources; the compiled ones go to the subdirectory of that name in
    /// `dist_dir`.
    pub sass_dir_name: String,
    /// The version of the Sass compiler to use.
    pub sass_version: String,
    /// The build directory, where intermediate files are put.
    pub target: String,
    /// The directory that receives every processed asset. Its content can be
    /// served as it is, or sent to a CDN.
    pub dist_dir: String,
    /// The name of the manifest file, which lies in `dist_dir`.
    pub metadata_filename: String,
}

impl PacklerConfig {
    /// The usual layout around the build directory `target`.
    pub fn with_target(target: String) -> (config: Self)
        ensures
            config.assets_source_dir@ == DEFAULT_ASSETS_DIR@,
            config.images_dir_name@ == DEFAULT_IMAGES_DIR@,
            config.sass_dir_name@ == DEFAULT_SASS_DIR@,
            config.sass_version@ == DEFAULT_SASS_VERSION@,
            config.target == target,
            config.dist_dir@ == DEFAULT_OUTPUT_DIR@,
            config.metadata_filename@ == DEFAULT_METADATA_FILENAME@,
    {
        Self {
            assets_source_dir: DEFAULT_ASSETS_DIR.to_owned(),
            images_dir_name: DEFAULT_IMAGES_DIR.to_owned(),
            sass_dir_name: DEFAULT_SASS_DIR.to_owned(),
            sass_version: DEFAULT_SASS_VERSION.to_owned(),
            target,
            dist_dir: DEFAULT_OUTPUT_DIR.to_owned(),
            metadata_filename: DEFAULT_METADATA_FILENAME.to_owned(),
        }
    }

    pub open spec fn metadata_file_path(&self) -> Seq<char> {
        join(self.dist_dir@, self.metadata_filename@)
    }

    pub open spec fn source_image_path(&self) -> Seq<char> {
        join(self.assets_source_dir@, self.images_dir_name@)
    }

    pub open spec fn dist_image_path(&self) -> Seq<char> {
        join(self.dist_dir@, self.images_dir_name@)
    }

    pub open spec fn source_sass_path(&self) -> Seq<char> {
        join(self.assets_source_dir@, self.sass_dir_name@)
    }

    pub open spec fn dist_sass_path(&self) -> Seq<char> {
        join(self.dist_dir@, self.sass_dir_name@)
    }

    /// Where the manifest is written.
    pub fn metadata_file(&self) -> (path: String)
        ensures
            path@ == self.metadata_file_path(),
    {
        join_paths(self.dist_dir.as_str(), self.metadata_filename.as_str())
    }

    /// Where the image sources are read.
    pub fn source_image_dir(&self) -> (path: String)
        ensures
            path@ == self.source_image_path(),
    {
        join_paths(self.assets_source_dir.as_str(), self.images_dir_name.as_str())
    }

    /// Where the processed images are written.
    pub fn dist_image_dir(&self) -> (path: String)
        ensures
            path@ == self.dist_image_path(),
    {
        join_paths(self.dist_dir.as_str(), self.images_dir_name.as_str())
    }

    /// Where the stylesheet sources are read.
    pub fn source_sass_dir(&self) -> (path: String)
        ensures
            path@ == self.source_sass_path(),
    {
        join_paths(self.assets_source_dir.as_str(), self.sass_dir_name.as_str())
    }

    /// Where the compiled stylesheets are written.
    pub fn dist_sass_dir(&self) -> (path: String)
        ensures
            path@ == self.dist_sass_path(),
    {
        join_paths(self.dist_dir.as_str(), self.sass_dir_name.as_str())
    }
}

} // verus!
