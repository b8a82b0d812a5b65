//! The image pipeline.
//!
//! Images are not transformed. Each file found below the image source
//! directory is fingerprinted and copied to the output directory under a
//! name that embeds the fingerprint. Walking the directory, reading and
//! copying are done by the caller; this module turns what the walk found
//! into records and copy orders, and settles which records remain when some
//! copies fail.

use vstd::prelude::*;
use crate::config::PacklerConfig;
use crate::fingerprint::{fingerprint, hashed_path, hashed_path_of, seahash_of};
use crate::paths::{is_absolute, join, join_paths, relative_path, relative_to};
use crate::pipelines::assets::{lemma_records_push, records_of, AssetMetadata, AssetRecord, Error};

verus! {

broadcast use vstd::multiset::group_multiset_axioms;

/// Summary of an image build.
#[derive(Debug, Clone, PartialEq, Eq)]
pub struct ImageProcessOutput {
    pub generated_at: u64,
    pub source_dir: String,
    pub files: Vec<AssetMetadata>,
}

/// What the walk found at one place below the image source directory.
#[derive(Debug, Clone, PartialEq, Eq)]
pub enum EntryContent {
    /// A regular file, with all its bytes.
    File(Vec<u8>),
    /// A directory or anything else that is not a regular file.
    NotAFile,
    /// The entry could not be listed or read, for the reason given.
    Unreadable(String),
}

/// One entry of the walk.
#[derive(Debug, Clone, PartialEq, Eq)]
pub struct ImageEntry {
    pub path: String,
    pub content: EntryContent,
}

/// An order to copy one file. The directory of `to` is created first.
#[derive(Debug, Clone, PartialEq, Eq)]
pub struct CopyJob {
    pub from: String,
    pub to: String,
}

/// What has to happen on disk for the images of one build.
#[derive(Debug, Clone, PartialEq, Eq)]
pub struct ImagePlan {
    /// The records of the images, in the order of the walk.
    pub images: Vec<AssetMetadata>,
    /// The directory to delete, with all it holds, before any copy.
    pub clean: String,
    /// The copies to make, one per record and in the same order.
    pub copies: Vec<CopyJob>,
    /// How many entries of the walk were meant to become images: all but
    /// those that are not regular files.
    pub found: usize,
}

/// The record of the image at `path` whose bytes have the fingerprint
/// `hash`. Both paths of a record are relative: there is no record when
/// `path` does not lie under the asset source directory.
pub open spec fn record_for(config: PacklerConfig, path: Seq<char>, hash: u64) -> Option<
    AssetRecord,
> {
    match relative_to(path, config.assets_source_dir@) {
        Some(logical) => Some(
            AssetRecord {
                source_path: path,
                logical_path: logical,
                processed_relative_path: hashed_path(logical, hash),
                hash,
            },
        ),
        None => None,
    }
}

/// The record that an entry of the walk gives rise to, if any: only a
/// regular file under the asset source directory has one, and its
/// fingerprint is that of the bytes found.
pub open spec fn entry_record(config: PacklerConfig, entry: ImageEntry) -> Option<AssetRecord> {
    match entry.content {
        EntryContent::File(bytes) => record_for(config, entry.path@, seahash_of(bytes@)),
        _ => None,
    }
}

/// The records of a walk: those of its entries that have one, in order.
pub open spec fn image_records(config: PacklerConfig, entries: Seq<ImageEntry>) -> Seq<
    AssetRecord,
>
    decreases entries.len(),
{
    if entries.len() == 0 {
        Seq::empty()
    } else {
        let before = image_records(config, entries.drop_last());
        match entry_record(config, entries.last()) {
            Some(record) => before.push(record),
            None => before,
        }
    }
}

/// How many entries of a walk were meant to become images: the regular
/// files and the entries that could not be read. Directories do not count.
pub open spec fn found_count(entries: Seq<ImageEntry>) -> nat
    decreases entries.len(),
{
    if entries.len() == 0 {
        0
    } else {
        let one: nat = if entries.last().content is NotAFile {
            0
        } else {
            1
        };
        found_count(entries.drop_last()) + one
    }
}

/// Whether `job` copies the source of `record` to its place in the output directory.
pub open spec fn copies_record(config: PacklerConfig, job: CopyJob, record: AssetRecord) -> bool {
    &&& job.from@ == record.source_path
    &&& job.to@ == join(config.dist_dir@, record.processed_relative_path)
}

/// The records whose copy succeeded, in order. A record without a reported
/// outcome counts as not copied.
pub open spec fn copied_records(
    images: Seq<AssetMetadata>,
    outcomes: Seq<Result<(), String>>,
) -> Seq<AssetRecord>
    decreases images.len(),
{
    if images.len() == 0 {
        Seq::empty()
    } else {
        let i = images.len() - 1;
        let before = copied_records(images.drop_last(), outcomes);
        if i < outcomes.len() && outcomes[i] is Ok {
            before.push(images.last()@)
        } else {
            before
        }
    }
}

/// The records of a walk extended by one entry.
pub proof fn lemma_image_records_push(
    config: PacklerConfig,
    entries: Seq<ImageEntry>,
    entry: ImageEntry,
)
    ensures
        image_records(config, entries.push(entry)) == match entry_record(config, entry) {
            Some(record) => image_records(config, entries).push(record),
            None => image_records(config, entries),
        },
{
    assert(entries.push(entry).drop_last() == entries);
}

/// The records of two walks put together are the records of each put together.
pub proof fn lemma_image_records_concat(
    config: PacklerConfig,
    a: Seq<ImageEntry>,
    b: Seq<ImageEntry>,
)
    ensures
        image_records(config, a + b) == image_records(config, a) + image_records(config, b),
    decreases b.len(),
{
    if b.len() == 0 {
        assert(a + b == a);
    } else {
        assert((a + b).drop_last() == a + b.drop_last());
        lemma_image_records_concat(config, a, b.drop_last());
    }
}

/// The order of the walk does not matter: two walks that list the same
/// entries, in whatever order, give the same records, each as often.
pub proof fn lemma_walk_order_does_not_matter(
    config: PacklerConfig,
    first: Seq<ImageEntry>,
    second: Seq<ImageEntry>,
)
    requires
        first.to_multiset() == second.to_multiset(),
    ensures
        image_records(config, first).to_multiset() == image_records(config, second).to_multiset(),
    decreases first.len(),
{
    vstd::seq_lib::to_multiset_len(first);
    vstd::seq_lib::to_multiset_len(second);
    if first.len() == 0 {
        assert(second.len() == 0);
    } else {
        let x = first.last();
        let before = first.drop_last();
        assert(first == before.push(x));
        vstd::seq_lib::to_multiset_build(before, x);
        vstd::seq_lib::to_multiset_contains(second, x);
        assert(second.to_multiset().count(x) > 0);
        let j = choose|j: int| 0 <= j < second.len() && second[j] == x;
        let rest = second.remove(j);
        vstd::seq_lib::to_multiset_remove(second, j);
        assert(rest.to_multiset() =~= before.to_multiset());
        lemma_walk_order_does_not_matter(config, before, rest);
        let one = image_records(config, seq![x]);
        let head = second.take(j);
        let tail = second.skip(j + 1);
        assert(second == head + seq![x] + tail);
        assert(rest == head + tail);
        assert(first == before + seq![x]);
        lemma_image_records_concat(config, before, seq![x]);
        lemma_image_records_concat(config, head + seq![x], tail);
        lemma_image_records_concat(config, head, seq![x]);
        lemma_image_records_concat(config, head, tail);
        let rh = image_records(config, head);
        let rt = image_records(config, tail);
        let rb = image_records(config, before);
        vstd::seq_lib::lemma_multiset_commutative(rb, one);
        vstd::seq_lib::lemma_multiset_commutative(rh + one, rt);
        vstd::seq_lib::lemma_multiset_commutative(rh, one);
        vstd::seq_lib::lemma_multiset_commutative(rh, rt);
        assert(image_records(config, second).to_multiset() =~= image_records(
            config,
            rest,
        ).to_multiset().add(one.to_multiset()));
        assert(image_records(config, first).to_multiset() =~= rb.to_multiset().add(
            one.to_multiset(),
        ));
    }
}

/// Every regular file of the walk that lies under the asset source
/// directory has its record in the result: the published path of that
/// record is the file's path below the asset source directory with the
/// fingerprint of the file's own bytes inserted.
pub proof fn lemma_every_image_is_recorded(
    config: PacklerConfig,
    entries: Seq<ImageEntry>,
    i: int,
)
    requires
        0 <= i < entries.len(),
        entries[i].content is File,
        relative_to(entries[i].path@, config.assets_source_dir@) is Some,
    ensures
        ({
            let hash = seahash_of(entries[i].content->File_0@);
            let logical = relative_to(entries[i].path@, config.assets_source_dir@)->Some_0;
            image_records(config, entries).contains(
                AssetRecord {
                    source_path: entries[i].path@,
                    logical_path: logical,
                    processed_relative_path: hashed_path(logical, hash),
                    hash,
                },
            )
        }),
    decreases entries.len(),
{
    let all = image_records(config, entries);
    let before = image_records(config, entries.drop_last());
    let record = entry_record(config, entries[i])->Some_0;
    if i == entries.len() - 1 {
        assert(all[before.len() as int] == record);
    } else {
        lemma_every_image_is_recorded(config, entries.drop_last(), i);
        let k = choose|k: int| 0 <= k < before.len() && before[k] == record;
        assert(all[k] == record);
    }
}

/// Both paths of a record are relative, so the copy of an image lands
/// under the output directory.
pub proof fn lemma_record_is_relative(config: PacklerConfig, path: Seq<char>, hash: u64)
    requires
        record_for(config, path, hash) is Some,
    ensures
        !is_absolute(record_for(config, path, hash)->Some_0.logical_path),
        !is_absolute(record_for(config, path, hash)->Some_0.processed_relative_path),
{
    let logical = relative_to(path, config.assets_source_dir@)->Some_0;
    crate::fingerprint::lemma_hashed_path_keeps_directories(logical, hash);
}

/// New content, new name: when the bytes of an image change their
/// fingerprint, its processed path changes too, so the object deployed for
/// the older bytes is never written over.
pub proof fn lemma_new_content_new_path(config: PacklerConfig, path: Seq<char>, h1: u64, h2: u64)
    requires
        record_for(config, path, h1) is Some,
        record_for(config, path, h1)->Some_0.processed_relative_path == record_for(
            config,
            path,
            h2,
        )->Some_0.processed_relative_path,
    ensures
        h1 == h2,
{
    let logical = relative_to(path, config.assets_source_dir@)->Some_0;
    crate::fingerprint::lemma_hashed_path_injective(logical, h1, h2);
}

/// The records of a walk are settled by the paths and the bytes found:
/// two walks that find the same files with the same bytes give the same
/// records, fingerprints and processed paths included.
pub proof fn lemma_unchanged_content_same_records(
    config: PacklerConfig,
    first: Seq<ImageEntry>,
    second: Seq<ImageEntry>,
)
    requires
        first.len() == second.len(),
        forall|i: int|
            0 <= i < first.len() ==> (#[trigger] first[i]).path@ == second[i].path@ && (
            first[i].content is File) == (second[i].content is File) && (first[i].content is File
                ==> first[i].content->File_0@ == second[i].content->File_0@),
    ensures
        image_records(config, first) == image_records(config, second),
    decreases first.len(),
{
    if first.len() > 0 {
        let a = first.drop_last();
        let b = second.drop_last();
        assert forall|i: int| 0 <= i < a.len() implies (#[trigger] a[i]).path@ == b[i].path@ && (
        a[i].content is File) == (b[i].content is File) && (a[i].content is File
            ==> a[i].content->File_0@ == b[i].content->File_0@) by {
            assert(a[i] == first[i]);
            assert(b[i] == second[i]);
        }
        lemma_unchanged_content_same_records(config, a, b);
        assert(first.last() == first[first.len() - 1]);
        assert(second.last() == second[second.len() - 1]);
    }
}

/// The record of the image at `path` once the fingerprint of its bytes is
/// known. Fails with `NotUnderRoot` exactly when `path` does not lie under
/// the asset source directory.
pub fn record(config: &PacklerConfig, path: &str, hash: u64) -> (r: Result<AssetMetadata, Error>)
    ensures
        match record_for(*config, path@, hash) {
            Some(record) => r matches Ok(metadata) && metadata@ == record,
            None => r matches Err(Error::NotUnderRoot(named)) && named@ == path@,
        },
        r matches Ok(metadata) ==> !is_absolute(metadata@.logical_path) && !is_absolute(
            metadata@.processed_relative_path,
        ),
{
    match relative_path(path, config.assets_source_dir.as_str()) {
        Some(logical) => {
            let processed_relative_path = hashed_path_of(logical.as_str(), hash);
            Ok(
                AssetMetadata {
                    source_path: path.to_owned(),
                    logical_path: logical,
                    processed_relative_path,
                    hash,
                },
            )
        },
        None => Err(Error::NotUnderRoot(path.to_owned())),
    }
}

/// The copy that puts the source of `image` at its published place.
pub fn copy_job(config: &PacklerConfig, image: &AssetMetadata) -> (job: CopyJob)
    ensures
        copies_record(*config, job, image@),
{
    CopyJob {
        from: image.source_path.clone(),
        to: join_paths(config.dist_dir.as_str(), image.processed_relative_path.as_str()),
    }
}

/// Turns what the walk found into the plan of the image stage. Entries that
/// are not regular files, that could not be read, or that lie outside the
/// asset source directory are left out; none of them stops the others.
pub fn process(config: &PacklerConfig, entries: Vec<ImageEntry>) -> (plan: ImagePlan)
    ensures
        records_of(plan.images@) == image_records(*config, entries@),
        plan.found == found_count(entries@),
        plan.clean@ == config.dist_image_path(),
        plan.copies@.len() == plan.images@.len(),
        forall|i: int|
            0 <= i < plan.images@.len() ==> copies_record(
                *config,
                #[trigger] plan.copies@[i],
                plan.images@[i]@,
            ),
{
    let mut images: Vec<AssetMetadata> = Vec::new();
    let mut copies: Vec<CopyJob> = Vec::new();
    let mut found: usize = 0;
    let ghost all = entries@;
    let count = entries.len();
    assert(records_of(images@) =~= image_records(*config, all.take(0)));
    for entry in it: entries
        invariant
            it.seq() == all,
            all.len() == count,
            found <= it.index(),
            found == found_count(all.take(it.index() as int)),
            records_of(images@) == image_records(*config, all.take(it.index() as int)),
            copies@.len() == images@.len(),
            forall|i: int|
                0 <= i < images@.len() ==> copies_record(
                    *config,
                    #[trigger] copies@[i],
                    images@[i]@,
                ),
    {
        proof {
            let i = it.index() as int;
            assert(all.take(i + 1) == all.take(i).push(entry));
            assert(all.take(i + 1).drop_last() == all.take(i));
            lemma_image_records_push(*config, all.take(i), entry);
        }
        match &entry.content {
            EntryContent::NotAFile => {},
            _ => {
                found = found + 1;
            },
        }
        match entry.content {
            EntryContent::File(bytes) => {
                let hash = fingerprint(bytes.as_slice());
                match record(config, entry.path.as_str(), hash) {
                    Ok(metadata) => {
                        proof {
                            lemma_records_push(images@, metadata);
                        }
                        copies.push(copy_job(config, &metadata));
                        images.push(metadata);
                    },
                    Err(_) => {},
                }
            },
            _ => {},
        }
    }
    assert(all.take(all.len() as int) == all);
    ImagePlan { images, clean: config.dist_image_dir(), copies, found }
}

/// Settles the result of the image stage once the copies were attempted:
/// an image stays in the result exactly when its copy succeeded. A failed
/// copy drops that image only.
pub fn keep_copied(images: Vec<AssetMetadata>, outcomes: &Vec<Result<(), String>>) -> (kept: Vec<
    AssetMetadata,
>)
    ensures
        records_of(kept@) == copied_records(images@, outcomes@),
{
    let mut kept: Vec<AssetMetadata> = Vec::new();
    let ghost all = images@;
    let count = images.len();
    let mut i: usize = 0;
    assert(records_of(kept@) =~= copied_records(all.take(0), outcomes@));
    for image in it: images
        invariant
            it.seq() == all,
            all.len() == count,
            i == it.index(),
            records_of(kept@) == copied_records(all.take(it.index() as int), outcomes@),
    {
        proof {
            assert(all.take(i + 1).drop_last() == all.take(i as int));
            lemma_records_push(kept@, image);
        }
        if i < outcomes.len() {
            if outcomes[i].is_ok() {
                kept.push(image);
            }
        }
        i = i + 1;
    }
    assert(all.take(all.len() as int) == all);
    kept
}

} // verus!
