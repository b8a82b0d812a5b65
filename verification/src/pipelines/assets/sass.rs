//! The stylesheet pipeline.
//!
//! Every entry point goes through the same steps: check that the source
//! exists, compile it into a scratch directory, read and fingerprint the
//! result, move it to its published name. The steps themselves (running the
//! compiler, touching files) are done by the caller; this module decides
//! what to do next and what each outcome means. One entry point failing
//! never affects another.

use vstd::prelude::*;
use crate::common::{command_failure, run_command, CommandOutcome};
use crate::config::PacklerConfig;
use crate::fingerprint::{
    fingerprint, hash_hex, lemma_hash_hex_injective, lemma_hex_fixed_len,
    lemma_stylesheet_file_name_is_segment, seahash_of, stylesheet_file_name,
    stylesheet_file_name_of,
};
use crate::paths::{
    file_name, is_absolute, is_dots, is_plain, join, last_segment, join_paths, lemma_join_plain, lemma_join_twice,
    lemma_strip_join, lemma_with_file_name_join, name_start, parent_prefix, plain_chars,
    relative_path,
    relative_to, replace_extension, replace_file_name, starts_with_dot_segment, strip_prefix,
    with_extension, with_file_name,
};
use crate::pipelines::assets::{lemma_records_push, records_of, AssetMetadata, AssetRecord, Error};
use crate::text::from_chars;

verus! {

/// The name under which the compiler is reported in messages.
pub const SASS_NAME: &'static str = "sass";

/// Summary of a stylesheet build.
#[derive(Debug, Clone, PartialEq, Eq)]
pub struct SassOutput {
    pub generated_at: u64,
    pub files: Vec<AssetMetadata>,
}

/// What became of one entry point.
#[derive(Debug, Clone, PartialEq, Eq)]
pub struct SassEntrypointOutput {
    pub original_file_name: String,
    pub output_file_name: String,
    pub hash: String,
}

/// One invocation of the compiler.
#[derive(Debug, Clone, PartialEq, Eq)]
pub struct CompileJob {
    /// The stylesheet source to compile.
    pub source_path: String,
    /// Where the compiler writes the CSS.
    pub output_path: String,
    /// The full argument list for the compiler.
    pub args: Vec<String>,
}

/// How far the processing of one entry point has come.
#[derive(Debug, Clone, PartialEq, Eq)]
pub enum EntryState {
    /// Waiting to learn whether the source file exists.
    Probing,
    /// Waiting for the compiler.
    Compiling,
    /// Waiting for the bytes of the compiled file.
    Reading,
    /// Waiting for the compiled file to reach its published place. Holds
    /// the record that will be emitted.
    Moving(AssetMetadata),
    /// Finished: the asset is in place.
    Done(AssetMetadata),
    /// Finished: the entry point is dropped.
    Failed(Error),
}

/// The outcome of the action that was pending.
#[derive(Debug, Clone, PartialEq, Eq)]
pub enum EntryEvent {
    /// Whether the source file exists.
    Exists(bool),
    /// How the compiler run ended.
    Ran(CommandOutcome),
    /// The bytes of the compiled file.
    Content(Vec<u8>),
    /// The compiled file is at its published place and the scratch copy is gone.
    Moved,
    /// The pending file operation failed, for the reason given.
    IoFailed(String),
}

/// What the caller has to do next for an entry point.
#[derive(Debug, Clone, PartialEq, Eq)]
pub enum EntryAction {
    /// Find out whether a file exists at the path.
    Probe(String),
    /// Run the compiler.
    Compile(CompileJob),
    /// Read the whole file at the path.
    Read(String),
    /// Create the directory of `to`, copy `from` to `to`, then delete
    /// `from`. A rename would keep the security label of the scratch
    /// directory on the file, so it is copied.
    Move { from: String, to: String },
    /// Nothing: the entry point is finished.
    Stop,
}

/// The records of the entry points that ended in `Done`, in the order of
/// the entry points. Every other entry point contributes nothing.
pub open spec fn done_records(states: Seq<EntryState>) -> Seq<AssetRecord>
    decreases states.len(),
{
    if states.len() == 0 {
        Seq::empty()
    } else {
        let before = done_records(states.drop_last());
        match states.last() {
            EntryState::Done(metadata) => before.push(metadata@),
            _ => before,
        }
    }
}

/// A single entry point gives its record when it ended in `Done`, and nothing otherwise.
pub proof fn lemma_done_records_single(state: EntryState)
    ensures
        done_records(seq![state]) == match state {
            EntryState::Done(metadata) => seq![metadata@],
            _ => Seq::<AssetRecord>::empty(),
        },
{
    reveal_with_fuel(done_records, 2);
    assert(seq![state].drop_last() == Seq::<EntryState>::empty());
}

/// The records of two runs of entry points put together are the records of
/// each put together.
pub proof fn lemma_done_records_concat(a: Seq<EntryState>, b: Seq<EntryState>)
    ensures
        done_records(a + b) == done_records(a) + done_records(b),
    decreases b.len(),
{
    if b.len() == 0 {
        assert(a + b == a);
    } else {
        assert((a + b).drop_last() == a + b.drop_last());
        lemma_done_records_concat(a, b.drop_last());
    }
}

/// An entry point that did not end in `Done` (its source is missing, the
/// compiler failed, a file operation failed) leaves no record, and the
/// records of all other entry points are what they would be without it.
pub proof fn lemma_failed_entry_is_dropped(states: Seq<EntryState>, i: int)
    requires
        0 <= i < states.len(),
        !(states[i] is Done),
    ensures
        done_records(states) == done_records(states.remove(i)),
{
    let before = states.take(i);
    let one = seq![states[i]];
    let after = states.skip(i + 1);
    assert(states == before + one + after);
    assert(states.remove(i) == before + after);
    lemma_done_records_concat(before + one, after);
    lemma_done_records_concat(before, one);
    lemma_done_records_concat(before, after);
    lemma_done_records_single(states[i]);
}

/// An entry point that ended in `Done` has its record among the results,
/// whatever became of the others.
pub proof fn lemma_done_entry_is_kept(states: Seq<EntryState>, i: int)
    requires
        0 <= i < states.len(),
        states[i] is Done,
    ensures
        done_records(states).contains(states[i]->Done_0@),
{
    let before = states.take(i);
    let one = seq![states[i]];
    let after = states.skip(i + 1);
    assert(states == before + one + after);
    lemma_done_records_concat(before + one, after);
    lemma_done_records_concat(before, one);
    lemma_done_records_single(states[i]);
    let k = done_records(before).len() as int;
    assert(done_records(states)[k] == states[i]->Done_0@);
}

/// What an entry point contributes to the stage in the state it ended in:
/// its record when it ended in `Done`, nothing otherwise.
pub open spec fn result_of(state: EntryState) -> Option<AssetRecord> {
    match state {
        EntryState::Done(metadata) => Some(metadata@),
        _ => None,
    }
}

/// The result of a stage is settled by what each entry point contributes:
/// two runs in which every entry point contributes the same give the same
/// records in the same order.
pub proof fn lemma_done_records_by_result(first: Seq<EntryState>, second: Seq<EntryState>)
    requires
        first.len() == second.len(),
        forall|i: int| 0 <= i < first.len() ==> result_of(#[trigger] first[i]) == result_of(second[i]),
    ensures
        done_records(first) == done_records(second),
    decreases first.len(),
{
    if first.len() > 0 {
        let a = first.drop_last();
        let b = second.drop_last();
        assert forall|i: int| 0 <= i < a.len() implies result_of(#[trigger] a[i]) == result_of(
            b[i],
        ) by {
            assert(a[i] == first[i]);
            assert(b[i] == second[i]);
        }
        lemma_done_records_by_result(a, b);
        assert(result_of(first[first.len() - 1]) == result_of(second[second.len() - 1]));
    }
}

/// Two fingerprints that give a stylesheet the same published name are the
/// same fingerprint.
pub proof fn lemma_stylesheet_name_injective(entry_name: Seq<char>, h1: u64, h2: u64)
    requires
        stylesheet_file_name(entry_name, h1) == stylesheet_file_name(entry_name, h2),
    ensures
        h1 == h2,
{
    let head = crate::paths::file_stem(entry_name) + seq!['-'];
    let tail = seq!['.', 'c', 's', 's'];
    let x1 = hash_hex(h1);
    let x2 = hash_hex(h2);
    lemma_hex_fixed_len(h1 as nat, 16);
    lemma_hex_fixed_len(h2 as nat, 16);
    let n = head.len() as int;
    assert((head + x1 + tail).subrange(n, n + 16) == x1);
    assert((head + x2 + tail).subrange(n, n + 16) == x2);
    lemma_hash_hex_injective(h1, h2);
}

/// The stylesheet pipeline of one build.
pub struct SassRun {
    config: PacklerConfig,
}

impl SassRun {
    pub closed spec fn config(&self) -> PacklerConfig {
        self.config
    }

    pub fn new(config: PacklerConfig) -> (run: Self)
        ensures
            run.config() == config,
    {
        SassRun { config }
    }

    /// The scratch directory that receives the compiler output.
    pub open spec fn intermediate_path(&self) -> Seq<char> {
        join(join(self.config().target@, "packler"@), "sass"@)
    }

    /// The compiler's `-s` argument.
    pub open spec fn style(compress: bool) -> Seq<char> {
        if compress {
            "compressed"@
        } else {
            "expanded"@
        }
    }

    /// Where the source of an entry point lies.
    pub open spec fn source_of(&self, entry: Seq<char>) -> Seq<char> {
        join(self.config().source_sass_path(), entry)
    }

    /// Where the compiler writes the CSS of an entry point: its path below
    /// the scratch directory, with the extension `css`.
    pub open spec fn scratch_of(&self, entry: Seq<char>) -> Seq<char> {
        with_extension(join(self.intermediate_path(), entry), "css"@)
    }

    /// Where the CSS of an entry point is published: beside the place its
    /// source would take in the output directory, under its fingerprinted name.
    pub open spec fn published_of(&self, entry: Seq<char>, hash: u64) -> Seq<char> {
        with_file_name(
            join(self.config().dist_sass_path(), entry),
            stylesheet_file_name(file_name(self.source_of(entry)), hash),
        )
    }

    /// The argument list for compiling an entry point.
    pub open spec fn args_of(&self, entry: Seq<char>, compress: bool) -> Seq<Seq<char>> {
        seq![
            "--no-source-map"@,
            "-s"@,
            Self::style(compress),
            self.source_of(entry),
            self.scratch_of(entry),
        ]
    }

    /// Whether `job` is the compiler invocation for an entry point.
    pub open spec fn is_job_for(&self, job: CompileJob, entry: Seq<char>, compress: bool) -> bool {
        &&& job.source_path@ == self.source_of(entry)
        &&& job.output_path@ == self.scratch_of(entry)
        &&& job.args.deep_view() == self.args_of(entry, compress)
    }

    /// The record of an entry point whose compiled bytes have the
    /// fingerprint `hash`. Both paths of a record are relative: there is no
    /// record when the source does not lie under the asset directory or
    /// the published path not under the output directory.
    pub open spec fn record_for(&self, entry: Seq<char>, hash: u64) -> Option<AssetRecord> {
        let source = self.source_of(entry);
        match (
            relative_to(source, self.config().assets_source_dir@),
            relative_to(self.published_of(entry, hash), self.config().dist_dir@),
        ) {
            (Some(logical), Some(processed)) => Some(
                AssetRecord {
                    source_path: source,
                    logical_path: logical,
                    processed_relative_path: processed,
                    hash,
                },
            ),
            _ => None,
        }
    }

    /// Whether the paths of the configuration and an entry point are as
    /// they are meant to be: all in plain form, the name of the stylesheet
    /// directory and the entry point relative, not empty, and not
    /// beginning with the segment `.`.
    pub open spec fn well_placed(&self, entry: Seq<char>) -> bool {
        &&& is_plain(self.config().assets_source_dir@)
        &&& is_plain(self.config().dist_dir@)
        &&& is_plain(self.config().sass_dir_name@)
        &&& is_plain(entry)
        &&& !is_absolute(self.config().sass_dir_name@)
        &&& !is_absolute(entry)
        &&& !starts_with_dot_segment(self.config().sass_dir_name@)
        &&& !starts_with_dot_segment(entry)
        &&& !is_dots(last_segment(entry))
        &&& self.config().sass_dir_name@.len() > 0
        &&& entry.len() > 0
    }

    /// The logical path of a well-placed entry point is the entry point
    /// below the name of the stylesheet directory.
    pub proof fn lemma_logical_path_of_entry(&self, entry: Seq<char>)
        requires
            self.well_placed(entry),
        ensures
            relative_to(self.source_of(entry), self.config().assets_source_dir@) == Some(
                join(self.config().sass_dir_name@, entry),
            ),
    {
        let assets = self.config().assets_source_dir@;
        let dir = self.config().sass_dir_name@;
        let below = join(dir, entry);
        lemma_join_plain(dir, entry);
        lemma_join_twice(assets, dir, entry);
        lemma_strip_join(assets, below);
    }

    /// The published file of a well-placed entry point lies in the output
    /// directory beside the place of its logical path, under the name
    /// that holds the fingerprint.
    pub proof fn lemma_published_path_of_entry(&self, entry: Seq<char>, hash: u64)
        requires
            self.well_placed(entry),
        ensures
            relative_to(self.published_of(entry, hash), self.config().dist_dir@) == Some(
                with_file_name(
                    join(self.config().sass_dir_name@, entry),
                    stylesheet_file_name(file_name(self.source_of(entry)), hash),
                ),
            ),
    {
        let dist = self.config().dist_dir@;
        let dir = self.config().sass_dir_name@;
        let below = join(dir, entry);
        let name = stylesheet_file_name(file_name(self.source_of(entry)), hash);
        let beside = with_file_name(below, name);
        assert(is_plain(below) && below.len() > 0 && !is_absolute(below)
            && !starts_with_dot_segment(below) && !is_dots(last_segment(below)) && join(
            self.config().dist_sass_path(),
            entry,
        ) == join(dist, below)) by {
            lemma_join_plain(dir, entry);
            lemma_join_twice(dist, dir, entry);
        }
        assert(name.len() > 0 && !starts_with_dot_segment(name) && (forall|j: int|
            0 <= j < name.len() ==> name[j] != '/')) by {
            crate::paths::lemma_parent_and_file_name(self.source_of(entry));
            lemma_stylesheet_file_name_is_segment(file_name(self.source_of(entry)), hash);
            lemma_hex_fixed_len(hash as nat, 16);
            assert(name.len() >= 2);
            assert(name[1] != '/');
        }
        assert(with_file_name(join(dist, below), name) == join(dist, beside) && is_plain(beside)
            && !is_absolute(beside) && !starts_with_dot_segment(beside) && beside.len() > 0) by {
            lemma_with_file_name_join(dist, below, name);
        }
        assert(strip_prefix(join(dist, beside), dist) == Some(beside)) by {
            lemma_strip_join(dist, beside);
        }
    }

    /// Every well-placed entry point has a record: its logical path is
    /// the entry point below the name of the stylesheet directory, and its
    /// processed path lies beside it, under the name that holds the
    /// fingerprint.
    pub proof fn lemma_relative_entry_has_record(&self, entry: Seq<char>, hash: u64)
        requires
            self.well_placed(entry),
        ensures
            self.record_for(entry, hash) == Some(
                AssetRecord {
                    source_path: self.source_of(entry),
                    logical_path: join(self.config().sass_dir_name@, entry),
                    processed_relative_path: with_file_name(
                        join(self.config().sass_dir_name@, entry),
                        stylesheet_file_name(file_name(self.source_of(entry)), hash),
                    ),
                    hash,
                },
            ),
    {
        self.lemma_logical_path_of_entry(entry);
        self.lemma_published_path_of_entry(entry, hash);
    }

    /// The processed path of a well-placed entry point is the directory
    /// part of its logical path followed by the published name.
    pub proof fn lemma_processed_path_of_entry(&self, entry: Seq<char>, hash: u64)
        requires
            self.well_placed(entry),
        ensures
            self.record_for(entry, hash) is Some,
            self.record_for(entry, hash)->Some_0.processed_relative_path == parent_prefix(
                join(self.config().sass_dir_name@, entry),
            ) + stylesheet_file_name(file_name(self.source_of(entry)), hash),
    {
        let below = join(self.config().sass_dir_name@, entry);
        self.lemma_relative_entry_has_record(entry, hash);
        lemma_join_plain(self.config().sass_dir_name@, entry);
        crate::paths::lemma_plain(below);
    }

    /// New content, new name: when the compiled bytes of an entry point
    /// change their fingerprint, the processed path changes too, so the
    /// object deployed for the older bytes is never written over.
    pub proof fn lemma_new_css_new_path(&self, entry: Seq<char>, h1: u64, h2: u64)
        requires
            self.well_placed(entry),
            self.record_for(entry, h1)->Some_0.processed_relative_path == self.record_for(
                entry,
                h2,
            )->Some_0.processed_relative_path,
        ensures
            h1 == h2,
    {
        self.lemma_processed_path_of_entry(entry, h1);
        self.lemma_processed_path_of_entry(entry, h2);
        let below = join(self.config().sass_dir_name@, entry);
        let entry_name = file_name(self.source_of(entry));
        let n1 = stylesheet_file_name(entry_name, h1);
        let n2 = stylesheet_file_name(entry_name, h2);
        let dir = parent_prefix(below);
        assert((dir + n1).skip(dir.len() as int) == n1);
        assert((dir + n2).skip(dir.len() as int) == n2);
        lemma_stylesheet_name_injective(entry_name, h1, h2);
    }

    /// Whether `end` is a state in which an entry point can end after its
    /// source was found, the compiler exited with code 0, the compiled
    /// file held the bytes `css` and was moved to its place, the steps
    /// being taken by `run` through the states `compiling`, `reading` and
    /// `moving`.
    pub open spec fn goes_through(
        &self,
        entry: Seq<char>,
        compress: bool,
        css: Vec<u8>,
        compiling: (EntryState, EntryAction),
        reading: (EntryState, EntryAction),
        moving: (EntryState, EntryAction),
        end: (EntryState, EntryAction),
    ) -> bool {
        &&& self.steps(
            entry,
            compress,
            EntryState::Probing,
            EntryEvent::Exists(true),
            compiling.0,
            compiling.1,
        )
        &&& self.steps(
            entry,
            compress,
            compiling.0,
            EntryEvent::Ran(CommandOutcome::Exited { success: true }),
            reading.0,
            reading.1,
        )
        &&& self.steps(entry, compress, reading.0, EntryEvent::Content(css), moving.0, moving.1)
        &&& self.steps(entry, compress, moving.0, EntryEvent::Moved, end.0, end.1)
    }

    /// An entry point that goes through every step contributes the record
    /// for the fingerprint of its compiled bytes, and nothing when it has
    /// no record.
    pub proof fn lemma_end_of_entry(
        &self,
        entry: Seq<char>,
        compress: bool,
        css: Vec<u8>,
        compiling: (EntryState, EntryAction),
        reading: (EntryState, EntryAction),
        moving: (EntryState, EntryAction),
        end: (EntryState, EntryAction),
    )
        requires
            self.goes_through(entry, compress, css, compiling, reading, moving, end),
        ensures
            result_of(end.0) == self.record_for(entry, seahash_of(css@)),
    {
    }

    /// An entry point whose source is missing does not keep another from
    /// succeeding: when one entry point is found missing and a well-placed
    /// other goes through every step, the stage returns exactly the record
    /// of the other, whichever of the two comes first. Its logical path is
    /// the entry point below the name of the stylesheet directory.
    pub proof fn lemma_missing_entry_leaves_the_other(
        &self,
        missing: Seq<char>,
        gone: (EntryState, EntryAction),
        entry: Seq<char>,
        compress: bool,
        css: Vec<u8>,
        compiling: (EntryState, EntryAction),
        reading: (EntryState, EntryAction),
        moving: (EntryState, EntryAction),
        end: (EntryState, EntryAction),
    )
        requires
            self.steps(
                missing,
                compress,
                EntryState::Probing,
                EntryEvent::Exists(false),
                gone.0,
                gone.1,
            ),
            self.well_placed(entry),
            self.goes_through(entry, compress, css, compiling, reading, moving, end),
        ensures
            gone.0 matches EntryState::Failed(Error::EntryPointDoesNotExist(named)) && named@
                == missing,
            self.record_for(entry, seahash_of(css@)) is Some,
            done_records(seq![gone.0, end.0]) == seq![
                self.record_for(entry, seahash_of(css@))->Some_0,
            ],
            done_records(seq![end.0, gone.0]) == seq![
                self.record_for(entry, seahash_of(css@))->Some_0,
            ],
            self.record_for(entry, seahash_of(css@))->Some_0.logical_path == join(
                self.config().sass_dir_name@,
                entry,
            ),
    {
        self.lemma_relative_entry_has_record(entry, seahash_of(css@));
        self.lemma_end_of_entry(entry, compress, css, compiling, reading, moving, end);
        lemma_done_records_single(gone.0);
        lemma_done_records_single(end.0);
        lemma_done_records_concat(seq![gone.0], seq![end.0]);
        lemma_done_records_concat(seq![end.0], seq![gone.0]);
        assert(seq![gone.0] + seq![end.0] == seq![gone.0, end.0]);
        assert(seq![end.0] + seq![gone.0] == seq![end.0, gone.0]);
    }

    /// A build is settled by the compiled bytes: two builds over the same
    /// entry points, in each of which every entry point contributes the
    /// record for the fingerprint of the same bytes, return the same
    /// stylesheet records, fingerprints and processed paths included.
    pub proof fn lemma_same_css_same_build(
        &self,
        entries: Seq<Seq<char>>,
        css: Seq<Seq<u8>>,
        first: Seq<EntryState>,
        second: Seq<EntryState>,
    )
        requires
            entries.len() == css.len(),
            first.len() == entries.len(),
            second.len() == entries.len(),
            forall|i: int|
                0 <= i < entries.len() ==> result_of(#[trigger] first[i]) == self.record_for(
                    entries[i],
                    seahash_of(css[i]),
                ),
            forall|i: int|
                0 <= i < entries.len() ==> result_of(#[trigger] second[i]) == self.record_for(
                    entries[i],
                    seahash_of(css[i]),
                ),
        ensures
            done_records(first) == done_records(second),
    {
        lemma_done_records_by_result(first, second);
    }

    /// The record of an entry point is settled by the entry point and the
    /// compiled bytes alone: the same bytes give the same fingerprint, the
    /// same published name and the same record, on every build.
    pub proof fn lemma_same_css_same_record(&self, entry: Seq<char>, css1: Seq<u8>, css2: Seq<u8>)
        requires
            css1 == css2,
        ensures
            self.record_for(entry, seahash_of(css1)) == self.record_for(entry, seahash_of(css2)),
            self.published_of(entry, seahash_of(css1)) == self.published_of(
                entry,
                seahash_of(css2),
            ),
    {
    }

    /// The path that keeps an entry point from having a record: its source
    /// when that lies outside the asset directory, else its published path.
    pub open spec fn outside_path(&self, entry: Seq<char>, hash: u64) -> Seq<char> {
        if relative_to(self.source_of(entry), self.config().assets_source_dir@) is None {
            self.source_of(entry)
        } else {
            self.published_of(entry, hash)
        }
    }

    /// The scratch directory that receives the compiler output.
    pub fn intermediate_dir(&self) -> (path: String)
        ensures
            path@ == self.intermediate_path(),
    {
        let base = join_paths(self.config.target.as_str(), "packler");
        join_paths(base.as_str(), "sass")
    }

    fn source_path(&self, entry: &str) -> (path: String)
        ensures
            path@ == self.source_of(entry@),
    {
        let dir = self.config.source_sass_dir();
        join_paths(dir.as_str(), entry)
    }

    fn scratch_path(&self, entry: &str) -> (path: String)
        ensures
            path@ == self.scratch_of(entry@),
    {
        let dir = self.intermediate_dir();
        let raw = join_paths(dir.as_str(), entry);
        replace_extension(raw.as_str(), "css")
    }

    /// Where the CSS of `entry` is published when its bytes have the
    /// fingerprint `hash`.
    pub fn published_path(&self, entry: &str, hash: u64) -> (path: String)
        ensures
            path@ == self.published_of(entry@, hash),
    {
        let source = self.source_path(entry);
        let chars = plain_chars(source.as_str());
        let start = name_start(&chars);
        let entry_name = from_chars(&chars, start, chars.len());
        assert(chars@.subrange(start as int, chars@.len() as int) == file_name(source@));
        let name = stylesheet_file_name_of(entry_name.as_str(), hash);
        let dir = self.config.dist_sass_dir();
        let beside = join_paths(dir.as_str(), entry);
        replace_file_name(beside.as_str(), name.as_str())
    }

    /// The compiler invocation for `entry`.
    pub fn compile_job(&self, entry: &str, compress: bool) -> (job: CompileJob)
        ensures
            self.is_job_for(job, entry@, compress),
    {
        let source_path = self.source_path(entry);
        let output_path = self.scratch_path(entry);
        let style = if compress {
            "compressed"
        } else {
            "expanded"
        };
        let mut args: Vec<String> = Vec::new();
        args.push("--no-source-map".to_owned());
        args.push("-s".to_owned());
        args.push(style.to_owned());
        args.push(source_path.clone());
        args.push(output_path.clone());
        assert(args.deep_view() =~= self.args_of(entry@, compress));
        CompileJob { source_path, output_path, args }
    }

    /// The record of `entry` once its compiled bytes have the fingerprint
    /// `hash`. Fails with `NotUnderRoot` exactly when there is no such
    /// record, naming the path that lies outside.
    pub fn record(&self, entry: &str, hash: u64) -> (r: Result<AssetMetadata, Error>)
        ensures
            match self.record_for(entry@, hash) {
                Some(record) => r matches Ok(metadata) && metadata@ == record,
                None => r matches Err(Error::NotUnderRoot(path)) && path@ == self.outside_path(
                    entry@,
                    hash,
                ),
            },
            r matches Ok(metadata) ==> !is_absolute(metadata@.logical_path) && !is_absolute(
                metadata@.processed_relative_path,
            ),
    {
        let source = self.source_path(entry);
        let logical = match relative_path(source.as_str(), self.config.assets_source_dir.as_str()) {
            Some(logical) => logical,
            None => {
                return Err(Error::NotUnderRoot(source));
            },
        };
        let published = self.published_path(entry, hash);
        let processed = match relative_path(published.as_str(), self.config.dist_dir.as_str()) {
            Some(processed) => processed,
            None => {
                return Err(Error::NotUnderRoot(published));
            },
        };
        Ok(
            AssetMetadata {
                source_path: source,
                logical_path: logical,
                processed_relative_path: processed,
                hash,
            },
        )
    }

    /// What `run` does: from a state and the outcome of the pending action
    /// to the next state and the next action.
    pub open spec fn steps(
        &self,
        entry: Seq<char>,
        compress: bool,
        state: EntryState,
        event: EntryEvent,
        next: EntryState,
        action: EntryAction,
    ) -> bool {
        match (state, event) {
            (EntryState::Probing, EntryEvent::Exists(true)) => {
                &&& next is Compiling
                &&& action matches EntryAction::Compile(job)
                &&& self.is_job_for(job, entry, compress)
            },
            (EntryState::Probing, EntryEvent::Exists(false)) => {
                &&& next matches EntryState::Failed(Error::EntryPointDoesNotExist(named))
                &&& named@ == entry
                &&& action is Stop
            },
            (EntryState::Compiling, EntryEvent::Ran(outcome)) => match command_failure(
                SASS_NAME@,
                outcome,
            ) {
                None => {
                    &&& next is Reading
                    &&& action matches EntryAction::Read(path)
                    &&& path@ == self.scratch_of(entry)
                },
                Some(text) => {
                    &&& next matches EntryState::Failed(Error::ExternalTool(message))
                    &&& message@ == text
                    &&& action is Stop
                },
            },
            (EntryState::Reading, EntryEvent::Content(bytes)) => self.publishes(
                entry,
                seahash_of(bytes@),
                next,
                action,
            ),
            (EntryState::Reading, EntryEvent::IoFailed(cause)) => {
                &&& next matches EntryState::Failed(Error::Io(message))
                &&& message@ == cause@
                &&& action is Stop
            },
            (EntryState::Moving(record), EntryEvent::Moved) => {
                &&& next == EntryState::Done(record)
                &&& action is Stop
            },
            (EntryState::Moving(_), EntryEvent::IoFailed(cause)) => {
                &&& next matches EntryState::Failed(Error::Io(message))
                &&& message@ == cause@
                &&& action is Stop
            },
            (EntryState::Done(_), _) => next == state && action is Stop,
            (EntryState::Failed(_), _) => next == state && action is Stop,
            _ => next == EntryState::Failed(Error::OutOfOrder) && action is Stop,
        }
    }

    /// What `publish` does: the step taken once the fingerprint of the
    /// compiled bytes is known.
    pub open spec fn publishes(
        &self,
        entry: Seq<char>,
        hash: u64,
        next: EntryState,
        action: EntryAction,
    ) -> bool {
        match self.record_for(entry, hash) {
            Some(record) => {
                &&& next matches EntryState::Moving(metadata)
                &&& metadata@ == record
                &&& action matches EntryAction::Move { from, to }
                &&& from@ == self.scratch_of(entry)
                &&& to@ == self.published_of(entry, hash)
            },
            None => {
                &&& next matches EntryState::Failed(Error::NotUnderRoot(path))
                &&& path@ == self.outside_path(entry, hash)
                &&& action is Stop
            },
        }
    }

    /// Opens the stage, given the compiler that was resolved for the
    /// configured version or why none could be. Without a compiler the
    /// whole stage fails. With one, the result names the directories to
    /// empty before any entry point is compiled: the scratch directory and
    /// the published stylesheet directory, in this order.
    pub fn start(&self, compiler: &Result<String, String>) -> (r: Result<Vec<String>, Error>)
        ensures
            match *compiler {
                Ok(_) => r matches Ok(dirs) && dirs.deep_view() == seq![
                    self.intermediate_path(),
                    self.config().dist_sass_path(),
                ],
                Err(cause) => r matches Err(Error::ExternalTool(message)) && message@ == cause@,
            },
    {
        match compiler {
            Ok(_) => {
                let mut dirs: Vec<String> = Vec::new();
                dirs.push(self.intermediate_dir());
                dirs.push(self.config.dist_sass_dir());
                assert(dirs.deep_view() =~= seq![
                    self.intermediate_path(),
                    self.config().dist_sass_path(),
                ]);
                Ok(dirs)
            },
            Err(cause) => Err(Error::ExternalTool(cause.clone())),
        }
    }

    /// Closes the stage: the assets of the entry points that ended in
    /// `Done`, in the order of the entry points. The stage never fails on
    /// account of an entry point; when all failed the result is empty.
    pub fn collect(states: Vec<EntryState>) -> (files: Vec<AssetMetadata>)
        ensures
            records_of(files@) == done_records(states@),
    {
        let mut files: Vec<AssetMetadata> = Vec::new();
        let ghost all = states@;
        assert(records_of(files@) =~= done_records(all.take(0)));
        for state in it: states
            invariant
                it.seq() == all,
                records_of(files@) == done_records(all.take(it.index() as int)),
        {
            proof {
                let i = it.index() as int;
                assert(all.take(i + 1) == all.take(i) + seq![state]);
                lemma_done_records_concat(all.take(i), seq![state]);
                lemma_done_records_single(state);
            }
            match state {
                EntryState::Done(metadata) => {
                    proof {
                        lemma_records_push(files@, metadata);
                    }
                    files.push(metadata);
                },
                _ => {},
            }
        }
        assert(all.take(all.len() as int) == all);
        files
    }

    /// The first step for an entry point: ask whether its source exists.
    pub fn begin(&self, entry: &str) -> (r: (EntryState, EntryAction))
        ensures
            r.0 is Probing,
            r.1 matches EntryAction::Probe(path) && path@ == self.source_of(entry@),
    {
        (EntryState::Probing, EntryAction::Probe(self.source_path(entry)))
    }

    /// The step after the compiled file was read, given the fingerprint of
    /// its bytes: move the file to its published name, or drop the entry
    /// point when it has no record.
    pub fn publish(&self, entry: &str, hash: u64) -> (r: (EntryState, EntryAction))
        ensures
            self.publishes(entry@, hash, r.0, r.1),
    {
        match self.record(entry, hash) {
            Ok(metadata) => {
                let from = self.scratch_path(entry);
                let to = self.published_path(entry, hash);
                (EntryState::Moving(metadata), EntryAction::Move { from, to })
            },
            Err(error) => (EntryState::Failed(error), EntryAction::Stop),
        }
    }

    /// Advances the processing of one entry point by one step: takes the
    /// state it is in and the outcome of the action that was pending, and
    /// returns the new state and the action to perform next. A missing
    /// source, a compiler failure or a failed file operation ends the entry
    /// point in `Failed`; a finished entry point stays as it is.
    pub fn run(&self, entry: &str, compress: bool, state: EntryState, event: EntryEvent) -> (r: (
        EntryState,
        EntryAction,
    ))
        ensures
            self.steps(entry@, compress, state, event, r.0, r.1),
    {
        match state {
            EntryState::Probing => match event {
                EntryEvent::Exists(exists) => {
                    if exists {
                        (
                            EntryState::Compiling,
                            EntryAction::Compile(self.compile_job(entry, compress)),
                        )
                    } else {
                        (
                            EntryState::Failed(Error::EntryPointDoesNotExist(entry.to_owned())),
                            EntryAction::Stop,
                        )
                    }
                },
                _ => (EntryState::Failed(Error::OutOfOrder), EntryAction::Stop),
            },
            EntryState::Compiling => match event {
                EntryEvent::Ran(outcome) => match run_command(SASS_NAME, &outcome) {
                    Ok(()) => (EntryState::Reading, EntryAction::Read(self.scratch_path(entry))),
                    Err(message) => (
                        EntryState::Failed(Error::ExternalTool(message)),
                        EntryAction::Stop,
                    ),
                },
                _ => (EntryState::Failed(Error::OutOfOrder), EntryAction::Stop),
            },
            EntryState::Reading => match event {
                EntryEvent::Content(bytes) => {
                    let hash = fingerprint(bytes.as_slice());
                    self.publish(entry, hash)
                },
                EntryEvent::IoFailed(cause) => (
                    EntryState::Failed(Error::Io(cause)),
                    EntryAction::Stop,
                ),
                _ => (EntryState::Failed(Error::OutOfOrder), EntryAction::Stop),
            },
            EntryState::Moving(record) => match event {
                EntryEvent::Moved => (EntryState::Done(record), EntryAction::Stop),
                EntryEvent::IoFailed(cause) => (
                    EntryState::Failed(Error::Io(cause)),
                    EntryAction::Stop,
                ),
                _ => (EntryState::Failed(Error::OutOfOrder), EntryAction::Stop),
            },
            EntryState::Done(record) => (EntryState::Done(record), EntryAction::Stop),
            EntryState::Failed(error) => (EntryState::Failed(error), EntryAction::Stop),
        }
    }
}

} // verus!
