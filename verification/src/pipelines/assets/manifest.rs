//! The manifest file.
//!
//! The manifest is one JSON document:
//!
//! ```text
//! {
//!   "images": [
//!     {
//!       "source_path": "assets/images/logo.png",
//!       "logical_path": "images/logo.png",
//!       "processed_relative_path": "images/logo-1a2b3c4d5e6f7890.png"
//!     }
//!   ],
//!   "sass": []
//! }
//! ```
//!
//! The fingerprint of a record is not written: it is part of the processed
//! path already and is computed anew by every build.

use vstd::prelude::*;
use crate::fingerprint::{hex_fixed, push_hex};
use crate::pipelines::assets::{records_of, AssetMetadata, AssetRecord};
use crate::text::{append_str, to_chars};

verus! {

/// How one character stands inside a JSON string: quotes, backslashes and
/// control characters are escaped, everything else stands for itself.
pub open spec fn escaped_char(c: char) -> Seq<char> {
    if c == '"' {
        seq!['\\', '"']
    } else if c == '\\' {
        seq!['\\', '\\']
    } else if c == '\n' {
        seq!['\\', 'n']
    } else if c == '\r' {
        seq!['\\', 'r']
    } else if c == '\t' {
        seq!['\\', 't']
    } else if c == '\u{8}' {
        seq!['\\', 'b']
    } else if c == '\u{c}' {
        seq!['\\', 'f']
    } else if (c as u32) < 0x20 {
        seq!['\\', 'u', '0', '0'] + hex_fixed(c as nat, 2)
    } else {
        seq![c]
    }
}

/// The characters of a text, each as it stands inside a JSON string.
pub open spec fn escaped(text: Seq<char>) -> Seq<char>
    decreases text.len(),
{
    if text.len() == 0 {
        Seq::empty()
    } else {
        escaped(text.drop_last()) + escaped_char(text.last())
    }
}

/// A text as a JSON string, with its quotes.
pub open spec fn json_string(text: Seq<char>) -> Seq<char> {
    seq!['"'] + escaped(text) + seq!['"']
}

/// The text before the first value of a record.
pub open spec fn record_open() -> Seq<char> {
    "    {\n      \"source_path\": "@
}

/// The text between the first and the second value of a record.
pub open spec fn record_second() -> Seq<char> {
    ",\n      \"logical_path\": "@
}

/// The text between the second and the third value of a record.
pub open spec fn record_third() -> Seq<char> {
    ",\n      \"processed_relative_path\": "@
}

/// The text after the last value of a record.
pub open spec fn record_close() -> Seq<char> {
    "\n    }"@
}

/// The text between two records of an array.
pub open spec fn record_separator() -> Seq<char> {
    ",\n"@
}

/// An array without records.
pub open spec fn array_empty() -> Seq<char> {
    "[]"@
}

/// The text before the first record of an array.
pub open spec fn array_open() -> Seq<char> {
    "[\n"@
}

/// The text after the last record of an array.
pub open spec fn array_close() -> Seq<char> {
    "\n  ]"@
}

/// The text before the array of images.
pub open spec fn manifest_open() -> Seq<char> {
    "{\n  \"images\": "@
}

/// The text between the array of images and that of stylesheets.
pub open spec fn manifest_second() -> Seq<char> {
    ",\n  \"sass\": "@
}

/// The text after the array of stylesheets.
pub open spec fn manifest_close() -> Seq<char> {
    "\n}"@
}

/// One record as a JSON object, indented to stand inside an array of the manifest.
pub open spec fn record_json(record: AssetRecord) -> Seq<char> {
    record_open() + json_string(record.source_path) + record_second() + json_string(
        record.logical_path,
    ) + record_third() + json_string(record.processed_relative_path) + record_close()
}

/// The records of a list one after the other, separated by a comma and a line break.
pub open spec fn records_json(records: Seq<AssetRecord>) -> Seq<char>
    decreases records.len(),
{
    if records.len() == 0 {
        Seq::empty()
    } else if records.len() == 1 {
        record_json(records[0])
    } else {
        records_json(records.drop_last()) + record_separator() + record_json(records.last())
    }
}

/// A list of records as a JSON array: `[]` when empty, otherwise one
/// record per block.
pub open spec fn array_json(records: Seq<AssetRecord>) -> Seq<char> {
    if records.len() == 0 {
        array_empty()
    } else {
        array_open() + records_json(records) + array_close()
    }
}

/// The manifest as text.
pub open spec fn manifest_json(images: Seq<AssetRecord>, sass: Seq<AssetRecord>) -> Seq<char> {
    manifest_open() + array_json(images) + manifest_second() + array_json(sass)
        + manifest_close()
}

fn push_escaped_char(out: &mut Vec<char>, c: char)
    ensures
        final(out)@ == old(out)@ + escaped_char(c),
{
    let ghost before = out@;
    if c == '"' {
        out.push('\\');
        out.push('"');
    } else if c == '\\' {
        out.push('\\');
        out.push('\\');
    } else if c == '\n' {
        out.push('\\');
        out.push('n');
    } else if c == '\r' {
        out.push('\\');
        out.push('r');
    } else if c == '\t' {
        out.push('\\');
        out.push('t');
    } else if c == '\u{8}' {
        out.push('\\');
        out.push('b');
    } else if c == '\u{c}' {
        out.push('\\');
        out.push('f');
    } else if (c as u32) < 0x20 {
        out.push('\\');
        out.push('u');
        out.push('0');
        out.push('0');
        assert(out@ == before + seq!['\\', 'u', '0', '0']);
        push_hex(out, c as u64, 2);
        assert(out@ == before + (seq!['\\', 'u', '0', '0'] + hex_fixed(c as nat, 2)));
    } else {
        out.push(c);
    }
    assert(out@ =~= before + escaped_char(c));
}

fn push_json_string(out: &mut Vec<char>, text: &str)
    ensures
        final(out)@ == old(out)@ + json_string(text@),
{
    let ghost before = out@;
    let chars = to_chars(text);
    out.push('"');
    let mut i: usize = 0;
    assert(chars@.take(0) == Seq::<char>::empty());
    while i < chars.len()
        invariant
            i <= chars.len(),
            out@ == before + seq!['"'] + escaped(chars@.take(i as int)),
        decreases chars.len() - i,
    {
        proof {
            assert(chars@.take(i + 1).drop_last() == chars@.take(i as int));
        }
        push_escaped_char(out, chars[i]);
        i = i + 1;
        assert(out@ == before + seq!['"'] + escaped(chars@.take(i as int)));
    }
    assert(chars@.take(i as int) == chars@);
    out.push('"');
}

fn push_record(out: &mut Vec<char>, record: &AssetMetadata)
    ensures
        final(out)@ == old(out)@ + record_json(record@),
{
    let ghost before = out@;
    append_str(out, "    {\n      \"source_path\": ");
    push_json_string(out, record.source_path.as_str());
    append_str(out, ",\n      \"logical_path\": ");
    push_json_string(out, record.logical_path.as_str());
    append_str(out, ",\n      \"processed_relative_path\": ");
    push_json_string(out, record.processed_relative_path.as_str());
    append_str(out, "\n    }");
    assert(out@ =~= before + record_json(record@));
}

fn push_array(out: &mut Vec<char>, records: &Vec<AssetMetadata>)
    ensures
        final(out)@ == old(out)@ + array_json(records_of(records@)),
{
    let ghost before = out@;
    let ghost all = records_of(records@);
    if records.len() == 0 {
        append_str(out, "[]");
        return ;
    }
    append_str(out, "[\n");
    push_record(out, &records[0]);
    assert(all.take(1) =~= seq![records@[0]@]);
    let mut i: usize = 1;
    while i < records.len()
        invariant
            1 <= i <= records.len(),
            all == records_of(records@),
            out@ == before + "[\n"@ + records_json(all.take(i as int)),
        decreases records.len() - i,
    {
        proof {
            assert(all.take(i + 1).drop_last() == all.take(i as int));
            assert(all.take(i + 1).last() == records@[i as int]@);
        }
        append_str(out, ",\n");
        push_record(out, &records[i]);
        i = i + 1;
        assert(out@ =~= before + "[\n"@ + records_json(all.take(i as int)));
    }
    assert(all.take(i as int) == all);
    append_str(out, "\n  ]");
    assert(out@ =~= before + array_json(all));
}

/// Writes the manifest of a build as text. The result depends on the
/// paths of the records only, not on their fingerprints.
pub fn encode(images: &Vec<AssetMetadata>, sass: &Vec<AssetMetadata>) -> (text: String)
    ensures
        text@ == manifest_json(records_of(images@), records_of(sass@)),
{
    let mut out: Vec<char> = Vec::new();
    append_str(&mut out, "{\n  \"images\": ");
    push_array(&mut out, images);
    append_str(&mut out, ",\n  \"sass\": ");
    push_array(&mut out, sass);
    append_str(&mut out, "\n}");
    assert(out@ =~= manifest_json(records_of(images@), records_of(sass@)));
    assert(out@.subrange(0, out@.len() as int) == out@);
    crate::text::from_chars(&out, 0, out.len())
}

} // verus!
