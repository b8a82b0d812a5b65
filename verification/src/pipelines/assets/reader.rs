//! Reading a manifest back.
//!
//! The reader accepts the documents that `manifest::encode` writes: the
//! same layout, the same order of fields. Inside strings it also accepts
//! `\/` and upper-case hexadecimal digits. Fingerprints are not stored, so
//! every record read has the fingerprint 0.

use vstd::prelude::*;
use crate::fingerprint::{hex_digit, hex_fixed};
use crate::pipelines::assets::manifest::{
    array_close, array_empty, array_json, array_open, escaped, escaped_char, json_string,
    manifest_close, manifest_json, manifest_open, manifest_second, record_close, record_json,
    record_open, record_second, record_separator, record_third, records_json,
};
use crate::pipelines::assets::{records_of, AssetMetadata, AssetRecord, AssetsOutput, Error};
use crate::text::{from_chars, starts_with_at, to_chars};

verus! {

/// `text` without the leading `literal`, if it begins with it.
pub open spec fn strip_literal(text: Seq<char>, literal: Seq<char>) -> Option<Seq<char>> {
    if literal.len() <= text.len() && text.take(literal.len() as int) == literal {
        Some(text.skip(literal.len() as int))
    } else {
        None
    }
}

/// The value of a hexadecimal digit, in either case.
pub open spec fn hex_value(c: char) -> Option<u8> {
    if '0' <= c && c <= '9' {
        Some((c as u8 - '0' as u8) as u8)
    } else if 'a' <= c && c <= 'f' {
        Some((c as u8 - 'a' as u8 + 10) as u8)
    } else if 'A' <= c && c <= 'F' {
        Some((c as u8 - 'A' as u8 + 10) as u8)
    } else {
        None
    }
}

/// Reads one escape sequence, given the text that follows its backslash:
/// the character it stands for and the text after it. Accepted are the
/// one-letter escapes of JSON and `u00` followed by two hexadecimal digits.
pub open spec fn unescape(text: Seq<char>) -> Option<(char, Seq<char>)> {
    if text.len() == 0 {
        None
    } else if text[0] == '"' {
        Some(('"', text.skip(1)))
    } else if text[0] == '\\' {
        Some(('\\', text.skip(1)))
    } else if text[0] == '/' {
        Some(('/', text.skip(1)))
    } else if text[0] == 'n' {
        Some(('\n', text.skip(1)))
    } else if text[0] == 'r' {
        Some(('\r', text.skip(1)))
    } else if text[0] == 't' {
        Some(('\t', text.skip(1)))
    } else if text[0] == 'b' {
        Some(('\u{8}', text.skip(1)))
    } else if text[0] == 'f' {
        Some(('\u{c}', text.skip(1)))
    } else if text[0] == 'u' && text.len() >= 5 && text[1] == '0' && text[2] == '0' {
        match (hex_value(text[3]), hex_value(text[4])) {
            (Some(high), Some(low)) => Some((((high * 16 + low) as u8) as char, text.skip(5))),
            _ => None,
        }
    } else {
        None
    }
}

/// Reads the inside of a JSON string up to and including its closing
/// quote: the text it stands for and what follows the quote.
pub open spec fn parse_body(text: Seq<char>) -> Option<(Seq<char>, Seq<char>)>
    decreases text.len(),
{
    if text.len() == 0 {
        None
    } else if text[0] == '"' {
        Some((Seq::empty(), text.skip(1)))
    } else if text[0] == '\\' {
        match unescape(text.skip(1)) {
            Some((c, rest)) => if rest.len() < text.len() {
                match parse_body(rest) {
                    Some((more, tail)) => Some((seq![c] + more, tail)),
                    None => None,
                }
            } else {
                None
            },
            None => None,
        }
    } else if (text[0] as u32) < 0x20 {
        None
    } else {
        match parse_body(text.skip(1)) {
            Some((more, tail)) => Some((seq![text[0]] + more, tail)),
            None => None,
        }
    }
}

/// Reads a JSON string with its quotes.
pub open spec fn parse_string(text: Seq<char>) -> Option<(Seq<char>, Seq<char>)> {
    if text.len() > 0 && text[0] == '"' {
        parse_body(text.skip(1))
    } else {
        None
    }
}

/// Reads `literal` and then a JSON string.
pub open spec fn parse_field(text: Seq<char>, literal: Seq<char>) -> Option<
    (Seq<char>, Seq<char>),
> {
    match strip_literal(text, literal) {
        Some(rest) => parse_string(rest),
        None => None,
    }
}

/// Reads one record.
pub open spec fn parse_record(text: Seq<char>) -> Option<(AssetRecord, Seq<char>)> {
    match parse_field(text, record_open()) {
        Some((source_path, rest1)) => match parse_field(rest1, record_second()) {
            Some((logical_path, rest2)) => match parse_field(rest2, record_third()) {
                Some((processed_relative_path, rest3)) => match strip_literal(
                    rest3,
                    record_close(),
                ) {
                    Some(tail) => Some(
                        (
                            AssetRecord {
                                source_path,
                                logical_path,
                                processed_relative_path,
                                hash: 0,
                            },
                            tail,
                        ),
                    ),
                    None => None,
                },
                None => None,
            },
            None => None,
        },
        None => None,
    }
}

/// Reads the records of a non-empty array and its closing bracket.
pub open spec fn parse_records(text: Seq<char>) -> Option<(Seq<AssetRecord>, Seq<char>)>
    decreases text.len(),
{
    match parse_record(text) {
        Some((record, rest)) => match strip_literal(rest, record_separator()) {
            Some(next) => if next.len() < text.len() {
                match parse_records(next) {
                    Some((more, tail)) => Some((seq![record] + more, tail)),
                    None => None,
                }
            } else {
                None
            },
            None => match strip_literal(rest, array_close()) {
                Some(tail) => Some((seq![record], tail)),
                None => None,
            },
        },
        None => None,
    }
}

/// Reads an array of records.
pub open spec fn parse_array(text: Seq<char>) -> Option<(Seq<AssetRecord>, Seq<char>)> {
    match strip_literal(text, array_empty()) {
        Some(tail) => Some((Seq::empty(), tail)),
        None => match strip_literal(text, array_open()) {
            Some(rest) => parse_records(rest),
            None => None,
        },
    }
}

/// Reads a whole manifest: the records of the images and those of the
/// stylesheets. Nothing may follow the closing brace.
pub open spec fn parse_manifest(text: Seq<char>) -> Option<(Seq<AssetRecord>, Seq<AssetRecord>)> {
    match strip_literal(text, manifest_open()) {
        Some(rest1) => match parse_array(rest1) {
            Some((images, rest2)) => match strip_literal(rest2, manifest_second()) {
                Some(rest3) => match parse_array(rest3) {
                    Some((sass, rest4)) => match strip_literal(rest4, manifest_close()) {
                        Some(tail) => if tail.len() == 0 {
                            Some((images, sass))
                        } else {
                            None
                        },
                        None => None,
                    },
                    None => None,
                },
                None => None,
            },
            None => None,
        },
        None => None,
    }
}

fn skip_literal(v: &Vec<char>, pos: usize, literal: &str) -> (r: Option<usize>)
    requires
        pos <= v.len(),
    ensures
        match strip_literal(v@.skip(pos as int), literal@) {
            Some(tail) => r matches Some(end) && pos <= end <= v.len() && tail == v@.skip(
                end as int,
            ),
            None => r is None,
        },
{
    let lit = to_chars(literal);
    proof {
        let text = v@.skip(pos as int);
        if pos + lit.len() <= v.len() {
            assert(text.take(lit@.len() as int) == v@.subrange(pos as int, pos + lit@.len()));
            assert(text.skip(lit@.len() as int) == v@.skip(pos + lit@.len()));
        }
    }
    if starts_with_at(v, pos, &lit) {
        Some(pos + lit.len())
    } else {
        None
    }
}

fn hex_digit_value(c: char) -> (r: Option<u8>)
    ensures
        r == hex_value(c),
        r matches Some(value) ==> value < 16,
{
    if '0' <= c && c <= '9' {
        Some(c as u8 - '0' as u8)
    } else if 'a' <= c && c <= 'f' {
        Some(c as u8 - 'a' as u8 + 10)
    } else if 'A' <= c && c <= 'F' {
        Some(c as u8 - 'A' as u8 + 10)
    } else {
        None
    }
}

fn read_escape(v: &Vec<char>, pos: usize) -> (r: Option<(char, usize)>)
    requires
        pos <= v.len(),
    ensures
        match unescape(v@.skip(pos as int)) {
            Some((c, tail)) => r matches Some((read, end)) && read == c && pos < end <= v.len()
                && tail == v@.skip(end as int),
            None => r is None,
        },
{
    let ghost text = v@.skip(pos as int);
    if pos >= v.len() {
        return None;
    }
    assert(text[0] == v@[pos as int]);
    assert(text.skip(1) == v@.skip(pos + 1));
    let c = v[pos];
    if c == '"' {
        Some(('"', pos + 1))
    } else if c == '\\' {
        Some(('\\', pos + 1))
    } else if c == '/' {
        Some(('/', pos + 1))
    } else if c == 'n' {
        Some(('\n', pos + 1))
    } else if c == 'r' {
        Some(('\r', pos + 1))
    } else if c == 't' {
        Some(('\t', pos + 1))
    } else if c == 'b' {
        Some(('\u{8}', pos + 1))
    } else if c == 'f' {
        Some(('\u{c}', pos + 1))
    } else if c == 'u' && v.len() - pos >= 5 {
        assert(text[1] == v@[pos + 1]);
        assert(text[2] == v@[pos + 2]);
        assert(text[3] == v@[pos + 3]);
        assert(text[4] == v@[pos + 4]);
        assert(text.skip(5) == v@.skip(pos + 5));
        if v[pos + 1] == '0' && v[pos + 2] == '0' {
            match (hex_digit_value(v[pos + 3]), hex_digit_value(v[pos + 4])) {
                (Some(high), Some(low)) => Some(((high * 16 + low) as char, pos + 5)),
                _ => None,
            }
        } else {
            None
        }
    } else {
        None
    }
}

fn read_body(v: &Vec<char>, pos: usize) -> (r: Option<(String, usize)>)
    requires
        pos <= v.len(),
    ensures
        match parse_body(v@.skip(pos as int)) {
            Some((text, tail)) => r matches Some((read, end)) && read@ == text && pos < end
                <= v.len() && tail == v@.skip(end as int),
            None => r is None,
        },
{
    let mut out: Vec<char> = Vec::new();
    let mut i: usize = pos;
    let ghost start = v@.skip(pos as int);
    loop
        invariant
            pos <= i <= v.len(),
            start == v@.skip(pos as int),
            parse_body(start) == (match parse_body(v@.skip(i as int)) {
                Some((more, tail)) => Some((out@ + more, tail)),
                None => None,
            }),
        decreases v.len() - i,
    {
        let ghost text = v@.skip(i as int);
        if i >= v.len() {
            return None;
        }
        assert(text[0] == v@[i as int]);
        assert(text.skip(1) == v@.skip(i + 1));
        let c = v[i];
        if c == '"' {
            let read = from_chars(&out, 0, out.len());
            assert(out@.subrange(0, out@.len() as int) == out@);
            assert(out@ + Seq::<char>::empty() == out@);
            return Some((read, i + 1));
        } else if c == '\\' {
            match read_escape(v, i + 1) {
                Some((read, end)) => {
                    proof {
                        let rest = v@.skip(end as int);
                        match parse_body(rest) {
                            Some((more, tail)) => {
                                assert(out@ + (seq![read] + more) == out@.push(read) + more);
                            },
                            None => {},
                        }
                    }
                    out.push(read);
                    i = end;
                },
                None => {
                    return None;
                },
            }
        } else if (c as u32) < 0x20 {
            return None;
        } else {
            proof {
                match parse_body(v@.skip(i + 1)) {
                    Some((more, tail)) => {
                        assert(out@ + (seq![c] + more) == out@.push(c) + more);
                    },
                    None => {},
                }
            }
            out.push(c);
            i = i + 1;
        }
    }
}

fn read_field(v: &Vec<char>, pos: usize, literal: &str) -> (r: Option<(String, usize)>)
    requires
        pos <= v.len(),
    ensures
        match parse_field(v@.skip(pos as int), literal@) {
            Some((text, tail)) => r matches Some((read, end)) && read@ == text && pos < end
                <= v.len() && tail == v@.skip(end as int),
            None => r is None,
        },
{
    match skip_literal(v, pos, literal) {
        Some(at) => {
            if at < v.len() && v[at] == '"' {
                assert(v@.skip(at as int)[0] == v@[at as int]);
                assert(v@.skip(at as int).skip(1) == v@.skip(at + 1));
                read_body(v, at + 1)
            } else {
                assert(at < v.len() ==> v@.skip(at as int)[0] == v@[at as int]);
                None
            }
        },
        None => None,
    }
}

fn read_record(v: &Vec<char>, pos: usize) -> (r: Option<(AssetMetadata, usize)>)
    requires
        pos <= v.len(),
    ensures
        match parse_record(v@.skip(pos as int)) {
            Some((record, tail)) => r matches Some((read, end)) && read@ == record && pos < end
                <= v.len() && tail == v@.skip(end as int),
            None => r is None,
        },
{
    let (source_path, at1) = match read_field(v, pos, "    {\n      \"source_path\": ") {
        Some(found) => found,
        None => {
            return None;
        },
    };
    let (logical_path, at2) = match read_field(v, at1, ",\n      \"logical_path\": ") {
        Some(found) => found,
        None => {
            return None;
        },
    };
    let (processed_relative_path, at3) = match read_field(
        v,
        at2,
        ",\n      \"processed_relative_path\": ",
    ) {
        Some(found) => found,
        None => {
            return None;
        },
    };
    match skip_literal(v, at3, "\n    }") {
        Some(end) => Some(
            (AssetMetadata { source_path, logical_path, processed_relative_path, hash: 0 }, end),
        ),
        None => None,
    }
}

fn read_array(v: &Vec<char>, pos: usize) -> (r: Option<(Vec<AssetMetadata>, usize)>)
    requires
        pos <= v.len(),
    ensures
        match parse_array(v@.skip(pos as int)) {
            Some((records, tail)) => r matches Some((read, end)) && records_of(read@) == records
                && pos <= end <= v.len() && tail == v@.skip(end as int),
            None => r is None,
        },
{
    let mut out: Vec<AssetMetadata> = Vec::new();
    match skip_literal(v, pos, "[]") {
        Some(end) => {
            assert(records_of(out@) =~= Seq::<AssetRecord>::empty());
            return Some((out, end));
        },
        None => {},
    }
    let mut i: usize = match skip_literal(v, pos, "[\n") {
        Some(at) => at,
        None => {
            return None;
        },
    };
    let ghost start = v@.skip(i as int);
    assert(records_of(out@) =~= Seq::<AssetRecord>::empty());
    loop
        invariant
            pos <= i <= v.len(),
            parse_array(v@.skip(pos as int)) == parse_records(start),
            parse_records(start) == (match parse_records(v@.skip(i as int)) {
                Some((more, tail)) => Some((records_of(out@) + more, tail)),
                None => None,
            }),
        decreases v.len() - i,
    {
        let (record, after) = match read_record(v, i) {
            Some(found) => found,
            None => {
                return None;
            },
        };
        let ghost before = out@;
        proof {
            crate::pipelines::assets::lemma_records_push(before, record);
        }
        match skip_literal(v, after, ",\n") {
            Some(next) => {
                proof {
                    match parse_records(v@.skip(next as int)) {
                        Some((more, tail)) => {
                            assert(records_of(before) + (seq![record@] + more) == records_of(
                                before,
                            ).push(record@) + more);
                        },
                        None => {},
                    }
                }
                out.push(record);
                i = next;
            },
            None => {
                match skip_literal(v, after, "\n  ]") {
                    Some(end) => {
                        assert(records_of(before) + seq![record@] == records_of(before).push(
                            record@,
                        ));
                        out.push(record);
                        return Some((out, end));
                    },
                    None => {
                        return None;
                    },
                }
            },
        }
    }
}

/// Reads a manifest. Succeeds exactly on the documents that
/// `parse_manifest` accepts and returns the records it finds there, each
/// with the fingerprint 0; anything else is an `InvalidManifest`.
pub fn decode(text: &str) -> (r: Result<AssetsOutput, Error>)
    ensures
        match parse_manifest(text@) {
            Some((images, sass)) => r matches Ok(output) && records_of(output.images@) == images
                && records_of(output.sass@) == sass,
            None => r == Err::<AssetsOutput, Error>(Error::InvalidManifest),
        },
{
    let v = to_chars(text);
    assert(v@.skip(0) == v@);
    let at1 = match skip_literal(&v, 0, "{\n  \"images\": ") {
        Some(at) => at,
        None => {
            return Err(Error::InvalidManifest);
        },
    };
    let (images, at2) = match read_array(&v, at1) {
        Some(found) => found,
        None => {
            return Err(Error::InvalidManifest);
        },
    };
    let at3 = match skip_literal(&v, at2, ",\n  \"sass\": ") {
        Some(at) => at,
        None => {
            return Err(Error::InvalidManifest);
        },
    };
    let (sass, at4) = match read_array(&v, at3) {
        Some(found) => found,
        None => {
            return Err(Error::InvalidManifest);
        },
    };
    match skip_literal(&v, at4, "\n}") {
        Some(end) => {
            if end == v.len() {
                Ok(AssetsOutput { images, sass })
            } else {
                Err(Error::InvalidManifest)
            }
        },
        None => Err(Error::InvalidManifest),
    }
}

/// A record as it comes back from a manifest: the same paths, and the
/// fingerprint 0, since fingerprints are not stored.
pub open spec fn stored(record: AssetRecord) -> AssetRecord {
    AssetRecord {
        source_path: record.source_path,
        logical_path: record.logical_path,
        processed_relative_path: record.processed_relative_path,
        hash: 0,
    }
}

/// The records of a list as they come back from a manifest.
pub open spec fn stored_all(records: Seq<AssetRecord>) -> Seq<AssetRecord> {
    Seq::new(records.len(), |i: int| stored(records[i]))
}

/// A text that begins with a literal is, without it, what follows the literal.
pub proof fn lemma_strip_literal(literal: Seq<char>, tail: Seq<char>)
    ensures
        strip_literal(literal + tail, literal) == Some(tail),
{
    assert((literal + tail).take(literal.len() as int) == literal);
    assert((literal + tail).skip(literal.len() as int) == tail);
}

/// Escaping a text escapes its first character, then the rest.
pub proof fn lemma_escaped_first(c: char, rest: Seq<char>)
    ensures
        escaped(seq![c] + rest) == escaped_char(c) + escaped(rest),
    decreases rest.len(),
{
    let text = seq![c] + rest;
    if rest.len() == 0 {
        assert(text.drop_last() == Seq::<char>::empty());
        assert(escaped(text.drop_last()) == Seq::<char>::empty());
        assert(text.last() == c);
        assert(Seq::<char>::empty() + escaped_char(c) == escaped_char(c));
        assert(escaped_char(c) + Seq::<char>::empty() == escaped_char(c));
    } else {
        assert(text.drop_last() == seq![c] + rest.drop_last());
        assert(text.last() == rest.last());
        lemma_escaped_first(c, rest.drop_last());
        assert(escaped_char(c) + escaped(rest.drop_last()) + escaped_char(rest.last())
            == escaped_char(c) + (escaped(rest.drop_last()) + escaped_char(rest.last())));
    }
}

/// A hexadecimal digit has the value it was written for.
pub proof fn lemma_hex_value_of_digit(d: nat)
    requires
        d < 16,
    ensures
        hex_value(hex_digit(d)) == Some(d as u8),
{
}

/// Reading back what one character was written as gives that character.
pub proof fn lemma_read_one_char(c: char, tail: Seq<char>)
    ensures
        ({
            let text = escaped_char(c) + tail;
            if text[0] == '\\' {
                unescape(text.skip(1)) == Some((c, tail))
            } else {
                &&& text[0] == c
                &&& text.skip(1) == tail
                &&& c != '"'
                &&& (c as u32) >= 0x20
            }
        }),
        escaped_char(c).len() >= 1,
{
    let text = escaped_char(c) + tail;
    let after = text.skip(1);
    if c == '"' || c == '\\' || c == '\n' || c == '\r' || c == '\t' || c == '\u{8}' || c
        == '\u{c}' {
        assert(after[0] == escaped_char(c)[1]);
        assert(after.skip(1) == tail);
    } else if (c as u32) < 0x20 {
        let n = c as nat;
        reveal_with_fuel(hex_fixed, 3);
        let digits = hex_fixed(n, 2);
        assert(digits == seq![hex_digit((n / 16) % 16), hex_digit(n % 16)]);
        lemma_hex_value_of_digit((n / 16) % 16);
        lemma_hex_value_of_digit(n % 16);
        assert(escaped_char(c) == seq!['\\', 'u', '0', '0', digits[0], digits[1]]);
        assert(after[0] == 'u');
        assert(after[1] == '0');
        assert(after[2] == '0');
        assert(after[3] == digits[0]);
        assert(after[4] == digits[1]);
        assert(after.skip(5) == tail);
        assert(n / 16 < 2);
        assert((((n / 16) % 16) * 16 + n % 16) == n);
        assert((n as u8) as char == c);
    } else {
        assert(text.skip(1) == tail);
    }
}

/// Reading the inside of a written string gives back the text.
pub proof fn lemma_read_body(text: Seq<char>, tail: Seq<char>)
    ensures
        parse_body(escaped(text) + seq!['"'] + tail) == Some((text, tail)),
    decreases text.len(),
{
    let written = escaped(text) + seq!['"'] + tail;
    if text.len() == 0 {
        assert(written.skip(1) == tail);
    } else {
        let c = text[0];
        let rest = text.drop_first();
        assert(text == seq![c] + rest);
        lemma_escaped_first(c, rest);
        let after = escaped(rest) + seq!['"'] + tail;
        assert(written == escaped_char(c) + after);
        lemma_read_one_char(c, after);
        lemma_read_body(rest, tail);
        if written[0] == '\\' {
            assert(after.len() < written.len());
        }
        assert(seq![c] + rest == text);
    }
}

/// Reading a written string gives back the text.
pub proof fn lemma_read_string(text: Seq<char>, tail: Seq<char>)
    ensures
        parse_string(json_string(text) + tail) == Some((text, tail)),
{
    let written = json_string(text) + tail;
    lemma_read_body(text, tail);
    assert(written.skip(1) == escaped(text) + seq!['"'] + tail);
}

/// Reading a written field gives back its text.
pub proof fn lemma_read_field(literal: Seq<char>, text: Seq<char>, tail: Seq<char>)
    ensures
        parse_field(literal + json_string(text) + tail, literal) == Some((text, tail)),
{
    assert(literal + json_string(text) + tail == literal + (json_string(text) + tail));
    lemma_strip_literal(literal, json_string(text) + tail);
    lemma_read_string(text, tail);
}

/// Reading a written record gives back its paths.
pub proof fn lemma_read_record(record: AssetRecord, tail: Seq<char>)
    ensures
        parse_record(record_json(record) + tail) == Some((stored(record), tail)),
{
    let s1 = json_string(record.source_path);
    let s2 = json_string(record.logical_path);
    let s3 = json_string(record.processed_relative_path);
    let rest3 = record_close() + tail;
    let rest2 = record_third() + s3 + rest3;
    let rest1 = record_second() + s2 + rest2;
    assert(record_json(record) + tail == record_open() + s1 + rest1);
    lemma_read_field(record_open(), record.source_path, rest1);
    lemma_read_field(record_second(), record.logical_path, rest2);
    lemma_read_field(record_third(), record.processed_relative_path, rest3);
    lemma_strip_literal(record_close(), tail);
}

/// Writing a list of records writes the first, then a separator and the
/// rest if there is a rest.
pub proof fn lemma_records_json_first(first: AssetRecord, rest: Seq<AssetRecord>)
    ensures
        records_json(seq![first] + rest) == if rest.len() == 0 {
            record_json(first)
        } else {
            record_json(first) + record_separator() + records_json(rest)
        },
    decreases rest.len(),
{
    let all = seq![first] + rest;
    if rest.len() == 0 {
        assert(all[0] == first);
    } else {
        let front = rest.drop_last();
        assert(all.drop_last() == seq![first] + front);
        assert(all.last() == rest.last());
        lemma_records_json_first(first, front);
        if front.len() == 0 {
            assert(rest[0] == rest.last());
        } else {
            assert(record_json(first) + record_separator() + records_json(front)
                + record_separator() + record_json(rest.last()) == record_json(first)
                + record_separator() + (records_json(front) + record_separator() + record_json(
                rest.last(),
            )));
        }
    }
}

/// Reading the written records of a non-empty array gives back their paths.
pub proof fn lemma_read_records(records: Seq<AssetRecord>, tail: Seq<char>)
    requires
        records.len() > 0,
    ensures
        parse_records(records_json(records) + array_close() + tail) == Some(
            (stored_all(records), tail),
        ),
    decreases records.len(),
{
    let first = records[0];
    let rest = records.drop_first();
    let written = records_json(records) + array_close() + tail;
    assert(records == seq![first] + rest);
    lemma_records_json_first(first, rest);
    reveal_strlit(",\n");
    reveal_strlit("\n  ]");
    if rest.len() == 0 {
        let after = array_close() + tail;
        assert(written == record_json(first) + after);
        lemma_read_record(first, after);
        assert(strip_literal(after, record_separator()) is None) by {
            assert(after[0] == '\n');
            if record_separator().len() <= after.len() {
                assert(after.take(record_separator().len() as int)[0] == after[0]);
            }
        }
        lemma_strip_literal(array_close(), tail);
        assert(stored_all(records) =~= seq![stored(first)]);
    } else {
        let next = records_json(rest) + array_close() + tail;
        let after = record_separator() + next;
        assert(written == record_json(first) + after);
        lemma_read_record(first, after);
        lemma_strip_literal(record_separator(), next);
        lemma_read_records(rest, tail);
        assert(next.len() < written.len());
        assert(stored_all(records) =~= seq![stored(first)] + stored_all(rest));
    }
}

/// Reading a written array gives back the paths of its records.
pub proof fn lemma_read_array(records: Seq<AssetRecord>, tail: Seq<char>)
    ensures
        parse_array(array_json(records) + tail) == Some((stored_all(records), tail)),
{
    let written = array_json(records) + tail;
    reveal_strlit("[]");
    reveal_strlit("[\n");
    if records.len() == 0 {
        lemma_strip_literal(array_empty(), tail);
        assert(stored_all(records) =~= Seq::<AssetRecord>::empty());
    } else {
        let inner = records_json(records) + array_close() + tail;
        assert(written == array_open() + inner);
        assert(strip_literal(written, array_empty()) is None) by {
            assert(written[1] == '\n');
            if array_empty().len() <= written.len() {
                assert(written.take(array_empty().len() as int)[1] == written[1]);
            }
        }
        lemma_strip_literal(array_open(), inner);
        lemma_read_records(records, tail);
    }
}

/// The manifest survives the file: reading what was written for two lists
/// of records gives back the same records in the same order, each with its
/// source path, logical path and processed path unchanged. Only the
/// fingerprints, which are not written, come back as 0.
pub proof fn lemma_manifest_round_trip(images: Seq<AssetRecord>, sass: Seq<AssetRecord>)
    ensures
        parse_manifest(manifest_json(images, sass)) == Some((stored_all(images), stored_all(sass))),
{
    let rest4 = manifest_close();
    let rest3 = array_json(sass) + rest4;
    let rest2 = manifest_second() + rest3;
    let rest1 = array_json(images) + rest2;
    assert(manifest_json(images, sass) == manifest_open() + rest1);
    lemma_strip_literal(manifest_open(), rest1);
    lemma_read_array(images, rest2);
    lemma_strip_literal(manifest_second(), rest3);
    lemma_read_array(sass, rest4);
    assert(rest4 == manifest_close() + Seq::<char>::empty());
    lemma_strip_literal(manifest_close(), Seq::<char>::empty());
}

} // verus!
