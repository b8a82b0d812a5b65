//! Content fingerprints and the file names derived from them.
//!
//! An asset is published under a name that embeds a 64-bit digest of its
//! bytes, so a name never changes meaning: new content gets a new name.

use vstd::prelude::*;
use crate::paths::{
    dot_position, extension, extension_dot, file_name, file_stem, is_absolute, is_plain,
    lemma_dir_and_segment, lemma_parent_and_file_name, lemma_plain, name_start, parent_prefix,
    plain, plain_chars,
};
use crate::text::{append_range, from_chars, to_chars};

verus! {

/// The SeaHash digest of a byte string under the default seed.
pub uninterp spec fn seahash_of(bytes: Seq<u8>) -> u64;

/// Trusted: `seahash::hash` reads nothing but the buffer it is given and
/// computes its digest with a seed fixed in the crate, so equal buffers give
/// equal digests.
pub assume_specification[ seahash::hash ](buf: &[u8]) -> (h: u64)
    ensures
        h == seahash_of(buf@),
;

/// Number of hexadecimal digits in a rendered fingerprint.
pub const HASH_HEX_WIDTH: usize = 16;

/// The lower-case hexadecimal digit for a value below sixteen.
pub open spec fn hex_digit(d: nat) -> char {
    if d == 0 {
        '0'
    } else if d == 1 {
        '1'
    } else if d == 2 {
        '2'
    } else if d == 3 {
        '3'
    } else if d == 4 {
        '4'
    } else if d == 5 {
        '5'
    } else if d == 6 {
        '6'
    } else if d == 7 {
        '7'
    } else if d == 8 {
        '8'
    } else if d == 9 {
        '9'
    } else if d == 10 {
        'a'
    } else if d == 11 {
        'b'
    } else if d == 12 {
        'c'
    } else if d == 13 {
        'd'
    } else if d == 14 {
        'e'
    } else {
        'f'
    }
}

/// The `width` lowest hexadecimal digits of `v`, most significant first,
/// padded with zeros on the left.
pub open spec fn hex_fixed(v: nat, width: nat) -> Seq<char>
    decreases width,
{
    if width == 0 {
        Seq::empty()
    } else {
        hex_fixed(v / 16, (width - 1) as nat).push(hex_digit(v % 16))
    }
}

/// A fingerprint in text: sixteen lower-case hexadecimal digits.
pub open spec fn hash_hex(hash: u64) -> Seq<char> {
    hex_fixed(hash as nat, HASH_HEX_WIDTH as nat)
}

/// Sixteen to the power `n`.
pub open spec fn pow16(n: nat) -> nat
    decreases n,
{
    if n == 0 {
        1
    } else {
        16 * pow16((n - 1) as nat)
    }
}

/// A file name with the fingerprint inserted before its extension:
/// `<stem>-<hex>.<ext>`, or `<name>-<hex>` for a name without extension.
pub open spec fn hashed_file_name(name: Seq<char>, hash: u64) -> Seq<char> {
    match extension(name) {
        Some(ext) => file_stem(name) + seq!['-'] + hash_hex(hash) + seq!['.'] + ext,
        None => name + seq!['-'] + hash_hex(hash),
    }
}

/// A path with the fingerprint inserted into its last segment. The
/// directory part is untouched.
pub open spec fn hashed_path(path: Seq<char>, hash: u64) -> Seq<char> {
    parent_prefix(path) + hashed_file_name(file_name(path), hash)
}

/// The published name of a compiled stylesheet: the stem of its entry point,
/// the fingerprint, and the extension `css`.
pub open spec fn stylesheet_file_name(entry_name: Seq<char>, hash: u64) -> Seq<char> {
    file_stem(entry_name) + seq!['-'] + hash_hex(hash) + seq!['.', 'c', 's', 's']
}

/// A rendered number has exactly as many digits as asked for.
pub proof fn lemma_hex_fixed_len(v: nat, width: nat)
    ensures
        hex_fixed(v, width).len() == width,
    decreases width,
{
    if width > 0 {
        lemma_hex_fixed_len(v / 16, (width - 1) as nat);
    }
}

/// Two numbers that fit in `width` digits and render alike are equal.
pub proof fn lemma_hex_fixed_injective(a: nat, b: nat, width: nat)
    requires
        a < pow16(width),
        b < pow16(width),
        hex_fixed(a, width) == hex_fixed(b, width),
    ensures
        a == b,
    decreases width,
{
    if width > 0 {
        let w = (width - 1) as nat;
        let ra = hex_fixed(a / 16, w);
        let rb = hex_fixed(b / 16, w);
        assert(ra.push(hex_digit(a % 16)).last() == rb.push(hex_digit(b % 16)).last());
        assert(ra.push(hex_digit(a % 16)).drop_last() == ra);
        assert(rb.push(hex_digit(b % 16)).drop_last() == rb);
        assert(a % 16 == b % 16);
        lemma_hex_fixed_injective(a / 16, b / 16, w);
    }
}

/// Different fingerprints render differently.
pub proof fn lemma_hash_hex_injective(h1: u64, h2: u64)
    requires
        hash_hex(h1) == hash_hex(h2),
    ensures
        h1 == h2,
{
    assert(pow16(16) == 0x1_0000_0000_0000_0000) by {
        reveal_with_fuel(pow16, 17);
    }
    lemma_hex_fixed_injective(h1 as nat, h2 as nat, 16);
}

/// Content addressing: one path under two different fingerprints gives two
/// different published paths, so publishing new content never lands on the
/// name of older content.
pub proof fn lemma_hashed_path_injective(path: Seq<char>, h1: u64, h2: u64)
    requires
        hashed_path(path, h1) == hashed_path(path, h2),
    ensures
        h1 == h2,
{
    let name = file_name(path);
    let head = parent_prefix(path) + file_stem(name) + seq!['-'];
    let x1 = hash_hex(h1);
    let x2 = hash_hex(h2);
    lemma_hex_fixed_len(h1 as nat, 16);
    lemma_hex_fixed_len(h2 as nat, 16);
    let n = head.len() as int;
    match extension(name) {
        Some(ext) => {
            assert(hashed_path(path, h1) == head + x1 + (seq!['.'] + ext));
            assert(hashed_path(path, h2) == head + x2 + (seq!['.'] + ext));
            assert((head + x1 + (seq!['.'] + ext)).subrange(n, n + 16) == x1);
            assert((head + x2 + (seq!['.'] + ext)).subrange(n, n + 16) == x2);
        },
        None => {
            assert(file_stem(name) == name);
            assert(hashed_path(path, h1) == head + x1);
            assert(hashed_path(path, h2) == head + x2);
            assert((head + x1).subrange(n, n + 16) == x1);
            assert((head + x2).subrange(n, n + 16) == x2);
        },
    }
    lemma_hash_hex_injective(h1, h2);
}

/// Whether a piece of text is free of path separators.
pub open spec fn no_separator(s: Seq<char>) -> bool {
    forall|j: int| 0 <= j < s.len() ==> s[j] != '/'
}

/// A rendered number holds hexadecimal digits only, so no path separator.
pub proof fn lemma_hex_has_no_separator(v: nat, width: nat)
    ensures
        no_separator(hex_fixed(v, width)),
    decreases width,
{
    if width > 0 {
        let front = hex_fixed(v / 16, (width - 1) as nat);
        lemma_hex_has_no_separator(v / 16, (width - 1) as nat);
        assert forall|j: int| 0 <= j < hex_fixed(v, width).len() implies hex_fixed(v, width)[j]
            != '/' by {
            if j < front.len() {
                assert(hex_fixed(v, width)[j] == front[j]);
            }
        }
    }
}

/// A file name with a fingerprint inserted is still a single segment.
pub proof fn lemma_hashed_file_name_is_segment(name: Seq<char>, hash: u64)
    requires
        no_separator(name),
    ensures
        no_separator(hashed_file_name(name, hash)),
{
    let hex = hash_hex(hash);
    let renamed = hashed_file_name(name, hash);
    lemma_hex_has_no_separator(hash as nat, 16);
    lemma_hex_fixed_len(hash as nat, 16);
    match extension(name) {
        Some(ext) => {
            let d = extension_dot(name);
            crate::paths::lemma_last_index_of(name, '.');
            let stem = file_stem(name);
            assert forall|j: int| 0 <= j < renamed.len() implies renamed[j] != '/' by {
                if j < d {
                    assert(renamed[j] == stem[j]);
                    assert(stem[j] == name[j]);
                } else if j == d {
                    assert(renamed[j] == '-');
                } else if j < d + 17 {
                    assert(renamed[j] == hex[j - d - 1]);
                } else if j == d + 17 {
                    assert(renamed[j] == '.');
                } else {
                    assert(renamed[j] == ext[j - d - 18]);
                    assert(ext[j - d - 18] == name[j - 17]);
                }
            }
        },
        None => {
            assert forall|j: int| 0 <= j < renamed.len() implies renamed[j] != '/' by {
                if j < name.len() {
                    assert(renamed[j] == name[j]);
                } else if j == name.len() {
                    assert(renamed[j] == '-');
                } else {
                    assert(renamed[j] == hex[j - name.len() - 1]);
                }
            }
        },
    }
}

/// The published name of a stylesheet is a single segment.
pub proof fn lemma_stylesheet_file_name_is_segment(entry_name: Seq<char>, hash: u64)
    requires
        no_separator(entry_name),
    ensures
        no_separator(stylesheet_file_name(entry_name, hash)),
        stylesheet_file_name(entry_name, hash).len() > 0,
{
    let hex = hash_hex(hash);
    let stem = file_stem(entry_name);
    let name = stylesheet_file_name(entry_name, hash);
    lemma_hex_has_no_separator(hash as nat, 16);
    lemma_hex_fixed_len(hash as nat, 16);
    crate::paths::lemma_last_index_of(entry_name, '.');
    let d = stem.len() as int;
    assert forall|j: int| 0 <= j < name.len() implies name[j] != '/' by {
        if j < d {
            assert(name[j] == stem[j]);
            assert(stem[j] == entry_name[j]);
        } else if j == d {
            assert(name[j] == '-');
        } else if j < d + 17 {
            assert(name[j] == hex[j - d - 1]);
        } else {
            assert(name[j] == seq!['.', 'c', 's', 's'][j - d - 17]);
        }
    }
}

/// Renaming keeps every directory segment: the published path is plain,
/// has the directory part of the source path, and its last segment is the
/// renamed file name. A relative path stays relative.
pub proof fn lemma_hashed_path_keeps_directories(path: Seq<char>, hash: u64)
    ensures
        is_plain(hashed_path(path, hash)),
        parent_prefix(hashed_path(path, hash)) == parent_prefix(path),
        file_name(hashed_path(path, hash)) == hashed_file_name(file_name(path), hash),
        is_absolute(hashed_path(path, hash)) == is_absolute(path),
{
    let dir = parent_prefix(path);
    let name = file_name(path);
    let renamed = hashed_file_name(name, hash);
    let out = hashed_path(path, hash);
    lemma_parent_and_file_name(path);
    lemma_plain(path);
    lemma_hashed_file_name_is_segment(name, hash);
    lemma_hex_fixed_len(hash as nat, 16);
    assert(renamed.len() > 0 && !is_absolute(renamed)) by {
        match extension(name) {
            Some(ext) => {
                assert(renamed.len() >= 17);
            },
            None => {
                assert(renamed.len() >= 17);
            },
        }
        assert(renamed[0] != '/');
    }
    lemma_dir_and_segment(dir, renamed);
    lemma_plain(out);
    if dir.len() > 0 {
        assert(out[0] == dir[0]);
        assert(dir[0] == plain(path)[0]);
    } else {
        assert(out[0] == renamed[0]);
        assert(plain(path) =~= name);
        if name.len() > 0 {
            assert(name[0] != '/');
        }
    }
}

/// The fingerprint of `content`.
pub fn fingerprint(content: &[u8]) -> (hash: u64)
    ensures
        hash == seahash_of(content@),
{
    seahash::hash(content)
}

fn hex_digit_char(d: u8) -> (c: char)
    requires
        d < 16,
    ensures
        c == hex_digit(d as nat),
{
    if d == 0 {
        '0'
    } else if d == 1 {
        '1'
    } else if d == 2 {
        '2'
    } else if d == 3 {
        '3'
    } else if d == 4 {
        '4'
    } else if d == 5 {
        '5'
    } else if d == 6 {
        '6'
    } else if d == 7 {
        '7'
    } else if d == 8 {
        '8'
    } else if d == 9 {
        '9'
    } else if d == 10 {
        'a'
    } else if d == 11 {
        'b'
    } else if d == 12 {
        'c'
    } else if d == 13 {
        'd'
    } else if d == 14 {
        'e'
    } else {
        'f'
    }
}

/// Appends the `width` lowest hexadecimal digits of `v` to `out`.
pub(crate) fn push_hex(out: &mut Vec<char>, v: u64, width: usize)
    ensures
        final(out)@ == old(out)@ + hex_fixed(v as nat, width as nat),
    decreases width,
{
    if width > 0 {
        push_hex(out, v / 16, width - 1);
        out.push(hex_digit_char((v % 16) as u8));
    }
}

/// Renders a fingerprint as sixteen lower-case hexadecimal digits.
pub fn hash_to_hex(hash: u64) -> (r: String)
    ensures
        r@ == hash_hex(hash),
{
    let mut out: Vec<char> = Vec::new();
    push_hex(&mut out, hash, HASH_HEX_WIDTH);
    let r = from_chars(&out, 0, out.len());
    assert(out@.subrange(0, out@.len() as int) == out@);
    r
}

/// Inserts the fingerprint into the last segment of `path`, just before
/// its extension.
pub fn hashed_path_of(path: &str, hash: u64) -> (r: String)
    ensures
        r@ == hashed_path(path@, hash),
        !is_absolute(path@) ==> !is_absolute(r@),
{
    let p = plain_chars(path);
    let start = name_start(&p);
    let dot = dot_position(&p, start);
    let stem_end = match dot {
        Some(i) => i,
        None => p.len(),
    };
    let mut out: Vec<char> = Vec::new();
    append_range(&mut out, &p, 0, stem_end);
    out.push('-');
    push_hex(&mut out, hash, HASH_HEX_WIDTH);
    append_range(&mut out, &p, stem_end, p.len());
    let r = from_chars(&out, 0, out.len());
    proof {
        let name = file_name(path@);
        assert(name == p@.skip(start as int));
        assert(out@.subrange(0, out@.len() as int) == out@);
        assert(p@.subrange(0, stem_end as int) == parent_prefix(path@) + file_stem(name));
        crate::paths::lemma_last_index_of(name, '.');
        match extension(name) {
            Some(ext) => {
                assert(p@[stem_end as int] == name[stem_end - start]);
                assert(p@.subrange(stem_end as int, p@.len() as int) == seq!['.'] + ext);
            },
            None => {
                assert(p@.subrange(stem_end as int, p@.len() as int) == Seq::<char>::empty());
            },
        }
        assert(out@ == hashed_path(path@, hash));
        lemma_hashed_path_keeps_directories(path@, hash);
    }
    r
}

/// The published file name of the stylesheet compiled from the entry point
/// whose last segment is `entry_name`.
pub fn stylesheet_file_name_of(entry_name: &str, hash: u64) -> (r: String)
    ensures
        r@ == stylesheet_file_name(entry_name@, hash),
{
    let p = to_chars(entry_name);
    assert(p@.skip(0) == p@);
    let stem_end = match dot_position(&p, 0) {
        Some(i) => i,
        None => p.len(),
    };
    let mut out: Vec<char> = Vec::new();
    append_range(&mut out, &p, 0, stem_end);
    out.push('-');
    push_hex(&mut out, hash, HASH_HEX_WIDTH);
    out.push('.');
    out.push('c');
    out.push('s');
    out.push('s');
    let r = from_chars(&out, 0, out.len());
    proof {
        assert(out@.subrange(0, out@.len() as int) == out@);
        assert(p@.subrange(0, stem_end as int) == file_stem(p@));
        assert(out@ == stylesheet_file_name(p@, hash));
    }
    r
}

} // verus!
