//! Paths as text.
//!
//! A path is a string whose segments are separated by `/`. The functions
//! here read and change such text directly; they never touch a filesystem.
//! Every path is read in its plain form, in which repeated separators count
//! as one, and a separator at the end and a segment `.` after the first
//! count for nothing: `a//b/./` and `a/b` are the same path.

use vstd::prelude::*;
use crate::text::{append_range, from_chars, starts_with_at, to_chars};

verus! {

/// Index of the last occurrence of `c` in `s`, or `-1` when there is none.
pub open spec fn last_index_of(s: Seq<char>, c: char) -> int
    decreases s.len(),
{
    if s.len() == 0 {
        -1
    } else if s.last() == c {
        s.len() - 1
    } else {
        last_index_of(s.drop_last(), c)
    }
}

/// `last_index_of` returns a position that holds `c` and has no `c` after it.
pub proof fn lemma_last_index_of(s: Seq<char>, c: char)
    ensures
        -1 <= last_index_of(s, c) < s.len(),
        last_index_of(s, c) >= 0 ==> s[last_index_of(s, c)] == c,
        forall|j: int| last_index_of(s, c) < j < s.len() ==> s[j] != c,
    decreases s.len(),
{
    if s.len() != 0 && s.last() != c {
        let front = s.drop_last();
        lemma_last_index_of(front, c);
        assert forall|j: int| last_index_of(s, c) < j < s.len() implies s[j] != c by {
            if j < front.len() {
                assert(front[j] == s[j]);
            }
        }
    }
}

/// A position that holds `c` with no `c` after it is the one `last_index_of` returns.
pub proof fn lemma_last_index_unique(s: Seq<char>, c: char, i: int)
    requires
        -1 <= i < s.len(),
        i >= 0 ==> s[i] == c,
        forall|j: int| i < j < s.len() ==> s[j] != c,
    ensures
        last_index_of(s, c) == i,
{
    lemma_last_index_of(s, c);
}

/// Whether no two separators stand side by side in `text`.
pub open spec fn no_doubled_separator(text: Seq<char>) -> bool {
    forall|i: int| 0 < i < text.len() ==> !(text[i - 1] == '/' && #[trigger] text[i] == '/')
}

/// Whether no segment `.` stands between two separators in `text`.
pub open spec fn no_dot_between(text: Seq<char>) -> bool {
    forall|i: int|
        0 < i && i + 1 < text.len() ==> !(text[i - 1] == '/' && #[trigger] text[i] == '.' && text[i
            + 1] == '/')
}

/// Whether `text` ends with a separator followed by a single dot.
pub open spec fn ends_with_dot_segment(text: Seq<char>) -> bool {
    text.len() >= 2 && text[text.len() - 2] == '/' && text[text.len() - 1] == '.'
}

/// Whether `text` begins with the segment `.`.
pub open spec fn starts_with_dot_segment(text: Seq<char>) -> bool {
    text.len() > 0 && text[0] == '.' && (text.len() == 1 || text[1] == '/')
}

/// Whether `path` is in plain form: no separator is repeated, none ends
/// the path unless the path is the root, and no segment is `.` except
/// the first.
pub open spec fn is_plain(path: Seq<char>) -> bool {
    &&& no_doubled_separator(path)
    &&& no_dot_between(path)
    &&& !ends_with_dot_segment(path)
    &&& path.len() > 1 ==> path.last() != '/'
}

/// `text` with every run of separators reduced to one and every segment
/// `.` that is followed by a separator taken out, except the first segment.
pub open spec fn collapse(text: Seq<char>) -> Seq<char>
    decreases text.len(),
{
    if text.len() == 0 {
        Seq::empty()
    } else {
        let front = collapse(text.drop_last());
        if text.last() != '/' {
            front.push(text.last())
        } else if front.len() > 0 && front.last() == '/' {
            front
        } else if ends_with_dot_segment(front) {
            front.drop_last()
        } else {
            front.push('/')
        }
    }
}

/// The plain form of `path`: repeated separators count as one, a segment
/// `.` counts for nothing unless it is the first, and a separator at the
/// end is dropped. So `a//b/./c/` is `a/b/c`. Every function of this module
/// reads its paths in this form. The segment `..` is a segment like any
/// other.
pub open spec fn plain(path: Seq<char>) -> Seq<char> {
    let reduced = collapse(path);
    let trimmed = if ends_with_dot_segment(reduced) {
        reduced.drop_last()
    } else {
        reduced
    };
    if trimmed.len() > 1 && trimmed.last() == '/' {
        trimmed.drop_last()
    } else {
        trimmed
    }
}

/// What reducing does: no separator is left repeated and no `.` between
/// two separators, the text keeps its first character, and a text that
/// has neither stays as it is.
pub proof fn lemma_collapse(text: Seq<char>)
    ensures
        no_doubled_separator(collapse(text)),
        no_dot_between(collapse(text)),
        collapse(text).len() <= text.len(),
        text.len() > 0 ==> collapse(text).len() > 0 && collapse(text)[0] == text[0],
        no_doubled_separator(text) && no_dot_between(text) ==> collapse(text) == text,
    decreases text.len(),
{
    if text.len() > 0 {
        let before = text.drop_last();
        let front = collapse(before);
        lemma_collapse(before);
        let out = collapse(text);
        if before.len() > 0 {
            assert(before[0] == text[0]);
        }
        assert forall|i: int| 0 < i < out.len() implies !(out[i - 1] == '/' && #[trigger] out[i]
            == '/') by {
            if i < front.len() {
                assert(out[i] == front[i]);
                assert(out[i - 1] == front[i - 1]);
            }
        }
        assert forall|i: int| 0 < i && i + 1 < out.len() implies !(out[i - 1] == '/'
            && #[trigger] out[i] == '.' && out[i + 1] == '/') by {
            if i + 1 < front.len() {
                assert(out[i] == front[i]);
                assert(out[i - 1] == front[i - 1]);
                assert(out[i + 1] == front[i + 1]);
            } else if out.len() == front.len() + 1 {
                assert(out[i] == front[i]);
                assert(out[i - 1] == front[i - 1]);
            }
        }
        if no_doubled_separator(text) && no_dot_between(text) {
            assert forall|i: int| 0 < i < before.len() implies !(before[i - 1] == '/'
                && #[trigger] before[i] == '/') by {
                assert(before[i] == text[i]);
                assert(before[i - 1] == text[i - 1]);
            }
            assert forall|i: int| 0 < i && i + 1 < before.len() implies !(before[i - 1] == '/'
                && #[trigger] before[i] == '.' && before[i + 1] == '/') by {
                assert(before[i] == text[i]);
                assert(before[i - 1] == text[i - 1]);
                assert(before[i + 1] == text[i + 1]);
            }
            if before.len() > 0 {
                assert(text[text.len() - 2] == before.last());
                assert(!(text[text.len() - 2] == '/' && text[text.len() - 1] == '/'));
            }
            if before.len() >= 2 {
                assert(text[text.len() - 3] == before[before.len() - 2]);
                assert(!(text[text.len() - 3] == '/' && text[text.len() - 2] == '.' && text[text.len()
                    - 1] == '/'));
            }
            assert(out =~= text);
        }
    }
}

/// The plain form is plain, begins as the path begins, and a plain path is
/// its own plain form.
pub proof fn lemma_plain(path: Seq<char>)
    ensures
        is_plain(plain(path)),
        path.len() > 0 ==> plain(path).len() > 0 && plain(path)[0] == path[0],
        is_absolute(plain(path)) == is_absolute(path),
        is_plain(path) ==> plain(path) == path,
        plain(plain(path)) == plain(path),
{
    lemma_collapse(path);
    let reduced = collapse(path);
    let out = plain(path);
    assert(out.len() <= reduced.len());
    assert forall|i: int| 0 <= i < out.len() implies out[i] == reduced[i] by {}
    assert forall|i: int| 0 < i < out.len() implies !(out[i - 1] == '/' && #[trigger] out[i]
        == '/') by {
        assert(out[i] == reduced[i]);
        assert(out[i - 1] == reduced[i - 1]);
    }
    assert forall|i: int| 0 < i && i + 1 < out.len() implies !(out[i - 1] == '/'
        && #[trigger] out[i] == '.' && out[i + 1] == '/') by {
        assert(out[i] == reduced[i]);
        assert(out[i - 1] == reduced[i - 1]);
        assert(out[i + 1] == reduced[i + 1]);
    }
    // What is cut off at the end is a separator, or a dot after one.
    if out.len() >= 2 {
        let n = out.len() as int;
        assert(out[n - 1] == reduced[n - 1]);
        assert(out[n - 2] == reduced[n - 2]);
        if out.len() < reduced.len() {
            assert(reduced[n] == '/' || (reduced[n] == '.' && reduced[n - 1] == '/'));
            if reduced[n] == '/' {
                assert(!(reduced[n - 1] == '/' && reduced[n] == '/'));
                assert(!(reduced[n - 2] == '/' && reduced[n - 1] == '.' && reduced[n] == '/'));
            }
        }
    }
    lemma_collapse(out);
}

/// In a text, the part up to and including the last `/`; empty when there is none.
pub open spec fn dir_part(text: Seq<char>) -> Seq<char> {
    text.take(last_index_of(text, '/') + 1)
}

/// In a text, the part after the last `/`.
pub open spec fn last_segment(text: Seq<char>) -> Seq<char> {
    text.skip(last_index_of(text, '/') + 1)
}

/// The directory part of `path`, with its trailing `/`; empty when `path`
/// has a single relative segment.
pub open spec fn parent_prefix(path: Seq<char>) -> Seq<char> {
    dir_part(plain(path))
}

/// The last segment of `path`. A separator at the end of the path does not
/// count, so the file name of `a/b/` is `b`.
pub open spec fn file_name(path: Seq<char>) -> Seq<char> {
    last_segment(plain(path))
}

/// Position of the dot that separates stem and extension in a file name, or
/// `-1` when the name has no extension. A dot in first position belongs to
/// the stem, so hidden files such as `.profile` have no extension.
pub open spec fn extension_dot(name: Seq<char>) -> int {
    let d = last_index_of(name, '.');
    if d <= 0 {
        -1
    } else {
        d
    }
}

/// The file name without its extension. Only the last dot splits, so
/// `archive.tar.gz` has the stem `archive.tar`.
pub open spec fn file_stem(name: Seq<char>) -> Seq<char> {
    if extension_dot(name) < 0 {
        name
    } else {
        name.take(extension_dot(name))
    }
}

/// The text after the last dot of a file name, if it has an extension.
pub open spec fn extension(name: Seq<char>) -> Option<Seq<char>> {
    if extension_dot(name) < 0 {
        None
    } else {
        Some(name.skip(extension_dot(name) + 1))
    }
}

/// Whether `path` starts at the filesystem root.
pub open spec fn is_absolute(path: Seq<char>) -> bool {
    path.len() > 0 && path[0] == '/'
}

/// `rel` placed under `base`. An absolute `rel` replaces `base`; otherwise
/// a single `/` separates the two unless `base` is empty or already ends
/// with one.
pub open spec fn join(base: Seq<char>, rel: Seq<char>) -> Seq<char> {
    if is_absolute(rel) {
        rel
    } else if base.len() == 0 {
        rel
    } else if base.last() == '/' {
        base + rel
    } else {
        base + seq!['/'] + rel
    }
}

/// `path` relative to `base`, when `path` lies under `base`. Both are read
/// in plain form, so repeated separators and a separator at the end of
/// either make no difference. The prefix must end at a segment boundary:
/// `assets-old/x` is not under `assets`. Under the empty base every path
/// lies, and stays as it is.
pub open spec fn strip_prefix(path: Seq<char>, base: Seq<char>) -> Option<Seq<char>> {
    let p = plain(path);
    let b = plain(base);
    if b.len() == 0 {
        Some(p)
    } else if p == b {
        Some(Seq::empty())
    } else if b.len() == 1 && b[0] == '/' {
        if is_absolute(p) {
            Some(p.skip(1))
        } else {
            None
        }
    } else if p.len() > b.len() && p.take(b.len() as int) == b && p[b.len() as int] == '/' {
        Some(p.skip(b.len() as int + 1))
    } else {
        None
    }
}

/// `path` relative to `base`, when it lies under `base` and what is left
/// is a relative path. This differs from `strip_prefix` for the empty base
/// only, under which an absolute path stays absolute.
pub open spec fn relative_to(path: Seq<char>, base: Seq<char>) -> Option<Seq<char>> {
    match strip_prefix(path, base) {
        Some(rest) => if is_absolute(rest) {
            None
        } else {
            Some(rest)
        },
        None => None,
    }
}

/// Whether a segment is `.` or `..`, which name no file.
pub open spec fn is_dots(segment: Seq<char>) -> bool {
    ||| segment.len() == 1 && segment[0] == '.'
    ||| segment.len() == 2 && segment[0] == '.' && segment[1] == '.'
}

/// `path` with its last segment replaced by `name`. Where the last segment
/// names no file (`.` or `..`), `name` is put below the path instead.
pub open spec fn with_file_name(path: Seq<char>, name: Seq<char>) -> Seq<char> {
    if is_dots(file_name(path)) {
        join(plain(path), name)
    } else {
        parent_prefix(path) + name
    }
}

/// `path` with the extension of its last segment replaced by `ext`. A path
/// whose last segment names no file (the empty path, the root, `.`, `..`)
/// stays as it is.
pub open spec fn with_extension(path: Seq<char>, ext: Seq<char>) -> Seq<char> {
    if file_name(path).len() == 0 || is_dots(file_name(path)) {
        plain(path)
    } else {
        parent_prefix(path) + file_stem(file_name(path)) + seq!['.'] + ext
    }
}

/// The directory that holds `path`. A path directly under the root has the
/// parent `/`; a single relative segment has the empty parent; the empty
/// path and the root have none.
pub open spec fn parent_dir(path: Seq<char>) -> Option<Seq<char>> {
    let p = plain(path);
    let start = last_index_of(p, '/') + 1;
    if p.len() == 0 || (p.len() == 1 && p[0] == '/') {
        None
    } else if start <= 1 {
        Some(p.take(start))
    } else {
        Some(p.take(start - 1))
    }
}

/// What is left of a path after its base is relative: it never begins
/// with a separator.
pub proof fn lemma_stripped_is_relative(path: Seq<char>, base: Seq<char>)
    requires
        base.len() > 0,
        strip_prefix(path, base) is Some,
    ensures
        !is_absolute(strip_prefix(path, base)->Some_0),
        is_plain(strip_prefix(path, base)->Some_0),
{
    lemma_plain(path);
    lemma_plain(base);
    let p = plain(path);
    let b = plain(base);
    let rest = strip_prefix(path, base)->Some_0;
    if p != b {
        let cut: int = if b.len() == 1 && b[0] == '/' {
            1
        } else {
            b.len() as int + 1
        };
        assert(rest == p.skip(cut));
        assert(p[cut - 1] == '/');
        if rest.len() > 0 {
            assert(rest[0] == p[cut]);
        }
        assert forall|i: int| 0 < i < rest.len() implies !(rest[i - 1] == '/' && #[trigger] rest[i]
            == '/') by {
            assert(rest[i] == p[cut + i]);
            assert(rest[i - 1] == p[cut + i - 1]);
        }
        if rest.len() > 1 {
            assert(rest.last() == p.last());
        }
    }
}

/// Joining what was stripped back onto the base gives the path again, each
/// in plain form. Where nothing is left, the path is the base.
pub proof fn lemma_join_stripped(path: Seq<char>, base: Seq<char>)
    requires
        base.len() > 0,
        strip_prefix(path, base) is Some,
    ensures
        ({
            let rest = strip_prefix(path, base)->Some_0;
            if rest.len() == 0 {
                plain(path) == plain(base)
            } else {
                join(plain(base), rest) == plain(path)
            }
        }),
{
    lemma_plain(path);
    lemma_plain(base);
    lemma_stripped_is_relative(path, base);
    let p = plain(path);
    let b = plain(base);
    let rest = strip_prefix(path, base)->Some_0;
    if p != b {
        if b.len() == 1 && b[0] == '/' {
            assert(p =~= b + rest);
            if rest.len() == 0 {
                assert(p =~= b);
            }
        } else {
            assert(p.len() > b.len() + 1) by {
                if p.len() == b.len() + 1 {
                    assert(p.last() == p[b.len() as int]);
                }
            }
            assert(b.last() != '/') by {
                if b.len() == 1 {
                    assert(b.last() == b[0]);
                }
            }
            assert(p =~= b + seq!['/'] + rest);
        }
    }
}

/// Joining a relative plain path onto a plain base gives a plain path,
/// as long as the relative path does not begin with the segment `.`.
pub proof fn lemma_join_plain(base: Seq<char>, rel: Seq<char>)
    requires
        is_plain(base),
        is_plain(rel),
        !is_absolute(rel),
        rel.len() > 0,
        base.len() > 0 ==> !starts_with_dot_segment(rel),
    ensures
        is_plain(join(base, rel)),
        join(base, rel) == join_front(base) + rel,
        join(base, rel).len() > 0,
        starts_with_dot_segment(join(base, rel)) == (if base.len() == 0 {
            starts_with_dot_segment(rel)
        } else {
            starts_with_dot_segment(base)
        }),
        last_segment(join(base, rel)) == last_segment(rel),
        dir_part(join(base, rel)) == join_front(base) + dir_part(rel),
{
    let front = join_front(base);
    let joined = join(base, rel);
    assert(joined =~= front + rel);
    lemma_last_index_of(rel, '/');
    let k = last_index_of(rel, '/');
    if k >= 0 {
        assert(joined[front.len() + k] == rel[k]);
        assert forall|j: int| front.len() + k < j < joined.len() implies joined[j] != '/' by {
            assert(joined[j] == rel[j - front.len()]);
        }
        lemma_last_index_unique(joined, '/', front.len() + k);
    } else {
        assert forall|j: int| front.len() - 1 < j < joined.len() implies joined[j] != '/' by {
            assert(joined[j] == rel[j - front.len()]);
        }
        if front.len() > 0 {
            assert(joined[front.len() - 1] == front.last());
        }
        lemma_last_index_unique(joined, '/', front.len() - 1);
    }
    assert(last_segment(joined) =~= last_segment(rel));
    assert(dir_part(joined) =~= front + dir_part(rel));
    if base.len() > 0 && base.last() == '/' {
        assert(base.len() == 1);
    }
    assert forall|i: int| 0 < i < joined.len() implies !(joined[i - 1] == '/'
        && #[trigger] joined[i] == '/') by {
        if i < base.len() {
            assert(joined[i] == base[i]);
            assert(joined[i - 1] == base[i - 1]);
        } else if i < front.len() {
            assert(joined[i - 1] == base.last());
        } else if i == front.len() {
            assert(joined[i] == rel[0]);
        } else {
            assert(joined[i] == rel[i - front.len()]);
            assert(joined[i - 1] == rel[i - 1 - front.len()]);
        }
    }
    assert forall|i: int| 0 < i && i + 1 < joined.len() implies !(joined[i - 1] == '/'
        && #[trigger] joined[i] == '.' && joined[i + 1] == '/') by {
        if i + 1 < base.len() {
            assert(joined[i] == base[i]);
            assert(joined[i - 1] == base[i - 1]);
            assert(joined[i + 1] == base[i + 1]);
        } else if i + 1 < front.len() {
            // The separator put in comes after the last character of the base.
            assert(joined[i] == base[i]);
            assert(joined[i - 1] == base[i - 1]);
            assert(base.len() >= 2);
        } else if i + 1 == front.len() {
            // The base ends with a separator of its own: it is the root.
            assert(joined[i + 1] == rel[0]);
        } else if i == front.len() {
            assert(joined[i] == rel[0]);
            assert(joined[i + 1] == rel[1]);
        } else {
            assert(joined[i] == rel[i - front.len()]);
            assert(joined[i - 1] == rel[i - 1 - front.len()]);
            assert(joined[i + 1] == rel[i + 1 - front.len()]);
        }
    }
    assert(joined.last() == rel.last());
    if rel.len() == 1 {
        assert(rel.last() == rel[0]);
    } else {
        assert(joined[joined.len() - 2] == rel[rel.len() - 2]);
    }
    if base.len() > 0 {
        assert(joined[0] == base[0]);
        if base.len() > 1 {
            assert(joined[1] == base[1]);
        } else {
            assert(joined[1] == (if base[0] == '/' {
                rel[0]
            } else {
                '/'
            }));
        }
    }
}

/// Stripping `base` from `join(base, rel)` gives back `rel`, for a plain
/// base and a relative plain `rel` that does not begin with the segment `.`.
pub proof fn lemma_strip_join(base: Seq<char>, rel: Seq<char>)
    requires
        is_plain(base),
        is_plain(rel),
        !is_absolute(rel),
        rel.len() > 0,
        base.len() > 0 ==> !starts_with_dot_segment(rel),
    ensures
        strip_prefix(join(base, rel), base) == Some(rel),
{
    let joined = join(base, rel);
    lemma_join_plain(base, rel);
    lemma_plain(joined);
    lemma_plain(base);
    let front = join_front(base);
    if base.len() == 0 {
    } else if base.len() == 1 && base[0] == '/' {
        assert(joined.skip(1) =~= rel);
        assert(joined != base);
    } else {
        assert(base.last() != '/') by {
            if base.len() == 1 {
                assert(base.last() == base[0]);
            }
        }
        assert(joined.take(base.len() as int) =~= base);
        assert(joined[base.len() as int] == '/');
        assert(joined.skip(base.len() as int + 1) =~= rel);
        assert(joined != base);
    }
}

/// Joining a relative path onto a base puts the base, with its separator,
/// in front of it. The piece put in front is empty or ends with `/`.
pub open spec fn join_front(base: Seq<char>) -> Seq<char> {
    if base.len() == 0 || base.last() == '/' {
        base
    } else {
        base + seq!['/']
    }
}

/// Joining two relative paths gives a relative path, and joining in two
/// steps is joining onto the joined path.
pub proof fn lemma_join_twice(base: Seq<char>, middle: Seq<char>, rel: Seq<char>)
    requires
        !is_absolute(middle),
        !is_absolute(rel),
    ensures
        !is_absolute(join(middle, rel)),
        join(join(base, middle), rel) == join(base, join(middle, rel)),
{
    let inner = join(middle, rel);
    let outer = join(base, middle);
    if middle.len() == 0 {
        if base.len() > 0 && base.last() != '/' {
            assert(outer == base + seq!['/']);
            assert(outer.last() == '/');
        } else {
            assert(outer == base);
        }
    } else {
        assert(inner[0] == middle[0]);
        assert(outer.last() == middle.last());
        assert(join(outer, rel) =~= join_front(base) + inner);
        assert(join(base, inner) =~= join_front(base) + inner);
    }
}

/// A directory part followed by a single segment is a plain path, whose
/// directory part and last segment are these two.
pub proof fn lemma_dir_and_segment(dir: Seq<char>, segment: Seq<char>)
    requires
        no_doubled_separator(dir),
        no_dot_between(dir),
        dir.len() > 0 ==> dir.last() == '/',
        segment.len() > 0,
        forall|j: int| 0 <= j < segment.len() ==> segment[j] != '/',
        dir.len() > 0 ==> !starts_with_dot_segment(segment),
    ensures
        is_plain(dir + segment),
        dir_part(dir + segment) == dir,
        last_segment(dir + segment) == segment,
{
    let text = dir + segment;
    assert forall|i: int| 0 < i && i + 1 < text.len() implies !(text[i - 1] == '/'
        && #[trigger] text[i] == '.' && text[i + 1] == '/') by {
        if i + 1 < dir.len() {
            assert(text[i] == dir[i]);
            assert(text[i - 1] == dir[i - 1]);
            assert(text[i + 1] == dir[i + 1]);
        } else {
            assert(text[i + 1] == segment[i + 1 - dir.len()]);
        }
    }
    if text.len() >= 2 && dir.len() > 0 {
        if segment.len() == 1 {
            assert(text[text.len() - 1] == segment[0]);
        } else {
            assert(text[text.len() - 2] == segment[segment.len() - 2]);
        }
    } else if text.len() >= 2 {
        assert(text[text.len() - 2] == segment[segment.len() - 2]);
    }
    assert forall|i: int| 0 < i < text.len() implies !(text[i - 1] == '/' && #[trigger] text[i]
        == '/') by {
        if i < dir.len() {
            assert(text[i] == dir[i]);
            assert(text[i - 1] == dir[i - 1]);
        } else {
            assert(text[i] == segment[i - dir.len()]);
        }
    }
    assert(text.last() == segment.last());
    assert forall|j: int| dir.len() - 1 < j < text.len() implies text[j] != '/' by {
        assert(text[j] == segment[j - dir.len()]);
    }
    if dir.len() > 0 {
        assert(text[dir.len() - 1] == dir.last());
    }
    lemma_last_index_unique(text, '/', dir.len() - 1);
    assert(text.take(dir.len() as int) =~= dir);
    assert(text.skip(dir.len() as int) =~= segment);
}

/// Replacing the file name of a joined path is replacing it in the
/// relative part, for plain paths and a new name that is a single segment.
pub proof fn lemma_with_file_name_join(base: Seq<char>, rel: Seq<char>, name: Seq<char>)
    requires
        is_plain(base),
        is_plain(rel),
        !is_absolute(rel),
        rel.len() > 0,
        !starts_with_dot_segment(rel),
        !is_dots(last_segment(rel)),
        name.len() > 0,
        forall|j: int| 0 <= j < name.len() ==> name[j] != '/',
        !starts_with_dot_segment(name),
    ensures
        !is_absolute(with_file_name(rel, name)),
        is_plain(with_file_name(rel, name)),
        !starts_with_dot_segment(with_file_name(rel, name)),
        with_file_name(rel, name).len() > 0,
        with_file_name(join(base, rel), name) == join(base, with_file_name(rel, name)),
{
    let front = join_front(base);
    let joined = join(base, rel);
    lemma_join_plain(base, rel);
    lemma_plain(joined);
    lemma_plain(rel);
    lemma_last_index_of(rel, '/');
    let k = last_index_of(rel, '/');
    let dir = dir_part(rel);
    let replaced = with_file_name(rel, name);
    assert(replaced == dir + name);
    assert forall|i: int| 0 < i < dir.len() implies !(dir[i - 1] == '/' && #[trigger] dir[i]
        == '/') by {
        assert(dir[i] == rel[i]);
        assert(dir[i - 1] == rel[i - 1]);
    }
    assert forall|i: int| 0 < i && i + 1 < dir.len() implies !(dir[i - 1] == '/'
        && #[trigger] dir[i] == '.' && dir[i + 1] == '/') by {
        assert(dir[i] == rel[i]);
        assert(dir[i - 1] == rel[i - 1]);
        assert(dir[i + 1] == rel[i + 1]);
    }
    if dir.len() > 0 {
        assert(dir.last() == rel[k]);
        assert(replaced[0] == rel[0]);
        assert(dir.len() >= 2);
        assert(replaced[1] == rel[1]);
    } else {
        assert(replaced[0] == name[0]);
        assert(replaced =~= name);
    }
    lemma_dir_and_segment(dir, name);
    lemma_join_plain(base, replaced);
    assert(with_file_name(joined, name) =~= front + replaced);
}

/// A path in plain form is its directory part followed by its file name,
/// and the file name holds no separator.
pub proof fn lemma_parent_and_file_name(path: Seq<char>)
    ensures
        parent_prefix(path) + file_name(path) == plain(path),
        no_doubled_separator(parent_prefix(path)),
        no_dot_between(parent_prefix(path)),
        parent_prefix(path).len() > 0 ==> parent_prefix(path).last() == '/',
        forall|j: int| 0 <= j < file_name(path).len() ==> file_name(path)[j] != '/',
{
    let p = plain(path);
    lemma_plain(path);
    lemma_last_index_of(p, '/');
    let start = last_index_of(p, '/') + 1;
    let name = file_name(path);
    let dir = parent_prefix(path);
    assert forall|j: int| 0 <= j < name.len() implies name[j] != '/' by {
        assert(name[j] == p[start + j]);
    }
    assert forall|i: int| 0 < i < dir.len() implies !(dir[i - 1] == '/' && #[trigger] dir[i]
        == '/') by {
        assert(dir[i] == p[i]);
        assert(dir[i - 1] == p[i - 1]);
    }
    assert forall|i: int| 0 < i && i + 1 < dir.len() implies !(dir[i - 1] == '/'
        && #[trigger] dir[i] == '.' && dir[i + 1] == '/') by {
        assert(dir[i] == p[i]);
        assert(dir[i - 1] == p[i - 1]);
        assert(dir[i + 1] == p[i + 1]);
    }
    if dir.len() > 0 {
        assert(dir.last() == p[start - 1]);
    }
}

/// Position of the last `c` in `v`.
pub(crate) fn find_last(v: &Vec<char>, from: usize, c: char) -> (r: Option<usize>)
    requires
        from <= v.len(),
    ensures
        match r {
            Some(i) => from <= i < v.len() && last_index_of(v@.skip(from as int), c) == i - from,
            None => last_index_of(v@.skip(from as int), c) == -1,
        },
{
    let ghost tail = v@.skip(from as int);
    let mut i: usize = v.len();
    while i > from
        invariant
            from <= i <= v.len(),
            tail == v@.skip(from as int),
            forall|j: int| i - from <= j < tail.len() ==> tail[j] != c,
        decreases i,
    {
        if v[i - 1] == c {
            proof {
                lemma_last_index_unique(tail, c, i - 1 - from);
            }
            return Some(i - 1);
        }
        i = i - 1;
    }
    proof {
        lemma_last_index_unique(tail, c, -1);
    }
    None
}

/// Where the last segment of `v` begins.
pub(crate) fn name_start(v: &Vec<char>) -> (r: usize)
    ensures
        r == last_index_of(v@, '/') + 1,
        r <= v.len(),
{
    assert(v@.skip(0) == v@);
    match find_last(v, 0, '/') {
        Some(i) => i + 1,
        None => 0,
    }
}

fn ends_with_dot(v: &Vec<char>) -> (r: bool)
    ensures
        r == ends_with_dot_segment(v@),
{
    v.len() >= 2 && v[v.len() - 2] == '/' && v[v.len() - 1] == '.'
}

/// The characters of `path` in plain form.
pub(crate) fn plain_chars(path: &str) -> (v: Vec<char>)
    ensures
        v@ == plain(path@),
{
    let chars = to_chars(path);
    let mut out: Vec<char> = Vec::new();
    let mut i: usize = 0;
    assert(chars@.take(0) == Seq::<char>::empty());
    while i < chars.len()
        invariant
            i <= chars.len(),
            out@ == collapse(chars@.take(i as int)),
        decreases chars.len() - i,
    {
        proof {
            assert(chars@.take(i + 1).drop_last() == chars@.take(i as int));
        }
        let c = chars[i];
        if c != '/' {
            out.push(c);
        } else if out.len() > 0 && out[out.len() - 1] == '/' {
        } else if ends_with_dot(&out) {
            out.pop();
        } else {
            out.push('/');
        }
        i = i + 1;
    }
    assert(chars@.take(i as int) == chars@);
    if ends_with_dot(&out) {
        out.pop();
    }
    if out.len() > 1 && out[out.len() - 1] == '/' {
        out.pop();
    }
    out
}

/// `path` in plain form: repeated separators reduced to one, and no
/// separator at the end unless the path is the root.
pub fn to_plain(path: &str) -> (r: String)
    ensures
        r@ == plain(path@),
{
    let p = plain_chars(path);
    assert(p@.subrange(0, p@.len() as int) == p@);
    from_chars(&p, 0, p.len())
}

/// Where the extension dot of the file name `v[start..]` lies, as an index into `v`.
pub(crate) fn dot_position(v: &Vec<char>, start: usize) -> (r: Option<usize>)
    requires
        start <= v.len(),
    ensures
        match r {
            Some(i) => start < i < v.len() && extension_dot(v@.skip(start as int)) == i - start,
            None => extension_dot(v@.skip(start as int)) == -1,
        },
{
    match find_last(v, start, '.') {
        Some(i) => if i > start {
            Some(i)
        } else {
            None
        },
        None => None,
    }
}

/// Joins `rel` onto `base`.
pub fn join_paths(base: &str, rel: &str) -> (r: String)
    ensures
        r@ == join(base@, rel@),
{
    let b = to_chars(base);
    let p = to_chars(rel);
    let mut out: Vec<char> = Vec::new();
    let absolute = p.len() > 0 && p[0] == '/';
    if !absolute && b.len() > 0 {
        append_range(&mut out, &b, 0, b.len());
        assert(b@.subrange(0, b@.len() as int) == b@);
        if b[b.len() - 1] != '/' {
            out.push('/');
        }
    }
    append_range(&mut out, &p, 0, p.len());
    assert(p@.subrange(0, p@.len() as int) == p@);
    let r = from_chars(&out, 0, out.len());
    assert(out@.subrange(0, out@.len() as int) == out@);
    assert(out@ == join(base@, rel@));
    r
}

/// Makes `path` relative to `base`, or returns `None` when it does not lie under it.
pub fn strip_base(path: &str, base: &str) -> (r: Option<String>)
    ensures
        r.deep_view() == strip_prefix(path@, base@),
        base@.len() > 0 ==> (r matches Some(rest) ==> !is_absolute(rest@)),
{
    let p = plain_chars(path);
    let b = plain_chars(base);
    let n = b.len();
    proof {
        if base@.len() > 0 && strip_prefix(path@, base@) is Some {
            lemma_stripped_is_relative(path@, base@);
        }
        assert(p@.subrange(0, p@.len() as int) == p@);
    }
    if n == 0 {
        return Some(from_chars(&p, 0, p.len()));
    }
    let starts = starts_with_at(&p, 0, &b);
    proof {
        if p@.len() >= n {
            assert(p@.take(n as int) == p@.subrange(0, n as int));
        }
        if p@ == b@ {
            assert(p@.subrange(0, n as int) == b@);
        }
        if starts && p@.len() == n {
            assert(p@.take(n as int) == p@);
        }
        if n == 1 && b@[0] == '/' && is_absolute(p@) {
            assert(p@.subrange(0, 1) =~= b@);
        }
    }
    if !starts {
        return None;
    }
    let cut: usize = if p.len() == n {
        n
    } else if n == 1 && b[0] == '/' {
        assert(p@[0] == p@.take(1)[0]);
        1
    } else if p[n] == '/' {
        n + 1
    } else {
        return None;
    };
    let r = from_chars(&p, cut, p.len());
    assert(p@.subrange(cut as int, p@.len() as int) == p@.skip(cut as int));
    assert(p@.len() == n ==> p@.skip(n as int) =~= Seq::<char>::empty());
    Some(r)
}

/// Makes `path` relative to `base`. Returns `None` when it does not lie
/// under it, or when what is left would not be a relative path.
pub fn relative_path(path: &str, base: &str) -> (r: Option<String>)
    ensures
        r.deep_view() == relative_to(path@, base@),
        r matches Some(rest) ==> !is_absolute(rest@),
{
    match strip_base(path, base) {
        Some(rest) => {
            let chars = to_chars(rest.as_str());
            if chars.len() > 0 && chars[0] == '/' {
                None
            } else {
                Some(rest)
            }
        },
        None => None,
    }
}

/// The directory that holds `path`, if it has one.
pub fn parent_of(path: &str) -> (r: Option<String>)
    ensures
        r.deep_view() == parent_dir(path@),
{
    let p = plain_chars(path);
    if p.len() == 0 || (p.len() == 1 && p[0] == '/') {
        return None;
    }
    let start = name_start(&p);
    let end = if start <= 1 {
        start
    } else {
        start - 1
    };
    let r = from_chars(&p, 0, end);
    assert(p@.subrange(0, end as int) == p@.take(end as int));
    Some(r)
}

fn segment_is_dots(v: &Vec<char>, start: usize) -> (r: bool)
    requires
        start <= v.len(),
    ensures
        r == is_dots(v@.skip(start as int)),
{
    let n = v.len() - start;
    if n == 1 {
        assert(v@.skip(start as int)[0] == v@[start as int]);
        v[start] == '.'
    } else if n == 2 {
        assert(v@.skip(start as int)[0] == v@[start as int]);
        assert(v@.skip(start as int)[1] == v@[start + 1]);
        v[start] == '.' && v[start + 1] == '.'
    } else {
        false
    }
}

/// Replaces the last segment of `path` by `name`.
pub fn replace_file_name(path: &str, name: &str) -> (r: String)
    ensures
        r@ == with_file_name(path@, name@),
{
    let p = plain_chars(path);
    let start = name_start(&p);
    if segment_is_dots(&p, start) {
        assert(p@.subrange(0, p@.len() as int) == p@);
        let whole = from_chars(&p, 0, p.len());
        return join_paths(whole.as_str(), name);
    }
    let mut out: Vec<char> = Vec::new();
    append_range(&mut out, &p, 0, start);
    crate::text::append_str(&mut out, name);
    let r = from_chars(&out, 0, out.len());
    assert(out@.subrange(0, out@.len() as int) == out@);
    assert(p@.subrange(0, start as int) == p@.take(start as int));
    r
}

/// Replaces the extension of the last segment of `path` by `ext`.
pub fn replace_extension(path: &str, ext: &str) -> (r: String)
    ensures
        r@ == with_extension(path@, ext@),
{
    let p = plain_chars(path);
    let start = name_start(&p);
    if start == p.len() || segment_is_dots(&p, start) {
        assert(p@.subrange(0, p@.len() as int) == p@);
        return from_chars(&p, 0, p.len());
    }
    let end = match dot_position(&p, start) {
        Some(i) => i,
        None => p.len(),
    };
    let mut out: Vec<char> = Vec::new();
    append_range(&mut out, &p, 0, end);
    out.push('.');
    crate::text::append_str(&mut out, ext);
    let r = from_chars(&out, 0, out.len());
    proof {
        let name = p@.skip(start as int);
        assert(name == file_name(path@));
        assert(p@.take(start as int) == parent_prefix(path@));
        assert(out@.subrange(0, out@.len() as int) == out@);
        assert(p@.subrange(0, end as int) == p@.take(start as int) + file_stem(name)) by {
            if extension_dot(name) < 0 {
                assert(p@.subrange(0, end as int) == p@);
                assert(p@.take(start as int) + name == p@);
            } else {
                assert(p@.subrange(0, end as int) == p@.take(start as int) + name.take(
                    end - start,
                ));
            }
        }
    }
    r
}

} // verus!
