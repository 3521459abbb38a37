//! Finding the noalbs executable inside a downloaded release archive.
use vstd::prelude::*;

use crate::error::AppError;
use crate::text::{chars_of, ends_with, ends_with_exec};
use vstd::utf8::{decode_utf8, encode_utf8, valid_utf8};

verus! {

// ---------------------------------------------------------------------------
// What the archive readers list
// ---------------------------------------------------------------------------

/// What `zip::ZipArchive` lists of an archive: the `name()` of each file, in
/// archive order, as far as `ZipArchive::by_index` opens them; and whether the
/// reading stopped on an error (an archive that `ZipArchive::new` refuses
/// lists nothing and stopped).
pub uninterp spec fn zip_listing(archive: Seq<u8>) -> (Seq<Seq<char>>, bool);

/// What `tar::Archive::entries` lists of a tarball read through
/// `flate2::read::GzDecoder`: the raw path of each entry
/// (`Entry::path_bytes`), in order, as far as the entries can be read; and
/// whether the reading stopped on an error.
pub uninterp spec fn tar_listing(archive: Seq<u8>) -> (Seq<Seq<u8>>, bool);

/// Opens `archive` with `zip::ZipArchive::new` and opens each file in turn
/// with `by_index`, keeping its `name()`; it stops at the first error and
/// hands that error back beside the names read so far. The listing is named
/// by `zip_listing`, a function of the bytes alone; the error is always a zip
/// error, and which one is left open.
#[verifier::external_body]
fn zip_names(archive: &[u8]) -> (r: (Vec<String>, Option<AppError>))
    ensures
        zip_listing(archive@) == (r.0@.map_values(|n: String| n@), r.1 is Some),
        r.1 matches Some(e) ==> e is Zip,
{
    let mut names = Vec::new();
    let mut zip = match zip::ZipArchive::new(std::io::Cursor::new(archive)) {
        Ok(z) => z,
        Err(e) => return (names, Some(AppError::Zip(e))),
    };
    for i in 0..zip.len() {
        match zip.by_index(i) {
            Ok(file) => names.push(file.name().to_string()),
            Err(e) => return (names, Some(AppError::Zip(e))),
        }
    }
    (names, None)
}

/// Decompresses `archive` with `flate2::read::GzDecoder` and walks it with
/// `tar::Archive::entries`, keeping each entry's `path_bytes()`; it stops at
/// the first error and hands that I/O error back beside the paths read so
/// far. The listing is named by `tar_listing`, a function of the bytes alone;
/// the error is always an I/O error, and which one is left open.
#[verifier::external_body]
fn tar_paths(archive: &[u8]) -> (r: (Vec<Vec<u8>>, Option<AppError>))
    ensures
        tar_listing(archive@) == (r.0@.map_values(|p: Vec<u8>| p@), r.1 is Some),
        r.1 matches Some(e) ==> e is Io,
{
    let mut tar = tar::Archive::new(flate2::read::GzDecoder::new(std::io::Cursor::new(archive)));
    let mut paths = Vec::new();
    let entries = match tar.entries() {
        Ok(e) => e,
        Err(e) => return (paths, Some(AppError::Io(e))),
    };
    for entry in entries {
        match entry {
            Ok(entry) => paths.push(entry.path_bytes().into_owned()),
            Err(e) => return (paths, Some(AppError::Io(e))),
        }
    }
    (paths, None)
}

/// `std::str::from_utf8` accepts exactly the byte strings that are valid
/// UTF-8.
#[verifier::external_body]
fn is_utf8(bytes: &[u8]) -> (r: bool)
    ensures
        r == valid_utf8(bytes@),
{
    std::str::from_utf8(bytes).is_ok()
}

/// The error that `tar` reports on Windows for an entry whose path `path` is
/// not UTF-8: an `std::io::Error` of kind `Other`, made by
/// `std::io::Error::new` with the message that `tar` writes (the path shown
/// through `String::from_utf8_lossy`). The contract claims only that it is an
/// I/O error.
#[verifier::external_body]
fn non_unicode_path_error(path: &[u8]) -> (r: AppError)
    ensures
        r is Io,
{
    AppError::Io(
        std::io::Error::new(
            std::io::ErrorKind::Other,
            format!(
                "only Unicode paths are supported on Windows: {}",
                String::from_utf8_lossy(path),
            ),
        ),
    )
}

// ---------------------------------------------------------------------------
// The file name of a tar entry
// ---------------------------------------------------------------------------

/// How a path splits into components: at `/` only (elsewhere than Windows),
/// at `/` and `\` (Windows), or at `\` only with `.` components kept (the
/// rest of a Windows verbatim path, one that begins with `\\?\`).
#[derive(Clone, Copy)]
pub enum PathStyle {
    Unix,
    Windows,
    Verbatim,
}

/// `b` separates path components in style `st`.
pub open spec fn is_separator(b: u8, st: PathStyle) -> bool {
    match st {
        PathStyle::Unix => b == 47u8,
        PathStyle::Windows => b == 47u8 || b == 92u8,
        PathStyle::Verbatim => b == 92u8,
    }
}

/// An ASCII letter.
pub open spec fn is_ascii_letter(b: u8) -> bool {
    (65u8 <= b <= 90u8) || (97u8 <= b <= 122u8)
}

/// The first separator of `p` at or after `i`, or the end of `p`.
pub open spec fn next_separator(p: Seq<u8>, i: int, st: PathStyle) -> int
    decreases p.len() - i,
{
    if i >= p.len() {
        p.len() as int
    } else if is_separator(p[i], st) {
        i
    } else {
        next_separator(p, i + 1, st)
    }
}

/// The end of two components that begin at `i` (the second one after the
/// separator that ends the first), or the end of `p`.
pub open spec fn after_two_components(p: Seq<u8>, i: int, st: PathStyle) -> int {
    let s = next_separator(p, i, st);
    if s < p.len() {
        next_separator(p, s + 1, st)
    } else {
        p.len() as int
    }
}

/// Where the prefix of a Windows path ends, and how the rest of it splits.
/// The prefixes are those of `std::path::Prefix`: a drive `C:`; after two
/// separators, a verbatim `\\?\UNC\server\share`, `\\?\C:` or `\\?\name`, a
/// device `\\.\name`, or a share `\\server\share` (both names non-empty).
pub open spec fn windows_split(p: Seq<u8>) -> (int, PathStyle) {
    let w = PathStyle::Windows;
    let v = PathStyle::Verbatim;
    if p.len() >= 2 && is_ascii_letter(p[0]) && p[1] == 58u8 {
        (2, w)
    } else if p.len() >= 2 && is_separator(p[0], w) && is_separator(p[1], w) {
        if p.len() >= 4 && p[0] == 92u8 && p[1] == 92u8 && p[2] == 63u8 && p[3] == 92u8 {
            if p.len() >= 8 && p[4] == 85u8 && p[5] == 78u8 && p[6] == 67u8 && is_separator(p[7], w) {
                (after_two_components(p, 8, v), v)
            } else if p.len() >= 6 && is_ascii_letter(p[4]) && p[5] == 58u8 && (p.len() == 6
                || is_separator(p[6], w)) {
                (6, v)
            } else {
                (next_separator(p, 4, v), v)
            }
        } else if p.len() >= 4 && p[2] == 46u8 && is_separator(p[3], w) {
            (next_separator(p, 4, w), w)
        } else {
            let s = next_separator(p, 2, w);
            if s > 2 && s < p.len() && next_separator(p, s + 1, w) > s + 1 {
                (next_separator(p, s + 1, w), w)
            } else {
                (0, w)
            }
        }
    } else {
        (0, w)
    }
}

/// Where the last segment of `p` begins: just after its last separator, or
/// at the start.
pub open spec fn segment_start(p: Seq<u8>, st: PathStyle) -> int
    decreases p.len(),
{
    if p.len() == 0 {
        0
    } else if is_separator(p.last(), st) {
        p.len() as int
    } else {
        segment_start(p.drop_last(), st)
    }
}

/// `p` ends with a `.` component.
pub open spec fn ends_in_dot(p: Seq<u8>, st: PathStyle) -> bool {
    &&& p.len() >= 1
    &&& p.last() == 46u8
    &&& (p.len() == 1 || is_separator(p[p.len() - 2], st))
}

/// `p` ends with a `..` component.
pub open spec fn ends_in_dot_dot(p: Seq<u8>, st: PathStyle) -> bool {
    &&& p.len() >= 2
    &&& p[p.len() - 1] == 46u8
    &&& p[p.len() - 2] == 46u8
    &&& (p.len() == 2 || is_separator(p[p.len() - 3], st))
}

/// The last component of the part of a path after its prefix, when it is a
/// name: separators at the end are ignored and `.` components are skipped
/// (in a verbatim path a `.` is a component of its own, and not a name); a
/// path that ends in `..`, or has no other component, has none.
pub open spec fn last_component(p: Seq<u8>, st: PathStyle) -> Option<Seq<u8>>
    decreases p.len(),
{
    if p.len() == 0 {
        None
    } else if is_separator(p.last(), st) {
        last_component(p.drop_last(), st)
    } else if ends_in_dot(p, st) {
        if st is Verbatim {
            None
        } else {
            last_component(p.drop_last(), st)
        }
    } else if ends_in_dot_dot(p, st) {
        None
    } else {
        Some(p.subrange(segment_start(p, st), p.len() as int))
    }
}

/// `Path::file_name` of the path with bytes `p`, on Windows or elsewhere.
pub open spec fn file_name_bytes(p: Seq<u8>, on_windows: bool) -> Option<Seq<u8>> {
    if on_windows {
        let (k, st) = windows_split(p);
        last_component(p.skip(k), st)
    } else {
        last_component(p, PathStyle::Unix)
    }
}

/// `Path::file_name` followed by `OsStr::to_str`: the file name, when it is
/// valid UTF-8.
pub open spec fn file_name_text(p: Seq<u8>, on_windows: bool) -> Option<Seq<char>> {
    match file_name_bytes(p, on_windows) {
        Some(f) => if valid_utf8(f) {
            Some(decode_utf8(f))
        } else {
            None
        },
        None => None,
    }
}

/// Bytes after `m` that are no separators do not move the segment start.
proof fn lemma_segment_start_prefix(p: Seq<u8>, m: int, st: PathStyle)
    requires
        0 <= m <= p.len(),
        forall|i: int| m <= i < p.len() ==> !is_separator(p[i], st),
    ensures
        segment_start(p, st) == segment_start(p.take(m), st),
    decreases p.len() - m,
{
    if m < p.len() {
        assert(p.drop_last().take(m) =~= p.take(m));
        lemma_segment_start_prefix(p.drop_last(), m, st);
    } else {
        assert(p.take(m) =~= p);
    }
}

fn is_separator_exec(b: u8, st: PathStyle) -> (r: bool)
    ensures
        r == is_separator(b, st),
{
    match st {
        PathStyle::Unix => b == 47u8,
        PathStyle::Windows => b == 47u8 || b == 92u8,
        PathStyle::Verbatim => b == 92u8,
    }
}

fn is_ascii_letter_exec(b: u8) -> (r: bool)
    ensures
        r == is_ascii_letter(b),
{
    (65u8 <= b && b <= 90u8) || (97u8 <= b && b <= 122u8)
}

fn next_separator_exec(p: &[u8], i: usize, st: PathStyle) -> (r: usize)
    requires
        i <= p@.len(),
    ensures
        r == next_separator(p@, i as int, st),
        i <= r <= p@.len(),
{
    let mut k: usize = i;
    while k < p.len() && !is_separator_exec(p[k], st)
        invariant
            i <= k <= p@.len(),
            next_separator(p@, i as int, st) == next_separator(p@, k as int, st),
        decreases p@.len() - k,
    {
        k = k + 1;
    }
    k
}

fn windows_split_exec(p: &[u8]) -> (r: (usize, PathStyle))
    ensures
        (r.0 as int, r.1) == windows_split(p@),
        r.0 <= p@.len(),
{
    let n = p.len();
    let w = PathStyle::Windows;
    let v = PathStyle::Verbatim;
    if n >= 2 && is_ascii_letter_exec(p[0]) && p[1] == 58u8 {
        (2, w)
    } else if n >= 2 && is_separator_exec(p[0], w) && is_separator_exec(p[1], w) {
        if n >= 4 && p[0] == 92u8 && p[1] == 92u8 && p[2] == 63u8 && p[3] == 92u8 {
            if n >= 8 && p[4] == 85u8 && p[5] == 78u8 && p[6] == 67u8 && is_separator_exec(p[7], w) {
                let s = next_separator_exec(p, 8, v);
                if s < n {
                    (next_separator_exec(p, s + 1, v), v)
                } else {
                    (n, v)
                }
            } else if n >= 6 && is_ascii_letter_exec(p[4]) && p[5] == 58u8 && (n == 6
                || is_separator_exec(p[6], w)) {
                (6, v)
            } else {
                (next_separator_exec(p, 4, v), v)
            }
        } else if n >= 4 && p[2] == 46u8 && is_separator_exec(p[3], w) {
            (next_separator_exec(p, 4, w), w)
        } else {
            let s = next_separator_exec(p, 2, w);
            if s > 2 && s < n {
                let h = next_separator_exec(p, s + 1, w);
                if h > s + 1 {
                    (h, w)
                } else {
                    (0, w)
                }
            } else {
                (0, w)
            }
        }
    } else {
        (0, w)
    }
}

fn copy_range(v: &[u8], from: usize, to: usize) -> (r: Vec<u8>)
    requires
        from <= to <= v@.len(),
    ensures
        r@ == v@.subrange(from as int, to as int),
{
    let mut r: Vec<u8> = Vec::new();
    let mut i: usize = from;
    while i < to
        invariant
            from <= i <= to <= v@.len(),
            r@ == v@.subrange(from as int, i as int),
        decreases to - i,
    {
        r.push(v[i]);
        i = i + 1;
        assert(r@ =~= v@.subrange(from as int, i as int));
    }
    r
}

/// The bytes of the file name of `path`, as `Path::file_name` gives it on
/// Windows or elsewhere: the last component of the path after its prefix,
/// when that component is a name; none when the path ends in `..`, or (in a
/// verbatim path) in `.`, or has no name after its prefix.
pub fn file_name_of(path: &[u8], on_windows: bool) -> (r: Option<Vec<u8>>)
    ensures
        match r {
            Some(f) => file_name_bytes(path@, on_windows) == Some(f@),
            None => file_name_bytes(path@, on_windows) is None,
        },
{
    let n = path.len();
    let (start, st) = if on_windows {
        windows_split_exec(path)
    } else {
        (0, PathStyle::Unix)
    };
    let ghost q = path@.skip(start as int);
    assert(q =~= path@.subrange(start as int, n as int));
    assert(!on_windows ==> q =~= path@);
    assert(file_name_bytes(path@, on_windows) == last_component(q, st));
    let mut end: usize = n;
    loop
        invariant
            start <= end <= n,
            n == path@.len(),
            last_component(path@.subrange(start as int, end as int), st) == last_component(q, st),
            file_name_bytes(path@, on_windows) == last_component(q, st),
        decreases end,
    {
        let ghost s = path@.subrange(start as int, end as int);
        if end == start {
            return None;
        }
        assert(s.drop_last() =~= path@.subrange(start as int, end - 1));
        let b = path[end - 1];
        if is_separator_exec(b, st) {
            end = end - 1;
        } else if b == 46u8 && (end - 1 == start || is_separator_exec(path[end - 2], st)) {
            assert(ends_in_dot(s, st));
            match st {
                PathStyle::Verbatim => {
                    return None;
                },
                _ => {},
            }
            end = end - 1;
        } else if b == 46u8 && end - start >= 2 && path[end - 2] == 46u8 && (end - 2 == start
            || is_separator_exec(path[end - 3], st)) {
            assert(ends_in_dot_dot(s, st));
            return None;
        } else {
            assert(!ends_in_dot(s, st));
            assert(!ends_in_dot_dot(s, st));
            let mut k: usize = end - 1;
            while k > start && !is_separator_exec(path[k - 1], st)
                invariant
                    start <= k < end <= n,
                    n == path@.len(),
                    forall|i: int| k <= i < end ==> !is_separator(path@[i], st),
                decreases k,
            {
                k = k - 1;
            }
            proof {
                let m = k - start;
                lemma_segment_start_prefix(s, m, st);
                assert(s.take(m) =~= path@.subrange(start as int, k as int));
                if k > start {
                    assert(s.take(m).last() == path@[k - 1]);
                }
            }
            let f = copy_range(path, k, end);
            assert(f@ =~= s.subrange(segment_start(s, st), s.len() as int));
            return Some(f);
        }
    }
}

// ---------------------------------------------------------------------------
// Searching the members of an archive
// ---------------------------------------------------------------------------

/// What a search makes of one member of an archive.
pub enum Hit {
    /// It is the binary.
    Binary,
    /// It is some other file.
    Other,
    /// Its path cannot be read, which ends the search with an I/O error.
    Refused,
}

/// A zip file is the binary when its name ends with the binary's name.
pub open spec fn zip_hit(name: Seq<char>, bin_name: Seq<char>) -> Hit {
    if ends_with(name, bin_name) {
        Hit::Binary
    } else {
        Hit::Other
    }
}

/// A tar entry is the binary when its file name is the binary's name; on
/// Windows a path that is not UTF-8 cannot be read at all.
pub open spec fn tar_hit(path: Seq<u8>, bin_name: Seq<char>, on_windows: bool) -> Hit {
    if on_windows && !valid_utf8(path) {
        Hit::Refused
    } else if file_name_text(path, on_windows) == Some(bin_name) {
        Hit::Binary
    } else {
        Hit::Other
    }
}

/// What the search makes of each listed zip file.
pub open spec fn zip_hits(names: Seq<Seq<char>>, bin_name: Seq<char>) -> Seq<Hit> {
    names.map_values(|n: Seq<char>| zip_hit(n, bin_name))
}

/// What the search makes of each listed tar entry.
pub open spec fn tar_hits(paths: Seq<Seq<u8>>, bin_name: Seq<char>, on_windows: bool) -> Seq<
    Hit,
> {
    paths.map_values(|p: Seq<u8>| tar_hit(p, bin_name, on_windows))
}

/// `r` is what a search of members `hits`, whose listing ended on an error
/// when `stopped`, gives: the position of the first member that is the
/// binary; an I/O error when a member that cannot be read comes first; and
/// when every member is some other file, the error that stopped the listing
/// or else `NoMatchingAsset`.
pub open spec fn located(hits: Seq<Hit>, stopped: bool, r: Result<usize, AppError>) -> bool {
    match r {
        Ok(i) => i < hits.len() && hits[i as int] is Binary && forall|j: int|
            0 <= j < i ==> (#[trigger] hits[j]) is Other,
        Err(e) => {
            ||| exists|i: int|
                0 <= i < hits.len() && hits[i] is Refused && e is Io && forall|j: int|
                    0 <= j < i ==> (#[trigger] hits[j]) is Other
            ||| (forall|j: int| 0 <= j < hits.len() ==> (#[trigger] hits[j]) is Other) && (stopped
                || e is NoMatchingAsset)
        },
    }
}

/// The error a search gives when every member is some other file.
pub open spec fn none_found(stop: Option<AppError>) -> Result<usize, AppError> {
    match stop {
        Some(e) => Err(e),
        None => Err(AppError::NoMatchingAsset),
    }
}

/// The position of the first member that is not some other file, if any.
fn first_hit(hits: &Vec<Hit>) -> (r: Option<usize>)
    ensures
        match r {
            Some(i) => i < hits@.len() && !(hits@[i as int] is Other) && forall|j: int|
                0 <= j < i ==> (#[trigger] hits@[j]) is Other,
            None => forall|j: int| 0 <= j < hits@.len() ==> (#[trigger] hits@[j]) is Other,
        },
{
    let mut i: usize = 0;
    while i < hits.len()
        invariant
            i <= hits@.len(),
            forall|j: int| 0 <= j < i ==> (#[trigger] hits@[j]) is Other,
        decreases hits@.len() - i,
    {
        match &hits[i] {
            Hit::Other => {},
            _ => {
                return Some(i);
            },
        }
        i = i + 1;
    }
    None
}

/// The error a search gives when every member is some other file, as an
/// executable value.
fn no_member_found(stop: Option<AppError>) -> (r: Result<usize, AppError>)
    ensures
        r == none_found(stop),
{
    match stop {
        Some(e) => Err(e),
        None => Err(AppError::NoMatchingAsset),
    }
}

/// Where the binary is among the files of a zip archive: `names` as the
/// archive lists them, up to the error `stop` if one ended the listing. It
/// is the first file whose name ends with `bin_name`.
pub fn locate_in_zip(names: &Vec<String>, stop: Option<AppError>, bin_name: &str) -> (r: Result<
    usize,
    AppError,
>)
    ensures
        located(zip_hits(names@.map_values(|n: String| n@), bin_name@), stop is Some, r),
        (forall|j: int| 0 <= j < names@.len() ==> !ends_with(#[trigger] names@[j]@, bin_name@))
            ==> r == none_found(stop),
{
    let ghost listed = names@.map_values(|n: String| n@);
    let b = chars_of(bin_name);
    let mut hits: Vec<Hit> = Vec::new();
    let mut i: usize = 0;
    while i < names.len()
        invariant
            i <= names@.len(),
            b@ == bin_name@,
            listed == names@.map_values(|n: String| n@),
            hits@.len() == i,
            forall|j: int| 0 <= j < i ==> #[trigger] hits@[j] == zip_hit(listed[j], bin_name@),
        decreases names@.len() - i,
    {
        let nc = chars_of(names[i].as_str());
        let h = if ends_with_exec(nc.as_slice(), b.as_slice()) {
            Hit::Binary
        } else {
            Hit::Other
        };
        hits.push(h);
        i = i + 1;
    }
    assert(hits@ =~= zip_hits(listed, bin_name@));
    proof {
        if forall|j: int| 0 <= j < names@.len() ==> !ends_with(#[trigger] names@[j]@, bin_name@) {
            assert forall|j: int| 0 <= j < hits@.len() implies (#[trigger] hits@[j]) is Other by {
                assert(listed[j] == names@[j]@);
            }
        }
    }
    match first_hit(&hits) {
        Some(i) => {
            assert(hits@[i as int] == zip_hit(listed[i as int], bin_name@));
            Ok(i)
        },
        None => no_member_found(stop),
    }
}

/// A byte string is the UTF-8 encoding of `name` exactly when it is valid
/// UTF-8 and decodes to `name`.
proof fn lemma_encoding_of(f: Seq<u8>, name: Seq<char>)
    ensures
        (f == encode_utf8(name)) <==> (valid_utf8(f) && decode_utf8(f) == name),
{
    vstd::utf8::encode_utf8_valid_utf8(name);
    vstd::utf8::encode_utf8_decode_utf8(name);
    if valid_utf8(f) {
        vstd::utf8::decode_utf8_encode_utf8(f);
    }
}

fn same_bytes(a: &[u8], b: &[u8]) -> (r: bool)
    ensures
        r == (a@ == b@),
{
    if a.len() != b.len() {
        return false;
    }
    let mut i: usize = 0;
    while i < a.len()
        invariant
            i <= a@.len(),
            a@.len() == b@.len(),
            forall|j: int| 0 <= j < i ==> a@[j] == b@[j],
        decreases a@.len() - i,
    {
        if a[i] != b[i] {
            return false;
        }
        i = i + 1;
    }
    assert(a@ =~= b@);
    true
}

/// What the search makes of the tar entry with path `path`.
fn tar_hit_of(path: &[u8], bin_name: &str, on_windows: bool) -> (h: Hit)
    ensures
        h == tar_hit(path@, bin_name@, on_windows),
{
    if on_windows && !is_utf8(path) {
        return Hit::Refused;
    }
    match file_name_of(path, on_windows) {
        Some(f) => {
            let b = bin_name.as_bytes();
            proof {
                lemma_encoding_of(f@, bin_name@);
            }
            assert(b@ == encode_utf8(bin_name@));
            if same_bytes(f.as_slice(), b) {
                Hit::Binary
            } else {
                Hit::Other
            }
        },
        None => Hit::Other,
    }
}

/// Where the binary is among the entries of a tarball: `paths` as the archive
/// lists them, up to the error `stop` if one ended the listing. It is the
/// first entry whose file name is `bin_name`; on Windows an entry whose path
/// is not UTF-8 ends the search with an I/O error when it comes first.
pub fn locate_in_tar(paths: &Vec<Vec<u8>>, stop: Option<AppError>, bin_name: &str, on_windows: bool) -> (r: Result<usize, AppError>)
    ensures
        located(tar_hits(paths@.map_values(|p: Vec<u8>| p@), bin_name@, on_windows), stop is Some, r),
        (forall|j: int| 0 <= j < paths@.len() ==> #[trigger] tar_hit(paths@[j]@, bin_name@, on_windows) is Other)
            ==> r == none_found(stop),
{
    let ghost listed = paths@.map_values(|p: Vec<u8>| p@);
    let mut hits: Vec<Hit> = Vec::new();
    let mut i: usize = 0;
    while i < paths.len()
        invariant
            i <= paths@.len(),
            listed == paths@.map_values(|p: Vec<u8>| p@),
            hits@.len() == i,
            forall|j: int| 0 <= j < i ==> #[trigger] hits@[j] == tar_hit(listed[j], bin_name@, on_windows),
        decreases paths@.len() - i,
    {
        let h = tar_hit_of(paths[i].as_slice(), bin_name, on_windows);
        hits.push(h);
        i = i + 1;
    }
    assert(hits@ =~= tar_hits(listed, bin_name@, on_windows));
    proof {
        if forall|j: int| 0 <= j < paths@.len() ==> #[trigger] tar_hit(paths@[j]@, bin_name@, on_windows) is Other {
            assert forall|j: int| 0 <= j < hits@.len() implies (#[trigger] hits@[j]) is Other by {
                assert(listed[j] == paths@[j]@);
            }
        }
    }
    match first_hit(&hits) {
        Some(i) => match &hits[i] {
            Hit::Refused => {
                let e = non_unicode_path_error(paths[i].as_slice());
                Err(e)
            },
            _ => Ok(i),
        },
        None => no_member_found(stop),
    }
}

// ---------------------------------------------------------------------------
// The member to extract
// ---------------------------------------------------------------------------

/// The member of a release archive that holds the binary: a file of a zip
/// archive or an entry of a tarball, by its position in the archive.
#[derive(Debug, Clone, Copy, PartialEq, Eq)]
pub enum ArchiveMember {
    ZipFile(usize),
    TarEntry(usize),
}

/// The position a search result names, whatever the kind of archive.
pub open spec fn position(r: Result<ArchiveMember, AppError>) -> Result<usize, AppError> {
    match r {
        Ok(ArchiveMember::ZipFile(i)) => Ok(i),
        Ok(ArchiveMember::TarEntry(i)) => Ok(i),
        Err(e) => Err(e),
    }
}

/// Which member of the downloaded asset `archive`, named `asset_name`, holds
/// the `bin_name` executable. A `.zip` asset is read as a zip archive and the
/// first file whose name ends with `bin_name` is taken; any other asset is
/// read as a gzip-compressed tarball and the first entry whose file name is
/// `bin_name` is taken, file names split as on Windows when `on_windows`.
/// When no member is the binary, the error that ended the reading of the
/// archive comes back, or else `NoMatchingAsset`.
pub fn locate_binary(archive: &[u8], asset_name: &str, bin_name: &str, on_windows: bool) -> (r:
    Result<ArchiveMember, AppError>)
    ensures
        ends_with(asset_name@, ".zip"@) ==> !(r matches Ok(ArchiveMember::TarEntry(_))) && located(
            zip_hits(zip_listing(archive@).0, bin_name@),
            zip_listing(archive@).1,
            position(r),
        ),
        !ends_with(asset_name@, ".zip"@) ==> !(r matches Ok(ArchiveMember::ZipFile(_))) && located(
            tar_hits(tar_listing(archive@).0, bin_name@, on_windows),
            tar_listing(archive@).1,
            position(r),
        ),
        ends_with(asset_name@, ".zip"@) && (forall|j: int|
            0 <= j < zip_listing(archive@).0.len() ==> !ends_with(
                #[trigger] zip_listing(archive@).0[j],
                bin_name@,
            )) ==> (r matches Err(e) && if zip_listing(archive@).1 {
            e is Zip
        } else {
            e is NoMatchingAsset
        }),
        !ends_with(asset_name@, ".zip"@) && (forall|j: int|
            0 <= j < tar_listing(archive@).0.len() ==> #[trigger] tar_hit(
                tar_listing(archive@).0[j],
                bin_name@,
                on_windows,
            ) is Other) ==> (r matches Err(e) && if tar_listing(archive@).1 {
            e is Io
        } else {
            e is NoMatchingAsset
        }),
{
    let name = chars_of(asset_name);
    let ext = chars_of(".zip");
    if ends_with_exec(name.as_slice(), ext.as_slice()) {
        let (names, stop) = zip_names(archive);
        proof {
            assert forall|j: int| 0 <= j < names@.len() implies names@.map_values(|n: String| n@)[j]
                == #[trigger] names@[j]@ by {}
        }
        match locate_in_zip(&names, stop, bin_name) {
            Ok(i) => Ok(ArchiveMember::ZipFile(i)),
            Err(e) => Err(e),
        }
    } else {
        let (paths, stop) = tar_paths(archive);
        proof {
            assert forall|j: int| 0 <= j < paths@.len() implies paths@.map_values(|p: Vec<u8>| p@)[j]
                == #[trigger] paths@[j]@ by {}
        }
        match locate_in_tar(&paths, stop, bin_name, on_windows) {
            Ok(i) => Ok(ArchiveMember::TarEntry(i)),
            Err(e) => Err(e),
        }
    }
}

} // verus!
