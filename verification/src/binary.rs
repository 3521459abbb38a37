//! The noalbs release binary: which asset to take, what the executable is
//! called, and which version it is.
use vstd::prelude::*;

use crate::text::{
    chars_of, contains, contains_exec, find_exec, find_from, same_chars, slice_of, string_from,
};
use vstd::string::StrSliceExecFns;

verus! {

/// The GitHub repository that publishes noalbs.
pub const REPO: &'static str = "NOALBS/nginx-obs-automatic-low-bitrate-switching";

/// One downloadable file of a release.
#[derive(Debug, Clone, PartialEq, Eq)]
pub struct ReleaseAsset {
    pub name: String,
    pub url: String,
}

/// A published release and its files.
#[derive(Debug, Clone)]
pub struct Release {
    pub tag_name: String,
    pub assets: Vec<ReleaseAsset>,
}

/// The address of the latest-release document under the API at `api_base`.
pub fn release_api_url(api_base: &str) -> (r: String)
    ensures
        r@ == api_base@ + "/repos/"@ + REPO@ + "/releases/latest"@,
{
    let mut url = String::from_str(api_base);
    url.append("/repos/");
    url.append(REPO);
    url.append("/releases/latest");
    url
}

// ---------------------------------------------------------------------------
// Choosing the asset
// ---------------------------------------------------------------------------

/// The target triple that names release assets for an OS and architecture
/// (as `std::env::consts` spells them), if noalbs is released for it.
pub open spec fn target_triple(os: Seq<char>, arch: Seq<char>) -> Option<Seq<char>> {
    if os == "macos"@ && arch == "aarch64"@ {
        Some("aarch64-apple-darwin"@)
    } else if os == "macos"@ && arch == "x86_64"@ {
        Some("x86_64-apple-darwin"@)
    } else if os == "windows"@ && arch == "x86_64"@ {
        Some("x86_64-pc-windows-msvc"@)
    } else if os == "linux"@ && arch == "x86_64"@ {
        Some("x86_64-unknown-linux-musl"@)
    } else {
        None
    }
}

fn str_is(a: &str, b: &str) -> (r: bool)
    ensures
        r == (a@ == b@),
{
    let x = chars_of(a);
    let y = chars_of(b);
    same_chars(x.as_slice(), y.as_slice())
}

/// Returns the Rust target-triple substring present in the release asset name
/// for the given OS/architecture, or None if unsupported.
pub fn target_for(os: &str, arch: &str) -> (r: Option<&'static str>)
    ensures
        match r {
            Some(t) => target_triple(os@, arch@) == Some(t@),
            None => target_triple(os@, arch@) is None,
        },
{
    if str_is(os, "macos") && str_is(arch, "aarch64") {
        Some("aarch64-apple-darwin")
    } else if str_is(os, "macos") && str_is(arch, "x86_64") {
        Some("x86_64-apple-darwin")
    } else if str_is(os, "windows") && str_is(arch, "x86_64") {
        Some("x86_64-pc-windows-msvc")
    } else if str_is(os, "linux") && str_is(arch, "x86_64") {
        Some("x86_64-unknown-linux-musl")
    } else {
        None
    }
}

/// The asset at index `i` is the first whose name contains `target`.
pub open spec fn first_asset_for(assets: Seq<ReleaseAsset>, target: Seq<char>, i: int) -> bool {
    &&& 0 <= i < assets.len()
    &&& contains(assets[i].name@, target)
    &&& forall|j: int| 0 <= j < i ==> !contains(#[trigger] assets[j].name@, target)
}

/// Pick the asset whose name contains the given target triple.
pub fn select_asset<'a>(assets: &'a [ReleaseAsset], target: &str) -> (r: Option<&'a ReleaseAsset>)
    ensures
        match r {
            Some(a) => exists|i: int| first_asset_for(assets@, target@, i) && *a == assets@[i],
            None => forall|j: int| 0 <= j < assets@.len() ==> !contains(#[trigger] assets@[j].name@, target@),
        },
{
    let t = chars_of(target);
    let mut i: usize = 0;
    while i < assets.len()
        invariant
            i <= assets@.len(),
            t@ == target@,
            forall|j: int| 0 <= j < i ==> !contains(#[trigger] assets@[j].name@, target@),
        decreases assets@.len() - i,
    {
        let name = chars_of(assets[i].name.as_str());
        if contains_exec(name.as_slice(), t.as_slice()) {
            assert(first_asset_for(assets@, target@, i as int));
            return Some(&assets[i]);
        }
        i = i + 1;
    }
    None
}

/// The name of the noalbs executable on Windows or elsewhere.
pub fn binary_file_name(on_windows: bool) -> (r: &'static str)
    ensures
        r@ == if on_windows {
            "noalbs.exe"@
        } else {
            "noalbs"@
        },
{
    if on_windows {
        "noalbs.exe"
    } else {
        "noalbs"
    }
}

// ---------------------------------------------------------------------------
// Versions
// ---------------------------------------------------------------------------

/// `char::is_ascii_digit`.
pub open spec fn is_digit(c: char) -> bool {
    48 <= (c as u32) <= 57
}

/// The value of a string of decimal digits.
pub open spec fn numeral(s: Seq<char>) -> int
    decreases s.len(),
{
    if s.len() == 0 {
        0
    } else {
        numeral(s.drop_last()) * 10 + ((s.last() as u32) - 48)
    }
}

/// A version number as semver accepts it: decimal digits without a leading
/// zero (but `0` itself), within `u64`.
pub open spec fn canonical_numeral(s: Seq<char>) -> bool {
    &&& s.len() > 0
    &&& forall|k: int| 0 <= k < s.len() ==> is_digit(#[trigger] s[k])
    &&& (s.len() == 1 || s[0] != '0')
    &&& numeral(s) <= u64::MAX
}

/// Every character is a digit or a dot.
pub open spec fn digits_and_dots(s: Seq<char>) -> bool {
    forall|k: int| 0 <= k < s.len() ==> is_digit(#[trigger] s[k]) || s[k] == '.'
}

/// `MAJOR.MINOR.PATCH` with three canonical numbers and nothing else.
pub open spec fn core_version(s: Seq<char>) -> Option<(u64, u64, u64)> {
    match find_from(s, seq!['.'], 0) {
        Some(i) => match find_from(s, seq!['.'], i + 1) {
            Some(j) => {
                let a = s.subrange(0, i);
                let b = s.subrange(i + 1, j);
                let c = s.subrange(j + 1, s.len() as int);
                if canonical_numeral(a) && canonical_numeral(b) && canonical_numeral(c) {
                    Some((numeral(a) as u64, numeral(b) as u64, numeral(c) as u64))
                } else {
                    None
                }
            },
            None => None,
        },
        None => None,
    }
}

/// The fields of a `semver::Version`: major, minor, patch, pre-release, build.
pub type VersionFields = (u64, u64, u64, Seq<char>, Seq<char>);

/// What `semver::Version::parse` makes of a text, as its five fields; `None`
/// when it refuses the text.
pub uninterp spec fn semver_parsed(text: Seq<char>) -> Option<VersionFields>;

/// Whether `semver::Version` orders the version with fields `a` after `b`.
pub uninterp spec fn semver_greater(a: VersionFields, b: VersionFields) -> bool;

/// The pre-release and build parts are both empty.
pub open spec fn is_plain(v: VersionFields) -> bool {
    let (_, _, _, pre, build) = v;
    pre.len() == 0 && build.len() == 0
}

/// `(major, minor, patch)` of `a` comes after that of `b`.
pub open spec fn core_greater(a: VersionFields, b: VersionFields) -> bool {
    let (a0, a1, a2, _, _) = a;
    let (b0, b1, b2, _, _) = b;
    a0 > b0 || (a0 == b0 && (a1 > b1 || (a1 == b1 && a2 > b2)))
}

/// A plain version with the given numbers.
pub open spec fn plain_version(c: (u64, u64, u64)) -> VersionFields {
    let (a, b, d) = c;
    (a, b, d, Seq::empty(), Seq::empty())
}

/// `semver::Version`, declared so that it can be carried.
#[verifier::external_type_specification]
#[verifier::external_body]
pub struct ExSemverVersion(semver::Version);

/// A parsed version: the fields of a `semver::Version` and the version itself.
/// Only `parse_semver` makes one, so the fields are those of `raw`.
pub struct SemVer {
    major: u64,
    minor: u64,
    patch: u64,
    pre: String,
    build: String,
    raw: semver::Version,
}

impl View for SemVer {
    type V = VersionFields;

    closed spec fn view(&self) -> VersionFields {
        (self.major, self.minor, self.patch, self.pre@, self.build@)
    }
}

/// `semver::Version::parse`. Its result is named by `semver_parsed`; for a
/// text of digits and dots the source shows it exactly: it accepts three
/// numbers separated by dots, none with a leading zero and none beyond
/// `u64`, with empty pre-release and build parts, and refuses anything else.
#[verifier::external_body]
fn parse_semver(text: &str) -> (r: Option<SemVer>)
    ensures
        match r {
            Some(v) => semver_parsed(text@) == Some(v@),
            None => semver_parsed(text@) is None,
        },
        digits_and_dots(text@) ==> match r {
            Some(v) => core_version(text@) matches Some(c) && v@ == plain_version(c),
            None => core_version(text@) is None,
        },
{
    match semver::Version::parse(text) {
        Ok(v) => Some(
            SemVer {
                major: v.major,
                minor: v.minor,
                patch: v.patch,
                pre: v.pre.as_str().to_string(),
                build: v.build.as_str().to_string(),
                raw: v,
            },
        ),
        Err(_) => None,
    }
}

/// `>` on `semver::Version` (its derived `Ord`: major, minor, patch, then
/// pre-release, then build). Named by `semver_greater`; the source shows that
/// equal fields are not greater, that the order is a total order (so `a > b`
/// rules out `b > a`), and that with empty pre-release and build parts the
/// order is that of `(major, minor, patch)`.
#[verifier::external_body]
fn semver_gt(a: &SemVer, b: &SemVer) -> (r: bool)
    ensures
        r == semver_greater(a@, b@),
        a@ == b@ ==> !r,
        r ==> !semver_greater(b@, a@),
        is_plain(a@) && is_plain(b@) ==> r == core_greater(a@, b@),
{
    a.raw > b.raw
}

/// A tag without its leading `v`, if it has one.
pub open spec fn normalized(tag: Seq<char>) -> Seq<char> {
    if tag.len() > 0 && tag[0] == 'v' {
        tag.drop_first()
    } else {
        tag
    }
}

/// Normalize a release tag like "v2.17.0" to "2.17.0".
pub fn normalize_tag(tag: &str) -> (r: &str)
    ensures
        r@ == normalized(tag@),
{
    let n = tag.unicode_len();
    if n > 0 && tag.get_char(0) == 'v' {
        let r = tag.substring_char(1, n);
        assert(r@ =~= tag@.drop_first());
        r
    } else {
        tag
    }
}

/// Whether the release `latest` (tag or version) is strictly newer than
/// `installed`: both must parse as versions once a leading `v` is dropped.
/// For texts of digits and dots that is a comparison by numbers; equal texts
/// are never newer; otherwise semver decides.
pub open spec fn update_available(latest: Seq<char>, installed: Seq<char>) -> bool {
    if digits_and_dots(normalized(latest)) && digits_and_dots(normalized(installed)) {
        plain_update_available(latest, installed)
    } else if normalized(latest) == normalized(installed) {
        false
    } else {
        match (semver_parsed(normalized(latest)), semver_parsed(normalized(installed))) {
            (Some(l), Some(c)) => semver_greater(l, c),
            _ => false,
        }
    }
}

/// `update_available` for tags and versions made of digits and dots (after
/// a leading `v`): both must be `MAJOR.MINOR.PATCH`, compared by number.
pub open spec fn plain_update_available(latest: Seq<char>, installed: Seq<char>) -> bool {
    match (core_version(normalized(latest)), core_version(normalized(installed))) {
        (Some(l), Some(c)) => core_greater(plain_version(l), plain_version(c)),
        _ => false,
    }
}

/// What `semver` says of two tags or versions: both parse, once a leading
/// `v` is dropped, and the first is ordered after the second.
pub open spec fn semver_newer(latest: Seq<char>, installed: Seq<char>) -> bool {
    match (semver_parsed(normalized(latest)), semver_parsed(normalized(installed))) {
        (Some(l), Some(c)) => semver_greater(l, c),
        _ => false,
    }
}

/// True when `latest` (tag or version) is strictly newer than `installed`:
/// both parse as semver versions, once a leading `v` is dropped, and the
/// first comes after the second in semver's order. Never true both ways: a
/// release newer than the installed version is not older than it at the
/// same time.
pub fn is_update_available(latest_tag: &str, installed: &str) -> (r: bool)
    ensures
        r == semver_newer(latest_tag@, installed@),
        r == update_available(latest_tag@, installed@),
        r ==> !update_available(installed@, latest_tag@),
{
    let latest = parse_semver(normalize_tag(latest_tag));
    let cur = parse_semver(normalize_tag(installed));
    match (latest, cur) {
        (Some(l), Some(c)) => semver_gt(&l, &c),
        _ => false,
    }
}

/// Number of dots in `s`.
pub open spec fn dot_count(s: Seq<char>) -> int
    decreases s.len(),
{
    if s.len() == 0 {
        0
    } else {
        dot_count(s.drop_last()) + if s.last() == '.' {
            1int
        } else {
            0int
        }
    }
}

/// Length of the longest prefix of `s` made of digits and dots.
pub open spec fn version_prefix_len(s: Seq<char>, i: nat) -> nat
    decreases s.len() - i,
{
    if i >= s.len() || !(is_digit(s[i as int]) || s[i as int] == '.') {
        i
    } else {
        version_prefix_len(s, i + 1)
    }
}

/// The version in a startup banner: the digits and dots right after the
/// first `v`, when they count two dots and form a version semver accepts.
pub open spec fn banner_version(line: Seq<char>) -> Option<Seq<char>> {
    match find_from(line, seq!['v'], 0) {
        Some(i) => {
            let rest = line.subrange(i + 1, line.len() as int);
            let ver = rest.take(version_prefix_len(rest, 0) as int);
            if dot_count(ver) == 2 && core_version(ver) is Some {
                Some(ver)
            } else {
                None
            }
        },
        None => None,
    }
}

proof fn lemma_version_prefix(s: Seq<char>, i: nat, e: nat)
    requires
        i <= e <= s.len(),
        forall|k: int| i <= k < e ==> is_digit(s[k]) || s[k] == '.',
        e == s.len() || !(is_digit(s[e as int]) || s[e as int] == '.'),
    ensures
        version_prefix_len(s, i) == e,
    decreases e - i,
{
    if i < e {
        lemma_version_prefix(s, i + 1, e);
    }
}

/// Parse a semver version (e.g. "2.17.0") from a noalbs startup banner line
/// such as "...╝ v2.17.0".
pub fn parse_version_from_banner(line: &str) -> (r: Option<String>)
    ensures
        match r {
            Some(v) => banner_version(line@) == Some(v@),
            None => banner_version(line@) is None,
        },
{
    let l = chars_of(line);
    let vpat = vec!['v'];
    assert(vpat@ =~= seq!['v']);
    let idx = match find_exec(l.as_slice(), vpat.as_slice(), 0) {
        Some(i) => i,
        None => {
            return None;
        },
    };
    proof {
        crate::text::lemma_find_from(l@, seq!['v'], 0);
    }
    let n = l.len();
    assert(idx + 1 <= n);
    let rest = slice_of(l.as_slice(), idx + 1, n);
    let mut k: usize = 0;
    while k < rest.len() && (is_digit_char(rest[k]) || rest[k] == '.')
        invariant
            k <= rest@.len(),
            forall|m: int| 0 <= m < k ==> is_digit(rest@[m]) || rest@[m] == '.',
        decreases rest@.len() - k,
    {
        k = k + 1;
    }
    proof {
        lemma_version_prefix(rest@, 0, k as nat);
    }
    let ver = slice_of(rest.as_slice(), 0, k);
    assert(ver@ =~= rest@.take(k as int));
    let mut dots: usize = 0;
    let mut m: usize = 0;
    while m < ver.len()
        invariant
            m <= ver@.len(),
            dots == dot_count(ver@.take(m as int)),
            dots <= m,
        decreases ver@.len() - m,
    {
        assert(ver@.take(m + 1).drop_last() =~= ver@.take(m as int));
        if ver[m] == '.' {
            dots = dots + 1;
        }
        m = m + 1;
    }
    assert(ver@.take(ver@.len() as int) =~= ver@);
    if dots != 2 {
        return None;
    }
    let text = string_from(ver.as_slice());
    assert(digits_and_dots(text@));
    match parse_semver(text.as_str()) {
        Some(_) => Some(text),
        None => None,
    }
}

/// `char::is_ascii_digit`.
fn is_digit_char(c: char) -> (r: bool)
    ensures
        r == is_digit(c),
{
    let u = c as u32;
    48 <= u && u <= 57
}

} // verus!
