//! Filesystem paths as the standard library splits them into components.
use vstd::prelude::*;

use crate::text::{chars_of, same_chars};

verus! {

/// A path: `root` is what comes before the first normal component (a
/// platform prefix and/or the root directory, empty for a relative path),
/// `parts` are the remaining components in order (`std::path::Path::components`).
#[derive(Debug, Clone, PartialEq, Eq)]
pub struct FsPath {
    pub root: String,
    pub parts: Vec<String>,
}

/// A path as character sequences.
pub struct PathView {
    pub root: Seq<char>,
    pub parts: Seq<Seq<char>>,
}

impl View for FsPath {
    type V = PathView;

    open spec fn view(&self) -> PathView {
        PathView { root: self.root@, parts: self.parts@.map_values(|p: String| p@) }
    }
}

/// The empty path.
pub open spec fn empty_path() -> PathView {
    PathView { root: Seq::empty(), parts: Seq::empty() }
}

/// `Path::parent`: the path without its last component, if it has one.
pub open spec fn parent(p: PathView) -> Option<PathView> {
    if p.parts.len() > 0 {
        Some(PathView { root: p.root, parts: p.parts.drop_last() })
    } else {
        None
    }
}

/// `Path::join` with a single component.
pub open spec fn join(p: PathView, name: Seq<char>) -> PathView {
    PathView { root: p.root, parts: p.parts.push(name) }
}

/// The name of the folder that holds the portable data.
pub open spec fn data_dir_name() -> Seq<char> {
    "noalbsgui-data"@
}

/// The directory holds `Contents/MacOS` as its last two components.
pub open spec fn in_macos_bundle(dir: PathView) -> bool {
    dir.parts.len() >= 2 && dir.parts[dir.parts.len() - 2] == "Contents"@ && dir.parts.last()
        == "MacOS"@
}

/// The portable data directory for an executable: `noalbsgui-data` next to
/// it, or next to the `.app` bundle (three levels up) when the executable
/// sits in `Contents/MacOS` of one.
pub open spec fn portable_base(exe: PathView) -> PathView {
    let dir = match parent(exe) {
        Some(d) => d,
        None => empty_path(),
    };
    let dir = if in_macos_bundle(dir) && dir.parts.len() >= 3 {
        PathView { root: dir.root, parts: dir.parts.subrange(0, dir.parts.len() - 3) }
    } else {
        dir
    };
    join(dir, data_dir_name())
}

impl FsPath {
    /// A copy of this path.
    pub fn copy(&self) -> (r: Self)
        ensures
            r@ == self@,
    {
        let mut parts: Vec<String> = Vec::new();
        let mut i: usize = 0;
        while i < self.parts.len()
            invariant
                i <= self.parts@.len(),
                parts@.map_values(|p: String| p@) == self.parts@.map_values(|p: String| p@).take(
                    i as int,
                ),
            decreases self.parts@.len() - i,
        {
            let ghost before = parts@.map_values(|p: String| p@);
            let c = self.parts[i].clone();
            assert(c@ == self.parts@[i as int]@);
            parts.push(c);
            assert(parts@.map_values(|p: String| p@) =~= before.push(c@));
            i = i + 1;
            assert(parts@.map_values(|p: String| p@) =~= self.parts@.map_values(|p: String| p@).take(
                i as int,
            ));
        }
        assert(self.parts@.map_values(|p: String| p@).take(self.parts@.len() as int)
            =~= self.parts@.map_values(|p: String| p@));
        FsPath { root: self.root.clone(), parts }
    }

    /// `Path::parent`.
    pub fn parent(&self) -> (r: Option<FsPath>)
        ensures
            match r {
                Some(p) => parent(self@) == Some(p@),
                None => parent(self@) is None,
            },
    {
        if self.parts.len() == 0 {
            return None;
        }
        let n = self.parts.len() - 1;
        Some(self.prefix(n))
    }

    /// The path with only its first `n` components.
    fn prefix(&self, n: usize) -> (r: FsPath)
        requires
            n <= self.parts@.len(),
        ensures
            r@ == (PathView { root: self@.root, parts: self@.parts.subrange(0, n as int) }),
    {
        let mut parts: Vec<String> = Vec::new();
        let mut i: usize = 0;
        while i < n
            invariant
                n <= self.parts@.len(),
                i <= n,
                parts@.map_values(|p: String| p@) == self.parts@.map_values(|p: String| p@).take(
                    i as int,
                ),
            decreases n - i,
        {
            let ghost before = parts@.map_values(|p: String| p@);
            let c = self.parts[i].clone();
            assert(c@ == self.parts@[i as int]@);
            parts.push(c);
            assert(parts@.map_values(|p: String| p@) =~= before.push(c@));
            i = i + 1;
            assert(parts@.map_values(|p: String| p@) =~= self.parts@.map_values(|p: String| p@).take(
                i as int,
            ));
        }
        let r = FsPath { root: self.root.clone(), parts };
        assert(r@.parts =~= self@.parts.subrange(0, n as int));
        r
    }

    /// `Path::join` with a single component.
    pub fn join(&self, name: &str) -> (r: FsPath)
        ensures
            r@ == join(self@, name@),
    {
        let mut r = self.copy();
        r.parts.push(String::from_str(name));
        assert(r@.parts =~= self@.parts.push(name@));
        r
    }
}

/// Whether component `i` of `p` is `name`.
fn part_is(p: &FsPath, i: usize, name: &str) -> (r: bool)
    requires
        i < p.parts@.len(),
    ensures
        r == (p@.parts[i as int] == name@),
{
    let a = chars_of(p.parts[i].as_str());
    let b = chars_of(name);
    same_chars(a.as_slice(), b.as_slice())
}

/// Resolve the portable data directory for a given executable path. Data lives
/// in a `noalbsgui-data` folder next to the executable. On macOS the binary is
/// inside `Foo.app/Contents/MacOS/`, so the folder is placed next to the `.app`.
pub fn portable_base_for(exe: &FsPath) -> (r: FsPath)
    ensures
        r@ == portable_base(exe@),
{
    let mut dir = match exe.parent() {
        Some(d) => d,
        None => FsPath { root: String::new(), parts: Vec::new() },
    };
    assert(dir@.parts =~= (match parent(exe@) {
        Some(d) => d,
        None => empty_path(),
    }).parts);
    // Climb out of a macOS .app bundle so data sits beside it, not inside it.
    let n = dir.parts.len();
    if n >= 2 && part_is(&dir, n - 2, "Contents") && part_is(&dir, n - 1, "MacOS") {
        if n >= 3 {
            dir = dir.prefix(n - 3);
        }
    }
    dir.join("noalbsgui-data")
}

} // verus!
