//! The platform asset picker: a pure, scored heuristic that maps the
//! current operating system and CPU architecture to the best-matching asset
//! name among a release's candidates.
//!
//! A candidate is eligible only with an architecture signal; a bare
//! operating-system match is not enough. Tokens that indicate a different
//! platform weigh against a candidate, and archive formats are preferred
//! over loose binaries.

use vstd::prelude::*;
use crate::text::{icontains, icontains_str, is_suffix_of, ends_with, str_eq};

verus! {

/// True when `name` carries a Linux token.
pub open spec fn linux_hit(name: Seq<char>) -> bool {
    icontains(name, "linux"@)
}

/// True when `name` carries a macOS token.
pub open spec fn mac_hit(name: Seq<char>) -> bool {
    icontains(name, "darwin"@) || icontains(name, "macos"@) || icontains(name, "osx"@)
}

/// True when `name` carries a Windows token.
pub open spec fn windows_hit(name: Seq<char>) -> bool {
    icontains(name, "windows"@)
}

/// True when the current platform is the Linux family.
pub open spec fn cur_linux(os: Seq<char>) -> bool {
    os == "linux"@
}

/// True when the current platform is the macOS family.
pub open spec fn cur_mac(os: Seq<char>) -> bool {
    os == "macos"@ || os == "darwin"@
}

/// True when the current platform is the Windows family.
pub open spec fn cur_windows(os: Seq<char>) -> bool {
    os == "windows"@
}

/// True when `name` carries a token of the current operating system; an
/// unrecognized system matches by its own name.
pub open spec fn os_matches(os: Seq<char>, name: Seq<char>) -> bool {
    if cur_linux(os) {
        linux_hit(name)
    } else if cur_mac(os) {
        mac_hit(name)
    } else if cur_windows(os) {
        windows_hit(name)
    } else {
        icontains(name, os)
    }
}

/// True when `name` carries a token of an operating system other than the
/// current one.
pub open spec fn foreign_os(os: Seq<char>, name: Seq<char>) -> bool {
    (linux_hit(name) && !cur_linux(os)) || (mac_hit(name) && !cur_mac(os)) || (windows_hit(name)
        && !cur_windows(os))
}

/// True when `name` carries a 64-bit x86 token.
pub open spec fn x64_hit(name: Seq<char>) -> bool {
    icontains(name, "x86_64"@) || icontains(name, "amd64"@) || icontains(name, "x64"@)
}

/// True when `name` carries a 64-bit ARM token.
pub open spec fn arm_hit(name: Seq<char>) -> bool {
    icontains(name, "aarch64"@) || icontains(name, "arm64"@)
}

/// True when `name` carries a 32-bit x86 token.
pub open spec fn x86_hit(name: Seq<char>) -> bool {
    icontains(name, "i386"@) || icontains(name, "i686"@)
}

/// True when the current architecture is 64-bit x86.
pub open spec fn cur_x64(arch: Seq<char>) -> bool {
    arch == "x86_64"@ || arch == "amd64"@ || arch == "x64"@
}

/// True when the current architecture is 64-bit ARM.
pub open spec fn cur_arm(arch: Seq<char>) -> bool {
    arch == "aarch64"@ || arch == "arm64"@
}

/// True when the current architecture is 32-bit x86.
pub open spec fn cur_x86(arch: Seq<char>) -> bool {
    arch == "i386"@ || arch == "i686"@
}

/// True when `name` carries a token of the current architecture; an
/// unrecognized architecture matches by its own name.
pub open spec fn arch_matches(arch: Seq<char>, name: Seq<char>) -> bool {
    if cur_x64(arch) {
        x64_hit(name)
    } else if cur_arm(arch) {
        arm_hit(name)
    } else if cur_x86(arch) {
        x86_hit(name)
    } else {
        icontains(name, arch)
    }
}

/// True when `name` carries a token of an architecture other than the
/// current one.
pub open spec fn foreign_arch(arch: Seq<char>, name: Seq<char>) -> bool {
    (x64_hit(name) && !cur_x64(arch)) || (arm_hit(name) && !cur_arm(arch)) || (x86_hit(name)
        && !cur_x86(arch))
}

/// True when `name` ends in a recognized archive extension.
pub open spec fn is_archive_name(name: Seq<char>) -> bool {
    is_suffix_of(".tar.gz"@, name) || is_suffix_of(".tgz"@, name) || is_suffix_of(".tar.xz"@, name)
        || is_suffix_of(".txz"@, name) || is_suffix_of(".tar.bz2"@, name) || is_suffix_of(
        ".tbz2"@,
        name,
    ) || is_suffix_of(".tar.zst"@, name) || is_suffix_of(".zip"@, name)
}

/// The heuristic score of one candidate: platform tokens count for it,
/// tokens of another platform against it. Two tie-breaks prefer the more
/// specific candidate: a name that carries the configured architecture's
/// own spelling (not just an alias) counts extra, and an archive
/// extension beats a loose binary. Candidates of equal score fall back to
/// the order they were listed in.
pub open spec fn asset_score(os: Seq<char>, arch: Seq<char>, name: Seq<char>) -> int {
    (if os_matches(os, name) {
        4int
    } else {
        0int
    }) + (if arch_matches(arch, name) {
        4int
    } else {
        0int
    }) + (if icontains(name, arch) {
        2int
    } else {
        0int
    }) + (if is_archive_name(name) {
        1int
    } else {
        0int
    }) - (if foreign_os(os, name) {
        6int
    } else {
        0int
    }) - (if foreign_arch(arch, name) {
        6int
    } else {
        0int
    })
}

/// True when a candidate clears the minimum-match threshold: it must carry
/// an architecture signal, and its score must not be dragged down by
/// foreign-platform tokens.
pub open spec fn eligible(os: Seq<char>, arch: Seq<char>, name: Seq<char>) -> bool {
    arch_matches(arch, name) && asset_score(os, arch, name) >= 5
}

/// True when `names[i]` is the pick: eligible, of maximal score, and first
/// among the candidates attaining that score.
pub open spec fn best_pick_at(os: Seq<char>, arch: Seq<char>, names: Seq<Seq<char>>, i: int) -> bool {
    &&& 0 <= i < names.len()
    &&& eligible(os, arch, names[i])
    &&& forall|j: int|
        0 <= j < names.len() && eligible(os, arch, names[j]) ==> asset_score(os, arch, names[j])
            <= asset_score(os, arch, names[i])
    &&& forall|j: int|
        0 <= j < i && eligible(os, arch, names[j]) ==> asset_score(os, arch, names[j])
            < asset_score(os, arch, names[i])
}

/// Decides `os_matches`.
fn os_matches_exec(os: &str, name: &str) -> (r: bool)
    ensures
        r == os_matches(os@, name@),
{
    if str_eq(os, "linux") {
        icontains_str(name, "linux")
    } else if str_eq(os, "macos") || str_eq(os, "darwin") {
        icontains_str(name, "darwin") || icontains_str(name, "macos") || icontains_str(name, "osx")
    } else if str_eq(os, "windows") {
        icontains_str(name, "windows")
    } else {
        icontains_str(name, os)
    }
}

/// Decides `foreign_os`.
fn foreign_os_exec(os: &str, name: &str) -> (r: bool)
    ensures
        r == foreign_os(os@, name@),
{
    let lh = icontains_str(name, "linux");
    let mh = icontains_str(name, "darwin") || icontains_str(name, "macos") || icontains_str(
        name,
        "osx",
    );
    let wh = icontains_str(name, "windows");
    let cl = str_eq(os, "linux");
    let cm = str_eq(os, "macos") || str_eq(os, "darwin");
    let cw = str_eq(os, "windows");
    (lh && !cl) || (mh && !cm) || (wh && !cw)
}

/// Decides `arch_matches`.
fn arch_matches_exec(arch: &str, name: &str) -> (r: bool)
    ensures
        r == arch_matches(arch@, name@),
{
    if str_eq(arch, "x86_64") || str_eq(arch, "amd64") || str_eq(arch, "x64") {
        icontains_str(name, "x86_64") || icontains_str(name, "amd64") || icontains_str(name, "x64")
    } else if str_eq(arch, "aarch64") || str_eq(arch, "arm64") {
        icontains_str(name, "aarch64") || icontains_str(name, "arm64")
    } else if str_eq(arch, "i386") || str_eq(arch, "i686") {
        icontains_str(name, "i386") || icontains_str(name, "i686")
    } else {
        icontains_str(name, arch)
    }
}

/// Decides `foreign_arch`.
fn foreign_arch_exec(arch: &str, name: &str) -> (r: bool)
    ensures
        r == foreign_arch(arch@, name@),
{
    let xh = icontains_str(name, "x86_64") || icontains_str(name, "amd64") || icontains_str(
        name,
        "x64",
    );
    let ah = icontains_str(name, "aarch64") || icontains_str(name, "arm64");
    let ih = icontains_str(name, "i386") || icontains_str(name, "i686");
    let cx = str_eq(arch, "x86_64") || str_eq(arch, "amd64") || str_eq(arch, "x64");
    let ca = str_eq(arch, "aarch64") || str_eq(arch, "arm64");
    let ci = str_eq(arch, "i386") || str_eq(arch, "i686");
    (xh && !cx) || (ah && !ca) || (ih && !ci)
}

/// Decides `is_archive_name`.
pub fn is_archive_exec(name: &str) -> (r: bool)
    ensures
        r == is_archive_name(name@),
{
    ends_with(name, ".tar.gz") || ends_with(name, ".tgz") || ends_with(name, ".tar.xz")
        || ends_with(name, ".txz") || ends_with(name, ".tar.bz2") || ends_with(name, ".tbz2")
        || ends_with(name, ".tar.zst") || ends_with(name, ".zip")
}

/// Maps the current operating system and architecture to the best-matching
/// asset name; pure and stateless once constructed.
pub struct AssetPicker {
    pub os: String,
    pub arch: String,
}

impl AssetPicker {
    /// A picker for one platform.
    pub fn new(os: String, arch: String) -> (r: Self)
        ensures
            r.os == os,
            r.arch == arch,
    {
        AssetPicker { os, arch }
    }

    /// The heuristic score of one candidate.
    fn score(&self, name: &str) -> (s: i32)
        ensures
            s == asset_score(self.os@, self.arch@, name@),
    {
        let mut s: i32 = 0;
        if os_matches_exec(self.os.as_str(), name) {
            s = s + 4;
        }
        if arch_matches_exec(self.arch.as_str(), name) {
            s = s + 4;
        }
        if icontains_str(name, self.arch.as_str()) {
            s = s + 2;
        }
        if is_archive_exec(name) {
            s = s + 1;
        }
        if foreign_os_exec(self.os.as_str(), name) {
            s = s - 6;
        }
        if foreign_arch_exec(self.arch.as_str(), name) {
            s = s - 6;
        }
        s
    }

    /// The single best-scoring eligible candidate, or none when no
    /// candidate clears the minimum-match threshold — a normal, reportable
    /// outcome, not an internal error.
    pub fn pick_best_asset(&self, names: &Vec<String>) -> (r: Option<String>)
        ensures
            match r {
                Some(n) => exists|i: int|
                    #[trigger] best_pick_at(self.os@, self.arch@, names.deep_view(), i) && n@
                        == names.deep_view()[i],
                None => forall|i: int|
                    0 <= i < names.deep_view().len() ==> !eligible(
                        self.os@,
                        self.arch@,
                        names.deep_view()[i],
                    ),
            },
    {
        let n = names.len();
        let mut best: Option<usize> = None;
        let mut best_score: i32 = 0;
        let mut i: usize = 0;
        proof {
            assert(names.deep_view().len() == names@.len());
        }
        while i < n
            invariant
                i <= n,
                n == names@.len(),
                names.deep_view().len() == names@.len(),
                forall|j: int| 0 <= j < n ==> names.deep_view()[j] == names@[j]@,
                match best {
                    None => forall|j: int|
                        0 <= j < i ==> !eligible(self.os@, self.arch@, names.deep_view()[j]),
                    Some(b) => {
                        &&& b < i
                        &&& eligible(self.os@, self.arch@, names.deep_view()[b as int])
                        &&& best_score == asset_score(
                            self.os@,
                            self.arch@,
                            names.deep_view()[b as int],
                        )
                        &&& forall|j: int|
                            0 <= j < i && eligible(self.os@, self.arch@, names.deep_view()[j])
                                ==> asset_score(self.os@, self.arch@, names.deep_view()[j])
                                <= best_score
                        &&& forall|j: int|
                            0 <= j < b && eligible(self.os@, self.arch@, names.deep_view()[j])
                                ==> asset_score(self.os@, self.arch@, names.deep_view()[j])
                                < best_score
                    },
                },
            decreases n - i,
        {
            let name = &names[i];
            let sc = self.score(name.as_str());
            let elig = arch_matches_exec(self.arch.as_str(), name.as_str()) && sc >= 5;
            if elig {
                match best {
                    None => {
                        best = Some(i);
                        best_score = sc;
                    },
                    Some(_) => {
                        if sc > best_score {
                            best = Some(i);
                            best_score = sc;
                        }
                    },
                }
            }
            i = i + 1;
        }
        match best {
            Some(b) => {
                let picked = names[b].clone();
                proof {
                    assert(best_pick_at(self.os@, self.arch@, names.deep_view(), b as int));
                }
                Some(picked)
            },
            None => None,
        }
    }
}

} // verus!
