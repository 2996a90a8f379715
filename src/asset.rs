//! The engine's binaries: where the package comes from and which of its
//! files are installed under which names.

use crate::text::{contains, contains_str, str_eq};
use vstd::prelude::*;
use vstd::string::*;

verus! {

/// Where the package is unpacked before it is installed.
pub const TMP_PATH: &'static str = "/tmp/xunlei_bin";

/// Where packages are downloaded from.
pub const DOWNLOAD_BASE: &'static str = "http://down.sandai.net/nas/";

/// The prefix of the engine's binaries inside the package.
pub const BIN_PREFIX: &'static str = "bin/bin/";

/// The name the web frontend is installed under.
pub const CLI_WEB_NAME: &'static str = "xunlei-pan-cli-web";

/// The package's files, as an installer sees them.
pub trait XunleiAsset {
    /// The engine version the package holds.
    fn version(&self) -> Result<String, String>;

    /// The contents of one of the package's files.
    fn get(&self, filename: &str) -> Result<Vec<u8>, String>;

    /// The names of the package's files.
    fn iter(&self) -> Result<Vec<String>, String>;
}

/// A package of the engine: its name, where it is unpacked, and the local
/// file to install from, if one was given.
#[derive(Debug, PartialEq, Eq)]
pub struct Asset {
    pub tmp_path: String,
    pub filename: String,
    pub package: Option<String>,
}

/// The package architecture name of a CPU architecture, if the engine is
/// built for it.
pub open spec fn arch_name(target: Seq<char>) -> Option<Seq<char>> {
    if target == "x86_64"@ {
        Some("x86_64"@)
    } else if target == "aarch64"@ {
        Some("armv8"@)
    } else {
        None
    }
}

/// The package architecture name of a CPU architecture (as Rust names it).
pub fn support_arch(target: &str) -> (r: Option<&'static str>)
    ensures
        match arch_name(target@) {
            None => r is None,
            Some(a) => r matches Some(n) && n@ == a,
        },
{
    if str_eq(target, "x86_64") {
        Some("x86_64")
    } else if str_eq(target, "aarch64") {
        Some("armv8")
    } else {
        None
    }
}

/// The package file name for an architecture.
pub open spec fn package_name(arch: Seq<char>) -> Seq<char> {
    "nasxunlei-DSM7-"@ + arch + ".spk"@
}

impl Asset {
    /// The package for architecture `arch`, installed from `package` when it
    /// is given and downloaded otherwise.
    pub fn new(package: Option<String>, arch: &str) -> (r: Asset)
        ensures
            r.tmp_path@ == TMP_PATH@,
            r.filename@ == package_name(arch@),
            r.package == package,
    {
        Asset {
            tmp_path: String::from_str(TMP_PATH),
            filename: String::from_str("nasxunlei-DSM7-").concat(arch).concat(".spk"),
            package,
        }
    }

    /// Where the package is downloaded from.
    pub fn download_url(&self) -> (r: String)
        ensures
            r@ == DOWNLOAD_BASE@ + self.filename@,
    {
        String::from_str(DOWNLOAD_BASE).concat(self.filename.as_str())
    }

    /// Where an unpacked file of the package lies.
    pub fn file_path(&self, name: &str) -> (r: String)
        ensures
            r@ == self.tmp_path@ + "/"@ + name@,
    {
        self.tmp_path.clone().concat("/").concat(name)
    }
}

/// The package to install for CPU architecture `target` (as Rust names it):
/// downloaded, and unpacked under `TMP_PATH`; `None` when the engine is not
/// built for it.
pub fn asset(target: &str) -> (r: Option<Asset>)
    ensures
        match arch_name(target@) {
            None => r is None,
            Some(a) => r matches Some(x) && x.filename@ == package_name(a) && x.tmp_path@ == TMP_PATH@
                && x.package is None,
        },
{
    match support_arch(target) {
        None => None,
        Some(a) => Some(Asset::new(None, a)),
    }
}

/// `s` without every leading repetition of the non-empty prefix `p`.
pub open spec fn strip_prefixes(s: Seq<char>, p: Seq<char>) -> Seq<char>
    decreases s.len(),
{
    if p.len() > 0 && s.len() >= p.len() && s.subrange(0, p.len() as int) == p {
        strip_prefixes(s.subrange(p.len() as int, s.len() as int), p)
    } else {
        s
    }
}

/// `s` without every leading repetition of `BIN_PREFIX`.
fn strip_bin_prefixes(s: &str) -> (r: &str)
    ensures
        r@ == strip_prefixes(s@, BIN_PREFIX@),
{
    let n = s.unicode_len();
    let p = BIN_PREFIX.unicode_len();
    let mut start: usize = 0;
    assert(s@.subrange(0, n as int) =~= s@);
    while p > 0 && n - start >= p && str_eq(s.substring_char(start, start + p), BIN_PREFIX)
        invariant
            n == s@.len(),
            p == BIN_PREFIX@.len(),
            start <= n,
            strip_prefixes(s@, BIN_PREFIX@) == strip_prefixes(s@.subrange(start as int, n as int), BIN_PREFIX@),
        decreases n - start,
    {
        assert(s@.subrange(start as int, n as int).subrange(0, p as int) =~= s@.subrange(start as int, start + p));
        assert(s@.subrange(start as int, n as int).subrange(p as int, (n - start) as int) =~= s@.subrange(start + p, n as int));
        start = start + p;
    }
    let r = s.substring_char(start, n);
    proof {
        let t = s@.subrange(start as int, n as int);
        if p > 0 && t.len() >= p {
            assert(t.subrange(0, p as int) =~= s@.subrange(start as int, start + p));
        }
    }
    r
}

/// The name an entry of the inner archive is installed under, if it is
/// installed: the version file and the launcher and cli binaries keep their
/// name without the leading `bin/bin/` prefixes, and the UI's `index.cgi` becomes the
/// web frontend.
pub open spec fn extract_name(path: Seq<char>) -> Option<Seq<char>> {
    if (contains(path, "bin/bin/version"@) && !contains(path, "version_code"@)) || contains(
        path,
        "bin/bin/xunlei-pan-cli-launcher"@,
    ) || contains(path, "bin/bin/xunlei-pan-cli"@) {
        Some(strip_prefixes(path, BIN_PREFIX@))
    } else if contains(path, "ui/index.cgi"@) {
        Some(CLI_WEB_NAME@)
    } else {
        None
    }
}

/// Picks the name an entry of the inner archive is installed under.
pub fn extract_target(path: &str) -> (r: Option<String>)
    ensures
        match extract_name(path@) {
            None => r is None,
            Some(n) => r matches Some(t) && t@ == n,
        },
{
    if (contains_str(path, "bin/bin/version") && !contains_str(path, "version_code"))
        || contains_str(path, "bin/bin/xunlei-pan-cli-launcher") || contains_str(
        path,
        "bin/bin/xunlei-pan-cli",
    ) {
        Some(String::from_str(strip_bin_prefixes(path)))
    } else if contains_str(path, "ui/index.cgi") {
        Some(String::from_str(CLI_WEB_NAME))
    } else {
        None
    }
}

} // verus!
