//! The installation settings, their file format, and the environment and
//! arguments the backend engine is launched with.

use crate::env_map::EnvMap;
use crate::text::{
    decimal, parse_u32, split, split_char, str_eq, trim, trimmed, u32_of,
    u64_decimal,
};
use vstd::prelude::*;
use vstd::string::*;

verus! {

/// The package's base directory.
pub const SYNOPKG_PKGBASE: &'static str = "/var/packages/pan-xunlei-com";

/// Where the package is installed; the engine's working directory.
pub const SYNOPKG_PKGDEST: &'static str = "/var/packages/pan-xunlei-com/target";

/// The runtime state directory.
pub const SYNOPKG_VAR: &'static str = "/var/packages/pan-xunlei-com/target/var";

/// The package name.
pub const SYNOPKG_PKGNAME: &'static str = "pan-xunlei-com";

/// The emulated DSM major version.
pub const DSM_VERSION_MAJOR: &'static str = "7";

/// The emulated DSM minor version.
pub const DSM_VERSION_MINOR: &'static str = "0";

/// The emulated DSM build.
pub const DSM_VERSION_BUILD: &'static str = "1";

/// The engine's web frontend, run once per request.
pub const SYNOPKG_CLI_WEB: &'static str = "/var/packages/pan-xunlei-com/target/xunlei-pan-cli-web";

/// The engine's drive socket.
pub const SOCK_FILE: &'static str = "unix:///var/packages/pan-xunlei-com/target/var/pan-xunlei-com.sock";

/// The engine launcher's socket.
pub const LAUNCHER_SOCK: &'static str = "unix:///var/packages/pan-xunlei-com/target/var/pan-xunlei-com-launcher.sock";

/// The engine's pid file.
pub const PID_FILE: &'static str = "/var/packages/pan-xunlei-com/target/var/pan-xunlei-com.pid";

/// The engine's environment file.
pub const ENV_FILE: &'static str = "/var/packages/pan-xunlei-com/target/var/pan-xunlei-com.env";

/// The engine's log file.
pub const LOG_FILE: &'static str = "/var/packages/pan-xunlei-com/target/var/pan-xunlei-com.log";

/// The launcher's pid file.
pub const LAUNCH_PID_FILE: &'static str = "/var/packages/pan-xunlei-com/target/var/pan-xunlei-com-launcher.pid";

/// The launcher's log file.
pub const LAUNCH_LOG_FILE: &'static str = "/var/packages/pan-xunlei-com/target/var/pan-xunlei-com-launcher.log";

/// The installer's log file.
pub const INST_LOG: &'static str = "/var/packages/pan-xunlei-com/target/var/pan-xunlei-com_install.log";

/// The launcher of the x86-64 build.
pub const LAUNCHER_EXE_AMD64: &'static str = "/var/packages/pan-xunlei-com/target/xunlei-pan-cli-launcher.amd64";

/// The launcher of the arm64 build.
pub const LAUNCHER_EXE_ARM64: &'static str = "/var/packages/pan-xunlei-com/target/xunlei-pan-cli-launcher.arm64";

/// The default configuration directory.
pub const DEFAULT_CONFIG_PATH: &'static str = "/opt/xunlei";

/// The default download directory.
pub const DEFAULT_DOWNLOAD_PATH: &'static str = "/opt/xunlei/downloads";

/// The default mount target for the download directory.
pub const DEFAULT_BIND_DOWNLOAD_PATH: &'static str = "/xunlei";

/// The version string the engine is told it runs on.
pub open spec fn os_version() -> Seq<char> {
    "dsm "@ + DSM_VERSION_MAJOR@ + "."@ + DSM_VERSION_MINOR@ + "-"@ + DSM_VERSION_BUILD@
}

/// The engine's environment, for the given configuration and mount target.
pub open spec fn engine_vars(config_path: Seq<char>, bind_path: Seq<char>) -> Map<Seq<char>, Seq<char>> {
    Map::empty().insert("DriveListen"@, SOCK_FILE@).insert("OS_VERSION"@, os_version()).insert(
        "HOME"@,
        config_path,
    ).insert("ConfigPath"@, config_path).insert("DownloadPATH"@, bind_path).insert(
        "SYNOPKG_DSM_VERSION_MAJOR"@,
        DSM_VERSION_MAJOR@,
    ).insert("SYNOPKG_DSM_VERSION_MINOR"@, DSM_VERSION_MINOR@).insert(
        "SYNOPKG_DSM_VERSION_BUILD"@,
        DSM_VERSION_BUILD@,
    ).insert("SYNOPKG_PKGDEST"@, SYNOPKG_PKGDEST@).insert("SYNOPKG_PKGNAME"@, SYNOPKG_PKGNAME@).insert(
        "SVC_CWD"@,
        SYNOPKG_PKGDEST@,
    ).insert("PID_FILE"@, PID_FILE@).insert("ENV_FILE"@, ENV_FILE@).insert("LOG_FILE"@, LOG_FILE@).insert(
        "LAUNCH_LOG_FILE"@,
        LAUNCH_LOG_FILE@,
    ).insert("LAUNCH_PID_FILE"@, LAUNCH_PID_FILE@).insert("INST_LOG"@, INST_LOG@).insert(
        "GIN_MODE"@,
        "release"@,
    )
}

fn text(s: &str) -> (r: String)
    ensures
        r@ == s@,
{
    String::from_str(s)
}

/// The environment the engine and its web frontend run with: the package
/// layout, the emulated DSM version, and the configuration and download
/// directories.
pub fn engine_env(config_path: &str, mount_bind_download_path: &str) -> (r: EnvMap)
    ensures
        r.wf(),
        r@ == engine_vars(config_path@, mount_bind_download_path@),
{
    let mut env = EnvMap::new();
    let version = text("dsm ").concat(DSM_VERSION_MAJOR).concat(".").concat(DSM_VERSION_MINOR).concat(
        "-",
    ).concat(DSM_VERSION_BUILD);
    env.insert(text("DriveListen"), text(SOCK_FILE));
    env.insert(text("OS_VERSION"), version);
    env.insert(text("HOME"), text(config_path));
    env.insert(text("ConfigPath"), text(config_path));
    env.insert(text("DownloadPATH"), text(mount_bind_download_path));
    env.insert(text("SYNOPKG_DSM_VERSION_MAJOR"), text(DSM_VERSION_MAJOR));
    env.insert(text("SYNOPKG_DSM_VERSION_MINOR"), text(DSM_VERSION_MINOR));
    env.insert(text("SYNOPKG_DSM_VERSION_BUILD"), text(DSM_VERSION_BUILD));
    env.insert(text("SYNOPKG_PKGDEST"), text(SYNOPKG_PKGDEST));
    env.insert(text("SYNOPKG_PKGNAME"), text(SYNOPKG_PKGNAME));
    env.insert(text("SVC_CWD"), text(SYNOPKG_PKGDEST));
    env.insert(text("PID_FILE"), text(PID_FILE));
    env.insert(text("ENV_FILE"), text(ENV_FILE));
    env.insert(text("LOG_FILE"), text(LOG_FILE));
    env.insert(text("LAUNCH_LOG_FILE"), text(LAUNCH_LOG_FILE));
    env.insert(text("LAUNCH_PID_FILE"), text(LAUNCH_PID_FILE));
    env.insert(text("INST_LOG"), text(INST_LOG));
    env.insert(text("GIN_MODE"), text("release"));
    env
}

/// The engine launcher's command-line flags: its socket, pid file and log
/// file.
pub fn launcher_args() -> (r: Vec<String>)
    ensures
        r@.map_values(|a: String| a@) == seq![
            "-launcher_listen="@ + LAUNCHER_SOCK@,
            "-pid="@ + PID_FILE@,
            "-logfile="@ + LAUNCH_LOG_FILE@,
        ],
{
    let r = vec![
        text("-launcher_listen=").concat(LAUNCHER_SOCK),
        text("-pid=").concat(PID_FILE),
        text("-logfile=").concat(LAUNCH_LOG_FILE),
    ];
    assert(r@.map_values(|a: String| a@) =~= seq![
        "-launcher_listen="@ + LAUNCHER_SOCK@,
        "-pid="@ + PID_FILE@,
        "-logfile="@ + LAUNCH_LOG_FILE@,
    ]);
    r
}

/// The installation settings.
#[derive(Debug, PartialEq, Eq)]
pub struct InstallConfig {
    /// The user the engine runs as.
    pub uid: u32,
    /// The group the engine runs as.
    pub gid: u32,
    /// A package file to install from, instead of downloading one.
    pub package: Option<String>,
    /// The engine's configuration directory.
    pub config_path: String,
    /// The real download directory.
    pub download_path: String,
    /// Where the download directory is mounted for the engine.
    pub mount_bind_download_path: String,
}

/// The settings a settings file can hold: uid, gid, configuration
/// directory, download directory, mount target.
pub type Settings = (u32, u32, Seq<char>, Seq<char>, Seq<char>);

/// Why a settings file could not be read.
#[derive(Debug, Clone, Copy, PartialEq, Eq, Structural)]
pub enum ConfigError {
    /// A `uid` or `gid` is not a number that fits in 32 bits.
    BadNumber,
}

/// The value of a `key=value` line: what lies between the first and the
/// second `=`, or nothing.
pub open spec fn setting_value(t: Seq<char>) -> Seq<char> {
    let parts = split(t, '=');
    if parts.len() > 1 {
        parts[1]
    } else {
        Seq::empty()
    }
}

/// The settings after one line of a settings file: blank lines and unknown
/// keys change nothing; `None` when a number is malformed.
pub open spec fn apply_setting(c: Settings, line: Seq<char>) -> Option<Settings> {
    let t = trim(line);
    let key = split(t, '=')[0];
    let value = setting_value(t);
    if t.len() == 0 {
        Some(c)
    } else if key == "uid"@ {
        match u32_of(value) {
            Some(v) => Some((v, c.1, c.2, c.3, c.4)),
            None => None,
        }
    } else if key == "gid"@ {
        match u32_of(value) {
            Some(v) => Some((c.0, v, c.2, c.3, c.4)),
            None => None,
        }
    } else if key == "config_path"@ {
        Some((c.0, c.1, value, c.3, c.4))
    } else if key == "download_path"@ {
        Some((c.0, c.1, c.2, value, c.4))
    } else if key == "mount_bind_download_path"@ {
        Some((c.0, c.1, c.2, c.3, value))
    } else {
        Some(c)
    }
}

/// The settings after the lines `ls`, in order.
pub open spec fn apply_settings(c: Settings, ls: Seq<Seq<char>>) -> Option<Settings>
    decreases ls.len(),
{
    if ls.len() == 0 {
        Some(c)
    } else {
        match apply_settings(c, ls.drop_last()) {
            None => None,
            Some(c1) => apply_setting(c1, ls.last()),
        }
    }
}

/// What a settings file holds: its lines applied to the defaults (0, 0 and
/// empty paths).
pub open spec fn settings_of(file: Seq<char>) -> Option<Settings> {
    apply_settings((0, 0, Seq::empty(), Seq::empty(), Seq::empty()), split(file, '\n'))
}

/// The settings file text that holds `c`.
pub open spec fn render_spec(c: Settings) -> Seq<char> {
    "uid="@ + decimal(c.0 as nat) + "\n"@ + "gid="@ + decimal(c.1 as nat) + "\n"@ + "config_path="@
        + c.2 + "\n"@ + "download_path="@ + c.3 + "\n"@ + "mount_bind_download_path="@ + c.4
        + "\n"@
}

impl InstallConfig {
    /// The settings this configuration writes to its file.
    pub open spec fn settings(&self) -> Settings {
        (self.uid, self.gid, self.config_path@, self.download_path@, self.mount_bind_download_path@)
    }

    /// The settings file text: one `key=value` line each for uid, gid and the
    /// three directories.
    pub fn render(&self) -> (r: String)
        ensures
            r@ == render_spec(self.settings()),
    {
        text("uid=").concat(u64_decimal(self.uid as u64).as_str()).concat("\n").concat("gid=").concat(
            u64_decimal(self.gid as u64).as_str(),
        ).concat("\n").concat("config_path=").concat(self.config_path.as_str()).concat("\n").concat(
            "download_path=",
        ).concat(self.download_path.as_str()).concat("\n").concat("mount_bind_download_path=").concat(
            self.mount_bind_download_path.as_str(),
        ).concat("\n")
    }

    /// Reads a settings file. Each line is trimmed; blank lines and unknown
    /// keys are skipped; a later line overrides an earlier one; settings that
    /// are absent keep their defaults. There is no package in a settings file.
    pub fn parse(file: &str) -> (r: Result<InstallConfig, ConfigError>)
        ensures
            match settings_of(file@) {
                None => r == Err::<InstallConfig, ConfigError>(ConfigError::BadNumber),
                Some(c) => r matches Ok(cfg) && cfg.settings() == c && cfg.package is None,
            },
    {
        let lines = split_char(file, '\n');
        let mut cfg = InstallConfig {
            uid: 0,
            gid: 0,
            package: None,
            config_path: String::new(),
            download_path: String::new(),
            mount_bind_download_path: String::new(),
        };
        let ghost ls = split(file@, '\n');
        assert(cfg.settings() == (0u32, 0u32, Seq::<char>::empty(), Seq::<char>::empty(), Seq::<char>::empty()));
        let mut i: usize = 0;
        while i < lines.len()
            invariant
                lines@.map_values(|t: String| t@) == ls,
                ls == split(file@, '\n'),
                i <= lines@.len(),
                cfg.package is None,
                apply_settings((0, 0, Seq::empty(), Seq::empty(), Seq::empty()), ls.subrange(0, i as int))
                    == Some(cfg.settings()),
            decreases lines@.len() - i,
        {
            let line = lines[i].as_str();
            assert(line@ == ls[i as int]);
            assert(ls.subrange(0, i + 1).drop_last() =~= ls.subrange(0, i as int));
            if !cfg.apply(line) {
                assert(apply_settings((0, 0, Seq::empty(), Seq::empty(), Seq::empty()), ls.subrange(0, i + 1)) is None);
                proof {
                    lemma_settings_fail(ls, i as int + 1);
                }
                assert(ls.subrange(0, ls.len() as int) =~= ls);
                return Err(ConfigError::BadNumber);
            }
            i = i + 1;
        }
        assert(ls.subrange(0, i as int) =~= ls);
        Ok(cfg)
    }

    /// Applies one line of a settings file; false when its number is
    /// malformed.
    fn apply(&mut self, line: &str) -> (ok: bool)
        ensures
            final(self).package == old(self).package,
            match apply_setting(old(self).settings(), line@) {
                None => !ok,
                Some(c) => ok && final(self).settings() == c,
            },
    {
        let t = trimmed(line, 0, line.unicode_len());
        assert(line@.subrange(0, line@.len() as int) =~= line@);
        if t.unicode_len() == 0 {
            return true;
        }
        let parts = split_char(t, '=');
        assert(parts@.len() > 0) by {
            lemma_split_nonempty(t@, '=', 0, 0);
        }
        assert(parts@[0]@ == split(t@, '=')[0]);
        let key = parts[0].as_str();
        let value = if parts.len() > 1 {
            assert(parts@[1]@ == split(t@, '=')[1]);
            parts[1].as_str()
        } else {
            proof {
                reveal_strlit("");
            }
            ""
        };
        assert(value@ == setting_value(t@));
        if str_eq(key, "uid") {
            match parse_u32(value) {
                Some(v) => {
                    self.uid = v;
                    true
                },
                None => false,
            }
        } else if str_eq(key, "gid") {
            match parse_u32(value) {
                Some(v) => {
                    self.gid = v;
                    true
                },
                None => false,
            }
        } else if str_eq(key, "config_path") {
            self.config_path = text(value);
            true
        } else if str_eq(key, "download_path") {
            self.download_path = text(value);
            true
        } else if str_eq(key, "mount_bind_download_path") {
            self.mount_bind_download_path = text(value);
            true
        } else {
            true
        }
    }
}

/// Splitting gives at least one piece.
proof fn lemma_split_nonempty(s: Seq<char>, sep: char, p: int, start: int)
    ensures
        crate::text::pieces_from(s, sep, p, start).len() > 0,
    decreases s.len() - p,
{
    if 0 <= p < s.len() && s[p] != sep {
        lemma_split_nonempty(s, sep, p + 1, start);
    }
}

/// A malformed line fails every longer prefix too.
proof fn lemma_settings_fail(ls: Seq<Seq<char>>, k: int)
    requires
        0 <= k <= ls.len(),
        apply_settings((0, 0, Seq::empty(), Seq::empty(), Seq::empty()), ls.subrange(0, k)) is None,
    ensures
        apply_settings((0, 0, Seq::empty(), Seq::empty(), Seq::empty()), ls.subrange(0, ls.len() as int)) is None,
    decreases ls.len() - k,
{
    if k < ls.len() {
        assert(ls.subrange(0, k + 1).drop_last() =~= ls.subrange(0, k));
        lemma_settings_fail(ls, k + 1);
    }
}

/// Installs the package with the given settings.
pub struct XunleiInstall(pub InstallConfig);

/// Removes the package; with settings, also the configuration directory
/// and the settings file.
pub struct XunleiUninstall(pub Option<InstallConfig>);

} // verus!
