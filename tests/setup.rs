use xunlei::asset::{asset, extract_target, support_arch, Asset};
use xunlei::config::{engine_env, launcher_args, ConfigError, InstallConfig};
use xunlei::murmur::murmurhash3_x64_128;
use xunlei::secret::{derive_secret, SecretDeriver};

#[test]
fn murmur_known_values() {
    assert_eq!(murmurhash3_x64_128(b"", 0), (0, 0));
    assert_eq!(
        murmurhash3_x64_128(b"The quick brown fox jumps over the lazy dog", 0),
        (0xe34bbc7bbc071b6c, 0x7a433ca9c49a9347)
    );
}

#[test]
fn secret_is_derived_once() {
    let mut d = SecretDeriver::new();
    let a = d.get_or_init_secret(Some("pw"));
    let b = d.get_or_init_secret(Some("other"));
    assert_eq!(a, b);
    assert_eq!(a, derive_secret(b"pw"));
    let (x, y) = murmurhash3_x64_128(b"pw", 31);
    assert_eq!(a, format!("{x}{y}"));
    assert_ne!(a, "pw");
}

#[test]
fn secret_without_credential_is_random() {
    let a = SecretDeriver::new().get_or_init_secret(None);
    let b = SecretDeriver::new().get_or_init_secret(None);
    assert!(!a.is_empty());
    assert_ne!(a, b);
    assert!(a.len() >= 2 && a.len() <= 40 && a.bytes().all(|c| c.is_ascii_digit()));
}

#[test]
fn engine_environment() {
    let env = engine_env("/opt/xunlei", "/xunlei");
    let get = |k: &str| env.get(k).map(|s| s.as_str());
    assert_eq!(get("HOME"), Some("/opt/xunlei"));
    assert_eq!(get("ConfigPath"), Some("/opt/xunlei"));
    assert_eq!(get("DownloadPATH"), Some("/xunlei"));
    assert_eq!(get("OS_VERSION"), Some("dsm 7.0-1"));
    assert_eq!(get("GIN_MODE"), Some("release"));
    assert_eq!(get("SVC_CWD"), Some("/var/packages/pan-xunlei-com/target"));
    assert_eq!(env.len(), 18);
}

#[test]
fn launcher_flags() {
    assert_eq!(
        launcher_args(),
        vec![
            "-launcher_listen=unix:///var/packages/pan-xunlei-com/target/var/pan-xunlei-com-launcher.sock".to_string(),
            "-pid=/var/packages/pan-xunlei-com/target/var/pan-xunlei-com.pid".to_string(),
            "-logfile=/var/packages/pan-xunlei-com/target/var/pan-xunlei-com-launcher.log".to_string(),
        ]
    );
}

fn sample() -> InstallConfig {
    InstallConfig {
        uid: 1000,
        gid: 100,
        package: None,
        config_path: "/opt/xunlei".to_string(),
        download_path: "/data/downloads".to_string(),
        mount_bind_download_path: "/xunlei".to_string(),
    }
}

#[test]
fn settings_file_round_trip() {
    let text = sample().render();
    assert_eq!(
        text,
        "uid=1000\ngid=100\nconfig_path=/opt/xunlei\ndownload_path=/data/downloads\nmount_bind_download_path=/xunlei\n"
    );
    assert_eq!(InstallConfig::parse(&text), Ok(sample()));
}

#[test]
fn settings_file_defaults_and_noise() {
    let c = InstallConfig::parse("\n  gid=5 \r\nunknown=1\nconfig_path=/c=d\n").unwrap();
    assert_eq!(c.uid, 0);
    assert_eq!(c.gid, 5);
    assert_eq!(c.config_path, "/c");
    assert_eq!(c.download_path, "");
}

#[test]
fn settings_file_bad_number() {
    assert_eq!(InstallConfig::parse("uid=abc\n"), Err(ConfigError::BadNumber));
    assert_eq!(InstallConfig::parse("gid=4294967296"), Err(ConfigError::BadNumber));
    assert_eq!(InstallConfig::parse("uid=4294967295").unwrap().uid, u32::MAX);
    assert_eq!(InstallConfig::parse("uid=+5").unwrap().uid, 5);
    assert_eq!(InstallConfig::parse("uid=+"), Err(ConfigError::BadNumber));
    assert_eq!(InstallConfig::parse("uid=-5"), Err(ConfigError::BadNumber));
    assert_eq!(InstallConfig::parse("gid=++5"), Err(ConfigError::BadNumber));
}

#[test]
fn package_location() {
    assert_eq!(support_arch("x86_64"), Some("x86_64"));
    assert_eq!(support_arch("aarch64"), Some("armv8"));
    assert_eq!(support_arch("riscv64"), None);
    let a = asset("aarch64").unwrap();
    assert_eq!(a.filename, "nasxunlei-DSM7-armv8.spk");
    assert_eq!(a.download_url(), "http://down.sandai.net/nas/nasxunlei-DSM7-armv8.spk");
    assert_eq!(a.file_path("version"), "/tmp/xunlei_bin/version");
    assert!(asset("mips").is_none());
    let local = Asset::new(Some("/tmp/p.spk".to_string()), "x86_64");
    assert_eq!(local.package.as_deref(), Some("/tmp/p.spk"));
}

#[test]
fn package_entries_to_install() {
    assert_eq!(extract_target("bin/bin/version"), Some("version".to_string()));
    assert_eq!(extract_target("bin/bin/version_code"), None);
    assert_eq!(
        extract_target("bin/bin/xunlei-pan-cli-launcher.amd64"),
        Some("xunlei-pan-cli-launcher.amd64".to_string())
    );
    assert_eq!(
        extract_target("bin/bin/bin/bin/xunlei-pan-cli.1"),
        Some("xunlei-pan-cli.1".to_string())
    );
    assert_eq!(extract_target("x/bin/bin/version"), Some("x/bin/bin/version".to_string()));
    assert_eq!(extract_target("ui/index.cgi"), Some("xunlei-pan-cli-web".to_string()));
    assert_eq!(extract_target("ui/other.js"), None);
}
