use std::path::Path;

use zeroclaw_agents::persona_bundles::{
    default_directory, resolve_directory, validate_directory, validate_uniqueness, PathProbe,
    PersonaBundleDirectoryError,
};
use zeroclaw_agents::schema::{Config, PersonaBundleConfig};

fn cfg_with_bundle(alias: &str, directory: Option<&str>) -> Config {
    let mut cfg = Config::default();
    cfg.persona_bundles.insert(
        alias.to_string(),
        PersonaBundleConfig {
            directory: directory.map(String::from),
            ..Default::default()
        },
    );
    cfg
}

fn probe(path: &Path) -> PathProbe {
    if path.is_dir() {
        PathProbe::Directory
    } else if path.exists() {
        PathProbe::NoDirectory
    } else {
        PathProbe::Absent
    }
}

fn shown(path: &Path) -> String {
    path.display().to_string()
}

#[test]
fn defaults_to_shared_personas_alias_when_unset() {
    let cfg = cfg_with_bundle("alpha", None);
    let root = Path::new("/tmp/install");
    let resolved = resolve_directory(&cfg, "/tmp/install", "alpha").unwrap();
    assert_eq!(Path::new(&resolved), root.join("shared/personas/alpha"));
}

#[test]
fn empty_directory_string_is_treated_as_unset() {
    let cfg = cfg_with_bundle("alpha", Some("   "));
    let root = Path::new("/tmp/install");
    assert_eq!(
        Path::new(&resolve_directory(&cfg, "/tmp/install", "alpha").unwrap()),
        root.join("shared/personas/alpha"),
    );
}

#[test]
fn absolute_directory_passes_through_unchanged() {
    let cfg = cfg_with_bundle("alpha", Some("/home/u/personas/larry-r-v0"));
    assert_eq!(
        resolve_directory(&cfg, "/tmp/install", "alpha").unwrap(),
        "/home/u/personas/larry-r-v0",
    );
}

#[test]
fn relative_directory_resolves_against_install_root() {
    let cfg = cfg_with_bundle("alpha", Some("personas/alpha"));
    let root = Path::new("/tmp/install");
    assert_eq!(
        Path::new(&resolve_directory(&cfg, "/tmp/install", "alpha").unwrap()),
        root.join("personas/alpha"),
    );
}

#[test]
fn surrounding_whitespace_of_a_directory_does_not_count() {
    let cfg = cfg_with_bundle("alpha", Some("  personas/alpha \n"));
    assert_eq!(
        resolve_directory(&cfg, "/tmp/install/", "alpha").unwrap(),
        "/tmp/install/personas/alpha",
    );
}

#[test]
fn resolve_unknown_bundle_errors() {
    let cfg = Config::default();
    let err = resolve_directory(&cfg, "/tmp/install", "ghost").unwrap_err();
    assert!(matches!(err, PersonaBundleDirectoryError::UnknownBundle(_)));
    assert_eq!(err.message(), "persona bundle 'ghost' is not configured");
}

#[test]
fn default_directory_is_below_shared_personas() {
    assert_eq!(default_directory("/tmp/install", "alpha"), "/tmp/install/shared/personas/alpha");
}

#[test]
fn validate_directory_accepts_existing_dir() {
    let dir = tempfile::tempdir().unwrap();
    assert!(validate_directory(&shown(dir.path()), probe(dir.path())).is_ok());
}

#[test]
fn validate_directory_rejects_missing() {
    let dir = tempfile::tempdir().unwrap();
    let missing = dir.path().join("does-not-exist");
    let err = validate_directory(&shown(&missing), probe(&missing)).unwrap_err();
    assert!(matches!(err, PersonaBundleDirectoryError::Missing { .. }));
    assert_eq!(
        err.message(),
        format!("persona-bundle directory '{}' does not exist", missing.display()),
    );
}

#[test]
fn validate_directory_rejects_a_file() {
    let file = tempfile::NamedTempFile::new().unwrap();
    let err = validate_directory(&shown(file.path()), probe(file.path())).unwrap_err();
    assert!(matches!(
        err,
        PersonaBundleDirectoryError::NotADirectory { .. }
    ));
    assert_eq!(
        err.message(),
        format!("persona-bundle directory '{}' is not a directory", file.path().display()),
    );
}

#[test]
fn uniqueness_rejects_two_bundles_pointing_at_same_dir() {
    let mut cfg = Config::default();
    cfg.persona_bundles.insert(
        "alpha".into(),
        PersonaBundleConfig {
            directory: Some("personas/shared-pool".into()),
            ..Default::default()
        },
    );
    cfg.persona_bundles.insert(
        "beta".into(),
        PersonaBundleConfig {
            directory: Some("personas/shared-pool".into()),
            ..Default::default()
        },
    );
    let err = validate_uniqueness(&cfg, "/tmp/install").unwrap_err();
    assert!(matches!(
        err,
        PersonaBundleDirectoryError::DirectoryCollision { .. }
    ));
    assert_eq!(
        err.message(),
        "persona-bundles 'alpha' and 'beta' both resolve to directory '/tmp/install/personas/shared-pool'; each bundle must own a unique directory",
    );
}

#[test]
fn uniqueness_sees_through_dots_and_doubled_separators() {
    let mut cfg = cfg_with_bundle("alpha", Some("/srv/p/./one"));
    cfg.persona_bundles.insert(
        "beta".into(),
        PersonaBundleConfig {
            directory: Some("/srv//p/two/../one/".into()),
            ..Default::default()
        },
    );
    match validate_uniqueness(&cfg, "/tmp/install").unwrap_err() {
        PersonaBundleDirectoryError::DirectoryCollision { path, first, second } => {
            assert_eq!(path, "/srv/p/one");
            assert_eq!(first, "alpha");
            assert_eq!(second, "beta");
        }
        other => panic!("unexpected: {other:?}"),
    }
}

#[test]
fn uniqueness_passes_for_distinct_default_directories() {
    let mut cfg = Config::default();
    cfg.persona_bundles
        .insert("alpha".into(), PersonaBundleConfig::default());
    cfg.persona_bundles
        .insert("beta".into(), PersonaBundleConfig::default());
    validate_uniqueness(&cfg, "/tmp/install").unwrap();
}
