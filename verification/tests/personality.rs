use zeroclaw_agents::personality::{
    file_present_in_any_layer, load_personality, load_personality_files,
    load_personality_with_bundles, overlay_paths, resolve_agent_persona_bundles,
    resolve_overlaid_file, FileEntry, FileSnapshot, PersonaLoadError, PersonalityProfile,
    ResolvedPersonaBundle, EDITABLE_PERSONALITY_FILES, MAX_FILE_CHARS, PERSONALITY_FILES,
};
use zeroclaw_agents::schema::{AliasedAgentConfig, Config, PersonaBundleConfig};

const WS: &str = "/ws";

fn add(files: &mut FileSnapshot, dir: &str, entries: &[(&str, &str)]) {
    for (name, content) in entries {
        files.record(
            format!("{dir}/{name}"),
            FileEntry {
                text: Some(content.to_string()),
                is_file: true,
            },
        );
    }
}

fn setup_workspace(entries: &[(&str, &str)]) -> FileSnapshot {
    let mut files = FileSnapshot::new();
    add(&mut files, WS, entries);
    files
}

fn bundle(dir: &str) -> ResolvedPersonaBundle {
    ResolvedPersonaBundle::new(dir.to_string(), "openclaw", vec![], vec![]).unwrap()
}

#[test]
fn load_personality_reads_existing_files() {
    let files = setup_workspace(&[
        ("SOUL.md", "I am a helpful assistant."),
        ("IDENTITY.md", "Name: Nova"),
    ]);

    let profile = load_personality(&files, WS);
    assert_eq!(profile.files.len(), 2);
    assert_eq!(profile.get("SOUL.md").unwrap(), "I am a helpful assistant.");
    assert_eq!(profile.get("IDENTITY.md").unwrap(), "Name: Nova");
    assert!(!profile.is_empty());
    assert_eq!(profile.files[0].path, "/ws/SOUL.md");
    assert!(!profile.files[0].truncated);
}

#[test]
fn load_personality_records_missing_files() {
    let files = setup_workspace(&[("SOUL.md", "soul content")]);

    let profile = load_personality(&files, WS);
    assert_eq!(profile.files.len(), 1);
    assert!(profile.missing.contains(&"IDENTITY.md".to_string()));
    assert!(profile.missing.contains(&"USER.md".to_string()));
    assert_eq!(profile.missing.len(), PERSONALITY_FILES.len() - 1);
}

#[test]
fn load_personality_treats_empty_files_as_missing() {
    let files = setup_workspace(&[("SOUL.md", "   \n  ")]);

    let profile = load_personality(&files, WS);
    assert!(profile.is_empty());
    assert!(profile.missing.contains(&"SOUL.md".to_string()));
}

#[test]
fn load_personality_truncates_large_files() {
    let large = "x".repeat(MAX_FILE_CHARS + 500);
    let files = setup_workspace(&[("SOUL.md", &large)]);

    let profile = load_personality(&files, WS);
    let soul = profile.files.iter().find(|f| f.name == "SOUL.md").unwrap();
    assert!(soul.truncated);
    assert_eq!(soul.content.chars().count(), MAX_FILE_CHARS);
}

#[test]
fn a_file_of_the_cap_is_kept_whole() {
    let exact = "é".repeat(MAX_FILE_CHARS);
    let files = setup_workspace(&[("SOUL.md", &exact)]);

    let profile = load_personality(&files, WS);
    assert!(!profile.files[0].truncated);
    assert_eq!(profile.files[0].content, exact);
}

#[test]
fn render_produces_markdown_sections() {
    let files = setup_workspace(&[("SOUL.md", "Be kind."), ("IDENTITY.md", "Name: Nova")]);

    let profile = load_personality(&files, WS);
    let rendered = profile.render();
    assert!(rendered.contains("### SOUL.md"));
    assert!(rendered.contains("Be kind."));
    assert!(rendered.contains("### IDENTITY.md"));
    assert!(rendered.contains("Name: Nova"));
    assert_eq!(
        rendered,
        "### SOUL.md\n\nBe kind.\n\n### IDENTITY.md\n\nName: Nova\n\n"
    );
}

#[test]
fn render_truncated_file_shows_notice() {
    let large = "y".repeat(MAX_FILE_CHARS + 100);
    let files = setup_workspace(&[("SOUL.md", &large)]);

    let profile = load_personality(&files, WS);
    let rendered = profile.render();
    assert!(rendered.contains("[... truncated at"));
    assert!(rendered
        .ends_with("y\n\n[... truncated at 20000 chars — use `read` for full file]\n\n"));
}

#[test]
fn render_of_nothing_is_empty() {
    assert_eq!(PersonalityProfile::default().render(), "");
}

#[test]
fn get_returns_none_for_missing_file() {
    let files = setup_workspace(&[]);
    let profile = load_personality(&files, WS);
    assert!(profile.get("SOUL.md").is_none());
}

#[test]
fn load_personality_files_custom_subset() {
    let files = setup_workspace(&[("SOUL.md", "soul"), ("USER.md", "user")]);

    let profile = load_personality_files(&files, WS, &["SOUL.md", "USER.md"]);
    assert_eq!(profile.files.len(), 2);
    assert!(profile.missing.is_empty());
}

#[test]
fn empty_workspace_yields_empty_profile() {
    let files = setup_workspace(&[]);
    let profile = load_personality(&files, WS);
    assert!(profile.is_empty());
    assert!(!profile.missing.is_empty());
}

#[test]
fn editable_files_leave_out_the_bootstrap_scaffold() {
    assert!(!EDITABLE_PERSONALITY_FILES.contains(&"BOOTSTRAP.md"));
    assert!(PERSONALITY_FILES.contains(&"BOOTSTRAP.md"));
    assert!(EDITABLE_PERSONALITY_FILES
        .iter()
        .all(|f| PERSONALITY_FILES.contains(f)));
}

#[test]
fn with_bundles_empty_matches_load_personality() {
    let files = setup_workspace(&[("SOUL.md", "soul"), ("USER.md", "user")]);
    let plain = load_personality(&files, WS);
    let overlaid = load_personality_with_bundles(&files, &[], WS);
    let pairs = |p: &PersonalityProfile| {
        p.files
            .iter()
            .map(|f| (f.name.clone(), f.content.clone()))
            .collect::<Vec<_>>()
    };
    assert_eq!(pairs(&overlaid), pairs(&plain));
    assert_eq!(overlaid.missing, plain.missing);
}

#[test]
fn workspace_overrides_bundles() {
    let mut files = setup_workspace(&[("SOUL.md", "workspace soul")]);
    add(&mut files, "/b0", &[("SOUL.md", "bundle soul")]);
    let profile = load_personality_with_bundles(&files, &[bundle("/b0")], WS);
    assert_eq!(profile.get("SOUL.md").unwrap(), "workspace soul");
}

#[test]
fn later_bundle_overlays_earlier() {
    let mut files = setup_workspace(&[]);
    add(&mut files, "/b0", &[("SOUL.md", "b0 soul"), ("USER.md", "b0 user")]);
    add(&mut files, "/b1", &[("SOUL.md", "b1 soul")]);
    let profile = load_personality_with_bundles(&files, &[bundle("/b0"), bundle("/b1")], WS);
    // b1 (later) wins SOUL; USER (only in b0) still shows through.
    assert_eq!(profile.get("SOUL.md").unwrap(), "b1 soul");
    assert_eq!(profile.get("USER.md").unwrap(), "b0 user");
}

#[test]
fn bundle_fills_file_absent_from_workspace() {
    let mut files = setup_workspace(&[("SOUL.md", "ws soul")]);
    add(&mut files, "/b0", &[("IDENTITY.md", "bundle identity")]);
    let profile = load_personality_with_bundles(&files, &[bundle("/b0")], WS);
    assert_eq!(profile.get("SOUL.md").unwrap(), "ws soul");
    assert_eq!(profile.get("IDENTITY.md").unwrap(), "bundle identity");
}

#[test]
fn empty_workspace_file_falls_through_to_bundle() {
    let mut files = setup_workspace(&[("SOUL.md", "   \n ")]);
    add(&mut files, "/b0", &[("SOUL.md", "bundle soul")]);
    let profile = load_personality_with_bundles(&files, &[bundle("/b0")], WS);
    assert_eq!(profile.get("SOUL.md").unwrap(), "bundle soul");
}

#[test]
fn include_limits_bundle_contribution() {
    let mut files = setup_workspace(&[]);
    add(&mut files, "/b0", &[("SOUL.md", "b soul"), ("IDENTITY.md", "b identity")]);
    let b = ResolvedPersonaBundle::new("/b0".to_string(), "openclaw", vec!["SOUL.md".into()], vec![])
        .unwrap();
    let profile = load_personality_with_bundles(&files, &[b], WS);
    assert_eq!(profile.get("SOUL.md").unwrap(), "b soul");
    assert!(profile.get("IDENTITY.md").is_none());
    assert!(profile.missing.contains(&"IDENTITY.md".to_string()));
}

#[test]
fn exclude_removes_bundle_file() {
    let mut files = setup_workspace(&[]);
    add(&mut files, "/b0", &[("SOUL.md", "b soul"), ("IDENTITY.md", "b identity")]);
    let b = ResolvedPersonaBundle::new(
        "/b0".to_string(),
        "openclaw",
        vec![],
        vec!["IDENTITY.md".into()],
    )
    .unwrap();
    let profile = load_personality_with_bundles(&files, &[b], WS);
    assert_eq!(profile.get("SOUL.md").unwrap(), "b soul");
    assert!(profile.get("IDENTITY.md").is_none());
}

#[test]
fn exclusion_beats_inclusion() {
    let b = ResolvedPersonaBundle::new(
        "/b0".to_string(),
        "openclaw",
        vec!["SOUL.md".into()],
        vec!["SOUL.md".into()],
    )
    .unwrap();
    assert!(!b.admits("SOUL.md"));
}

#[test]
fn overlaid_file_is_trimmed_and_not_cut() {
    let large = format!("  {}\n", "z".repeat(MAX_FILE_CHARS + 1));
    let mut files = setup_workspace(&[]);
    add(&mut files, "/b0", &[("SOUL.md", &large)]);
    let (path, content) =
        resolve_overlaid_file(&files, "SOUL.md", &[bundle("/b0")], WS).unwrap();
    assert_eq!(path, "/b0/SOUL.md");
    assert_eq!(content, "z".repeat(MAX_FILE_CHARS + 1));
}

#[test]
fn present_but_empty_differs_from_absent() {
    let mut files = setup_workspace(&[]);
    add(&mut files, "/b0", &[("SOUL.md", "  ")]);
    let bundles = [bundle("/b0")];
    assert!(resolve_overlaid_file(&files, "SOUL.md", &bundles, WS).is_none());
    assert!(file_present_in_any_layer(&files, "SOUL.md", &bundles, WS));
    assert!(!file_present_in_any_layer(&files, "USER.md", &bundles, WS));
}

#[test]
fn overlay_paths_follow_precedence() {
    let hidden = ResolvedPersonaBundle::new(
        "/b1".to_string(),
        "",
        vec![],
        vec!["SOUL.md".into()],
    )
    .unwrap();
    assert_eq!(
        overlay_paths("SOUL.md", &[bundle("/b0"), hidden, bundle("/b2/")], WS),
        vec!["/ws/SOUL.md", "/b2/SOUL.md", "/b0/SOUL.md"],
    );
}

#[test]
fn resolved_bundle_rejects_aieos_format() {
    let err = ResolvedPersonaBundle::new("/tmp/x".to_string(), "aieos", vec![], vec![]).unwrap_err();
    assert!(matches!(err, PersonaLoadError::UnsupportedFormat { .. }));
    assert_eq!(
        err.message(),
        "persona bundle at '/tmp/x' uses unsupported format 'aieos'; only 'openclaw' (markdown) bundles are supported",
    );
}

#[test]
fn resolved_bundle_accepts_openclaw_and_empty_format() {
    assert!(ResolvedPersonaBundle::new("/tmp/x".to_string(), "openclaw", vec![], vec![]).is_ok());
    assert!(ResolvedPersonaBundle::new("/tmp/x".to_string(), "", vec![], vec![]).is_ok());
}

fn config_with_persona_bundle(
    agent: &str,
    bundle_alias: &str,
    directory: &str,
    format: &str,
) -> Config {
    let mut config = Config::default();
    config.persona_bundles.insert(
        bundle_alias.to_string(),
        PersonaBundleConfig {
            directory: Some(directory.to_string()),
            format: format.to_string(),
            ..Default::default()
        },
    );
    config.agents.insert(
        agent.to_string(),
        AliasedAgentConfig {
            persona_bundles: vec![bundle_alias.to_string()],
            ..Default::default()
        },
    );
    config
}

#[test]
fn resolve_agent_persona_bundles_maps_aliases_in_order() {
    let dir_a = tempfile::tempdir().unwrap();
    let dir_b = tempfile::tempdir().unwrap();
    let shown_a = dir_a.path().display().to_string();
    let shown_b = dir_b.path().display().to_string();
    let mut config = config_with_persona_bundle("rev", "a", &shown_a, "openclaw");
    // Add a second bundle and reference both in order.
    config.persona_bundles.insert(
        "b".to_string(),
        PersonaBundleConfig {
            directory: Some(shown_b.clone()),
            ..Default::default()
        },
    );
    config.agents.insert(
        "rev".to_string(),
        AliasedAgentConfig {
            persona_bundles: vec!["a".into(), "b".into()],
            ..Default::default()
        },
    );

    let resolved = resolve_agent_persona_bundles(&config, "rev");
    assert_eq!(resolved.len(), 2);
    assert_eq!(resolved[0].directory, shown_a);
    assert_eq!(resolved[1].directory, shown_b);
}

#[test]
fn resolve_agent_persona_bundles_skips_unsupported_format() {
    let dir = tempfile::tempdir().unwrap();
    let config =
        config_with_persona_bundle("rev", "aieos_one", &dir.path().display().to_string(), "aieos");
    let resolved = resolve_agent_persona_bundles(&config, "rev");
    assert!(
        resolved.is_empty(),
        "an aieos bundle is skipped (logged), not loaded as markdown"
    );
}

#[test]
fn resolve_agent_persona_bundles_skips_dangling_alias() {
    let mut config = Config::default();
    config.agents.insert(
        "rev".to_string(),
        AliasedAgentConfig {
            persona_bundles: vec!["nonexistent".into()],
            ..Default::default()
        },
    );
    assert!(resolve_agent_persona_bundles(&config, "rev").is_empty());
}

#[test]
fn resolve_agent_persona_bundles_empty_for_unknown_agent() {
    let config = Config::default();
    assert!(resolve_agent_persona_bundles(&config, "ghost").is_empty());
}

#[test]
fn bundle_aliases_are_trimmed_and_blank_ones_skipped() {
    let mut config = config_with_persona_bundle("rev", "a", "lib/a", "");
    config.install_root = "/opt/zc".to_string();
    config.agents.insert(
        "rev".to_string(),
        AliasedAgentConfig {
            persona_bundles: vec![" ".into(), " a ".into()],
            ..Default::default()
        },
    );
    let resolved = resolve_agent_persona_bundles(&config, "rev");
    assert_eq!(resolved.len(), 1);
    assert_eq!(resolved[0].directory, "/opt/zc/lib/a");
}
