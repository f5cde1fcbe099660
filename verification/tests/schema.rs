//! The schema of the configuration.
use std::collections::BTreeSet;

use miliastra::config::live::live_config_paths;
use miliastra::config::schema::catalog::config_effect_for_path;
use miliastra::config::schema::catalog::config_sections;
use miliastra::config::schema::catalog::section_schema;
use miliastra::config::schema::ConfigSource;
use miliastra::config::schema::Effect;
use miliastra::config::schema::FieldKind;
use miliastra::config::secrets::secret_path;
use miliastra::config::secrets::SECRET_COUNT;

#[test]
fn effect_names_are_camel_case_in_json() {
    assert_eq!(Effect::Live.name(), "live");
    assert_eq!(Effect::IdleReload.name(), "idleReload");
    assert_eq!(Effect::PlaybackIdleReload.name(), "playbackIdleReload");
    assert_eq!(Effect::Restart.name(), "restart");
}

#[test]
fn changed_leaf_paths_inherit_the_deepest_container_effect() {
    assert_eq!(config_effect_for_path("window.focus_point.x"), Some(Effect::IdleReload));
    assert_eq!(
        config_effect_for_path("playback.audio_cache.directory"),
        Some(Effect::IdleReload)
    );
    assert_eq!(config_effect_for_path("unknown.path"), None);
}

#[test]
fn only_playback_source_recovery_fields_wait_for_an_active_song() {
    for path in [
        "playback.credential_directory",
        "playback.kugou_api_executable",
        "playback.kugou_api_base_url",
    ] {
        assert_eq!(
            config_effect_for_path(path),
            Some(Effect::PlaybackIdleReload),
            "field={path}"
        );
    }
    for path in [
        "stability.default_count",
        "timing.playback.uri_stable_samples",
        "timing.playback.transport_stable_samples",
        "timing.playback.stale_timeout_ms",
        "timing.external.volume_smooth_step_ms",
        "playback.login_helper_executable",
        "playback.login_timeout_ms",
        "playback.audio_cache.enabled",
    ] {
        assert_eq!(config_effect_for_path(path), Some(Effect::IdleReload), "field={path}");
    }
}

#[test]
fn database_fields_never_require_manual_restart() {
    for field in config_sections().into_iter().flat_map(|section| section.fields) {
        match field.source {
            ConfigSource::Db => assert_ne!(field.effect, Effect::Restart, "{}", field.path),
            ConfigSource::Bootstrap => assert_eq!(field.effect, Effect::Restart, "{}", field.path),
        }
    }
}

#[test]
fn all_fields_are_declared() {
    let total: usize = config_sections().iter().map(|section| section.fields.len()).sum();
    assert_eq!(total, 266);
    assert_eq!(config_sections().len(), 27);
}

#[test]
fn section_schema_lookup_returns_matching_section() {
    for section in config_sections() {
        let looked_up = section_schema(&section.name)
            .unwrap_or_else(|| panic!("查找已声明段 {}", section.name));
        assert_eq!(looked_up.name, section.name);
        assert_eq!(looked_up.label, section.label);
        assert_eq!(looked_up.order, section.order);
        assert_eq!(looked_up.fields.len(), section.fields.len());
    }
    assert!(section_schema("不存在").is_none(), "未知段必须返回 None");
}

#[test]
fn field_paths_are_unique_within_schema() {
    let mut seen = BTreeSet::new();
    for section in config_sections() {
        for field in section.fields {
            assert!(seen.insert(field.path.clone()), "重复字段路径: {}", field.path);
        }
    }
}

#[test]
fn secret_paths_are_consistent_with_schema() {
    let schema_secrets: BTreeSet<String> = config_sections()
        .into_iter()
        .flat_map(|section| section.fields)
        .filter(|field| matches!(field.kind, FieldKind::Secret))
        .map(|field| field.path)
        .collect();
    let declared: BTreeSet<String> =
        (0..SECRET_COUNT).map(|k| secret_path(k).to_string()).collect();
    assert_eq!(schema_secrets, declared);
}

#[test]
fn live_fields_match_schema_effect() {
    let schema_live: BTreeSet<String> = config_sections()
        .into_iter()
        .flat_map(|section| section.fields)
        .filter(|field| field.effect == Effect::Live)
        .map(|field| field.path)
        .collect();
    let covered: BTreeSet<String> =
        live_config_paths().iter().map(|path| path.to_string()).collect();
    assert_eq!(schema_live, covered);
}
