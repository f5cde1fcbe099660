//! The whole configuration: defaults, checks and paths.
use std::time::Duration;

use miliastra::config::app::AppConfig;
use miliastra::config::app::FeatureConfigs;
use miliastra::config::app::OutsideChecks;
use miliastra::config::app::PlayerRuntimeSettings;
use miliastra::config::app::resolve_stability_count;
use miliastra::config::checks::Single;
use miliastra::config::json::Json;
use miliastra::config::locations::locate_paths;
use miliastra::config::locations::place_path;
use miliastra::config::settings::AudioCacheFileConfig;
use miliastra::config::settings::BootstrapConfig;
use miliastra::config::settings::HttpConfig;
use miliastra::config::settings::IdiomChainConfig;
use miliastra::config::settings::InviteTimingConfig;
use miliastra::config::settings::LoggingConfig;
use miliastra::config::settings::MatchConfig;
use miliastra::config::settings::ModerationTimingConfig;
use miliastra::config::settings::PlaybackTimingConfig;
use miliastra::config::settings::QueueConfig;
use miliastra::config::settings::SongDedupConfig;
use miliastra::config::settings::TurtleSoupConfig;
use miliastra::config::settings::UndercoverConfig;
use miliastra::config::settings::WorkflowTimingConfig;
use miliastra::config::store::accept_candidate;
use miliastra::config::store::prepare_candidate;
use miliastra::custom_workflow::definition::CustomWorkflowConfig;
use miliastra::custom_workflow::definition::CustomWorkflowDefinition;
use miliastra::custom_workflow::definition::CustomWorkflowStep;

fn single(value: f32) -> Single {
    Single { bits: value.to_bits() }
}

fn step(kind: &str) -> CustomWorkflowStep {
    CustomWorkflowStep {
        step_type: kind.to_string(),
        template: None,
        region: None,
        point: None,
        click_offset: None,
        key: None,
        target: None,
        text: None,
        message: None,
        threshold: None,
        timeout_ms: None,
        poll_ms: None,
        wait_ms: None,
        hold_seconds_arg: None,
        stable_after_absent: None,
    }
}

fn features() -> FeatureConfigs {
    FeatureConfigs {
        workflow_timing: WorkflowTimingConfig {
            default_timeout_ms: 5_000,
            default_poll_ms: 200,
            default_step_wait_ms: 300,
        },
        invite_timing: InviteTimingConfig {
            open_chat_ms: 500,
            step_ms: 300,
            confirm_timeout_ms: 20_000,
            confirm_poll_ms: 1_000,
        },
        moderation_timing: ModerationTimingConfig {
            vote_timeout_ms: 30_000,
            vote_poll_ms: 1_000,
            search_result_timeout_ms: 5_000,
            confirm_wait_ms: 500,
        },
        playback_timing: PlaybackTimingConfig {
            status_poll_ms: 1_000,
            monitor_tick_ms: 200,
            monitor_status_ms: 1_000,
            uri_stable_samples: 0,
            transport_stable_samples: 0,
            stale_timeout_ms: 5_000,
            lyrics_lead_seconds: single(0.0),
        },
        queue: QueueConfig {
            max_size: 5,
            pool_max_size: 50,
            protect_current_song_until_finished: true,
            external_playback_protect_after_seconds: 30,
        },
        song_dedup: SongDedupConfig {
            enabled: true,
            window_seconds: 600,
            max_count: 1,
            console_bypass: true,
            history_path: "deps/data/song-history.json".to_string(),
        },
        idiom_chain: IdiomChainConfig { lexicon_path: "deps/data/idioms.txt".to_string() },
        undercover: UndercoverConfig {
            word_bank_path: "deps/data/undercover.json".to_string(),
            used_state_path: "deps/data/undercover-used.json".to_string(),
        },
        turtle_soup: TurtleSoupConfig {
            question_bank_path: "deps/data/soup.json".to_string(),
            used_state_path: "deps/data/soup-used.json".to_string(),
        },
        ai: Json::Null,
        song_review: Json::Null,
        matching: MatchConfig {
            min_song_name_score: single(0.6),
            short_chinese_song_max_miss: 1,
            long_chinese_song_min_score: single(0.7),
            max_ocr_noise_chars: 2,
            enable_fuzzy_singer: true,
            short_chinese_singer_max_miss: 1,
            long_chinese_singer_min_score: single(0.7),
            en_max_edit_fraction: single(0.2),
            en_singer_max_edit_fraction: single(0.2),
        },
        custom_workflows: CustomWorkflowConfig {
            enabled: false,
            default_threshold: single(0.9),
            wait_template_absent_stable_default: true,
            max_hold_key_seconds: 10,
            templates: Vec::new(),
            workflows: vec![CustomWorkflowDefinition {
                enabled: true,
                name: "notice".to_string(),
                commands: vec!["通知".to_string()],
                allow_args: false,
                message_types: vec!["pink".to_string()],
                confirm_before_run: false,
                confirm_message: String::new(),
                confirm_message_types: Vec::new(),
                confirm_timeout_ms: None,
                confirm_poll_ms: None,
                steps: vec![step("ensure_primary"), step("wait")],
                success_message: String::new(),
            }],
        },
    }
}

fn default_config() -> AppConfig {
    AppConfig::with_features(features())
}

fn passed() -> OutsideChecks {
    OutsideChecks {
        workflow_timing: Ok(()),
        playback_timing: Ok(()),
        player_runtime: Ok(()),
        queue: Ok(()),
        song_dedup: Ok(()),
        matching: Ok(()),
        idiom_chain: Ok(()),
        landlord: Ok(()),
        undercover: Ok(()),
        invite: Ok(()),
        moderation: Ok(()),
        custom_workflows: Ok(()),
        startup: Ok(()),
        ai: Ok(()),
        song_review: Ok(()),
        turtle_soup: Ok(()),
    }
}

fn assert_rejected(config: &AppConfig, field: &str) {
    let error = config.validate(&passed()).expect_err(field);
    assert!(error.contains(field), "field={field} error={error}");
}

#[test]
fn playback_observation_stability_uses_local_then_global_then_builtin_default() {
    assert_eq!(resolve_stability_count(4, 6), 4);
    assert_eq!(resolve_stability_count(3, 6), 3);
    assert_eq!(resolve_stability_count(1, 6), 6);
    assert_eq!(resolve_stability_count(0, 6), 6);
    assert_eq!(resolve_stability_count(1, 1), 2);
}

/// The fast interval that a player tells for a normal one.
fn fast_interval_for(normal_ms: u64) -> u128 {
    match normal_ms {
        1_000 => Duration::from_millis(300).as_nanos(),
        300 => Duration::from_millis(150).as_nanos(),
        50 => Duration::from_millis(25).as_nanos(),
        1 => Duration::from_micros(500).as_nanos(),
        _ => panic!("unexpected interval {normal_ms}"),
    }
}

/// How a player is observed that can be run in any way.
fn player_runtime(config: &AppConfig) -> PlayerRuntimeSettings {
    config
        .player_runtime_config(fast_interval_for, |_| Ok::<(), String>(()))
        .expect("valid player runtime config")
}

#[test]
fn app_config_builds_the_complete_player_runtime_config_once() {
    let mut config = default_config();
    config.stability.default_count = 6;
    config.timing.playback.uri_stable_samples = 4;
    config.timing.playback.transport_stable_samples = 1;
    config.timing.playback.monitor_status_ms = 1_000;
    config.timing.playback.stale_timeout_ms = 7_500;

    let runtime = player_runtime(&config);

    assert_eq!(runtime.uri_stable_samples, 4);
    assert_eq!(runtime.transport_stable_samples, 6);
    assert_eq!(runtime.stale_timeout_ms, 7_500);
    assert_eq!(runtime.normal_observation_interval_ms, 1_000);
    assert_eq!(
        runtime.fast_observation_interval_ns,
        Duration::from_millis(300).as_nanos()
    );
    assert_eq!(runtime.observation_command_capacity, 16);
    assert_eq!(runtime.active_fast_demand_capacity, 16);
    assert_eq!(runtime.control_queue_capacity, 16);
    assert_eq!(runtime.search_queue_capacity, 16);

    config.stability.default_count = 1;
    config.timing.playback.uri_stable_samples = 0;
    config.timing.playback.transport_stable_samples = 1;
    let runtime = player_runtime(&config);
    assert_eq!(runtime.uri_stable_samples, 2);
    assert_eq!(runtime.transport_stable_samples, 2);
}

#[test]
fn player_fast_observation_interval_stays_below_low_normal_intervals() {
    let mut config = default_config();

    for (normal_ms, expected_fast) in [
        (300, Duration::from_millis(150)),
        (50, Duration::from_millis(25)),
        (1, Duration::from_micros(500)),
    ] {
        config.timing.playback.monitor_status_ms = normal_ms;
        let runtime = player_runtime(&config);
        assert_eq!(runtime.fast_observation_interval_ns, expected_fast.as_nanos());
        let normal = Duration::from_millis(runtime.normal_observation_interval_ms);
        assert!(runtime.fast_observation_interval_ns < normal.as_nanos());
    }
}

#[test]
fn a_player_that_cannot_be_run_has_no_configuration() {
    let mut config = default_config();
    config.timing.playback.monitor_status_ms = 50;
    let built = config.player_runtime_settings(25);
    assert_eq!(built.fast_observation_interval_ns, 25);
    assert_eq!(built.normal_observation_interval_ms, 50);
    let refused = config.player_runtime_config(
        |normal_ms| u128::from(normal_ms) / 2,
        |settings| if settings == built { Err("too fast") } else { Ok(()) },
    );
    assert_eq!(refused, Err("too fast"));
}

#[test]
fn default_app_config_passes_startup_validation() {
    default_config().validate(&passed()).expect("default config is valid");
}

#[test]
fn default_config_passes_full_validation() {
    default_config().validate(&passed()).expect("默认配置必须能通过完整校验");
}

#[test]
fn runtime_paths_resolve_against_the_executable_root_and_preserve_absolute_paths() {
    let mut config = default_config();
    config.ocr.openvino.det_model = Some("models/det.xml".to_string());
    config.ocr.openvino.det_weights = Some("models/det.bin".to_string());
    config.ocr.openvino.rec_model = Some("models/rec.xml".to_string());
    config.ocr.openvino.rec_weights = Some("models/rec.bin".to_string());
    config.startup.exe_path = r"D:\游戏\GenshinImpact.exe".to_string();
    config
        .custom_workflows
        .templates
        .push(("按钮".to_string(), "custom/button.png".to_string()));
    config.custom_workflows.workflows[0].steps[0].template = Some("inline/button.png".to_string());
    config.custom_workflows.workflows[0].steps[1].template = Some("按钮".to_string());

    let mut placed = config.clone();
    placed.resolve_runtime_paths_from("/发布目录");
    for (before, after) in config.runtime_paths().iter().zip(placed.runtime_paths()) {
        if before != "按钮" {
            assert_eq!(after, led("/发布目录", before));
        }
    }
    assert_eq!(placed.state.hall_state_path, "/发布目录/deps/data/hall-state.json");
    assert_eq!(placed.custom_workflows.templates[0].1, "/发布目录/custom/button.png");
    let steps = &placed.custom_workflows.workflows[0].steps;
    assert_eq!(steps[0].template.as_deref(), Some("/发布目录/inline/button.png"));
    assert_eq!(steps[1].template.as_deref(), Some("按钮"));

    let paths = config.runtime_paths();
    let table: Vec<(String, String)> = paths
        .into_iter()
        .map(|path| {
            let resolved = if path.contains(':') {
                path.clone()
            } else {
                format!(r"C:\发布目录\{path}")
            };
            (path, resolved)
        })
        .collect();
    config.resolve_runtime_paths(&table);

    for path in [
        config.ocr.det_model.as_ref().expect("检测模型"),
        config.ocr.rec_model.as_ref().expect("识别模型"),
        &config.ocr.charset,
        config.ocr.openvino.det_model.as_ref().expect("OpenVINO 检测模型"),
        config.ocr.openvino.det_weights.as_ref().expect("OpenVINO 检测权重"),
        config.ocr.openvino.rec_model.as_ref().expect("OpenVINO 识别模型"),
        config.ocr.openvino.rec_weights.as_ref().expect("OpenVINO 识别权重"),
        config.ocr.openvino.cache_dir.as_ref().expect("OpenVINO 缓存"),
        &config.templates.blue_marker,
        &config.templates.friend_confirm,
        &config.playback.credential_directory,
        &config.playback.login_helper_executable,
        &config.logging.dir,
        &config.state.playback_state_path,
        &config.state.hall_state_path,
        &config.state.executed_commands_log_path,
        &config.song_dedup.history_path,
        &config.startup.templates.wonderland_map_star,
        &config.startup.templates.wonderland_confirm,
        &config.startup.templates.paimon_menu,
        &config.turtle_soup.question_bank_path,
        &config.turtle_soup.used_state_path,
        &config.undercover.word_bank_path,
        &config.undercover.used_state_path,
        &config.custom_workflows.templates[0].1,
    ] {
        assert!(path.starts_with(r"C:\发布目录\"), "路径未基于 EXE 根目录: {path}");
    }
    assert_eq!(config.startup.exe_path, r"D:\游戏\GenshinImpact.exe");
    let workflow = &config.custom_workflows.workflows[0];
    assert_eq!(
        workflow.steps[0].template.as_deref(),
        Some(r"C:\发布目录\inline/button.png")
    );
    assert_eq!(workflow.steps[1].template.as_deref(), Some("按钮"));
}

#[test]
fn empty_optional_runtime_path_stays_empty() {
    let mut config = default_config();
    config.startup.exe_path = String::new();
    let table = vec![(String::new(), r"C:\发布目录".to_string())];

    config.resolve_runtime_paths(&table);

    assert!(config.startup.exe_path.is_empty());
}

#[test]
fn startup_validation_rejects_an_empty_target_process() {
    let mut config = default_config();
    config.window.target_process = " \t ".to_string();
    assert_rejected(&config, "window.target_process");
}

#[test]
fn startup_validation_rejects_a_zero_ai_request_timeout() {
    let mut config = default_config();
    config.timing.external.ai_request_timeout_ms = 0;
    assert_rejected(&config, "timing.external.ai_request_timeout_ms");
}

type ConfigMutation = (&'static str, fn(&mut AppConfig));

#[test]
fn startup_validation_rejects_zero_runtime_intervals_timeouts_and_retries() {
    let invalid_fields: [ConfigMutation; 10] = [
        ("timing.watchdog_restart_ms", |config| {
            config.timing.watchdog_restart_ms = 0;
        }),
        ("timing.loop_idle_ms", |config| {
            config.timing.loop_idle_ms = 0;
        }),
        ("timing.chat_scan.fallback_ms", |config| {
            config.timing.chat_scan.fallback_ms = 0;
        }),
        ("timing.command.ui_timeout_ms", |config| {
            config.timing.command.ui_timeout_ms = 0;
        }),
        ("timing.hall.ocr_sample_interval_ms", |config| {
            config.timing.hall.ocr_sample_interval_ms = 0;
        }),
        ("timing.decision.timeout_ms", |config| {
            config.timing.decision.timeout_ms = 0;
        }),
        ("timing.decision.poll_ms", |config| {
            config.timing.decision.poll_ms = 0;
        }),
        ("timing.external.ai_request_timeout_ms", |config| {
            config.timing.external.ai_request_timeout_ms = 0;
        }),
        ("ocr.request_timeout_ms", |config| {
            config.ocr.request_timeout_ms = 0;
        }),
        ("ocr.shutdown_timeout_ms", |config| {
            config.ocr.shutdown_timeout_ms = 0;
        }),
    ];

    for (field, invalidate) in invalid_fields {
        let mut config = default_config();
        invalidate(&mut config);
        assert_rejected(&config, field);
    }
}

#[test]
fn startup_validation_rejects_invalid_required_runtime_resources() {
    let invalid_fields: [ConfigMutation; 14] = [
        ("ocr.det_model", |config| {
            config.ocr.det_model = Some(String::new());
        }),
        ("ocr.backend_priority", |config| {
            config.ocr.backend_priority = vec!["metal".to_string()];
        }),
        ("templates.friend", |config| {
            config.templates.friend = String::new();
        }),
        ("playback.credential_directory", |config| {
            config.playback.credential_directory = String::new();
        }),
        ("playback.login_helper_executable", |config| {
            config.playback.login_helper_executable = String::new();
        }),
        ("http.port", |config| {
            config.http.port = 0;
        }),
        ("logging.dir", |config| {
            config.logging.dir = String::new();
        }),
        ("logging.level", |config| {
            config.logging.level = "verbose".to_string();
        }),
        ("tui.refresh_ms", |config| {
            config.tui.refresh_ms = 0;
        }),
        ("tui.log_lines", |config| {
            config.tui.log_lines = 0;
        }),
        ("playback.login_timeout_ms", |config| {
            config.playback.login_timeout_ms = 0;
        }),
        ("hotkeys.pause_key", |config| {
            config.hotkeys.pause_key.clear();
        }),
        ("window.content_width", |config| {
            config.window.content_width -= 1;
        }),
        ("playback.audio_cache.max_bytes_mb", |config| {
            config.playback.audio_cache = Some(AudioCacheFileConfig {
                enabled: true,
                directory: "cache".to_string(),
                max_bytes_mb: 0,
                max_concurrent_downloads: 2,
                request_timeout_ms: 15_000,
                seek_wait_timeout_ms: 10_000,
            });
        }),
    ];

    for (field, invalidate) in invalid_fields {
        let mut config = default_config();
        invalidate(&mut config);
        assert_rejected(&config, field);
    }
}

#[test]
fn startup_validation_requires_openvino_ir_paths_when_selected() {
    let mut config = default_config();
    config.ocr.backend_priority = vec!["openvino".to_string()];
    config.ocr.det_model = None;
    config.ocr.rec_model = None;
    config.ocr.openvino.det_model = None;
    config.ocr.openvino.det_weights = None;
    config.ocr.openvino.rec_model = None;
    config.ocr.openvino.rec_weights = None;
    assert_rejected(&config, "ocr.openvino.det_model");

    config.ocr.openvino.det_model = Some("det.xml".to_string());
    config.ocr.openvino.det_weights = Some("det.bin".to_string());
    config.ocr.openvino.rec_model = Some("rec.xml".to_string());
    config.ocr.openvino.rec_weights = Some("rec.bin".to_string());
    config.validate(&passed()).expect("complete OpenVINO IR configuration should validate");
}

#[test]
fn startup_validation_requires_mnn_models_only_for_mnn_backends() {
    let mut config = default_config();
    config.ocr.backend_priority = vec!["openvino".to_string()];
    config.ocr.det_model = None;
    config.ocr.rec_model = None;
    config.ocr.openvino.det_model = Some("det.xml".to_string());
    config.ocr.openvino.det_weights = Some("det.bin".to_string());
    config.ocr.openvino.rec_model = Some("rec.xml".to_string());
    config.ocr.openvino.rec_weights = Some("rec.bin".to_string());
    config
        .validate(&passed())
        .expect("OpenVINO-only configuration must not require MNN models");

    config.ocr.backend_priority = vec!["openvino".to_string(), "cpu".to_string()];
    assert_rejected(&config, "ocr.det_model");
}

#[test]
fn startup_validation_rejects_ui_geometry_outside_the_normalized_canvas() {
    let mut config = default_config();
    config.invite.friend_chat_region.x = config.screen.expected_width as i32;
    assert_rejected(&config, "invite.friend_chat_region");
}

#[test]
fn startup_validation_rejects_an_empty_screen_region() {
    let mut config = default_config();
    config.screen.chat_rect.width = 0;
    assert_rejected(&config, "screen.chat_rect");
}

#[test]
fn startup_validation_rejects_invalid_thresholds_and_queue_capacity() {
    let mut config = default_config();
    config.templates.marker_threshold = single(1.1);
    assert!(config.validate(&passed()).is_err());

    config.templates.marker_threshold = single(0.9);
    let outside = OutsideChecks {
        queue: Err("queue.max_size 必须大于 0".to_string()),
        ..passed()
    };
    assert_eq!(config.validate(&outside), Err("queue.max_size 必须大于 0".to_string()));
}

#[test]
fn checks_made_elsewhere_are_reported() {
    let config = default_config();
    for (field, outside) in [
        ("timing.workflow", OutsideChecks { workflow_timing: Err("timing.workflow".into()), ..passed() }),
        ("timing.playback", OutsideChecks { playback_timing: Err("timing.playback".into()), ..passed() }),
        ("undercover.min_players", OutsideChecks { undercover: Err("undercover.min_players".into()), ..passed() }),
        ("startup.poll_ms", OutsideChecks { startup: Err("startup.poll_ms".into()), ..passed() }),
        ("ai", OutsideChecks { ai: Err("ai".into()), ..passed() }),
        ("song_review", OutsideChecks { song_review: Err("song_review".into()), ..passed() }),
    ] {
        assert_eq!(config.validate(&outside), Err(field.to_string()));
    }
    let stopped = OutsideChecks { player_runtime: Err("queue.limit 0".into()), ..passed() };
    assert_eq!(config.validate(&stopped), Err("校验播放器运行时配置".to_string()));
    assert_eq!(
        config.validate_chain(&stopped, Some("playback.sqlite3")),
        Err(vec!["校验播放器运行时配置".to_string(), "queue.limit 0".to_string()])
    );
    assert_eq!(config.validate_chain(&passed(), Some("playback.sqlite3")), Ok(()));
}

#[test]
fn the_database_keeps_its_file_name() {
    let mut config = default_config();
    config.state.playback_state_path = "data/deep/playback.sqlite3".to_string();
    assert!(config.validate(&passed()).is_ok());
    for path in ["data/other.sqlite3", "data/playback.sqlite3/..", "playback.sqlite3x"] {
        config.state.playback_state_path = path.to_string();
        assert_rejected(&config, "state.playback_state_path");
    }
    assert!(config.validate_named(&passed(), Some("playback.sqlite3")).is_ok());
    assert!(config.validate_named(&passed(), Some("other.sqlite3")).is_err());
    assert!(config.validate_named(&passed(), None).is_err());
}

#[test]
fn stability_count_uses_local_then_global_then_builtin_default() {
    assert_eq!(resolve_stability_count(4, 3), 4);
    assert_eq!(resolve_stability_count(1, 3), 3);
    assert_eq!(resolve_stability_count(0, 3), 3);
    assert_eq!(resolve_stability_count(1, 1), 2);

    let config = default_config();
    assert_eq!(config.stability.ui_state_count, 0);
    assert_eq!(config.stability.secondary_hall_count, 0);
    assert_eq!(
        config.resolve_stability_count(config.stability.ui_state_count),
        config.stability.default_count
    );
    assert_eq!(
        config.resolve_stability_count(config.stability.secondary_hall_count),
        config.stability.default_count
    );
    assert_eq!(config.resolve_stability_count_usize(7), 7);
}

#[test]
fn thresholds_are_held_by_their_bits() {
    let config = default_config();
    let value = |single: Single| f32::from_bits(single.bits);
    assert_eq!(value(config.templates.marker_threshold), 0.9);
    assert_eq!(value(config.ocr.min_confidence), 0.9);
    for (bits, valid) in [(-0.0f32, true), (0.0, true), (1.0, true), (1.000_000_1, false),
        (-0.1, false), (f32::NAN, false), (f32::INFINITY, false)] {
        let mut config = default_config();
        config.templates.marker_threshold = single(bits);
        assert_eq!(config.validate(&passed()).is_ok(), valid, "{bits}");
    }
}

#[test]
fn inline_audio_cache_loads_with_default_directory() {
    let mut config = default_config();
    config.playback.audio_cache = Some(AudioCacheFileConfig {
        enabled: true,
        directory: String::new(),
        max_bytes_mb: 20 * 1024,
        max_concurrent_downloads: 2,
        request_timeout_ms: 15_000,
        seek_wait_timeout_ms: 10_000,
    });
    let table = vec![
        ("deps/cache/audio".to_string(), "/root/deps/cache/audio".to_string()),
        ("deps/logs".to_string(), "/root/deps/logs".to_string()),
    ];
    let bootstrap = BootstrapConfig {
        database_path: "/data/playback.sqlite3".to_string(),
        http: HttpConfig { port: 9, ..HttpConfig::default() },
        logging: LoggingConfig::default(),
    };
    assert!(bootstrap.validate().is_ok());
    let loaded = AppConfig::from_db_value(config, bootstrap, &table);
    let cache = loaded.playback.audio_cache.as_ref().expect("音频缓存配置");
    assert_eq!(cache.directory, "/root/deps/cache/audio");
    assert_eq!(loaded.state.playback_state_path, "/data/playback.sqlite3");
    assert_eq!(loaded.http.port, 9);
    assert_eq!(loaded.logging.dir, "/root/deps/logs");
    let runtime = loaded.playback.audio_cache_runtime_config("/data").expect("启用");
    assert_eq!(runtime.max_bytes, 20 * 1024 * 1024 * 1024);
    assert_eq!(runtime.metadata_directory, "/data");
}

#[test]
fn inline_audio_cache_absolute_paths_are_preserved() {
    let mut config = default_config();
    config.playback.audio_cache = Some(AudioCacheFileConfig {
        enabled: true,
        directory: "/elsewhere/audio".to_string(),
        max_bytes_mb: 1,
        max_concurrent_downloads: 2,
        request_timeout_ms: 15_000,
        seek_wait_timeout_ms: 10_000,
    });
    config.playback.normalize_audio_cache_paths(&Vec::new());
    assert_eq!(config.playback.audio_cache.unwrap().directory, "/elsewhere/audio");
}

#[test]
fn a_database_needs_a_path() {
    let bootstrap = BootstrapConfig {
        database_path: String::new(),
        http: HttpConfig::default(),
        logging: LoggingConfig::default(),
    };
    assert!(bootstrap.validate().unwrap_err().contains("database_path"));
}

/// Where a path leads from a directory, as the platform says.
fn led(root: &str, path: &str) -> String {
    let place = std::path::Path::new(path);
    if place.is_relative() {
        std::path::Path::new(root).join(place).to_string_lossy().into_owned()
    } else {
        path.to_string()
    }
}

#[test]
fn relative_paths_lead_from_the_directory_of_the_program() {
    let mut config = default_config();
    config.startup.exe_path = String::new();
    config.state.hall_state_path = "/absolute/hall.json".to_string();
    let charset = config.ocr.charset.clone();
    config.resolve_runtime_paths_from("/program");
    assert_eq!(config.ocr.charset, led("/program", &charset));
    assert_ne!(config.ocr.charset, charset);
    assert_eq!(config.state.hall_state_path, led("/program", "/absolute/hall.json"));
    assert!(config.startup.exe_path.is_empty());

    let table = locate_paths("/program", &vec!["a/b".to_string(), String::new()]);
    assert_eq!(table[0], ("a/b".to_string(), led("/program", "a/b")));
    assert_eq!(table[1], (String::new(), String::new()));
    assert_eq!(place_path("a", true, "r/a".to_string()), "r/a");
    assert_eq!(place_path("a", false, "r/a".to_string()), "a");
    assert_eq!(place_path("", true, "r/".to_string()), "");
}

/// A path that is absolute here.
fn absolute(name: &str) -> String {
    let path = if std::path::Path::new("/").is_absolute() {
        format!("/absolute/{name}")
    } else {
        format!(r"D:\absolute\{name}")
    };
    assert!(std::path::Path::new(&path).is_absolute());
    path
}

#[test]
fn absolute_paths_lead_to_where_they_say() {
    let bootstrap = BootstrapConfig {
        database_path: absolute("app.sqlite3"),
        http: HttpConfig::default(),
        logging: LoggingConfig { dir: absolute("logs"), ..LoggingConfig::default() },
    };
    for root in ["/program", "program", "", r"\\?\C:\program", r"\\server\share"] {
        let placed = bootstrap.clone().placed(root).unwrap();
        assert_eq!(placed.database_path, absolute("app.sqlite3"));

        let mut stored = default_config();
        stored.startup.exe_path = absolute("game.exe");
        stored.playback.audio_cache = Some(AudioCacheFileConfig {
            enabled: true,
            directory: absolute("audio"),
            max_bytes_mb: 1,
            max_concurrent_downloads: 2,
            request_timeout_ms: 15_000,
            seek_wait_timeout_ms: 10_000,
        });
        let config = AppConfig::from_db_value_at(stored.clone(), placed, root);
        assert_eq!(config.startup.exe_path, absolute("game.exe"));
        assert_eq!(config.logging.dir, absolute("logs"));
        assert_eq!(config.playback.audio_cache.unwrap().directory, absolute("audio"));

        stored.resolve_runtime_paths_from(root);
        assert_eq!(stored.startup.exe_path, absolute("game.exe"));
        let table = locate_paths(root, &vec![absolute("a"), "b/c".to_string()]);
        assert_eq!(table[0].1, absolute("a"));
        assert_eq!(table[1].1, led(root, "b/c"));
        assert!(table[1].1.ends_with("b/c") || root.starts_with(r"\\?\"));
    }
}

#[test]
fn a_stored_configuration_is_started() {
    let bootstrap = BootstrapConfig {
        database_path: "deps/data/playback.sqlite3".to_string(),
        http: HttpConfig { port: 9, ..HttpConfig::default() },
        logging: LoggingConfig::default(),
    };
    let bootstrap = bootstrap.placed("/program").unwrap();
    assert_eq!(bootstrap.database_path, led("/program", "deps/data/playback.sqlite3"));
    assert_eq!(bootstrap.http.port, 9);
    let mut stored = default_config();
    stored.playback.audio_cache = Some(AudioCacheFileConfig {
        enabled: true,
        directory: String::new(),
        max_bytes_mb: 1,
        max_concurrent_downloads: 2,
        request_timeout_ms: 15_000,
        seek_wait_timeout_ms: 10_000,
    });
    let database = bootstrap.database_path.clone();
    let config = AppConfig::from_db_value_at(stored, bootstrap, "/program");
    assert_eq!(config.state.playback_state_path, database);
    assert_eq!(config.http.port, 9);
    assert_eq!(
        config.playback.audio_cache.unwrap().directory,
        led("/program", "deps/cache/audio")
    );
    assert_eq!(config.logging.dir, led("/program", &LoggingConfig::default().dir));

    let homeless = BootstrapConfig {
        database_path: String::new(),
        http: HttpConfig::default(),
        logging: LoggingConfig::default(),
    };
    assert!(homeless.placed("/program").unwrap_err().contains("database_path"));
}

/// The message of a save of a configuration that does not hold.
fn save_message(config: &AppConfig) -> String {
    let prepared = prepare_candidate(Vec::new(), &Vec::new());
    match accept_candidate(prepared, &Ok(config.clone()), &passed()) {
        Ok(_) => panic!("a save"),
        Err(error) => error.message(),
    }
}

#[test]
fn invalid_values_fail_validation_without_writing() {
    let mut config = default_config();
    config.window.content_width = 0;
    assert!(save_message(&config).contains("window.content_width"));

    let mut config = default_config();
    config.screen.chat_rect.x = 2000;
    assert!(save_message(&config).contains("screen.chat_rect"));
}

#[test]
fn window_screen_cross_validation() {
    let mut config = default_config();
    config.window.content_width = 1600;
    assert!(save_message(&config).contains("window.content_width"));
}

#[test]
fn inline_audio_cache_relative_paths_resolve_from_executable_root() {
    let mut stored = default_config();
    stored.playback.audio_cache = Some(AudioCacheFileConfig {
        enabled: true,
        directory: "cache/audio".to_string(),
        max_bytes_mb: 1,
        max_concurrent_downloads: 2,
        request_timeout_ms: 15_000,
        seek_wait_timeout_ms: 10_000,
    });
    let bootstrap = BootstrapConfig {
        database_path: "/data/playback.sqlite3".to_string(),
        http: HttpConfig::default(),
        logging: LoggingConfig::default(),
    };
    let config = AppConfig::from_db_value_at(stored, bootstrap, "/program");
    let audio_cache = config.playback.audio_cache.expect("音频缓存配置");
    assert_eq!(audio_cache.directory, led("/program", "cache/audio"));
}
