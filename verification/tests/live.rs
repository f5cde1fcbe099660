//! The configuration in effect.
use miliastra::config::app::AppConfig;
use miliastra::config::app::FeatureConfigs;
use miliastra::config::checks::Single;
use miliastra::config::json::Json;
use miliastra::config::live::LiveConfigs;
use miliastra::config::live::shared_values;
use miliastra::config::settings::IdiomChainConfig;
use miliastra::config::settings::InviteTimingConfig;
use miliastra::config::settings::MatchConfig;
use miliastra::config::settings::ModerationTimingConfig;
use miliastra::config::settings::PlaybackTimingConfig;
use miliastra::config::settings::QueueConfig;
use miliastra::config::settings::SongDedupConfig;
use miliastra::config::settings::TurtleSoupConfig;
use miliastra::config::settings::UndercoverConfig;
use miliastra::config::settings::WorkflowTimingConfig;
use miliastra::custom_workflow::definition::CustomWorkflowConfig;
use miliastra::custom_workflow::definition::CustomWorkflowDefinition;
use miliastra::custom_workflow::definition::CustomWorkflowStep;

fn single(value: f32) -> Single {
    Single { bits: value.to_bits() }
}

fn step(kind: &str) -> CustomWorkflowStep {
    CustomWorkflowStep {
        step_type: kind.to_string(),
        template: None,
        region: None,
        point: None,
        click_offset: None,
        key: None,
        target: None,
        text: None,
        message: None,
        threshold: None,
        timeout_ms: None,
        poll_ms: None,
        wait_ms: None,
        hold_seconds_arg: None,
        stable_after_absent: None,
    }
}

fn features() -> FeatureConfigs {
    FeatureConfigs {
        workflow_timing: WorkflowTimingConfig {
            default_timeout_ms: 5_000,
            default_poll_ms: 200,
            default_step_wait_ms: 300,
        },
        invite_timing: InviteTimingConfig {
            open_chat_ms: 500,
            step_ms: 300,
            confirm_timeout_ms: 20_000,
            confirm_poll_ms: 1_000,
        },
        moderation_timing: ModerationTimingConfig {
            vote_timeout_ms: 30_000,
            vote_poll_ms: 1_000,
            search_result_timeout_ms: 5_000,
            confirm_wait_ms: 500,
        },
        playback_timing: PlaybackTimingConfig {
            status_poll_ms: 1_000,
            monitor_tick_ms: 200,
            monitor_status_ms: 1_000,
            uri_stable_samples: 0,
            transport_stable_samples: 0,
            stale_timeout_ms: 5_000,
            lyrics_lead_seconds: single(0.0),
        },
        queue: QueueConfig {
            max_size: 5,
            pool_max_size: 50,
            protect_current_song_until_finished: true,
            external_playback_protect_after_seconds: 30,
        },
        song_dedup: SongDedupConfig {
            enabled: true,
            window_seconds: 600,
            max_count: 1,
            console_bypass: true,
            history_path: "deps/data/song-history.json".to_string(),
        },
        idiom_chain: IdiomChainConfig { lexicon_path: "deps/data/idioms.txt".to_string() },
        undercover: UndercoverConfig {
            word_bank_path: "deps/data/undercover.json".to_string(),
            used_state_path: "deps/data/undercover-used.json".to_string(),
        },
        turtle_soup: TurtleSoupConfig {
            question_bank_path: "deps/data/soup.json".to_string(),
            used_state_path: "deps/data/soup-used.json".to_string(),
        },
        ai: Json::Null,
        song_review: Json::Null,
        matching: MatchConfig {
            min_song_name_score: single(0.6),
            short_chinese_song_max_miss: 1,
            long_chinese_song_min_score: single(0.7),
            max_ocr_noise_chars: 2,
            enable_fuzzy_singer: true,
            short_chinese_singer_max_miss: 1,
            long_chinese_singer_min_score: single(0.7),
            en_max_edit_fraction: single(0.2),
            en_singer_max_edit_fraction: single(0.2),
        },
        custom_workflows: CustomWorkflowConfig {
            enabled: false,
            default_threshold: single(0.9),
            wait_template_absent_stable_default: true,
            max_hold_key_seconds: 10,
            templates: Vec::new(),
            workflows: vec![CustomWorkflowDefinition {
                enabled: true,
                name: "notice".to_string(),
                commands: vec!["通知".to_string()],
                allow_args: false,
                message_types: vec!["pink".to_string()],
                confirm_before_run: false,
                confirm_message: String::new(),
                confirm_message_types: Vec::new(),
                confirm_timeout_ms: None,
                confirm_poll_ms: None,
                steps: vec![step("ensure_primary"), step("wait")],
                success_message: String::new(),
            }],
        },
    }
}

fn default_config() -> AppConfig {
    AppConfig::with_features(features())
}

/// A configuration that differs from the default.
fn changed_config() -> AppConfig {
    let mut config = default_config();
    config.queue.protect_current_song_until_finished = false;
    config.queue.external_playback_protect_after_seconds = 99;
    config.timing.playback.status_poll_ms = 1111;
    config.timing.playback.monitor_status_ms = 2222;
    config.timing.playback.monitor_tick_ms = 333;
    config.song_dedup.enabled = false;
    config.song_dedup.window_seconds = 123;
    config.song_dedup.max_count = 7;
    config.friend_delivery.auto_retry_count = 5;
    config.stability.secondary_hall_count = 6;
    config.timing.loop_idle_ms = 77;
    config.timing.chat_scan.fallback_ms = 4444;
    config.timing.chat_scan.change_debounce_ms = 155;
    config.timing.chat_scan.change_cooldown_ms = 666;
    config.timing.command.post_settle_ms = 888;
    config.timing.command.help_batch_ms = 999;
    config.timing.invite.confirm_timeout_ms = 12_345;
    config.timing.invite.confirm_poll_ms = 234;
    config.state.executed_commands_log_path = "changed-commands.log".into();
    config.output.send_enabled = false;
    config.matching.min_song_name_score = single(0.75);
    config.matching.enable_fuzzy_singer = false;
    config.custom_workflows.enabled = true;
    config.custom_workflows.default_threshold = single(0.73);
    config
}

fn assert_changed(live: &LiveConfigs) {
    let shared = live.shared();
    assert!(!shared.queue_protect_current_song);
    assert_eq!(shared.queue_external_protect_seconds, 99);
    assert_eq!(shared.status_poll_ms, 1111);
    assert_eq!(shared.monitor_status_ms, 2222);
    assert_eq!(shared.monitor_tick_ms, 333);
    assert_eq!(shared.change_debounce_ms, 155);
    assert!(!shared.song_dedup.enabled);
    assert_eq!(shared.song_dedup.window_seconds, 123);
    assert_eq!(shared.song_dedup.max_count, 7);
    assert_eq!(shared.friend_delivery_auto_retry_count, 5);
    assert!(!shared.output_send_enabled);
    let snapshot = live.snapshot();
    assert!(!snapshot.queue.protect_current_song_until_finished);
    assert_eq!(snapshot.queue.external_playback_protect_after_seconds, 99);
    assert_eq!(snapshot.timing.playback.status_poll_ms, 1111);
    assert_eq!(snapshot.timing.playback.monitor_status_ms, 2222);
    assert_eq!(snapshot.timing.playback.monitor_tick_ms, 333);
    assert_eq!(snapshot.timing.chat_scan.change_debounce_ms, 155);
    assert!(!snapshot.song_dedup.enabled);
    assert_eq!(snapshot.song_dedup.window_seconds, 123);
    assert_eq!(snapshot.song_dedup.max_count, 7);
    assert_eq!(snapshot.friend_delivery.auto_retry_count, 5);
    assert!(!snapshot.output.send_enabled);
}

#[test]
fn from_config_extracts_values() {
    let live = LiveConfigs::from_config(changed_config());
    assert_changed(&live);
    assert_eq!(live.shared().matching.min_song_name_score, single(0.75));
    assert!(live.shared().custom_workflows.enabled);
    let snapshot = live.snapshot();
    assert_eq!(snapshot.matching.min_song_name_score, single(0.75));
    assert!(snapshot.custom_workflows.enabled);
    assert_eq!(snapshot.stability.secondary_hall_count, 6);
    assert_eq!(snapshot.timing.loop_idle_ms, 77);
    assert_eq!(snapshot.timing.command.help_batch_ms, 999);
    assert_eq!(snapshot.state.executed_commands_log_path, "changed-commands.log");
}

#[test]
fn pending_reload_is_shared_deduplicated_and_sorted() {
    let mut live = LiveConfigs::from_config(default_config());
    assert!(!live.has_pending_reload());
    assert!(live.pending_reload_fields().is_empty());

    live.schedule_reload(vec![
        "queue.max_size".to_string(),
        "providers.qq".to_string(),
        "queue.max_size".to_string(),
        String::new(),
    ]);

    assert!(live.has_pending_reload());
    assert_eq!(live.pending_reload_fields(), ["providers.qq", "queue.max_size"]);
}

#[test]
fn begin_reload_claims_once_without_losing_concurrent_saves() {
    let mut live = LiveConfigs::from_config(default_config());
    live.schedule_reload(vec!["queue.max_size".to_string()]);
    let claimed = live.begin_reload().expect("应认领待处理的重载请求");
    live.schedule_reload(vec!["providers.qq".to_string()]);

    assert!(claimed.contains(&"queue.max_size".to_string()));
    assert_eq!(live.pending_reload_fields(), ["providers.qq", "queue.max_size"]);
    assert!(live.has_pending_reload());
    assert_eq!(live.begin_reload(), None, "关停请求只能认领一次");
}

#[test]
fn begin_reload_requires_a_pending_field() {
    let mut live = LiveConfigs::from_config(default_config());
    assert_eq!(live.begin_reload(), None);

    live.schedule_reload(vec!["queue.max_size".to_string()]);
    assert_eq!(live.begin_reload(), Some(vec!["queue.max_size".to_string()]));
}

#[test]
fn apply_overwrites_all_values() {
    let mut live = LiveConfigs::from_config(default_config());
    live.apply(changed_config());
    assert_changed(&live);
    assert!(!live.shared().matching.enable_fuzzy_singer);
    assert_eq!(live.shared().custom_workflows.default_threshold, single(0.73));
    let snapshot = live.snapshot();
    assert!(!snapshot.matching.enable_fuzzy_singer);
    assert_eq!(snapshot.custom_workflows.default_threshold, single(0.73));
    assert_eq!(snapshot.timing.chat_scan.fallback_ms, 4444);
    assert_eq!(snapshot.timing.chat_scan.change_debounce_ms, 155);
    assert_eq!(snapshot.timing.chat_scan.change_cooldown_ms, 666);
    assert_eq!(snapshot.timing.command.post_settle_ms, 888);
    assert_eq!(snapshot.timing.invite.confirm_timeout_ms, 12_345);
    assert_eq!(snapshot.timing.invite.confirm_poll_ms, 234);
    assert_eq!(snapshot.matching.min_song_name_score, single(0.75));
    live.apply(default_config());
    assert!(live.snapshot().queue.protect_current_song_until_finished);
    assert_eq!(live.snapshot().song_dedup.max_count, 1);
    assert!(live.shared().queue_protect_current_song);
    assert_eq!(live.shared().song_dedup.max_count, 1);
}

#[test]
fn apply_keeps_non_live_fields_at_their_effective_values() {
    let initial = default_config();
    let mut live = LiveConfigs::from_config(default_config());
    let mut changed = changed_config();
    changed.queue.max_size = initial.queue.max_size + 10;
    changed.window.target_process = "changed.exe".to_string();
    changed.song_dedup.console_bypass = !initial.song_dedup.console_bypass;
    changed.timing.watchdog_restart_ms = 4_321;
    let loop_idle_ms = changed.timing.loop_idle_ms;

    live.apply(changed);

    let snapshot = live.snapshot();
    assert_eq!(snapshot.queue.max_size, initial.queue.max_size);
    assert_eq!(snapshot.window.target_process, initial.window.target_process);
    assert_eq!(snapshot.song_dedup.console_bypass, initial.song_dedup.console_bypass);
    assert_eq!(snapshot.timing.loop_idle_ms, loop_idle_ms);
    assert_eq!(snapshot.timing.watchdog_restart_ms, 4_321);
    let shared = shared_values(snapshot);
    assert_eq!(shared.song_dedup.console_bypass, initial.song_dedup.console_bypass);
    assert_eq!(shared.song_dedup.max_count, 7);
    assert_eq!(shared.status_poll_ms, 1111);
}
