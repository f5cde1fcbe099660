//! Storing, showing and rolling back a configuration.
use miliastra::config::app::AppConfig;
use miliastra::config::app::FeatureConfigs;
use miliastra::config::app::OutsideChecks;
use miliastra::config::checks::Single;
use miliastra::config::errors::ConfigFieldErrors;
use miliastra::config::errors::extract_field_path;
use miliastra::config::errors::field_errors_from_chain;
use miliastra::config::errors::field_errors_from_message;
use miliastra::config::json::Json;
use miliastra::config::json::JsonNumber;
use miliastra::config::json::equal;
use miliastra::config::json::get;
use miliastra::config::json_text::json_from_value;
use miliastra::config::json_text::read_json;
use miliastra::config::paths::get_path;
use miliastra::config::paths::set_path;
use miliastra::config::pruning::prune_unknown_schema_fields;
use miliastra::config::sections::copy_entries;
use miliastra::config::sections::immutable_bootstrap_field_conflicts;
use miliastra::config::sections::strip_injected;
use miliastra::config::settings::IdiomChainConfig;
use miliastra::config::settings::InviteTimingConfig;
use miliastra::config::settings::MatchConfig;
use miliastra::config::settings::ModerationTimingConfig;
use miliastra::config::settings::PlaybackTimingConfig;
use miliastra::config::settings::QueueConfig;
use miliastra::config::settings::SongDedupConfig;
use miliastra::config::settings::TurtleSoupConfig;
use miliastra::config::settings::UndercoverConfig;
use miliastra::config::settings::WorkflowTimingConfig;
use miliastra::config::sql::extract_check_constraints;
use miliastra::config::sql::normalize_check;
use miliastra::config::sql::normalize_sql;
use miliastra::config::store::ConfigSaveError;
use miliastra::config::store::ConfigSaveOutcome;
use miliastra::config::store::SectionRow;
use miliastra::config::store::accept_candidate;
use miliastra::config::store::accept_named;
use miliastra::config::store::check_config;
use miliastra::config::store::current_value;
use miliastra::config::store::default_config_json_with_audio_cache;
use miliastra::config::store::gather_sections;
use miliastra::config::store::plan_commit;
use miliastra::config::store::prepare_candidate;
use miliastra::config::store::read_all_sections;
use miliastra::config::store::read_snapshot;
use miliastra::config::store::rollback_from_text;
use miliastra::config::store::rollback_sections;
use miliastra::config::store::save_outcome;
use miliastra::config::store::snapshot_sections;
use miliastra::config::store::validate_candidate;
use miliastra::config::tables::MetaFacts;
use miliastra::config::tables::OpenRetry;
use miliastra::config::tables::OpenStep;
use miliastra::config::tables::TableColumn;
use miliastra::config::tables::TableFacts;
use miliastra::config::tables::after_failed_open;
use miliastra::config::tables::check_version;
use miliastra::config::tables::ensure_schema;
use miliastra::custom_workflow::definition::CustomWorkflowConfig;
use miliastra::custom_workflow::definition::CustomWorkflowDefinition;
use miliastra::custom_workflow::definition::CustomWorkflowStep;

fn single(value: f32) -> Single {
    Single { bits: value.to_bits() }
}

fn step(kind: &str) -> CustomWorkflowStep {
    CustomWorkflowStep {
        step_type: kind.to_string(),
        template: None,
        region: None,
        point: None,
        click_offset: None,
        key: None,
        target: None,
        text: None,
        message: None,
        threshold: None,
        timeout_ms: None,
        poll_ms: None,
        wait_ms: None,
        hold_seconds_arg: None,
        stable_after_absent: None,
    }
}

fn features() -> FeatureConfigs {
    FeatureConfigs {
        workflow_timing: WorkflowTimingConfig {
            default_timeout_ms: 5_000,
            default_poll_ms: 200,
            default_step_wait_ms: 300,
        },
        invite_timing: InviteTimingConfig {
            open_chat_ms: 500,
            step_ms: 300,
            confirm_timeout_ms: 20_000,
            confirm_poll_ms: 1_000,
        },
        moderation_timing: ModerationTimingConfig {
            vote_timeout_ms: 30_000,
            vote_poll_ms: 1_000,
            search_result_timeout_ms: 5_000,
            confirm_wait_ms: 500,
        },
        playback_timing: PlaybackTimingConfig {
            status_poll_ms: 1_000,
            monitor_tick_ms: 200,
            monitor_status_ms: 1_000,
            uri_stable_samples: 0,
            transport_stable_samples: 0,
            stale_timeout_ms: 5_000,
            lyrics_lead_seconds: single(0.0),
        },
        queue: QueueConfig {
            max_size: 5,
            pool_max_size: 50,
            protect_current_song_until_finished: true,
            external_playback_protect_after_seconds: 30,
        },
        song_dedup: SongDedupConfig {
            enabled: true,
            window_seconds: 600,
            max_count: 1,
            console_bypass: true,
            history_path: "deps/data/song-history.json".to_string(),
        },
        idiom_chain: IdiomChainConfig { lexicon_path: "deps/data/idioms.txt".to_string() },
        undercover: UndercoverConfig {
            word_bank_path: "deps/data/undercover.json".to_string(),
            used_state_path: "deps/data/undercover-used.json".to_string(),
        },
        turtle_soup: TurtleSoupConfig {
            question_bank_path: "deps/data/soup.json".to_string(),
            used_state_path: "deps/data/soup-used.json".to_string(),
        },
        ai: Json::Null,
        song_review: Json::Null,
        matching: MatchConfig {
            min_song_name_score: single(0.6),
            short_chinese_song_max_miss: 1,
            long_chinese_song_min_score: single(0.7),
            max_ocr_noise_chars: 2,
            enable_fuzzy_singer: true,
            short_chinese_singer_max_miss: 1,
            long_chinese_singer_min_score: single(0.7),
            en_max_edit_fraction: single(0.2),
            en_singer_max_edit_fraction: single(0.2),
        },
        custom_workflows: CustomWorkflowConfig {
            enabled: false,
            default_threshold: single(0.9),
            wait_template_absent_stable_default: true,
            max_hold_key_seconds: 10,
            templates: Vec::new(),
            workflows: vec![CustomWorkflowDefinition {
                enabled: true,
                name: "notice".to_string(),
                commands: vec!["通知".to_string()],
                allow_args: false,
                message_types: vec!["pink".to_string()],
                confirm_before_run: false,
                confirm_message: String::new(),
                confirm_message_types: Vec::new(),
                confirm_timeout_ms: None,
                confirm_poll_ms: None,
                steps: vec![step("ensure_primary"), step("wait")],
                success_message: String::new(),
            }],
        },
    }
}

fn default_config() -> AppConfig {
    AppConfig::with_features(features())
}

fn passed() -> OutsideChecks {
    OutsideChecks {
        workflow_timing: Ok(()),
        playback_timing: Ok(()),
        player_runtime: Ok(()),
        queue: Ok(()),
        song_dedup: Ok(()),
        matching: Ok(()),
        idiom_chain: Ok(()),
        landlord: Ok(()),
        undercover: Ok(()),
        invite: Ok(()),
        moderation: Ok(()),
        custom_workflows: Ok(()),
        startup: Ok(()),
        ai: Ok(()),
        song_review: Ok(()),
        turtle_soup: Ok(()),
    }
}

fn json_of(value: &serde_json::Value) -> Json {
    match value {
        serde_json::Value::Null => Json::Null,
        serde_json::Value::Bool(value) => Json::Bool(*value),
        serde_json::Value::Number(number) => Json::Number(match number.as_u64() {
            Some(number) => JsonNumber::Unsigned(number),
            None => match number.as_i64() {
                Some(number) => JsonNumber::Negative(number),
                None => JsonNumber::Float(number.as_f64().unwrap().to_bits()),
            },
        }),
        serde_json::Value::String(text) => Json::String(text.clone()),
        serde_json::Value::Array(items) => Json::Array(items.iter().map(json_of).collect()),
        serde_json::Value::Object(map) => {
            Json::Object(map.iter().map(|(key, value)| (key.clone(), json_of(value))).collect())
        }
    }
}

fn json(text: &str) -> Json {
    json_of(&serde_json::from_str(text).unwrap())
}

fn sections(text: &str) -> Vec<(String, Json)> {
    match json(text) {
        Json::Object(entries) => entries,
        _ => panic!("an object"),
    }
}

fn text_at(entries: &Vec<(String, Json)>, path: &str) -> Option<String> {
    match get_path(entries, path) {
        Some(Json::String(text)) => Some(text.clone()),
        _ => None,
    }
}

fn assert_same(left: &Json, right: &Json) {
    assert!(equal(left, right), "{left:?} != {right:?}");
}

/// A store in memory.
struct Store {
    sections: Vec<(String, Json)>,
    revision: i64,
    history: Vec<(i64, Vec<(String, Json)>)>,
}

fn store() -> Store {
    let first = sections(
        r#"{"ai": {"api_key": "", "model": "m"}, "queue": {"max_size": 5},
            "timing": {"loop_idle_ms": 50},
            "state": {"hall_state_path": "hall.json", "playback_state_path": "x"}}"#,
    );
    let mut stored = first;
    strip_injected(&mut stored);
    Store { history: vec![(1, copy_entries(&stored))], sections: stored, revision: 1 }
}

impl Store {
    fn save(
        &mut self,
        base: u64,
        submitted: &Vec<(String, Json)>,
    ) -> Result<ConfigSaveOutcome, ConfigSaveError> {
        let prepared = prepare_candidate(copy_entries(&self.sections), submitted);
        let candidate = accept_candidate(prepared, &Ok(default_config()), &passed())?;
        let plan = plan_commit(self.revision, base)?;
        self.sections = copy_entries(&candidate.merged);
        self.revision = plan.stored_revision;
        self.history.push((plan.stored_revision, copy_entries(&candidate.merged)));
        self.history.retain(|(revision, _)| *revision > plan.forget_up_to);
        Ok(save_outcome(candidate, plan))
    }

    fn rollback(&mut self, target: u64, base: u64) -> Result<ConfigSaveOutcome, ConfigSaveError> {
        let snapshot = self
            .history
            .iter()
            .find(|(revision, _)| *revision as u64 == target)
            .map(|(_, entries)| Json::Object(copy_entries(entries)));
        let sections = snapshot_sections(target, snapshot)?;
        let submitted = rollback_sections(sections, &self.sections);
        self.save(base, &submitted)
    }

    fn with(&self, path: &str, value: Json) -> Vec<(String, Json)> {
        let mut entries = copy_entries(&self.sections);
        assert!(set_path(&mut entries, path, value));
        entries
    }
}

fn string(text: &str) -> Json {
    Json::String(text.to_string())
}

fn number(value: u64) -> Json {
    Json::Number(JsonNumber::Unsigned(value))
}

#[test]
fn full_config_round_trip_survives_reopen() {
    let mut store = store();
    let mut submitted = store.with("queue.max_size", number(20));
    assert!(set_path(&mut submitted, "timing.loop_idle_ms", number(100)));
    let outcome = store.save(1, &submitted).unwrap();
    assert_eq!(outcome.revision, 2, "首次保存后版本必须为 2");
    assert!(outcome.changed_fields.contains(&"queue.max_size".to_string()));
    assert!(outcome.changed_fields.contains(&"timing.loop_idle_ms".to_string()));
    assert_same(get_path(&store.sections, "queue.max_size").unwrap(), &number(20));
    assert_same(get_path(&store.sections, "timing.loop_idle_ms").unwrap(), &number(100));
}

#[test]
fn prune_keeps_nested_object_fields_declared_in_schema() {
    let mut stored = sections(
        r#"{"playback": {
            "credential_directory": "deps/data/credentials",
            "audio_cache": {"enabled": true, "directory": ""},
            "stale_legacy_field": "remove-me"
        }}"#,
    );
    prune_unknown_schema_fields(&mut stored);
    let playback = match get(&stored, "playback") {
        Some(Json::Object(entries)) => entries,
        _ => panic!("playback stays"),
    };
    assert!(get(playback, "credential_directory").is_some());
    assert!(get(playback, "audio_cache").is_some());
    assert!(get(playback, "stale_legacy_field").is_none());
}

#[test]
fn revision_conflict_is_rejected() {
    let mut store = store();
    let submitted = copy_entries(&store.sections);
    let error = store.save(0, &submitted).unwrap_err();
    assert!(error.message().contains("配置已被其他修改"));
    assert_eq!(store.revision, 1, "冲突时不得写库");
}

#[test]
fn two_connections_same_base_revision_second_conflicts_then_retry_succeeds() {
    let mut store = store();
    let first = store.with("queue.max_size", number(20));
    store.save(1, &first).unwrap();
    assert_eq!(store.revision, 2);
    let second = store.with("timing.loop_idle_ms", number(100));
    assert!(matches!(store.save(1, &second), Err(ConfigSaveError::Conflict)));
    assert_eq!(store.revision, 2, "冲突时不得写库");
    assert_eq!(store.save(2, &second).unwrap().revision, 3);
    assert_same(get_path(&store.sections, "timing.loop_idle_ms").unwrap(), &number(100));
}

#[test]
fn rollback_restores_a_previous_revision() {
    let mut store = store();
    let first = store.with("queue.max_size", number(20));
    store.save(1, &first).unwrap();
    let second = store.with("queue.max_size", number(30));
    store.save(2, &second).unwrap();

    let outcome = store.rollback(2, 3).unwrap();
    assert_eq!(outcome.revision, 4, "回滚后必须记录新版本");
    assert_same(get_path(&store.sections, "queue.max_size").unwrap(), &number(20));
    let revisions: Vec<i64> = store.history.iter().rev().map(|(revision, _)| *revision).collect();
    assert_eq!(revisions, [4, 3, 2, 1]);
    let missing = store.rollback(9, 4).unwrap_err();
    assert_eq!(missing.message(), "目标版本 9 不存在");
    let broken = snapshot_sections(2, Some(Json::Null)).unwrap_err();
    assert_eq!(broken.message(), "目标版本快照必须是对象");
}

#[test]
fn only_the_latest_versions_are_kept() {
    let mut store = store();
    for base in 1..60u64 {
        let submitted = store.with("queue.max_size", number(base));
        store.save(base, &submitted).unwrap();
    }
    assert_eq!(store.history.len(), 50);
    assert_eq!(store.history[0].0, 11);
}

#[test]
fn a_rolled_back_version_keeps_the_secrets_of_now() {
    let mut store = store();
    let first = store.with("ai.api_key", string("old"));
    store.save(1, &first).unwrap();
    let second = store.with("ai.api_key", string("new"));
    store.save(2, &second).unwrap();
    store.rollback(2, 3).unwrap();
    assert_eq!(text_at(&store.sections, "ai.api_key").as_deref(), Some("new"));
}

#[test]
fn secret_values_are_masked_in_current_value() {
    let mut store = store();
    let submitted = store.with("ai.api_key", string("sk-test-123"));
    store.save(1, &submitted).unwrap();

    let defaults = json(r#"{"ai": {"api_key": "", "timeout": 3}, "tui": {"enabled": true}}"#);
    let current = current_value(
        copy_entries(&store.sections),
        &defaults,
        json(r#"{"access_token": "t", "port": 1}"#),
        json(r#"{"dir": "logs"}"#),
        "deps/data/playback.sqlite3",
    );
    let shown = match current {
        Json::Object(entries) => entries,
        _ => panic!("an object"),
    };
    assert_eq!(text_at(&shown, "ai.api_key").as_deref(), Some("••••••"));
    assert_eq!(text_at(&shown, "http.access_token").as_deref(), Some("••••••"));
    assert_same(get_path(&shown, "ai.timeout").unwrap(), &number(3));
    assert_same(get_path(&shown, "tui.enabled").unwrap(), &Json::Bool(true));
    assert_eq!(text_at(&shown, "logging.dir").as_deref(), Some("logs"));
    assert_eq!(
        text_at(&shown, "state.playback_state_path").as_deref(),
        Some("deps/data/playback.sqlite3")
    );
    assert_eq!(text_at(&store.sections, "ai.api_key").as_deref(), Some("sk-test-123"));
}

#[test]
fn empty_secret_submission_keeps_previous_value() {
    let mut store = store();
    let submitted = store.with("ai.api_key", string("sk-test-456"));
    store.save(1, &submitted).unwrap();
    let submitted = store.with("ai.api_key", string(""));
    let outcome = store.save(2, &submitted).unwrap();
    assert_eq!(outcome.revision, 3, "空密钥提交必须正常保存");
    assert_eq!(text_at(&store.sections, "ai.api_key").as_deref(), Some("sk-test-456"));
}

#[test]
fn masked_secret_submission_keeps_previous_value() {
    let mut store = store();
    let submitted = store.with("ai.api_key", string("sk-test-789"));
    store.save(1, &submitted).unwrap();
    let submitted = store.with("ai.api_key", string("••••••"));
    let outcome = store.save(2, &submitted).unwrap();
    assert_eq!(outcome.revision, 3, "掩码密钥提交必须正常保存");
    assert_eq!(text_at(&store.sections, "ai.api_key").as_deref(), Some("sk-test-789"));
    let (_, latest) = store.history.last().unwrap();
    assert_eq!(text_at(latest, "ai.api_key").as_deref(), Some("sk-test-789"));
    assert!(!outcome.changed_fields.contains(&"ai.api_key".to_string()));
}

#[test]
fn clear_marker_secret_removes_the_value() {
    let mut store = store();
    let submitted = store.with("ai.api_key", string("sk-clear-me"));
    store.save(1, &submitted).unwrap();
    let submitted = store.with("ai.api_key", json(r#"{"__clear__": true}"#));
    let outcome = store.save(2, &submitted).unwrap();
    assert_eq!(outcome.revision, 3, "清除标记必须正常保存并递增版本");
    assert_eq!(text_at(&store.sections, "ai.api_key").as_deref(), Some(""));
    assert!(outcome.changed_fields.contains(&"ai.api_key".to_string()));
    let (_, latest) = store.history.last().unwrap();
    assert_eq!(text_at(latest, "ai.api_key").as_deref(), Some(""));
}

#[test]
fn invalid_secret_parent_returns_validation_error_without_panicking() {
    let stored = sections(r#"{"song_review": {"provider": {"api_key": "k"}}}"#);
    let submitted = sections(r#"{"song_review": {"provider": null}}"#);
    let candidate = prepare_candidate(stored, &submitted).unwrap();
    assert_same(get_path(&candidate.merged, "song_review.provider").unwrap(), &Json::Null);
}

#[test]
fn what_is_not_stored_is_taken_out_of_a_submission() {
    let mut store = store();
    let submitted = sections(
        r#"{"http": {"port": 1}, "logging": {},
            "state": {"hall_state_path": "other.json", "playback_state_path": "y"}}"#,
    );
    let outcome = store.save(1, &submitted).unwrap();
    assert_eq!(outcome.changed_fields, ["state.hall_state_path"]);
    assert!(get(&store.sections, "http").is_none());
    assert!(get_path(&store.sections, "state.playback_state_path").is_none());
}

#[test]
fn failed_checks_write_nothing() {
    let store = store();
    let submitted = store.with("queue.max_size", number(0));
    let prepared = || prepare_candidate(copy_entries(&store.sections), &submitted);
    let config = Ok(default_config());
    let outside = OutsideChecks {
        queue: Err("queue.max_size 必须大于 0".to_string()),
        ..passed()
    };
    let error = accept_candidate(prepared(), &config, &outside).unwrap_err();
    let errors = match error {
        ConfigSaveError::Fields(errors) => errors,
        _ => panic!("field errors"),
    };
    assert_eq!(errors.errors[0].field, "queue.max_size");
    assert_eq!(errors.errors[0].section, "queue");

    let stopped = OutsideChecks {
        player_runtime: Err("timing.playback.monitor_status_ms 必须大于 0".to_string()),
        ..passed()
    };
    let errors = check_config(&config, &stopped, Some("playback.sqlite3")).unwrap_err();
    assert_eq!(errors.errors[0].field, "timing.playback.monitor_status_ms");

    let built = Err("unknown field `bogus_field`, expected one of `a`".to_string());
    let errors = check_config(&built, &passed(), None).unwrap_err();
    assert_eq!(errors.errors[0].field, "bogus_field");
    assert_eq!(errors.errors[0].section, "");
    assert!(check_config(&config, &passed(), Some("playback.sqlite3")).is_ok());
    assert!(accept_named(prepared(), &config, &passed(), Some("playback.sqlite3")).is_ok());
    assert!(accept_named(prepared(), &config, &passed(), Some("other.sqlite3")).is_err());

    let mut renamed = default_config();
    renamed.state.playback_state_path = "data/other.sqlite3".to_string();
    let error = accept_candidate(prepared(), &Ok(renamed), &passed()).unwrap_err();
    assert!(error.message().contains("state.playback_state_path"));
    assert!(accept_candidate(prepared(), &config, &passed()).is_ok());
}

#[test]
fn legacy_timing_without_lyrics_lead_uses_and_exposes_the_default() {
    assert_eq!(f32::from_bits(default_config().timing.playback.lyrics_lead_seconds.bits), 0.0);
    let shown = current_value(
        sections(r#"{"timing": {"playback": {"status_poll_ms": 7}}}"#),
        &json(r#"{"timing": {"playback": {"lyrics_lead_seconds": 0.0, "status_poll_ms": 1000}}}"#),
        Json::Null,
        Json::Null,
        "playback.sqlite3",
    );
    let shown = match shown {
        Json::Object(entries) => entries,
        _ => panic!("an object"),
    };
    let lead = get_path(&shown, "timing.playback.lyrics_lead_seconds").unwrap();
    assert_same(lead, &Json::Number(JsonNumber::Float(0.0f64.to_bits())));
    assert_same(get_path(&shown, "timing.playback.status_poll_ms").unwrap(), &number(7));
}

#[test]
fn fields_that_were_fixed_at_the_start_cannot_be_changed() {
    for (section, field) in [
        ("playback", "login_helper_executable"),
        ("startup", "exe_path"),
        ("startup", "game_args"),
    ] {
        let of = |value: &str| sections(&format!(r#"{{"{section}": {{"{field}": "{value}"}}}}"#));
        let errors = prepare_candidate(of("a.exe"), &of("b.exe")).unwrap_err();
        assert_eq!(errors.errors.len(), 1);
        assert_eq!(errors.errors[0].section, section);
        assert_eq!(errors.errors[0].field, format!("{section}.{field}"));
        assert!(errors.errors[0].message.contains("Web 面板不可修改"));
        assert!(prepare_candidate(of("a.exe"), &of("a.exe")).is_ok());
        assert!(immutable_bootstrap_field_conflicts(&of("a.exe"), &of("a.exe")).is_empty());
        assert_eq!(immutable_bootstrap_field_conflicts(&of("a.exe"), &Vec::new()).len(), 1);
    }
}

#[test]
fn legacy_unknown_section_fields_are_pruned_before_strict_deserialization() {
    let mut store = store();
    store.sections = sections(
        r#"{"playback": {"credential_directory": "c", "login_timeout_ms": 5,
                "kugou_api_executable": "kugou-api.exe",
                "kugou_api_base_url": "http://127.0.0.1:3000"},
            "window": {"content_width": 1920}}"#,
    );
    let mut loaded = copy_entries(&store.sections);
    prune_unknown_schema_fields(&mut loaded);
    assert_eq!(text_at(&loaded, "playback.credential_directory").as_deref(), Some("c"));
    assert_same(get_path(&loaded, "playback.login_timeout_ms").unwrap(), &number(5));
    assert!(get_path(&loaded, "playback.kugou_api_executable").is_none());
    assert!(get_path(&loaded, "playback.kugou_api_base_url").is_none());

    let submitted = sections(r#"{"window": {"content_width": 1920}}"#);
    store.save(1, &submitted).unwrap();
    assert!(get_path(&store.sections, "playback.kugou_api_executable").is_none());
    assert!(get_path(&store.sections, "playback.kugou_api_base_url").is_none());
    assert_eq!(text_at(&store.sections, "playback.credential_directory").as_deref(), Some("c"));
}

#[test]
fn errors_name_their_field() {
    assert_eq!(
        extract_field_path("window.content_width 和 window.content_height 必须大于 0"),
        ("window.content_width".to_string(), "window".to_string())
    );
    assert_eq!(
        extract_field_path("unknown field `bogus_section`, expected"),
        ("bogus_section".to_string(), String::new())
    );
    let errors = field_errors_from_message("没有字段");
    assert_eq!(errors.errors[0].field, "");
    assert_eq!(errors.errors[0].message, "没有字段");
    let chain = vec!["外层".to_string(), "内层".to_string()];
    assert_eq!(field_errors_from_chain(&chain).errors[0].message, "外层");
    let none = ConfigFieldErrors { errors: Vec::new() };
    assert_eq!(none.message(), "配置校验失败，共 0 个字段错误:");
}

#[test]
fn rows_are_read_in_order() {
    let row = |section: &str, text: &str| (section.to_string(), text.to_string());
    let read = read_all_sections(&vec![row("b", "1"), row("a", "2"), row("b", "3")]).unwrap();
    assert_eq!(read.len(), 2);
    assert_eq!(read[0].0, "a");
    assert_same(&read[1].1, &number(3));
    let error = read_all_sections(&vec![row("a", "1"), row("c", "{")]).unwrap_err();
    assert_eq!(error, "解析配置段 c 失败");

    let gathered = gather_sections(&vec![
        SectionRow { section: "b".to_string(), value: Ok(number(1)) },
        SectionRow { section: "a".to_string(), value: Ok(number(2)) },
        SectionRow { section: "b".to_string(), value: Ok(number(3)) },
    ])
    .unwrap();
    assert_same(&Json::Object(gathered), &Json::Object(read));
    let error = gather_sections(&vec![SectionRow {
        section: "c".to_string(),
        value: Err("EOF".to_string()),
    }]);
    assert_eq!(error.unwrap_err(), "解析配置段 c 失败");
}

#[test]
fn texts_are_read_as_values() {
    let text = r#"{"b": [null, true, -3, 18446744073709551615, 0.5], "a": "\u4e2d", "b2": {}}"#;
    let expected = Json::Object(vec![
        ("a".to_string(), string("中")),
        (
            "b".to_string(),
            Json::Array(vec![
                Json::Null,
                Json::Bool(true),
                Json::Number(JsonNumber::Negative(-3)),
                number(u64::MAX),
                Json::Number(JsonNumber::Float(0.5f64.to_bits())),
            ]),
        ),
        ("b2".to_string(), Json::Object(Vec::new())),
    ]);
    assert_same(&read_json(text).unwrap(), &expected);
    assert_same(&read_json(text).unwrap(), &json(text));
    let value = serde_json::from_str::<serde_json::Value>(text).unwrap();
    assert_same(&json_from_value(value), &expected);
    assert_eq!(
        read_json("{").unwrap_err(),
        serde_json::from_str::<serde_json::Value>("{").unwrap_err().to_string()
    );
}

#[test]
fn a_version_is_read_from_its_text() {
    let store = store();
    let missing = rollback_from_text(9, None, &store.sections).unwrap_err();
    assert_eq!(missing.message(), "目标版本 9 不存在");
    let broken = rollback_from_text(1, Some("[".to_string()), &store.sections).unwrap_err();
    assert_eq!(broken.message(), read_json("[").unwrap_err());
    let odd = rollback_from_text(1, Some("[]".to_string()), &store.sections).unwrap_err();
    assert_eq!(odd.message(), "目标版本快照必须是对象");
    let text = r#"{"queue": {"max_size": 3, "unheard_of": 1}}"#;
    let sections = rollback_from_text(1, Some(text.to_string()), &store.sections).unwrap();
    assert_same(get_path(&sections, "queue.max_size").unwrap(), &number(3));
    assert!(get_path(&sections, "queue.unheard_of").is_none());

    assert_eq!(read_snapshot(9, None).unwrap_err().message(), missing.message());
    assert_eq!(read_snapshot(1, Some("[".to_string())).unwrap_err().message(), broken.message());
    assert_eq!(read_snapshot(1, Some("[]".to_string())).unwrap_err().message(), odd.message());
    let read = read_snapshot(1, Some(text.to_string())).unwrap();
    assert!(get_path(&read, "queue.unheard_of").is_none());
    let submitted = rollback_sections(read, &store.sections);
    assert_same(&Json::Object(submitted), &Json::Object(sections));
}

#[test]
fn a_stale_save_conflicts_whatever_is_stored() {
    for stored in [i64::MIN, -1, i64::MAX] {
        assert!(matches!(plan_commit(stored, 7), Err(ConfigSaveError::Conflict)));
    }
    let plan = plan_commit(7, 7).unwrap();
    assert_eq!((plan.revision, plan.stored_revision, plan.forget_up_to), (8, 8, -42));
}

#[test]
fn audio_cache_defaults_match_runtime_values() {
    let shown = default_config_json_with_audio_cache(json(
        r#"{"playback": {"audio_cache": null, "login_timeout_ms": 1}, "queue": {}}"#,
    ));
    let entries = match shown {
        Json::Object(entries) => entries,
        _ => panic!("an object"),
    };
    let at = |field: &str| get_path(&entries, &format!("playback.audio_cache.{field}")).unwrap();
    assert_same(at("enabled"), &Json::Bool(true));
    assert_same(at("directory"), &string("deps/cache/audio"));
    assert_same(at("max_bytes_mb"), &number(20 * 1024));
    assert_same(at("max_concurrent_downloads"), &number(2));
    assert_same(at("request_timeout_ms"), &number(15_000));
    assert_same(at("seek_wait_timeout_ms"), &number(10_000));
    assert_same(get_path(&entries, "playback.login_timeout_ms").unwrap(), &number(1));
    let without = json(r#"{"playback": null}"#);
    assert_same(&default_config_json_with_audio_cache(json(r#"{"playback": null}"#)), &without);
}

// ---------------------------------------------------------------------------
// Tables
// ---------------------------------------------------------------------------
const CORRECT_META_SQL: &str = "CREATE TABLE config_meta (
    id INTEGER PRIMARY KEY CHECK (id = 1),
    schema_version INTEGER NOT NULL,
    revision INTEGER NOT NULL,
    updated_at_ms INTEGER NOT NULL
)";
const CORRECT_SECTIONS_SQL: &str = "CREATE TABLE config_sections (
    section TEXT PRIMARY KEY,
    value_json TEXT NOT NULL,
    revision INTEGER NOT NULL,
    updated_at_ms INTEGER NOT NULL
)";
const CORRECT_REVISIONS_SQL: &str = "CREATE TABLE config_revisions (
    revision INTEGER PRIMARY KEY,
    snapshot_json TEXT NOT NULL,
    created_at_ms INTEGER NOT NULL
)";

fn columns(connection: &rusqlite::Connection, table: &str) -> Option<Vec<TableColumn>> {
    let mut statement = connection.prepare(&format!("PRAGMA table_info({table})")).unwrap();
    let found: Vec<TableColumn> = statement
        .query_map([], |row| {
            Ok(TableColumn {
                name: row.get(1)?,
                declared_type: row.get(2)?,
                not_null: row.get::<_, i64>(3)? != 0,
            })
        })
        .unwrap()
        .map(|row| row.unwrap())
        .collect();
    if found.is_empty() {
        None
    } else {
        Some(found)
    }
}

fn facts(connection: &rusqlite::Connection) -> TableFacts {
    let mut key_index: Option<Vec<String>> = None;
    let mut list = connection.prepare("PRAGMA index_list('config_meta')").unwrap();
    let indexes: Vec<(String, String)> = list
        .query_map([], |row| Ok((row.get(1)?, row.get(3)?)))
        .unwrap()
        .map(|row| row.unwrap())
        .collect();
    for (name, origin) in indexes {
        if origin == "pk" {
            let mut info = connection.prepare(&format!("PRAGMA index_info({name})")).unwrap();
            let mut found: Vec<String> =
                info.query_map([], |row| row.get(2)).unwrap().map(|row| row.unwrap()).collect();
            key_index.get_or_insert_with(Vec::new).append(&mut found);
        }
    }
    let mut info = connection.prepare("PRAGMA table_info(config_meta)").unwrap();
    let key_places: Vec<(String, i64)> = info
        .query_map([], |row| Ok((row.get(1)?, row.get(5)?)))
        .unwrap()
        .map(|row| row.unwrap())
        .collect();
    let sql = connection
        .query_row(
            "SELECT sql FROM sqlite_master WHERE type = 'table' AND name = 'config_meta'",
            [],
            |row| row.get(0),
        )
        .ok();
    TableFacts {
        meta: columns(connection, "config_meta"),
        meta_facts: MetaFacts { key_index, key_places, sql },
        sections: columns(connection, "config_sections"),
        revisions: columns(connection, "config_revisions"),
    }
}

fn opened(statements: &[&str]) -> OpenStep {
    let connection = rusqlite::Connection::open_in_memory().unwrap();
    for statement in statements {
        connection.execute_batch(statement).unwrap();
    }
    ensure_schema(&facts(&connection), "deps/data/playback.sqlite3")
}

fn assert_refused(statements: &[&str]) {
    match opened(statements) {
        OpenStep::Refuse(message) => {
            assert!(message.contains("表结构不匹配"), "{message}");
            assert!(message.contains("请删除 deps/data/playback.sqlite3"), "{message}");
        }
        other => panic!("{other:?}"),
    }
}

fn with_meta(meta_sql: &str) -> OpenStep {
    opened(&[meta_sql, CORRECT_SECTIONS_SQL, CORRECT_REVISIONS_SQL])
}

fn assert_meta_refused(meta_sql: &str) {
    assert_refused(&[meta_sql, CORRECT_SECTIONS_SQL, CORRECT_REVISIONS_SQL]);
}

#[test]
fn new_database_is_initialized() {
    assert!(matches!(opened(&[]), OpenStep::Initialize));
}

#[test]
fn handcrafted_complete_config_schema_opens_successfully() {
    assert!(matches!(with_meta(CORRECT_META_SQL), OpenStep::ReadVersion));
}

#[test]
fn config_tables_coexist_with_request_state_and_cache_tables() {
    let step = opened(&[
        "CREATE TABLE request_state (
            id INTEGER PRIMARY KEY CHECK (id = 1),
            schema_version INTEGER NOT NULL,
            snapshot TEXT NOT NULL
        );
        CREATE TABLE cached_tracks (hash TEXT PRIMARY KEY);",
    ]);
    assert!(matches!(step, OpenStep::Initialize));
}

#[test]
fn unsupported_schema_version_fails_loudly() {
    let error = check_version(Some(99), "p").unwrap_err();
    assert!(error.contains("不兼容"));
    assert!(error.contains("请删除"));
    assert!(check_version(Some(1), "p").is_ok());
    assert_eq!(
        check_version(None, "p").unwrap_err(),
        "配置数据库 config_meta 缺少初始化数据，请删除 p 后重启"
    );
}

#[test]
fn missing_config_sections_table_fails_loudly() {
    assert_refused(&[CORRECT_META_SQL, CORRECT_REVISIONS_SQL]);
}

#[test]
fn partial_config_tables_fail_loudly_without_initializing() {
    assert_refused(&[CORRECT_META_SQL]);
}

#[test]
fn mismatched_column_type_fails_structure_check() {
    assert_refused(&[
        CORRECT_META_SQL,
        "CREATE TABLE config_sections (
            section TEXT PRIMARY KEY,
            value_json INTEGER NOT NULL,
            revision INTEGER NOT NULL,
            updated_at_ms INTEGER NOT NULL
        )",
        CORRECT_REVISIONS_SQL,
    ]);
}

#[test]
fn missing_not_null_constraint_fails_structure_check() {
    assert_refused(&[
        CORRECT_META_SQL,
        "CREATE TABLE config_sections (
            section TEXT PRIMARY KEY,
            value_json TEXT,
            revision INTEGER NOT NULL,
            updated_at_ms INTEGER NOT NULL
        )",
        CORRECT_REVISIONS_SQL,
    ]);
}

#[test]
fn missing_primary_key_and_check_on_config_meta_fails() {
    assert_meta_refused(
        "CREATE TABLE config_meta (
            id INTEGER NOT NULL,
            schema_version INTEGER NOT NULL,
            revision INTEGER NOT NULL,
            updated_at_ms INTEGER NOT NULL
        )",
    );
}

#[test]
fn primary_key_bound_to_wrong_column_fails() {
    assert_meta_refused(
        "CREATE TABLE config_meta (
            id INTEGER,
            schema_version INTEGER NOT NULL,
            revision INTEGER NOT NULL,
            updated_at_ms INTEGER NOT NULL,
            PRIMARY KEY (schema_version)
        )",
    );
}

#[test]
fn composite_primary_key_containing_id_fails() {
    assert_meta_refused(
        "CREATE TABLE config_meta (
            id INTEGER,
            schema_version INTEGER NOT NULL,
            revision INTEGER NOT NULL,
            updated_at_ms INTEGER NOT NULL,
            PRIMARY KEY (id, schema_version)
        )",
    );
}

#[test]
fn relaxed_check_constraint_fails() {
    for meta_sql in [
        "CREATE TABLE config_meta (
            id INTEGER PRIMARY KEY CHECK (id IN (1, 2)),
            schema_version INTEGER NOT NULL,
            revision INTEGER NOT NULL,
            updated_at_ms INTEGER NOT NULL
        )",
        "CREATE TABLE config_meta (
            id INTEGER PRIMARY KEY CHECK (id = 1 OR id = 2),
            schema_version INTEGER NOT NULL,
            revision INTEGER NOT NULL,
            updated_at_ms INTEGER NOT NULL
        )",
    ] {
        assert_meta_refused(meta_sql);
    }
}

#[test]
fn constraint_prefixed_check_on_config_meta_opens_successfully() {
    let step = with_meta(
        "CREATE TABLE config_meta (
            id INTEGER PRIMARY KEY,
            schema_version INTEGER NOT NULL,
            revision INTEGER NOT NULL,
            updated_at_ms INTEGER NOT NULL,
            CONSTRAINT meta_single_row CHECK (id = 1)
        )",
    );
    assert!(matches!(step, OpenStep::ReadVersion));
}

#[test]
fn check_keyword_inside_string_literal_is_not_a_constraint() {
    for meta_sql in [
        "CREATE TABLE config_meta (
            id INTEGER PRIMARY KEY,
            schema_version INTEGER NOT NULL DEFAULT 'CHECK(id=1)',
            revision INTEGER NOT NULL,
            updated_at_ms INTEGER NOT NULL
        )",
        "CREATE TABLE config_meta (
            id INTEGER PRIMARY KEY,
            schema_version INTEGER NOT NULL,
            revision INTEGER NOT NULL,
            updated_at_ms INTEGER NOT NULL
            /* CHECK(id=1) */
        )",
        "CREATE TABLE config_meta (
            id INTEGER PRIMARY KEY,
            schema_version INTEGER NOT NULL,
            revision INTEGER NOT NULL,
            updated_at_ms INTEGER NOT NULL
            -- CHECK(id=1)
        )",
    ] {
        assert_meta_refused(meta_sql);
    }
}

#[test]
fn quoted_constraint_name_opens_successfully() {
    let step = with_meta(
        "CREATE TABLE config_meta (
            id INTEGER PRIMARY KEY,
            schema_version INTEGER NOT NULL,
            revision INTEGER NOT NULL,
            updated_at_ms INTEGER NOT NULL,
            CONSTRAINT \"meta_single_row\" CHECK (id = 1)
        )",
    );
    assert!(matches!(step, OpenStep::ReadVersion));
}

#[test]
fn non_ascii_identifier_does_not_fake_check_keyword() {
    let meta_sql = "CREATE TABLE config_meta (
        id INTEGER PRIMARY KEY,
        schema_version INTEGER NOT NULL,
        revision INTEGER NOT NULL,
        updated_at_ms INTEGER NOT NULL,
        checké INTEGER NOT NULL DEFAULT 0
    )";
    assert!(extract_check_constraints(meta_sql).is_empty());
    assert_meta_refused(meta_sql);
}

#[test]
fn comments_inside_constraint_prefix_are_handled() {
    for meta_sql in [
        "CREATE TABLE config_meta (
            id INTEGER PRIMARY KEY,
            schema_version INTEGER NOT NULL,
            revision INTEGER NOT NULL,
            updated_at_ms INTEGER NOT NULL,
            CONSTRAINT /* c */ \"meta_single_row\" /* x */ CHECK (id = 1)
        )",
        "CREATE TABLE config_meta (
            id INTEGER PRIMARY KEY,
            schema_version INTEGER NOT NULL,
            revision INTEGER NOT NULL,
            updated_at_ms INTEGER NOT NULL,
            CONSTRAINT -- c
            \"meta_single_row\" -- x
            CHECK (id = 1)
        )",
    ] {
        assert!(matches!(with_meta(meta_sql), OpenStep::ReadVersion));
    }
}

#[test]
fn escaped_quote_in_constraint_name_opens_successfully() {
    let step = with_meta(
        "CREATE TABLE config_meta (
            id INTEGER PRIMARY KEY,
            schema_version INTEGER NOT NULL,
            revision INTEGER NOT NULL,
            updated_at_ms INTEGER NOT NULL,
            CONSTRAINT \"a\"\"b\" CHECK (id = 1)
        )",
    );
    assert!(matches!(step, OpenStep::ReadVersion));
}

#[test]
fn normalize_check_directly_strips_prefixed_constraint_names() {
    assert_eq!(
        normalize_check("CONSTRAINT /* c */ \"a\"\"b\" -- x\n CHECK (id = 1)"),
        "check(id=1)"
    );
    assert_eq!(normalize_check("  CHECK (id = 1)  "), "check(id=1)");
    assert_eq!(
        normalize_check("CONSTRAINTa CHECK (id = 1)"),
        "constraintacheck(id=1)"
    );
}

#[test]
fn check_keyword_with_dollar_identifier_boundary_is_not_a_constraint() {
    let sql = "CREATE TABLE t (check$x INTEGER) CHECK(id=1)";
    assert_eq!(extract_check_constraints(sql), vec!["CHECK(id=1)"]);
}

#[test]
fn unknown_section_or_field_is_rejected() {
    for name in ["bogus_section", "bogus_field"] {
        let built = Err(format!("unknown field `{name}`, expected one of `window`"));
        let prepared = prepare_candidate(Vec::new(), &Vec::new());
        let error = accept_candidate(prepared, &built, &passed()).unwrap_err();
        assert!(error.message().contains(name));
        let errors = match error {
            ConfigSaveError::Fields(errors) => errors,
            _ => panic!("errors of fields"),
        };
        assert_eq!(errors.errors[0].field, name);
        assert_eq!(errors.errors[0].section, "");
    }
}

#[test]
fn what_is_shown_can_be_saved_back() {
    let mut store = store();
    let submitted = store.with("ai.api_key", string("sk-test-000"));
    store.save(1, &submitted).unwrap();
    let before = copy_entries(&store.sections);
    let shown = current_value(
        copy_entries(&store.sections),
        &Json::Object(Vec::new()),
        json(r#"{"access_token": "t", "port": 1}"#),
        json(r#"{"dir": "logs"}"#),
        "deps/data/playback.sqlite3",
    );
    let shown = match shown {
        Json::Object(entries) => entries,
        _ => panic!("an object"),
    };
    let outcome = store.save(2, &shown).unwrap();
    assert!(outcome.changed_fields.is_empty(), "{:?}", outcome.changed_fields);
    assert_same(&Json::Object(copy_entries(&store.sections)), &Json::Object(before));
    assert_eq!(text_at(&store.sections, "ai.api_key").as_deref(), Some("sk-test-000"));
    assert!(get(&store.sections, "http").is_none());
    assert!(get_path(&store.sections, "state.playback_state_path").is_none());
}

#[test]
fn statements_are_compared_without_case_and_spacing() {
    assert_eq!(normalize_sql("CHECK ( Id\t= 1\n)"), "check(id=1)");
}

#[test]
fn a_candidate_is_checked_as_it_is_saved() {
    let empty_queue = OutsideChecks {
        queue: Err("queue.max_size 必须大于 0".to_string()),
        ..passed()
    };
    let cases = [
        (Ok(default_config()), passed(), ""),
        (Err("unknown field `bogus`, expected".to_string()), passed(), "bogus"),
        (Ok(default_config()), empty_queue, "queue.max_size"),
    ];
    for (config, outside, field) in cases {
        let prepared = || prepare_candidate(Vec::new(), &Vec::new());
        let errors = validate_candidate(prepared(), &config, &outside);
        match accept_candidate(prepared(), &config, &outside) {
            Ok(_) => assert!(errors.is_empty()),
            Err(ConfigSaveError::Fields(shown)) => {
                assert_eq!(errors.len(), shown.errors.len());
                assert_eq!(errors[0].field, field);
                assert_eq!(errors[0].message, shown.errors[0].message);
            }
            Err(error) => panic!("{}", error.message()),
        }
    }
}

#[test]
fn a_database_is_opened_three_times_at_most() {
    assert_eq!(after_failed_open(1), OpenRetry::Wait(100));
    assert_eq!(after_failed_open(2), OpenRetry::Wait(200));
    assert_eq!(after_failed_open(3), OpenRetry::GiveUp);
}
