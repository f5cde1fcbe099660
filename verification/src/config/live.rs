//! The configuration that is in effect while the program runs. A change of a
//! field that takes effect at once is taken over; other fields keep the values
//! that they had at the start until the program is loaded again.
use vstd::prelude::*;
use crate::config::app::AppConfig;
use crate::config::checks::is_empty_text;
use crate::config::json::before;
use crate::config::json::order_keys;
use crate::config::json::KeyOrder;
use crate::config::json::lemma_before_transitive;
use crate::config::schema::catalog::all_fields;
use crate::config::schema::catalog::in_section;
use crate::config::schema::catalog::law_paths_unique;
use crate::config::schema::catalog::lemma_fields_include;
use crate::config::schema::catalog::lemma_fields_of;
use crate::config::schema::catalog::sections;
use crate::config::schema::screen::window_fields;
use crate::config::schema::screen::screen_fields;
use crate::config::schema::screen::stability_fields;
use crate::config::schema::timing::timing_fields;
use crate::config::schema::screen::ocr_fields;
use crate::config::schema::screen::templates_fields;
use crate::config::schema::screen::output_fields;
use crate::config::schema::flows::moderation_fields;
use crate::config::schema::music::playback_fields;
use crate::config::schema::runtime::http_fields;
use crate::config::schema::runtime::logging_fields;
use crate::config::schema::runtime::tui_fields;
use crate::config::schema::runtime::state_fields;
use crate::config::schema::music::queue_fields;
use crate::config::schema::music::song_dedup_fields;
use crate::config::schema::games::idiom_chain_fields;
use crate::config::schema::games::landlord_fields;
use crate::config::schema::games::undercover_fields;
use crate::config::schema::games::turtle_soup_fields;
use crate::config::schema::music::ai_fields;
use crate::config::schema::music::song_review_fields;
use crate::config::schema::music::matching_fields;
use crate::config::schema::runtime::hotkeys_fields;
use crate::config::schema::flows::startup_fields;
use crate::config::schema::flows::invite_fields;
use crate::config::schema::runtime::friend_delivery_fields;
use crate::config::schema::flows::custom_workflows_fields;
use crate::config::schema::Effect;
use crate::config::schema::FieldView;
use crate::config::settings::CommandTimingConfig;
use crate::config::settings::InviteTimingConfig;
use crate::config::settings::MatchConfig;
use crate::config::settings::OutputConfig;
use crate::config::settings::PlaybackTimingConfig;
use crate::config::settings::QueueConfig;
use crate::config::settings::SongDedupConfig;
use crate::config::settings::StabilityConfig;
use crate::config::settings::StateConfig;
use crate::config::settings::TimingConfig;
use crate::custom_workflow::definition::CustomWorkflowConfig;
use crate::text::string_views;

verus! {

/// The paths of the fields that take effect at once.
#[verifier::opaque]
pub open spec fn live_paths() -> Seq<Seq<char>> {
    seq![
        "stability.secondary_hall_count"@,
        "timing.watchdog_restart_ms"@,
        "timing.loop_idle_ms"@,
        "timing.chat_scan.fallback_ms"@,
        "timing.chat_scan.change_debounce_ms"@,
        "timing.chat_scan.change_cooldown_ms"@,
        "timing.command.post_settle_ms"@,
        "timing.command.help_batch_ms"@,
        "timing.invite.confirm_timeout_ms"@,
        "timing.invite.confirm_poll_ms"@,
        "queue.protect_current_song_until_finished"@,
        "queue.external_playback_protect_after_seconds"@,
        "timing.playback.status_poll_ms"@,
        "timing.playback.monitor_status_ms"@,
        "timing.playback.monitor_tick_ms"@,
        "song_dedup.enabled"@,
        "song_dedup.window_seconds"@,
        "song_dedup.max_count"@,
        "friend_delivery.auto_retry_count"@,
        "state.executed_commands_log_path"@,
        "output.send_enabled"@,
        "matching.min_song_name_score"@,
        "matching.short_chinese_song_max_miss"@,
        "matching.long_chinese_song_min_score"@,
        "matching.max_ocr_noise_chars"@,
        "matching.enable_fuzzy_singer"@,
        "matching.short_chinese_singer_max_miss"@,
        "matching.long_chinese_singer_min_score"@,
        "matching.en_max_edit_fraction"@,
        "matching.en_singer_max_edit_fraction"@,
        "custom_workflows.enabled"@,
        "custom_workflows.default_threshold"@,
        "custom_workflows.wait_template_absent_stable_default"@,
        "custom_workflows.max_hold_key_seconds"@,
        "custom_workflows.templates"@,
        "custom_workflows.workflows"@,
    ]
}

/// The paths of the fields that take effect at once.
pub fn live_config_paths() -> (r: Vec<&'static str>)
    ensures
        r@.map_values(|path: &str| path@) == live_paths(),
{
    reveal(live_paths);
    let paths = vec![
        "stability.secondary_hall_count",
        "timing.watchdog_restart_ms",
        "timing.loop_idle_ms",
        "timing.chat_scan.fallback_ms",
        "timing.chat_scan.change_debounce_ms",
        "timing.chat_scan.change_cooldown_ms",
        "timing.command.post_settle_ms",
        "timing.command.help_batch_ms",
        "timing.invite.confirm_timeout_ms",
        "timing.invite.confirm_poll_ms",
        "queue.protect_current_song_until_finished",
        "queue.external_playback_protect_after_seconds",
        "timing.playback.status_poll_ms",
        "timing.playback.monitor_status_ms",
        "timing.playback.monitor_tick_ms",
        "song_dedup.enabled",
        "song_dedup.window_seconds",
        "song_dedup.max_count",
        "friend_delivery.auto_retry_count",
        "state.executed_commands_log_path",
        "output.send_enabled",
        "matching.min_song_name_score",
        "matching.short_chinese_song_max_miss",
        "matching.long_chinese_song_min_score",
        "matching.max_ocr_noise_chars",
        "matching.enable_fuzzy_singer",
        "matching.short_chinese_singer_max_miss",
        "matching.long_chinese_singer_min_score",
        "matching.en_max_edit_fraction",
        "matching.en_singer_max_edit_fraction",
        "custom_workflows.enabled",
        "custom_workflows.default_threshold",
        "custom_workflows.wait_template_absent_stable_default",
        "custom_workflows.max_hold_key_seconds",
        "custom_workflows.templates",
        "custom_workflows.workflows",
    ];
    assert(paths@.map_values(|path: &str| path@) =~= live_paths());
    paths
}

// ---------------------------------------------------------------------------
// What waits for the program to be loaded again
// ---------------------------------------------------------------------------
/// Whether paths ascend, each once.
pub open spec fn ascending_paths(paths: Seq<Seq<char>>) -> bool {
    forall|i: int, j: int| 0 <= i < j < paths.len() ==> before(paths[i], paths[j])
}

/// The fields that wait for the program to be loaded again, in order, and
/// whether that has begun.
#[derive(Debug)]
pub struct PendingReload {
    pub fields: Vec<String>,
    pub shutdown_started: bool,
}

impl PendingReload {
    /// Whether the fields are in order, each once.
    pub open spec fn wf(self) -> bool {
        ascending_paths(string_views(self.fields@))
    }

    /// Whether a field waits.
    pub open spec fn waits(self, path: Seq<char>) -> bool {
        string_views(self.fields@).contains(path)
    }

    /// Nothing waits.
    pub fn new() -> (r: Self)
        ensures
            r.wf(),
            r.fields@.len() == 0,
            !r.shutdown_started,
    {
        PendingReload { fields: Vec::new(), shutdown_started: false }
    }

    fn add_field(&mut self, field: String)
        requires
            old(self).wf(),
        ensures
            final(self).wf(),
            final(self).shutdown_started == old(self).shutdown_started,
            forall|path: Seq<char>| #[trigger]
                final(self).waits(path) <==> old(self).waits(path) || path == field@,
    {
        let ghost start = string_views(self.fields@);
        let mut i: usize = 0;
        while i < self.fields.len()
            invariant
                i <= self.fields@.len(),
                self.fields@ == old(self).fields@,
                self.shutdown_started == old(self).shutdown_started,
                old(self).wf(),
                start == string_views(self.fields@),
                forall|k: int| 0 <= k < i ==> before(#[trigger] start[k], field@),
            decreases self.fields@.len() - i,
        {
            assert(start[i as int] == self.fields@[i as int]@);
            match order_keys(field.as_str(), self.fields[i].as_str()) {
                KeyOrder::Same => {
                    assert(start[i as int] == field@);
                    return ;
                },
                KeyOrder::Before => {
                    self.fields.insert(i, field);
                    proof {
                        let after = string_views(self.fields@);
                        assert(after =~= start.insert(i as int, field@));
                        lemma_insert(start, i as int, field@);
                    }
                    return ;
                },
                KeyOrder::Behind => {},
            }
            i = i + 1;
        }
        self.fields.push(field);
        proof {
            let after = string_views(self.fields@);
            assert(after =~= start.insert(start.len() as int, field@));
            lemma_insert(start, start.len() as int, field@);
        }
    }

    /// Lets fields wait for the program to be loaded again.
    pub fn schedule(&mut self, fields: Vec<String>)
        requires
            old(self).wf(),
        ensures
            final(self).wf(),
            final(self).shutdown_started == old(self).shutdown_started,
            forall|path: Seq<char>| #[trigger]
                final(self).waits(path) <==> old(self).waits(path) || (path.len() > 0
                    && string_views(fields@).contains(path)),
    {
        let ghost given = string_views(fields@);
        let mut i: usize = 0;
        while i < fields.len()
            invariant
                i <= fields@.len(),
                given == string_views(fields@),
                self.wf(),
                self.shutdown_started == old(self).shutdown_started,
                forall|path: Seq<char>| #[trigger]
                    self.waits(path) <==> old(self).waits(path) || (path.len() > 0
                        && given.take(i as int).contains(path)),
            decreases fields@.len() - i,
        {
            proof {
                let more = given.take(i + 1);
                let fewer = given.take(i as int);
                assert(more =~= fewer.push(fields@[i as int]@));
                assert forall|path: Seq<char>| #[trigger] more.contains(path) <==> fewer.contains(
                    path,
                ) || path == fields@[i as int]@ by {
                    if fewer.contains(path) {
                        let k = choose|k: int| 0 <= k < fewer.len() && fewer[k] == path;
                        assert(more[k] == path);
                    }
                    if path == fields@[i as int]@ {
                        assert(more[i as int] == path);
                    }
                    if more.contains(path) {
                        let k = choose|k: int| 0 <= k < more.len() && more[k] == path;
                        if k < i {
                            assert(fewer[k] == path);
                        }
                    }
                }
            }
            if !is_empty_text(fields[i].as_str()) {
                self.add_field(fields[i].clone());
            }
            i = i + 1;
        }
        assert(given.take(given.len() as int) =~= given);
    }

    /// Begins to load the program again, where something waits and it has not
    /// begun; tells what waits.
    pub fn begin(&mut self) -> (r: Option<Vec<String>>)
        ensures
            final(self).fields@ == old(self).fields@,
            match r {
                Some(fields) => {
                    &&& old(self).fields@.len() > 0
                    &&& !old(self).shutdown_started
                    &&& string_views(fields@) == string_views(old(self).fields@)
                    &&& final(self).shutdown_started
                },
                None => {
                    &&& old(self).fields@.len() == 0 || old(self).shutdown_started
                    &&& final(self).shutdown_started == old(self).shutdown_started
                },
            },
    {
        if self.fields.len() == 0 || self.shutdown_started {
            return None;
        }
        self.shutdown_started = true;
        Some(copy_strings(&self.fields))
    }
}

proof fn lemma_insert(paths: Seq<Seq<char>>, at: int, path: Seq<char>)
    requires
        ascending_paths(paths),
        0 <= at <= paths.len(),
        forall|k: int| 0 <= k < at ==> before(#[trigger] paths[k], path),
        at < paths.len() ==> before(path, paths[at]),
    ensures
        ascending_paths(paths.insert(at, path)),
        forall|other: Seq<char>| #[trigger]
            paths.insert(at, path).contains(other) <==> paths.contains(other) || other == path,
{
    let after = paths.insert(at, path);
    assert forall|i: int, j: int| 0 <= i < j < after.len() implies before(after[i], after[j]) by {
        if j < at {
            assert(before(paths[i], paths[j]));
        } else if j == at {
            assert(before(paths[i], path));
        } else if i < at {
            assert(before(paths[i], paths[j - 1]));
        } else if i == at {
            if j - 1 > at {
                lemma_before_transitive(path, paths[at], paths[j - 1]);
            }
        } else {
            assert(before(paths[i - 1], paths[j - 1]));
        }
    }
    assert forall|other: Seq<char>| #[trigger] after.contains(other) <==> paths.contains(other)
        || other == path by {
        if paths.contains(other) {
            let k = choose|k: int| 0 <= k < paths.len() && paths[k] == other;
            if k < at {
                assert(after[k] == other);
            } else {
                assert(after[k + 1] == other);
            }
        }
        if other == path {
            assert(after[at] == other);
        }
        if after.contains(other) {
            let k = choose|k: int| 0 <= k < after.len() && after[k] == other;
            if k < at {
                assert(paths[k] == other);
            } else if k > at {
                assert(paths[k - 1] == other);
            }
        }
    }
}

/// A copy of strings.
pub fn copy_strings(strings: &Vec<String>) -> (r: Vec<String>)
    ensures
        string_views(r@) == string_views(strings@),
{
    let mut out: Vec<String> = Vec::new();
    let mut i: usize = 0;
    while i < strings.len()
        invariant
            i <= strings@.len(),
            out@.len() == i,
            forall|k: int| 0 <= k < i ==> (#[trigger] out@[k])@ == strings@[k]@,
        decreases strings@.len() - i,
    {
        out.push(strings[i].clone());
        i = i + 1;
    }
    assert(string_views(out@) =~= string_views(strings@));
    out
}

// ---------------------------------------------------------------------------
// What is in effect
// ---------------------------------------------------------------------------
/// A configuration in effect once the fields that take effect at once are taken
/// over from another.
pub open spec fn with_live_fields(effective: AppConfig, config: AppConfig) -> AppConfig {
    AppConfig {
        stability: StabilityConfig {
            secondary_hall_count: config.stability.secondary_hall_count,
            ..effective.stability
        },
        timing: TimingConfig {
            watchdog_restart_ms: config.timing.watchdog_restart_ms,
            loop_idle_ms: config.timing.loop_idle_ms,
            chat_scan: config.timing.chat_scan,
            command: CommandTimingConfig {
                post_settle_ms: config.timing.command.post_settle_ms,
                help_batch_ms: config.timing.command.help_batch_ms,
                ..effective.timing.command
            },
            invite: InviteTimingConfig {
                confirm_timeout_ms: config.timing.invite.confirm_timeout_ms,
                confirm_poll_ms: config.timing.invite.confirm_poll_ms,
                ..effective.timing.invite
            },
            playback: PlaybackTimingConfig {
                status_poll_ms: config.timing.playback.status_poll_ms,
                monitor_status_ms: config.timing.playback.monitor_status_ms,
                monitor_tick_ms: config.timing.playback.monitor_tick_ms,
                ..effective.timing.playback
            },
            ..effective.timing
        },
        queue: QueueConfig {
            protect_current_song_until_finished: config.queue.protect_current_song_until_finished,
            external_playback_protect_after_seconds:
                config.queue.external_playback_protect_after_seconds,
            ..effective.queue
        },
        song_dedup: SongDedupConfig {
            enabled: config.song_dedup.enabled,
            window_seconds: config.song_dedup.window_seconds,
            max_count: config.song_dedup.max_count,
            ..effective.song_dedup
        },
        friend_delivery: config.friend_delivery,
        state: StateConfig {
            executed_commands_log_path: config.state.executed_commands_log_path,
            ..effective.state
        },
        output: OutputConfig { send_enabled: config.output.send_enabled, ..effective.output },
        matching: config.matching,
        custom_workflows: config.custom_workflows,
        ..effective
    }
}

/// Taking over the same fields twice is the same as taking them over once.
pub proof fn law_apply_idempotent(effective: AppConfig, config: AppConfig)
    ensures
        with_live_fields(with_live_fields(effective, config), config) == with_live_fields(
            effective,
            config,
        ),
{
}

/// Of two configurations that are taken over one after the other the later one
/// holds.
pub proof fn law_last_apply_holds(effective: AppConfig, first: AppConfig, second: AppConfig)
    ensures
        with_live_fields(with_live_fields(effective, first), second) == with_live_fields(
            effective,
            second,
        ),
{
}

/// What is taken over is what takes effect at once, and nothing else: these
/// fields come from the new configuration, and with their earlier values put
/// back all is as it was.
pub proof fn law_apply_takes_live_fields(effective: AppConfig, config: AppConfig)
    ensures
        ({
            let after = with_live_fields(effective, config);
            &&& after.stability.secondary_hall_count == config.stability.secondary_hall_count
            &&& after.timing.watchdog_restart_ms == config.timing.watchdog_restart_ms
            &&& after.timing.loop_idle_ms == config.timing.loop_idle_ms
            &&& after.timing.chat_scan == config.timing.chat_scan
            &&& after.timing.command.post_settle_ms == config.timing.command.post_settle_ms
            &&& after.timing.command.help_batch_ms == config.timing.command.help_batch_ms
            &&& after.timing.invite.confirm_timeout_ms == config.timing.invite.confirm_timeout_ms
            &&& after.timing.invite.confirm_poll_ms == config.timing.invite.confirm_poll_ms
            &&& after.queue.protect_current_song_until_finished
                == config.queue.protect_current_song_until_finished
            &&& after.queue.external_playback_protect_after_seconds
                == config.queue.external_playback_protect_after_seconds
            &&& after.timing.playback.status_poll_ms == config.timing.playback.status_poll_ms
            &&& after.timing.playback.monitor_status_ms
                == config.timing.playback.monitor_status_ms
            &&& after.timing.playback.monitor_tick_ms == config.timing.playback.monitor_tick_ms
            &&& after.song_dedup.enabled == config.song_dedup.enabled
            &&& after.song_dedup.window_seconds == config.song_dedup.window_seconds
            &&& after.song_dedup.max_count == config.song_dedup.max_count
            &&& after.friend_delivery == config.friend_delivery
            &&& after.state.executed_commands_log_path == config.state.executed_commands_log_path
            &&& after.output.send_enabled == config.output.send_enabled
            &&& after.matching == config.matching
            &&& after.custom_workflows == config.custom_workflows
            &&& with_live_fields(after, effective) == effective
        }),
{
}

// ---------------------------------------------------------------------------
// What readers hold on to
// ---------------------------------------------------------------------------
/// The values of a configuration that readers hold on to and see change.
#[derive(Clone, Copy, Debug)]
pub struct SharedValues<'a> {
    pub queue_protect_current_song: bool,
    pub queue_external_protect_seconds: u64,
    pub status_poll_ms: u64,
    pub monitor_status_ms: u64,
    pub monitor_tick_ms: u64,
    pub change_debounce_ms: u64,
    pub song_dedup: &'a SongDedupConfig,
    pub friend_delivery_auto_retry_count: u32,
    pub output_send_enabled: bool,
    pub matching: &'a MatchConfig,
    pub custom_workflows: &'a CustomWorkflowConfig,
}

/// The values that readers hold on to, whoever owns them.
pub struct SharedView {
    pub queue_protect_current_song: bool,
    pub queue_external_protect_seconds: u64,
    pub status_poll_ms: u64,
    pub monitor_status_ms: u64,
    pub monitor_tick_ms: u64,
    pub change_debounce_ms: u64,
    pub song_dedup: SongDedupConfig,
    pub friend_delivery_auto_retry_count: u32,
    pub output_send_enabled: bool,
    pub matching: MatchConfig,
    pub custom_workflows: CustomWorkflowConfig,
}

impl<'a> View for SharedValues<'a> {
    type V = SharedView;

    open spec fn view(&self) -> SharedView {
        SharedView {
            queue_protect_current_song: self.queue_protect_current_song,
            queue_external_protect_seconds: self.queue_external_protect_seconds,
            status_poll_ms: self.status_poll_ms,
            monitor_status_ms: self.monitor_status_ms,
            monitor_tick_ms: self.monitor_tick_ms,
            change_debounce_ms: self.change_debounce_ms,
            song_dedup: *self.song_dedup,
            friend_delivery_auto_retry_count: self.friend_delivery_auto_retry_count,
            output_send_enabled: self.output_send_enabled,
            matching: *self.matching,
            custom_workflows: *self.custom_workflows,
        }
    }
}

/// The values of a configuration that readers hold on to.
pub open spec fn shared_of(config: AppConfig) -> SharedView {
    SharedView {
        queue_protect_current_song: config.queue.protect_current_song_until_finished,
        queue_external_protect_seconds: config.queue.external_playback_protect_after_seconds,
        status_poll_ms: config.timing.playback.status_poll_ms,
        monitor_status_ms: config.timing.playback.monitor_status_ms,
        monitor_tick_ms: config.timing.playback.monitor_tick_ms,
        change_debounce_ms: config.timing.chat_scan.change_debounce_ms,
        song_dedup: config.song_dedup,
        friend_delivery_auto_retry_count: config.friend_delivery.auto_retry_count,
        output_send_enabled: config.output.send_enabled,
        matching: config.matching,
        custom_workflows: config.custom_workflows,
    }
}

/// What readers see once a configuration is taken over: its values, but of how
/// often a song may be asked for only what takes effect at once.
pub open spec fn shared_after(shared: SharedView, config: AppConfig) -> SharedView {
    SharedView {
        song_dedup: SongDedupConfig {
            enabled: config.song_dedup.enabled,
            window_seconds: config.song_dedup.window_seconds,
            max_count: config.song_dedup.max_count,
            ..shared.song_dedup
        },
        ..shared_of(config)
    }
}

/// What readers hold on to agrees with the configuration in effect whenever
/// another one is taken over: each value is that of its field, and comes from the
/// new configuration as far as the field takes effect at once.
pub proof fn law_shared_agree(effective: AppConfig, config: AppConfig)
    ensures
        ({
            let after = with_live_fields(effective, config);
            let shared = shared_after(shared_of(effective), config);
            &&& shared == shared_of(after)
            &&& shared.queue_protect_current_song
                == after.queue.protect_current_song_until_finished
            &&& shared.queue_external_protect_seconds
                == after.queue.external_playback_protect_after_seconds
            &&& shared.status_poll_ms == after.timing.playback.status_poll_ms
            &&& shared.monitor_status_ms == after.timing.playback.monitor_status_ms
            &&& shared.monitor_tick_ms == after.timing.playback.monitor_tick_ms
            &&& shared.change_debounce_ms == after.timing.chat_scan.change_debounce_ms
            &&& shared.song_dedup == after.song_dedup
            &&& shared.friend_delivery_auto_retry_count == after.friend_delivery.auto_retry_count
            &&& shared.output_send_enabled == after.output.send_enabled
            &&& shared.matching == after.matching
            &&& shared.custom_workflows == after.custom_workflows
        }),
{
}

/// The values of a configuration that readers hold on to.
pub fn shared_values(config: &AppConfig) -> (r: SharedValues<'_>)
    ensures
        r@ == shared_of(*config),
        r.queue_protect_current_song == config.queue.protect_current_song_until_finished,
        r.queue_external_protect_seconds == config.queue.external_playback_protect_after_seconds,
        r.status_poll_ms == config.timing.playback.status_poll_ms,
        r.monitor_status_ms == config.timing.playback.monitor_status_ms,
        r.monitor_tick_ms == config.timing.playback.monitor_tick_ms,
        r.change_debounce_ms == config.timing.chat_scan.change_debounce_ms,
        *r.song_dedup == config.song_dedup,
        r.friend_delivery_auto_retry_count == config.friend_delivery.auto_retry_count,
        r.output_send_enabled == config.output.send_enabled,
        *r.matching == config.matching,
        *r.custom_workflows == config.custom_workflows,
{
    SharedValues {
        queue_protect_current_song: config.queue.protect_current_song_until_finished,
        queue_external_protect_seconds: config.queue.external_playback_protect_after_seconds,
        status_poll_ms: config.timing.playback.status_poll_ms,
        monitor_status_ms: config.timing.playback.monitor_status_ms,
        monitor_tick_ms: config.timing.playback.monitor_tick_ms,
        change_debounce_ms: config.timing.chat_scan.change_debounce_ms,
        song_dedup: &config.song_dedup,
        friend_delivery_auto_retry_count: config.friend_delivery.auto_retry_count,
        output_send_enabled: config.output.send_enabled,
        matching: &config.matching,
        custom_workflows: &config.custom_workflows,
    }
}

/// The configuration in effect, and what waits for the program to be loaded
/// again.
#[derive(Debug)]
pub struct LiveConfigs {
    pub effective: AppConfig,
    pub pending_reload: PendingReload,
}

impl LiveConfigs {
    /// What is in effect at the start.
    pub fn from_config(config: AppConfig) -> (r: Self)
        ensures
            r.effective == config,
            r.pending_reload.wf(),
            r.pending_reload.fields@.len() == 0,
            !r.pending_reload.shutdown_started,
    {
        LiveConfigs { effective: config, pending_reload: PendingReload::new() }
    }

    /// The configuration in effect.
    pub fn snapshot(&self) -> (r: &AppConfig)
        ensures
            *r == self.effective,
    {
        &self.effective
    }

    /// What readers hold on to, as it is in effect.
    pub fn shared(&self) -> (r: SharedValues<'_>)
        ensures
            r@ == shared_of(self.effective),
    {
        shared_values(&self.effective)
    }

    /// Lets fields wait for the program to be loaded again.
    pub fn schedule_reload(&mut self, fields: Vec<String>)
        requires
            old(self).pending_reload.wf(),
        ensures
            final(self).effective == old(self).effective,
            final(self).pending_reload.wf(),
            final(self).pending_reload.shutdown_started == old(
                self,
            ).pending_reload.shutdown_started,
            forall|path: Seq<char>| #[trigger]
                final(self).pending_reload.waits(path) <==> old(self).pending_reload.waits(path)
                    || (path.len() > 0 && string_views(fields@).contains(path)),
    {
        self.pending_reload.schedule(fields);
    }

    /// The fields that wait, in order.
    pub fn pending_reload_fields(&self) -> (r: Vec<String>)
        ensures
            string_views(r@) == string_views(self.pending_reload.fields@),
    {
        copy_strings(&self.pending_reload.fields)
    }

    /// Whether any field waits.
    pub fn has_pending_reload(&self) -> (r: bool)
        ensures
            r == (self.pending_reload.fields@.len() > 0),
    {
        self.pending_reload.fields.len() > 0
    }

    /// Begins to load the program again, where something waits and it has not
    /// begun; tells what waits.
    pub fn begin_reload(&mut self) -> (r: Option<Vec<String>>)
        ensures
            final(self).effective == old(self).effective,
            final(self).pending_reload.fields@ == old(self).pending_reload.fields@,
            match r {
                Some(fields) => {
                    &&& old(self).pending_reload.fields@.len() > 0
                    &&& !old(self).pending_reload.shutdown_started
                    &&& string_views(fields@) == string_views(old(self).pending_reload.fields@)
                    &&& final(self).pending_reload.shutdown_started
                },
                None => {
                    &&& old(self).pending_reload.fields@.len() == 0 || old(
                        self,
                    ).pending_reload.shutdown_started
                    &&& final(self).pending_reload.shutdown_started == old(
                        self,
                    ).pending_reload.shutdown_started
                },
            },
    {
        self.pending_reload.begin()
    }

    /// Takes over the fields that take effect at once.
    pub fn apply(&mut self, config: AppConfig)
        ensures
            final(self).effective == with_live_fields(old(self).effective, config),
            shared_of(final(self).effective) == shared_after(
                shared_of(old(self).effective),
                config,
            ),
            final(self).pending_reload == old(self).pending_reload,
    {
        self.effective.stability.secondary_hall_count = config.stability.secondary_hall_count;
        self.effective.timing.watchdog_restart_ms = config.timing.watchdog_restart_ms;
        self.effective.timing.loop_idle_ms = config.timing.loop_idle_ms;
        self.effective.timing.chat_scan = config.timing.chat_scan;
        self.effective.timing.command.post_settle_ms = config.timing.command.post_settle_ms;
        self.effective.timing.command.help_batch_ms = config.timing.command.help_batch_ms;
        self.effective.timing.invite.confirm_timeout_ms = config.timing.invite.confirm_timeout_ms;
        self.effective.timing.invite.confirm_poll_ms = config.timing.invite.confirm_poll_ms;
        self.effective.queue.protect_current_song_until_finished =
        config.queue.protect_current_song_until_finished;
        self.effective.queue.external_playback_protect_after_seconds =
        config.queue.external_playback_protect_after_seconds;
        self.effective.timing.playback.status_poll_ms = config.timing.playback.status_poll_ms;
        self.effective.timing.playback.monitor_status_ms =
        config.timing.playback.monitor_status_ms;
        self.effective.timing.playback.monitor_tick_ms = config.timing.playback.monitor_tick_ms;
        self.effective.song_dedup.enabled = config.song_dedup.enabled;
        self.effective.song_dedup.window_seconds = config.song_dedup.window_seconds;
        self.effective.song_dedup.max_count = config.song_dedup.max_count;
        self.effective.friend_delivery = config.friend_delivery;
        self.effective.state.executed_commands_log_path = config.state.executed_commands_log_path;
        self.effective.output.send_enabled = config.output.send_enabled;
        self.effective.matching = config.matching;
        self.effective.custom_workflows = config.custom_workflows;
    }
}

// ---------------------------------------------------------------------------
// Live fields and the schema
// ---------------------------------------------------------------------------
/// Whether the live fields of a section are all among the live paths.
spec fn live_listed(section: Seq<char>, fields: Seq<FieldView>) -> bool {
    forall|i: int|
        0 <= i < fields.len() && (#[trigger] fields[i]).effect == Effect::Live
            ==> live_paths().contains(section + "."@ + fields[i].path)
}

proof fn lemma_live_window()
    ensures
        live_listed("window"@, window_fields()),
{
    reveal(window_fields);
}

proof fn lemma_live_screen()
    ensures
        live_listed("screen"@, screen_fields()),
{
    reveal(screen_fields);
}

proof fn lemma_live_stability()
    ensures
        live_listed("stability"@, stability_fields()),
{
    reveal(stability_fields);
    reveal(live_paths);
    reveal_strlit("stability");
    reveal_strlit(".");
    let fields = stability_fields();
    assert(live_paths()[0] == "stability"@ + "."@ + fields[2].path) by {
        reveal_strlit("secondary_hall_count");
        reveal_strlit("stability.secondary_hall_count");
        assert("stability.secondary_hall_count"@ =~= "stability"@ + "."@ + "secondary_hall_count"@);
    }
}

proof fn lemma_live_timing()
    ensures
        live_listed("timing"@, timing_fields()),
{
    reveal(timing_fields);
    reveal(live_paths);
    reveal_strlit("timing");
    reveal_strlit(".");
    let fields = timing_fields();
    assert(live_paths()[1] == "timing"@ + "."@ + fields[0].path) by {
        reveal_strlit("watchdog_restart_ms");
        reveal_strlit("timing.watchdog_restart_ms");
        assert("timing.watchdog_restart_ms"@ =~= "timing"@ + "."@ + "watchdog_restart_ms"@);
    }
    assert(live_paths()[2] == "timing"@ + "."@ + fields[1].path) by {
        reveal_strlit("loop_idle_ms");
        reveal_strlit("timing.loop_idle_ms");
        assert("timing.loop_idle_ms"@ =~= "timing"@ + "."@ + "loop_idle_ms"@);
    }
    assert(live_paths()[3] == "timing"@ + "."@ + fields[2].path) by {
        reveal_strlit("chat_scan.fallback_ms");
        reveal_strlit("timing.chat_scan.fallback_ms");
        assert("timing.chat_scan.fallback_ms"@ =~= "timing"@ + "."@ + "chat_scan.fallback_ms"@);
    }
    assert(live_paths()[4] == "timing"@ + "."@ + fields[3].path) by {
        reveal_strlit("chat_scan.change_debounce_ms");
        reveal_strlit("timing.chat_scan.change_debounce_ms");
        assert("timing.chat_scan.change_debounce_ms"@ =~= "timing"@ + "."@ + "chat_scan.change_debounce_ms"@);
    }
    assert(live_paths()[5] == "timing"@ + "."@ + fields[4].path) by {
        reveal_strlit("chat_scan.change_cooldown_ms");
        reveal_strlit("timing.chat_scan.change_cooldown_ms");
        assert("timing.chat_scan.change_cooldown_ms"@ =~= "timing"@ + "."@ + "chat_scan.change_cooldown_ms"@);
    }
    assert(live_paths()[6] == "timing"@ + "."@ + fields[7].path) by {
        reveal_strlit("command.post_settle_ms");
        reveal_strlit("timing.command.post_settle_ms");
        assert("timing.command.post_settle_ms"@ =~= "timing"@ + "."@ + "command.post_settle_ms"@);
    }
    assert(live_paths()[7] == "timing"@ + "."@ + fields[8].path) by {
        reveal_strlit("command.help_batch_ms");
        reveal_strlit("timing.command.help_batch_ms");
        assert("timing.command.help_batch_ms"@ =~= "timing"@ + "."@ + "command.help_batch_ms"@);
    }
    assert(live_paths()[8] == "timing"@ + "."@ + fields[22].path) by {
        reveal_strlit("invite.confirm_timeout_ms");
        reveal_strlit("timing.invite.confirm_timeout_ms");
        assert("timing.invite.confirm_timeout_ms"@ =~= "timing"@ + "."@ + "invite.confirm_timeout_ms"@);
    }
    assert(live_paths()[9] == "timing"@ + "."@ + fields[23].path) by {
        reveal_strlit("invite.confirm_poll_ms");
        reveal_strlit("timing.invite.confirm_poll_ms");
        assert("timing.invite.confirm_poll_ms"@ =~= "timing"@ + "."@ + "invite.confirm_poll_ms"@);
    }
    assert(live_paths()[12] == "timing"@ + "."@ + fields[28].path) by {
        reveal_strlit("playback.status_poll_ms");
        reveal_strlit("timing.playback.status_poll_ms");
        assert("timing.playback.status_poll_ms"@ =~= "timing"@ + "."@ + "playback.status_poll_ms"@);
    }
    assert(live_paths()[14] == "timing"@ + "."@ + fields[29].path) by {
        reveal_strlit("playback.monitor_tick_ms");
        reveal_strlit("timing.playback.monitor_tick_ms");
        assert("timing.playback.monitor_tick_ms"@ =~= "timing"@ + "."@ + "playback.monitor_tick_ms"@);
    }
    assert(live_paths()[13] == "timing"@ + "."@ + fields[30].path) by {
        reveal_strlit("playback.monitor_status_ms");
        reveal_strlit("timing.playback.monitor_status_ms");
        assert("timing.playback.monitor_status_ms"@ =~= "timing"@ + "."@ + "playback.monitor_status_ms"@);
    }
}

proof fn lemma_live_ocr()
    ensures
        live_listed("ocr"@, ocr_fields()),
{
    reveal(ocr_fields);
}

proof fn lemma_live_templates()
    ensures
        live_listed("templates"@, templates_fields()),
{
    reveal(templates_fields);
}

proof fn lemma_live_output()
    ensures
        live_listed("output"@, output_fields()),
{
    reveal(output_fields);
    reveal(live_paths);
    reveal_strlit("output");
    reveal_strlit(".");
    let fields = output_fields();
    assert(live_paths()[20] == "output"@ + "."@ + fields[0].path) by {
        reveal_strlit("send_enabled");
        reveal_strlit("output.send_enabled");
        assert("output.send_enabled"@ =~= "output"@ + "."@ + "send_enabled"@);
    }
}

proof fn lemma_live_moderation()
    ensures
        live_listed("moderation"@, moderation_fields()),
{
    reveal(moderation_fields);
}

proof fn lemma_live_playback()
    ensures
        live_listed("playback"@, playback_fields()),
{
    reveal(playback_fields);
}

proof fn lemma_live_http()
    ensures
        live_listed("http"@, http_fields()),
{
    reveal(http_fields);
}

proof fn lemma_live_logging()
    ensures
        live_listed("logging"@, logging_fields()),
{
    reveal(logging_fields);
}

proof fn lemma_live_tui()
    ensures
        live_listed("tui"@, tui_fields()),
{
    reveal(tui_fields);
}

proof fn lemma_live_state()
    ensures
        live_listed("state"@, state_fields()),
{
    reveal(state_fields);
    reveal(live_paths);
    reveal_strlit("state");
    reveal_strlit(".");
    let fields = state_fields();
    assert(live_paths()[19] == "state"@ + "."@ + fields[1].path) by {
        reveal_strlit("executed_commands_log_path");
        reveal_strlit("state.executed_commands_log_path");
        assert("state.executed_commands_log_path"@ =~= "state"@ + "."@ + "executed_commands_log_path"@);
    }
}

proof fn lemma_live_queue()
    ensures
        live_listed("queue"@, queue_fields()),
{
    reveal(queue_fields);
    reveal(live_paths);
    reveal_strlit("queue");
    reveal_strlit(".");
    let fields = queue_fields();
    assert(live_paths()[10] == "queue"@ + "."@ + fields[2].path) by {
        reveal_strlit("protect_current_song_until_finished");
        reveal_strlit("queue.protect_current_song_until_finished");
        assert("queue.protect_current_song_until_finished"@ =~= "queue"@ + "."@ + "protect_current_song_until_finished"@);
    }
    assert(live_paths()[11] == "queue"@ + "."@ + fields[3].path) by {
        reveal_strlit("external_playback_protect_after_seconds");
        reveal_strlit("queue.external_playback_protect_after_seconds");
        assert("queue.external_playback_protect_after_seconds"@ =~= "queue"@ + "."@ + "external_playback_protect_after_seconds"@);
    }
}

proof fn lemma_live_song_dedup()
    ensures
        live_listed("song_dedup"@, song_dedup_fields()),
{
    reveal(song_dedup_fields);
    reveal(live_paths);
    reveal_strlit("song_dedup");
    reveal_strlit(".");
    let fields = song_dedup_fields();
    assert(live_paths()[15] == "song_dedup"@ + "."@ + fields[0].path) by {
        reveal_strlit("enabled");
        reveal_strlit("song_dedup.enabled");
        assert("song_dedup.enabled"@ =~= "song_dedup"@ + "."@ + "enabled"@);
    }
    assert(live_paths()[16] == "song_dedup"@ + "."@ + fields[1].path) by {
        reveal_strlit("window_seconds");
        reveal_strlit("song_dedup.window_seconds");
        assert("song_dedup.window_seconds"@ =~= "song_dedup"@ + "."@ + "window_seconds"@);
    }
    assert(live_paths()[17] == "song_dedup"@ + "."@ + fields[2].path) by {
        reveal_strlit("max_count");
        reveal_strlit("song_dedup.max_count");
        assert("song_dedup.max_count"@ =~= "song_dedup"@ + "."@ + "max_count"@);
    }
}

proof fn lemma_live_idiom_chain()
    ensures
        live_listed("idiom_chain"@, idiom_chain_fields()),
{
    reveal(idiom_chain_fields);
}

proof fn lemma_live_landlord()
    ensures
        live_listed("landlord"@, landlord_fields()),
{
    reveal(landlord_fields);
}

proof fn lemma_live_undercover()
    ensures
        live_listed("undercover"@, undercover_fields()),
{
    reveal(undercover_fields);
}

proof fn lemma_live_turtle_soup()
    ensures
        live_listed("turtle_soup"@, turtle_soup_fields()),
{
    reveal(turtle_soup_fields);
}

proof fn lemma_live_ai()
    ensures
        live_listed("ai"@, ai_fields()),
{
    reveal(ai_fields);
}

proof fn lemma_live_song_review()
    ensures
        live_listed("song_review"@, song_review_fields()),
{
    reveal(song_review_fields);
}

proof fn lemma_live_matching()
    ensures
        live_listed("matching"@, matching_fields()),
{
    reveal(matching_fields);
    reveal(live_paths);
    reveal_strlit("matching");
    reveal_strlit(".");
    let fields = matching_fields();
    assert(live_paths()[21] == "matching"@ + "."@ + fields[0].path) by {
        reveal_strlit("min_song_name_score");
        reveal_strlit("matching.min_song_name_score");
        assert("matching.min_song_name_score"@ =~= "matching"@ + "."@ + "min_song_name_score"@);
    }
    assert(live_paths()[22] == "matching"@ + "."@ + fields[1].path) by {
        reveal_strlit("short_chinese_song_max_miss");
        reveal_strlit("matching.short_chinese_song_max_miss");
        assert("matching.short_chinese_song_max_miss"@ =~= "matching"@ + "."@ + "short_chinese_song_max_miss"@);
    }
    assert(live_paths()[23] == "matching"@ + "."@ + fields[2].path) by {
        reveal_strlit("long_chinese_song_min_score");
        reveal_strlit("matching.long_chinese_song_min_score");
        assert("matching.long_chinese_song_min_score"@ =~= "matching"@ + "."@ + "long_chinese_song_min_score"@);
    }
    assert(live_paths()[24] == "matching"@ + "."@ + fields[3].path) by {
        reveal_strlit("max_ocr_noise_chars");
        reveal_strlit("matching.max_ocr_noise_chars");
        assert("matching.max_ocr_noise_chars"@ =~= "matching"@ + "."@ + "max_ocr_noise_chars"@);
    }
    assert(live_paths()[25] == "matching"@ + "."@ + fields[4].path) by {
        reveal_strlit("enable_fuzzy_singer");
        reveal_strlit("matching.enable_fuzzy_singer");
        assert("matching.enable_fuzzy_singer"@ =~= "matching"@ + "."@ + "enable_fuzzy_singer"@);
    }
    assert(live_paths()[26] == "matching"@ + "."@ + fields[5].path) by {
        reveal_strlit("short_chinese_singer_max_miss");
        reveal_strlit("matching.short_chinese_singer_max_miss");
        assert("matching.short_chinese_singer_max_miss"@ =~= "matching"@ + "."@ + "short_chinese_singer_max_miss"@);
    }
    assert(live_paths()[27] == "matching"@ + "."@ + fields[6].path) by {
        reveal_strlit("long_chinese_singer_min_score");
        reveal_strlit("matching.long_chinese_singer_min_score");
        assert("matching.long_chinese_singer_min_score"@ =~= "matching"@ + "."@ + "long_chinese_singer_min_score"@);
    }
    assert(live_paths()[28] == "matching"@ + "."@ + fields[7].path) by {
        reveal_strlit("en_max_edit_fraction");
        reveal_strlit("matching.en_max_edit_fraction");
        assert("matching.en_max_edit_fraction"@ =~= "matching"@ + "."@ + "en_max_edit_fraction"@);
    }
    assert(live_paths()[29] == "matching"@ + "."@ + fields[8].path) by {
        reveal_strlit("en_singer_max_edit_fraction");
        reveal_strlit("matching.en_singer_max_edit_fraction");
        assert("matching.en_singer_max_edit_fraction"@ =~= "matching"@ + "."@ + "en_singer_max_edit_fraction"@);
    }
}

proof fn lemma_live_hotkeys()
    ensures
        live_listed("hotkeys"@, hotkeys_fields()),
{
    reveal(hotkeys_fields);
}

proof fn lemma_live_startup()
    ensures
        live_listed("startup"@, startup_fields()),
{
    reveal(startup_fields);
}

proof fn lemma_live_invite()
    ensures
        live_listed("invite"@, invite_fields()),
{
    reveal(invite_fields);
}

proof fn lemma_live_friend_delivery()
    ensures
        live_listed("friend_delivery"@, friend_delivery_fields()),
{
    reveal(friend_delivery_fields);
    reveal(live_paths);
    reveal_strlit("friend_delivery");
    reveal_strlit(".");
    let fields = friend_delivery_fields();
    assert(live_paths()[18] == "friend_delivery"@ + "."@ + fields[0].path) by {
        reveal_strlit("auto_retry_count");
        reveal_strlit("friend_delivery.auto_retry_count");
        assert("friend_delivery.auto_retry_count"@ =~= "friend_delivery"@ + "."@ + "auto_retry_count"@);
    }
}

proof fn lemma_live_custom_workflows()
    ensures
        live_listed("custom_workflows"@, custom_workflows_fields()),
{
    reveal(custom_workflows_fields);
    reveal(live_paths);
    reveal_strlit("custom_workflows");
    reveal_strlit(".");
    let fields = custom_workflows_fields();
    assert(live_paths()[30] == "custom_workflows"@ + "."@ + fields[0].path) by {
        reveal_strlit("enabled");
        reveal_strlit("custom_workflows.enabled");
        assert("custom_workflows.enabled"@ =~= "custom_workflows"@ + "."@ + "enabled"@);
    }
    assert(live_paths()[31] == "custom_workflows"@ + "."@ + fields[1].path) by {
        reveal_strlit("default_threshold");
        reveal_strlit("custom_workflows.default_threshold");
        assert("custom_workflows.default_threshold"@ =~= "custom_workflows"@ + "."@ + "default_threshold"@);
    }
    assert(live_paths()[32] == "custom_workflows"@ + "."@ + fields[2].path) by {
        reveal_strlit("wait_template_absent_stable_default");
        reveal_strlit("custom_workflows.wait_template_absent_stable_default");
        assert("custom_workflows.wait_template_absent_stable_default"@ =~= "custom_workflows"@ + "."@ + "wait_template_absent_stable_default"@);
    }
    assert(live_paths()[33] == "custom_workflows"@ + "."@ + fields[3].path) by {
        reveal_strlit("max_hold_key_seconds");
        reveal_strlit("custom_workflows.max_hold_key_seconds");
        assert("custom_workflows.max_hold_key_seconds"@ =~= "custom_workflows"@ + "."@ + "max_hold_key_seconds"@);
    }
    assert(live_paths()[34] == "custom_workflows"@ + "."@ + fields[4].path) by {
        reveal_strlit("templates");
        reveal_strlit("custom_workflows.templates");
        assert("custom_workflows.templates"@ =~= "custom_workflows"@ + "."@ + "templates"@);
    }
    assert(live_paths()[35] == "custom_workflows"@ + "."@ + fields[5].path) by {
        reveal_strlit("workflows");
        reveal_strlit("custom_workflows.workflows");
        assert("custom_workflows.workflows"@ =~= "custom_workflows"@ + "."@ + "workflows"@);
    }
}

/// The live fields of the section at a place are among the live paths.
proof fn lemma_live_section(k: int, i: int)
    requires
        0 <= k < sections().len(),
        0 <= i < sections()[k].fields.len(),
        sections()[k].fields[i].effect == Effect::Live,
    ensures
        live_paths().contains(sections()[k].fields[i].path),
{
    if k == 0 {
        lemma_live_window();
        assert(sections()[k].fields[i] == in_section("window"@, window_fields()[i]));
    } else if k == 1 {
        lemma_live_screen();
        assert(sections()[k].fields[i] == in_section("screen"@, screen_fields()[i]));
    } else if k == 2 {
        lemma_live_stability();
        assert(sections()[k].fields[i] == in_section("stability"@, stability_fields()[i]));
    } else if k == 3 {
        lemma_live_timing();
        assert(sections()[k].fields[i] == in_section("timing"@, timing_fields()[i]));
    } else if k == 4 {
        lemma_live_ocr();
        assert(sections()[k].fields[i] == in_section("ocr"@, ocr_fields()[i]));
    } else if k == 5 {
        lemma_live_templates();
        assert(sections()[k].fields[i] == in_section("templates"@, templates_fields()[i]));
    } else if k == 6 {
        lemma_live_output();
        assert(sections()[k].fields[i] == in_section("output"@, output_fields()[i]));
    } else if k == 7 {
        lemma_live_moderation();
        assert(sections()[k].fields[i] == in_section("moderation"@, moderation_fields()[i]));
    } else if k == 8 {
        lemma_live_playback();
        assert(sections()[k].fields[i] == in_section("playback"@, playback_fields()[i]));
    } else if k == 9 {
        lemma_live_http();
        assert(sections()[k].fields[i] == in_section("http"@, http_fields()[i]));
    } else if k == 10 {
        lemma_live_logging();
        assert(sections()[k].fields[i] == in_section("logging"@, logging_fields()[i]));
    } else if k == 11 {
        lemma_live_tui();
        assert(sections()[k].fields[i] == in_section("tui"@, tui_fields()[i]));
    } else if k == 12 {
        lemma_live_state();
        assert(sections()[k].fields[i] == in_section("state"@, state_fields()[i]));
    } else if k == 13 {
        lemma_live_queue();
        assert(sections()[k].fields[i] == in_section("queue"@, queue_fields()[i]));
    } else if k == 14 {
        lemma_live_song_dedup();
        assert(sections()[k].fields[i] == in_section("song_dedup"@, song_dedup_fields()[i]));
    } else if k == 15 {
        lemma_live_idiom_chain();
        assert(sections()[k].fields[i] == in_section("idiom_chain"@, idiom_chain_fields()[i]));
    } else if k == 16 {
        lemma_live_landlord();
        assert(sections()[k].fields[i] == in_section("landlord"@, landlord_fields()[i]));
    } else if k == 17 {
        lemma_live_undercover();
        assert(sections()[k].fields[i] == in_section("undercover"@, undercover_fields()[i]));
    } else if k == 18 {
        lemma_live_turtle_soup();
        assert(sections()[k].fields[i] == in_section("turtle_soup"@, turtle_soup_fields()[i]));
    } else if k == 19 {
        lemma_live_ai();
        assert(sections()[k].fields[i] == in_section("ai"@, ai_fields()[i]));
    } else if k == 20 {
        lemma_live_song_review();
        assert(sections()[k].fields[i] == in_section("song_review"@, song_review_fields()[i]));
    } else if k == 21 {
        lemma_live_matching();
        assert(sections()[k].fields[i] == in_section("matching"@, matching_fields()[i]));
    } else if k == 22 {
        lemma_live_hotkeys();
        assert(sections()[k].fields[i] == in_section("hotkeys"@, hotkeys_fields()[i]));
    } else if k == 23 {
        lemma_live_startup();
        assert(sections()[k].fields[i] == in_section("startup"@, startup_fields()[i]));
    } else if k == 24 {
        lemma_live_invite();
        assert(sections()[k].fields[i] == in_section("invite"@, invite_fields()[i]));
    } else if k == 25 {
        lemma_live_friend_delivery();
        assert(sections()[k].fields[i] == in_section("friend_delivery"@, friend_delivery_fields()[i]));
    } else if k == 26 {
        lemma_live_custom_workflows();
        assert(sections()[k].fields[i] == in_section("custom_workflows"@, custom_workflows_fields()[i]));
    }
}

proof fn lemma_live_at_2_2() -> (at: int)
    ensures
        0 <= at < all_fields().len(),
        all_fields()[at].path == "stability.secondary_hall_count"@,
        all_fields()[at].effect == Effect::Live,
{
    reveal(stability_fields);
    reveal_strlit("stability");
    reveal_strlit("secondary_hall_count");
    reveal_strlit("stability.secondary_hall_count");
    reveal_strlit(".");
    assert("stability.secondary_hall_count"@ =~= "stability"@ + "."@ + "secondary_hall_count"@);
    assert(sections()[2].fields[2] == in_section("stability"@, stability_fields()[2]));
    lemma_fields_include(sections().len(), 2, 2)
}

proof fn lemma_live_at_3_0() -> (at: int)
    ensures
        0 <= at < all_fields().len(),
        all_fields()[at].path == "timing.watchdog_restart_ms"@,
        all_fields()[at].effect == Effect::Live,
{
    reveal(timing_fields);
    reveal_strlit("timing");
    reveal_strlit("watchdog_restart_ms");
    reveal_strlit("timing.watchdog_restart_ms");
    reveal_strlit(".");
    assert("timing.watchdog_restart_ms"@ =~= "timing"@ + "."@ + "watchdog_restart_ms"@);
    assert(sections()[3].fields[0] == in_section("timing"@, timing_fields()[0]));
    lemma_fields_include(sections().len(), 3, 0)
}

proof fn lemma_live_at_3_1() -> (at: int)
    ensures
        0 <= at < all_fields().len(),
        all_fields()[at].path == "timing.loop_idle_ms"@,
        all_fields()[at].effect == Effect::Live,
{
    reveal(timing_fields);
    reveal_strlit("timing");
    reveal_strlit("loop_idle_ms");
    reveal_strlit("timing.loop_idle_ms");
    reveal_strlit(".");
    assert("timing.loop_idle_ms"@ =~= "timing"@ + "."@ + "loop_idle_ms"@);
    assert(sections()[3].fields[1] == in_section("timing"@, timing_fields()[1]));
    lemma_fields_include(sections().len(), 3, 1)
}

proof fn lemma_live_at_3_2() -> (at: int)
    ensures
        0 <= at < all_fields().len(),
        all_fields()[at].path == "timing.chat_scan.fallback_ms"@,
        all_fields()[at].effect == Effect::Live,
{
    reveal(timing_fields);
    reveal_strlit("timing");
    reveal_strlit("chat_scan.fallback_ms");
    reveal_strlit("timing.chat_scan.fallback_ms");
    reveal_strlit(".");
    assert("timing.chat_scan.fallback_ms"@ =~= "timing"@ + "."@ + "chat_scan.fallback_ms"@);
    assert(sections()[3].fields[2] == in_section("timing"@, timing_fields()[2]));
    lemma_fields_include(sections().len(), 3, 2)
}

proof fn lemma_live_at_3_3() -> (at: int)
    ensures
        0 <= at < all_fields().len(),
        all_fields()[at].path == "timing.chat_scan.change_debounce_ms"@,
        all_fields()[at].effect == Effect::Live,
{
    reveal(timing_fields);
    reveal_strlit("timing");
    reveal_strlit("chat_scan.change_debounce_ms");
    reveal_strlit("timing.chat_scan.change_debounce_ms");
    reveal_strlit(".");
    assert("timing.chat_scan.change_debounce_ms"@ =~= "timing"@ + "."@ + "chat_scan.change_debounce_ms"@);
    assert(sections()[3].fields[3] == in_section("timing"@, timing_fields()[3]));
    lemma_fields_include(sections().len(), 3, 3)
}

proof fn lemma_live_at_3_4() -> (at: int)
    ensures
        0 <= at < all_fields().len(),
        all_fields()[at].path == "timing.chat_scan.change_cooldown_ms"@,
        all_fields()[at].effect == Effect::Live,
{
    reveal(timing_fields);
    reveal_strlit("timing");
    reveal_strlit("chat_scan.change_cooldown_ms");
    reveal_strlit("timing.chat_scan.change_cooldown_ms");
    reveal_strlit(".");
    assert("timing.chat_scan.change_cooldown_ms"@ =~= "timing"@ + "."@ + "chat_scan.change_cooldown_ms"@);
    assert(sections()[3].fields[4] == in_section("timing"@, timing_fields()[4]));
    lemma_fields_include(sections().len(), 3, 4)
}

proof fn lemma_live_at_3_7() -> (at: int)
    ensures
        0 <= at < all_fields().len(),
        all_fields()[at].path == "timing.command.post_settle_ms"@,
        all_fields()[at].effect == Effect::Live,
{
    reveal(timing_fields);
    reveal_strlit("timing");
    reveal_strlit("command.post_settle_ms");
    reveal_strlit("timing.command.post_settle_ms");
    reveal_strlit(".");
    assert("timing.command.post_settle_ms"@ =~= "timing"@ + "."@ + "command.post_settle_ms"@);
    assert(sections()[3].fields[7] == in_section("timing"@, timing_fields()[7]));
    lemma_fields_include(sections().len(), 3, 7)
}

proof fn lemma_live_at_3_8() -> (at: int)
    ensures
        0 <= at < all_fields().len(),
        all_fields()[at].path == "timing.command.help_batch_ms"@,
        all_fields()[at].effect == Effect::Live,
{
    reveal(timing_fields);
    reveal_strlit("timing");
    reveal_strlit("command.help_batch_ms");
    reveal_strlit("timing.command.help_batch_ms");
    reveal_strlit(".");
    assert("timing.command.help_batch_ms"@ =~= "timing"@ + "."@ + "command.help_batch_ms"@);
    assert(sections()[3].fields[8] == in_section("timing"@, timing_fields()[8]));
    lemma_fields_include(sections().len(), 3, 8)
}

proof fn lemma_live_at_3_22() -> (at: int)
    ensures
        0 <= at < all_fields().len(),
        all_fields()[at].path == "timing.invite.confirm_timeout_ms"@,
        all_fields()[at].effect == Effect::Live,
{
    reveal(timing_fields);
    reveal_strlit("timing");
    reveal_strlit("invite.confirm_timeout_ms");
    reveal_strlit("timing.invite.confirm_timeout_ms");
    reveal_strlit(".");
    assert("timing.invite.confirm_timeout_ms"@ =~= "timing"@ + "."@ + "invite.confirm_timeout_ms"@);
    assert(sections()[3].fields[22] == in_section("timing"@, timing_fields()[22]));
    lemma_fields_include(sections().len(), 3, 22)
}

proof fn lemma_live_at_3_23() -> (at: int)
    ensures
        0 <= at < all_fields().len(),
        all_fields()[at].path == "timing.invite.confirm_poll_ms"@,
        all_fields()[at].effect == Effect::Live,
{
    reveal(timing_fields);
    reveal_strlit("timing");
    reveal_strlit("invite.confirm_poll_ms");
    reveal_strlit("timing.invite.confirm_poll_ms");
    reveal_strlit(".");
    assert("timing.invite.confirm_poll_ms"@ =~= "timing"@ + "."@ + "invite.confirm_poll_ms"@);
    assert(sections()[3].fields[23] == in_section("timing"@, timing_fields()[23]));
    lemma_fields_include(sections().len(), 3, 23)
}

proof fn lemma_live_at_13_2() -> (at: int)
    ensures
        0 <= at < all_fields().len(),
        all_fields()[at].path == "queue.protect_current_song_until_finished"@,
        all_fields()[at].effect == Effect::Live,
{
    reveal(queue_fields);
    reveal_strlit("queue");
    reveal_strlit("protect_current_song_until_finished");
    reveal_strlit("queue.protect_current_song_until_finished");
    reveal_strlit(".");
    assert("queue.protect_current_song_until_finished"@ =~= "queue"@ + "."@ + "protect_current_song_until_finished"@);
    assert(sections()[13].fields[2] == in_section("queue"@, queue_fields()[2]));
    lemma_fields_include(sections().len(), 13, 2)
}

proof fn lemma_live_at_13_3() -> (at: int)
    ensures
        0 <= at < all_fields().len(),
        all_fields()[at].path == "queue.external_playback_protect_after_seconds"@,
        all_fields()[at].effect == Effect::Live,
{
    reveal(queue_fields);
    reveal_strlit("queue");
    reveal_strlit("external_playback_protect_after_seconds");
    reveal_strlit("queue.external_playback_protect_after_seconds");
    reveal_strlit(".");
    assert("queue.external_playback_protect_after_seconds"@ =~= "queue"@ + "."@ + "external_playback_protect_after_seconds"@);
    assert(sections()[13].fields[3] == in_section("queue"@, queue_fields()[3]));
    lemma_fields_include(sections().len(), 13, 3)
}

proof fn lemma_live_at_3_28() -> (at: int)
    ensures
        0 <= at < all_fields().len(),
        all_fields()[at].path == "timing.playback.status_poll_ms"@,
        all_fields()[at].effect == Effect::Live,
{
    reveal(timing_fields);
    reveal_strlit("timing");
    reveal_strlit("playback.status_poll_ms");
    reveal_strlit("timing.playback.status_poll_ms");
    reveal_strlit(".");
    assert("timing.playback.status_poll_ms"@ =~= "timing"@ + "."@ + "playback.status_poll_ms"@);
    assert(sections()[3].fields[28] == in_section("timing"@, timing_fields()[28]));
    lemma_fields_include(sections().len(), 3, 28)
}

proof fn lemma_live_at_3_30() -> (at: int)
    ensures
        0 <= at < all_fields().len(),
        all_fields()[at].path == "timing.playback.monitor_status_ms"@,
        all_fields()[at].effect == Effect::Live,
{
    reveal(timing_fields);
    reveal_strlit("timing");
    reveal_strlit("playback.monitor_status_ms");
    reveal_strlit("timing.playback.monitor_status_ms");
    reveal_strlit(".");
    assert("timing.playback.monitor_status_ms"@ =~= "timing"@ + "."@ + "playback.monitor_status_ms"@);
    assert(sections()[3].fields[30] == in_section("timing"@, timing_fields()[30]));
    lemma_fields_include(sections().len(), 3, 30)
}

proof fn lemma_live_at_3_29() -> (at: int)
    ensures
        0 <= at < all_fields().len(),
        all_fields()[at].path == "timing.playback.monitor_tick_ms"@,
        all_fields()[at].effect == Effect::Live,
{
    reveal(timing_fields);
    reveal_strlit("timing");
    reveal_strlit("playback.monitor_tick_ms");
    reveal_strlit("timing.playback.monitor_tick_ms");
    reveal_strlit(".");
    assert("timing.playback.monitor_tick_ms"@ =~= "timing"@ + "."@ + "playback.monitor_tick_ms"@);
    assert(sections()[3].fields[29] == in_section("timing"@, timing_fields()[29]));
    lemma_fields_include(sections().len(), 3, 29)
}

proof fn lemma_live_at_14_0() -> (at: int)
    ensures
        0 <= at < all_fields().len(),
        all_fields()[at].path == "song_dedup.enabled"@,
        all_fields()[at].effect == Effect::Live,
{
    reveal(song_dedup_fields);
    reveal_strlit("song_dedup");
    reveal_strlit("enabled");
    reveal_strlit("song_dedup.enabled");
    reveal_strlit(".");
    assert("song_dedup.enabled"@ =~= "song_dedup"@ + "."@ + "enabled"@);
    assert(sections()[14].fields[0] == in_section("song_dedup"@, song_dedup_fields()[0]));
    lemma_fields_include(sections().len(), 14, 0)
}

proof fn lemma_live_at_14_1() -> (at: int)
    ensures
        0 <= at < all_fields().len(),
        all_fields()[at].path == "song_dedup.window_seconds"@,
        all_fields()[at].effect == Effect::Live,
{
    reveal(song_dedup_fields);
    reveal_strlit("song_dedup");
    reveal_strlit("window_seconds");
    reveal_strlit("song_dedup.window_seconds");
    reveal_strlit(".");
    assert("song_dedup.window_seconds"@ =~= "song_dedup"@ + "."@ + "window_seconds"@);
    assert(sections()[14].fields[1] == in_section("song_dedup"@, song_dedup_fields()[1]));
    lemma_fields_include(sections().len(), 14, 1)
}

proof fn lemma_live_at_14_2() -> (at: int)
    ensures
        0 <= at < all_fields().len(),
        all_fields()[at].path == "song_dedup.max_count"@,
        all_fields()[at].effect == Effect::Live,
{
    reveal(song_dedup_fields);
    reveal_strlit("song_dedup");
    reveal_strlit("max_count");
    reveal_strlit("song_dedup.max_count");
    reveal_strlit(".");
    assert("song_dedup.max_count"@ =~= "song_dedup"@ + "."@ + "max_count"@);
    assert(sections()[14].fields[2] == in_section("song_dedup"@, song_dedup_fields()[2]));
    lemma_fields_include(sections().len(), 14, 2)
}

proof fn lemma_live_at_25_0() -> (at: int)
    ensures
        0 <= at < all_fields().len(),
        all_fields()[at].path == "friend_delivery.auto_retry_count"@,
        all_fields()[at].effect == Effect::Live,
{
    reveal(friend_delivery_fields);
    reveal_strlit("friend_delivery");
    reveal_strlit("auto_retry_count");
    reveal_strlit("friend_delivery.auto_retry_count");
    reveal_strlit(".");
    assert("friend_delivery.auto_retry_count"@ =~= "friend_delivery"@ + "."@ + "auto_retry_count"@);
    assert(sections()[25].fields[0] == in_section("friend_delivery"@, friend_delivery_fields()[0]));
    lemma_fields_include(sections().len(), 25, 0)
}

proof fn lemma_live_at_12_1() -> (at: int)
    ensures
        0 <= at < all_fields().len(),
        all_fields()[at].path == "state.executed_commands_log_path"@,
        all_fields()[at].effect == Effect::Live,
{
    reveal(state_fields);
    reveal_strlit("state");
    reveal_strlit("executed_commands_log_path");
    reveal_strlit("state.executed_commands_log_path");
    reveal_strlit(".");
    assert("state.executed_commands_log_path"@ =~= "state"@ + "."@ + "executed_commands_log_path"@);
    assert(sections()[12].fields[1] == in_section("state"@, state_fields()[1]));
    lemma_fields_include(sections().len(), 12, 1)
}

proof fn lemma_live_at_6_0() -> (at: int)
    ensures
        0 <= at < all_fields().len(),
        all_fields()[at].path == "output.send_enabled"@,
        all_fields()[at].effect == Effect::Live,
{
    reveal(output_fields);
    reveal_strlit("output");
    reveal_strlit("send_enabled");
    reveal_strlit("output.send_enabled");
    reveal_strlit(".");
    assert("output.send_enabled"@ =~= "output"@ + "."@ + "send_enabled"@);
    assert(sections()[6].fields[0] == in_section("output"@, output_fields()[0]));
    lemma_fields_include(sections().len(), 6, 0)
}

proof fn lemma_live_at_21_0() -> (at: int)
    ensures
        0 <= at < all_fields().len(),
        all_fields()[at].path == "matching.min_song_name_score"@,
        all_fields()[at].effect == Effect::Live,
{
    reveal(matching_fields);
    reveal_strlit("matching");
    reveal_strlit("min_song_name_score");
    reveal_strlit("matching.min_song_name_score");
    reveal_strlit(".");
    assert("matching.min_song_name_score"@ =~= "matching"@ + "."@ + "min_song_name_score"@);
    assert(sections()[21].fields[0] == in_section("matching"@, matching_fields()[0]));
    lemma_fields_include(sections().len(), 21, 0)
}

proof fn lemma_live_at_21_1() -> (at: int)
    ensures
        0 <= at < all_fields().len(),
        all_fields()[at].path == "matching.short_chinese_song_max_miss"@,
        all_fields()[at].effect == Effect::Live,
{
    reveal(matching_fields);
    reveal_strlit("matching");
    reveal_strlit("short_chinese_song_max_miss");
    reveal_strlit("matching.short_chinese_song_max_miss");
    reveal_strlit(".");
    assert("matching.short_chinese_song_max_miss"@ =~= "matching"@ + "."@ + "short_chinese_song_max_miss"@);
    assert(sections()[21].fields[1] == in_section("matching"@, matching_fields()[1]));
    lemma_fields_include(sections().len(), 21, 1)
}

proof fn lemma_live_at_21_2() -> (at: int)
    ensures
        0 <= at < all_fields().len(),
        all_fields()[at].path == "matching.long_chinese_song_min_score"@,
        all_fields()[at].effect == Effect::Live,
{
    reveal(matching_fields);
    reveal_strlit("matching");
    reveal_strlit("long_chinese_song_min_score");
    reveal_strlit("matching.long_chinese_song_min_score");
    reveal_strlit(".");
    assert("matching.long_chinese_song_min_score"@ =~= "matching"@ + "."@ + "long_chinese_song_min_score"@);
    assert(sections()[21].fields[2] == in_section("matching"@, matching_fields()[2]));
    lemma_fields_include(sections().len(), 21, 2)
}

proof fn lemma_live_at_21_3() -> (at: int)
    ensures
        0 <= at < all_fields().len(),
        all_fields()[at].path == "matching.max_ocr_noise_chars"@,
        all_fields()[at].effect == Effect::Live,
{
    reveal(matching_fields);
    reveal_strlit("matching");
    reveal_strlit("max_ocr_noise_chars");
    reveal_strlit("matching.max_ocr_noise_chars");
    reveal_strlit(".");
    assert("matching.max_ocr_noise_chars"@ =~= "matching"@ + "."@ + "max_ocr_noise_chars"@);
    assert(sections()[21].fields[3] == in_section("matching"@, matching_fields()[3]));
    lemma_fields_include(sections().len(), 21, 3)
}

proof fn lemma_live_at_21_4() -> (at: int)
    ensures
        0 <= at < all_fields().len(),
        all_fields()[at].path == "matching.enable_fuzzy_singer"@,
        all_fields()[at].effect == Effect::Live,
{
    reveal(matching_fields);
    reveal_strlit("matching");
    reveal_strlit("enable_fuzzy_singer");
    reveal_strlit("matching.enable_fuzzy_singer");
    reveal_strlit(".");
    assert("matching.enable_fuzzy_singer"@ =~= "matching"@ + "."@ + "enable_fuzzy_singer"@);
    assert(sections()[21].fields[4] == in_section("matching"@, matching_fields()[4]));
    lemma_fields_include(sections().len(), 21, 4)
}

proof fn lemma_live_at_21_5() -> (at: int)
    ensures
        0 <= at < all_fields().len(),
        all_fields()[at].path == "matching.short_chinese_singer_max_miss"@,
        all_fields()[at].effect == Effect::Live,
{
    reveal(matching_fields);
    reveal_strlit("matching");
    reveal_strlit("short_chinese_singer_max_miss");
    reveal_strlit("matching.short_chinese_singer_max_miss");
    reveal_strlit(".");
    assert("matching.short_chinese_singer_max_miss"@ =~= "matching"@ + "."@ + "short_chinese_singer_max_miss"@);
    assert(sections()[21].fields[5] == in_section("matching"@, matching_fields()[5]));
    lemma_fields_include(sections().len(), 21, 5)
}

proof fn lemma_live_at_21_6() -> (at: int)
    ensures
        0 <= at < all_fields().len(),
        all_fields()[at].path == "matching.long_chinese_singer_min_score"@,
        all_fields()[at].effect == Effect::Live,
{
    reveal(matching_fields);
    reveal_strlit("matching");
    reveal_strlit("long_chinese_singer_min_score");
    reveal_strlit("matching.long_chinese_singer_min_score");
    reveal_strlit(".");
    assert("matching.long_chinese_singer_min_score"@ =~= "matching"@ + "."@ + "long_chinese_singer_min_score"@);
    assert(sections()[21].fields[6] == in_section("matching"@, matching_fields()[6]));
    lemma_fields_include(sections().len(), 21, 6)
}

proof fn lemma_live_at_21_7() -> (at: int)
    ensures
        0 <= at < all_fields().len(),
        all_fields()[at].path == "matching.en_max_edit_fraction"@,
        all_fields()[at].effect == Effect::Live,
{
    reveal(matching_fields);
    reveal_strlit("matching");
    reveal_strlit("en_max_edit_fraction");
    reveal_strlit("matching.en_max_edit_fraction");
    reveal_strlit(".");
    assert("matching.en_max_edit_fraction"@ =~= "matching"@ + "."@ + "en_max_edit_fraction"@);
    assert(sections()[21].fields[7] == in_section("matching"@, matching_fields()[7]));
    lemma_fields_include(sections().len(), 21, 7)
}

proof fn lemma_live_at_21_8() -> (at: int)
    ensures
        0 <= at < all_fields().len(),
        all_fields()[at].path == "matching.en_singer_max_edit_fraction"@,
        all_fields()[at].effect == Effect::Live,
{
    reveal(matching_fields);
    reveal_strlit("matching");
    reveal_strlit("en_singer_max_edit_fraction");
    reveal_strlit("matching.en_singer_max_edit_fraction");
    reveal_strlit(".");
    assert("matching.en_singer_max_edit_fraction"@ =~= "matching"@ + "."@ + "en_singer_max_edit_fraction"@);
    assert(sections()[21].fields[8] == in_section("matching"@, matching_fields()[8]));
    lemma_fields_include(sections().len(), 21, 8)
}

proof fn lemma_live_at_26_0() -> (at: int)
    ensures
        0 <= at < all_fields().len(),
        all_fields()[at].path == "custom_workflows.enabled"@,
        all_fields()[at].effect == Effect::Live,
{
    reveal(custom_workflows_fields);
    reveal_strlit("custom_workflows");
    reveal_strlit("enabled");
    reveal_strlit("custom_workflows.enabled");
    reveal_strlit(".");
    assert("custom_workflows.enabled"@ =~= "custom_workflows"@ + "."@ + "enabled"@);
    assert(sections()[26].fields[0] == in_section("custom_workflows"@, custom_workflows_fields()[0]));
    lemma_fields_include(sections().len(), 26, 0)
}

proof fn lemma_live_at_26_1() -> (at: int)
    ensures
        0 <= at < all_fields().len(),
        all_fields()[at].path == "custom_workflows.default_threshold"@,
        all_fields()[at].effect == Effect::Live,
{
    reveal(custom_workflows_fields);
    reveal_strlit("custom_workflows");
    reveal_strlit("default_threshold");
    reveal_strlit("custom_workflows.default_threshold");
    reveal_strlit(".");
    assert("custom_workflows.default_threshold"@ =~= "custom_workflows"@ + "."@ + "default_threshold"@);
    assert(sections()[26].fields[1] == in_section("custom_workflows"@, custom_workflows_fields()[1]));
    lemma_fields_include(sections().len(), 26, 1)
}

proof fn lemma_live_at_26_2() -> (at: int)
    ensures
        0 <= at < all_fields().len(),
        all_fields()[at].path == "custom_workflows.wait_template_absent_stable_default"@,
        all_fields()[at].effect == Effect::Live,
{
    reveal(custom_workflows_fields);
    reveal_strlit("custom_workflows");
    reveal_strlit("wait_template_absent_stable_default");
    reveal_strlit("custom_workflows.wait_template_absent_stable_default");
    reveal_strlit(".");
    assert("custom_workflows.wait_template_absent_stable_default"@ =~= "custom_workflows"@ + "."@ + "wait_template_absent_stable_default"@);
    assert(sections()[26].fields[2] == in_section("custom_workflows"@, custom_workflows_fields()[2]));
    lemma_fields_include(sections().len(), 26, 2)
}

proof fn lemma_live_at_26_3() -> (at: int)
    ensures
        0 <= at < all_fields().len(),
        all_fields()[at].path == "custom_workflows.max_hold_key_seconds"@,
        all_fields()[at].effect == Effect::Live,
{
    reveal(custom_workflows_fields);
    reveal_strlit("custom_workflows");
    reveal_strlit("max_hold_key_seconds");
    reveal_strlit("custom_workflows.max_hold_key_seconds");
    reveal_strlit(".");
    assert("custom_workflows.max_hold_key_seconds"@ =~= "custom_workflows"@ + "."@ + "max_hold_key_seconds"@);
    assert(sections()[26].fields[3] == in_section("custom_workflows"@, custom_workflows_fields()[3]));
    lemma_fields_include(sections().len(), 26, 3)
}

proof fn lemma_live_at_26_4() -> (at: int)
    ensures
        0 <= at < all_fields().len(),
        all_fields()[at].path == "custom_workflows.templates"@,
        all_fields()[at].effect == Effect::Live,
{
    reveal(custom_workflows_fields);
    reveal_strlit("custom_workflows");
    reveal_strlit("templates");
    reveal_strlit("custom_workflows.templates");
    reveal_strlit(".");
    assert("custom_workflows.templates"@ =~= "custom_workflows"@ + "."@ + "templates"@);
    assert(sections()[26].fields[4] == in_section("custom_workflows"@, custom_workflows_fields()[4]));
    lemma_fields_include(sections().len(), 26, 4)
}

proof fn lemma_live_at_26_5() -> (at: int)
    ensures
        0 <= at < all_fields().len(),
        all_fields()[at].path == "custom_workflows.workflows"@,
        all_fields()[at].effect == Effect::Live,
{
    reveal(custom_workflows_fields);
    reveal_strlit("custom_workflows");
    reveal_strlit("workflows");
    reveal_strlit("custom_workflows.workflows");
    reveal_strlit(".");
    assert("custom_workflows.workflows"@ =~= "custom_workflows"@ + "."@ + "workflows"@);
    assert(sections()[26].fields[5] == in_section("custom_workflows"@, custom_workflows_fields()[5]));
    lemma_fields_include(sections().len(), 26, 5)
}

/// A field of each live path takes effect at once.
proof fn lemma_live_field(k: int) -> (at: int)
    requires
        0 <= k < live_paths().len(),
    ensures
        0 <= at < all_fields().len(),
        all_fields()[at].path == live_paths()[k],
        all_fields()[at].effect == Effect::Live,
{
    reveal(live_paths);
    if k == 0 {
        lemma_live_at_2_2()
    } else if k == 1 {
        lemma_live_at_3_0()
    } else if k == 2 {
        lemma_live_at_3_1()
    } else if k == 3 {
        lemma_live_at_3_2()
    } else if k == 4 {
        lemma_live_at_3_3()
    } else if k == 5 {
        lemma_live_at_3_4()
    } else if k == 6 {
        lemma_live_at_3_7()
    } else if k == 7 {
        lemma_live_at_3_8()
    } else if k == 8 {
        lemma_live_at_3_22()
    } else if k == 9 {
        lemma_live_at_3_23()
    } else if k == 10 {
        lemma_live_at_13_2()
    } else if k == 11 {
        lemma_live_at_13_3()
    } else if k == 12 {
        lemma_live_at_3_28()
    } else if k == 13 {
        lemma_live_at_3_30()
    } else if k == 14 {
        lemma_live_at_3_29()
    } else if k == 15 {
        lemma_live_at_14_0()
    } else if k == 16 {
        lemma_live_at_14_1()
    } else if k == 17 {
        lemma_live_at_14_2()
    } else if k == 18 {
        lemma_live_at_25_0()
    } else if k == 19 {
        lemma_live_at_12_1()
    } else if k == 20 {
        lemma_live_at_6_0()
    } else if k == 21 {
        lemma_live_at_21_0()
    } else if k == 22 {
        lemma_live_at_21_1()
    } else if k == 23 {
        lemma_live_at_21_2()
    } else if k == 24 {
        lemma_live_at_21_3()
    } else if k == 25 {
        lemma_live_at_21_4()
    } else if k == 26 {
        lemma_live_at_21_5()
    } else if k == 27 {
        lemma_live_at_21_6()
    } else if k == 28 {
        lemma_live_at_21_7()
    } else if k == 29 {
        lemma_live_at_21_8()
    } else if k == 30 {
        lemma_live_at_26_0()
    } else if k == 31 {
        lemma_live_at_26_1()
    } else if k == 32 {
        lemma_live_at_26_2()
    } else if k == 33 {
        lemma_live_at_26_3()
    } else if k == 34 {
        lemma_live_at_26_4()
    } else {
        lemma_live_at_26_5()
    }
}

/// The fields that take effect at once are those with the live paths.
pub proof fn law_live_fields(i: int)
    requires
        0 <= i < all_fields().len(),
    ensures
        all_fields()[i].effect == Effect::Live <==> live_paths().contains(all_fields()[i].path),
{
    law_paths_unique();
    if all_fields()[i].effect == Effect::Live {
        let (k, a) = lemma_fields_of(sections().len(), i);
        lemma_live_section(k, a);
    }
    if live_paths().contains(all_fields()[i].path) {
        let k = choose|k: int|
            0 <= k < live_paths().len() && live_paths()[k] == all_fields()[i].path;
        let at = lemma_live_field(k);
        if at < i {
            assert(all_fields()[at].path != all_fields()[i].path);
        } else if i < at {
            assert(all_fields()[i].path != all_fields()[at].path);
        }
    }
}

/// Each live path has a field.
pub proof fn law_live_paths_declared(k: int)
    requires
        0 <= k < live_paths().len(),
    ensures
        exists|at: int|
            0 <= at < all_fields().len() && (#[trigger] all_fields()[at]).path == live_paths()[k]
                && all_fields()[at].effect == Effect::Live,
{
    let at = lemma_live_field(k);
    assert(all_fields()[at].path == live_paths()[k]);
}

} // verus!
