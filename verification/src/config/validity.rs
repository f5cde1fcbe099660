//! What a configuration that is accepted is like, field by field.
use vstd::prelude::*;
use crate::config::app::AppConfig;
use crate::config::app::OutsideChecks;
use crate::config::app::{steps_error, workflows_error};
use crate::config::checks::{error_of, lowered, PointConfig, RectConfig, Single};
use crate::config::settings::AudioCacheFileConfig;
use crate::config::settings::BootstrapConfig;
use crate::config::settings::HotkeyConfig;
use crate::config::settings::HttpConfig;
use crate::config::settings::LoggingConfig;
use crate::config::settings::OcrConfig;
use crate::config::settings::OpenVinoConfig;
use crate::config::settings::PlaybackConfig;
use crate::config::settings::ScreenConfig;
use crate::config::settings::StateConfig;
use crate::config::settings::TemplateConfig;
use crate::config::settings::TimingConfig;
use crate::config::settings::TuiConfig;
use crate::config::settings::{backend_name, backends_error};
use crate::custom_workflow::definition::{CustomWorkflowDefinition, CustomWorkflowStep};
use crate::text::{string_views, trimmed};

verus! {

/// Whether a region has a pixel and all of it lies on a canvas.
pub open spec fn on_canvas(rect: RectConfig, width: u32, height: u32) -> bool {
    &&& rect.width > 0
    &&& rect.height > 0
    &&& 0 <= rect.x
    &&& 0 <= rect.y
    &&& rect.x + rect.width <= width
    &&& rect.y + rect.height <= height
}

/// Whether a point lies on a canvas.
pub open spec fn point_on_canvas(point: PointConfig, width: u32, height: u32) -> bool {
    &&& 0 <= point.x
    &&& point.x < width
    &&& 0 <= point.y
    &&& point.y < height
}

/// Whether a number lies between zero and one.
pub open spec fn is_share(value: Single) -> bool {
    value.bits <= 0x3f80_0000 || value.bits == 0x8000_0000
}

/// Whether a text says something.
pub open spec fn says_something(text: Seq<char>) -> bool {
    trimmed(text).len() > 0
}

/// Whether a path is there and not empty.
pub open spec fn has_path(path: Option<String>) -> bool {
    path is Some && path->0@.len() > 0
}

/// The times are accepted exactly where none of them is zero and the features find
/// theirs to be valid.
pub proof fn law_timing_is_valid(
    timing: TimingConfig,
    workflow: Option<Seq<char>>,
    playback: Option<Seq<char>>,
)
    ensures
        timing.error(workflow, playback) is None <==> {
            &&& timing.watchdog_restart_ms > 0
            &&& timing.loop_idle_ms > 0
            &&& timing.chat_scan.fallback_ms > 0
            &&& timing.chat_scan.change_debounce_ms > 0
            &&& timing.chat_scan.change_cooldown_ms > 0
            &&& timing.command.ui_timeout_ms > 0
            &&& timing.command.return_retry_ms > 0
            &&& timing.command.post_settle_ms > 0
            &&& timing.command.help_batch_ms > 0
            &&& timing.input.after_activate_ms > 0
            &&& timing.input.focus_ms > 0
            &&& timing.input.open_chat_ms > 0
            &&& timing.input.click_ms > 0
            &&& timing.input.text_ms > 0
            &&& timing.input.send_ms > 0
            &&& timing.hall.page_settle_ms > 0
            &&& timing.hall.ocr_sample_interval_ms > 0
            &&& timing.decision.timeout_ms > 0
            &&& timing.decision.poll_ms > 0
            &&& timing.external.volume_smooth_step_ms > 0
            &&& timing.external.ai_request_timeout_ms > 0
            &&& workflow is None
            &&& playback is None
        },
{
}

/// The screen is accepted exactly where each of its regions lies on it.
pub proof fn law_screen_is_valid(screen: ScreenConfig)
    ensures
        screen.error() is None <==> {
            &&& on_canvas(screen.chat_rect, screen.expected_width, screen.expected_height)
            &&& on_canvas(screen.friend_rect, screen.expected_width, screen.expected_height)
            &&& on_canvas(screen.secondary_back_rect, screen.expected_width, screen.expected_height)
            &&& on_canvas(screen.secondary_hall_rect, screen.expected_width, screen.expected_height)
            &&& on_canvas(screen.hall_name_rect, screen.expected_width, screen.expected_height)
            &&& on_canvas(screen.hall_member_count_rect, screen.expected_width, screen.expected_height)
            &&& on_canvas(screen.hall_time_rect, screen.expected_width, screen.expected_height)
            &&& on_canvas(screen.hall_member_list_rect, screen.expected_width, screen.expected_height)
        },
{
}

/// The images are accepted exactly where each has a path and the threshold lies between
/// zero and one.
pub proof fn law_templates_is_valid(templates: TemplateConfig)
    ensures
        templates.error() is None <==> {
            &&& is_share(templates.marker_threshold)
            &&& templates.blue_marker@.len() > 0
            &&& templates.yellow_marker@.len() > 0
            &&& templates.pink_marker@.len() > 0
            &&& templates.friend@.len() > 0
            &&& templates.secondary_back@.len() > 0
            &&& templates.secondary_hall@.len() > 0
            &&& templates.invite_view_star@.len() > 0
            &&& templates.invite_goto_hall@.len() > 0
            &&& templates.invite_enter_hall@.len() > 0
            &&& templates.friend_panel@.len() > 0
            &&& templates.friend_search_panel@.len() > 0
            &&& templates.friend_more_settings@.len() > 0
            &&& templates.friend_block_chat@.len() > 0
            &&& templates.friend_blacklist@.len() > 0
            &&& templates.friend_confirm@.len() > 0
        },
{
}

/// The cache of songs is accepted exactly where it is not in use or none of its numbers
/// is zero.
pub proof fn law_cache_is_valid(cache: AudioCacheFileConfig)
    ensures
        cache.error() is None <==> {
            &&& cache.enabled ==> cache.max_bytes_mb > 0
            &&& cache.enabled ==> cache.max_concurrent_downloads > 0
            &&& cache.enabled ==> cache.request_timeout_ms > 0
            &&& cache.enabled ==> cache.seek_wait_timeout_ms > 0
        },
{
}

/// What plays songs is accepted exactly where it knows its files, may take time to log
/// in, and its cache is accepted.
pub proof fn law_playback_is_valid(playback: PlaybackConfig)
    ensures
        playback.error() is None <==> {
            &&& playback.credential_directory@.len() > 0
            &&& playback.login_helper_executable@.len() > 0
            &&& playback.login_timeout_ms > 0
            &&& playback.audio_cache is Some ==> playback.audio_cache->0.error() is None
        },
{
}

/// The pages are accepted exactly where they are not served, or are served from a host
/// and a port, and with a token unless the host is this machine.
pub proof fn law_http_is_valid(http: HttpConfig)
    ensures
        http.error() is None <==> {
            &&& http.enabled ==> says_something(http.host@)
            &&& http.enabled ==> http.port > 0
            &&& http.enabled && !says_something(http.access_token@) ==> {
                let name = lowered(trimmed(http.host@));
                name == "127.0.0.1"@ || name == "localhost"@ || name == "::1"@
            }
        },
{
}

/// The log is accepted exactly where it has a directory and one of the five levels.
pub proof fn law_logging_is_valid(logging: LoggingConfig)
    ensures
        logging.error() is None <==> {
            &&& logging.dir@.len() > 0
            &&& ({
                let name = lowered(trimmed(logging.level@));
                name == "error"@ || name == "warn"@ || name == "info"@ || name == "debug"@ || name
                    == "trace"@
            })
        },
{
}

/// The panel is accepted exactly where it is not shown, or is drawn now and then and
/// shows lines.
pub proof fn law_tui_is_valid(tui: TuiConfig)
    ensures
        tui.error() is None <==> {
            &&& tui.enabled ==> tui.refresh_ms > 0
            &&& tui.enabled ==> tui.log_lines > 0
        },
{
}

/// Where state is kept is accepted exactly where no path is empty and the database has
/// its name.
pub proof fn law_state_is_valid(state: StateConfig, name: Option<Seq<char>>)
    ensures
        state.error(name) is None <==> {
            &&& state.playback_state_path@.len() > 0
            &&& state.hall_state_path@.len() > 0
            &&& state.executed_commands_log_path@.len() > 0
            &&& name == Some("playback.sqlite3"@)
        },
{
}

/// The keys are accepted exactly where they are not in use, or there are two and they
/// differ, whatever the case of their letters.
pub proof fn law_hotkeys_is_valid(hotkeys: HotkeyConfig)
    ensures
        hotkeys.error() is None <==> {
            &&& hotkeys.enabled ==> says_something(hotkeys.pause_key@)
            &&& hotkeys.enabled ==> says_something(hotkeys.exit_key@)
            &&& hotkeys.enabled ==> lowered(hotkeys.pause_key@) != lowered(hotkeys.exit_key@)
        },
{
}

/// OpenVINO is accepted exactly where it has its four files and a device, and a place
/// to cache only where that is one.
pub proof fn law_openvino_is_valid(openvino: OpenVinoConfig)
    ensures
        openvino.error() is None <==> {
            &&& has_path(openvino.det_model)
            &&& has_path(openvino.det_weights)
            &&& has_path(openvino.rec_model)
            &&& has_path(openvino.rec_weights)
            &&& says_something(openvino.device@)
            &&& openvino.cache_dir is Some ==> openvino.cache_dir->0@.len() > 0
        },
{
}

/// Whether a backend is one that there is.
pub open spec fn is_backend(name: Seq<char>) -> bool {
    ||| name == "cuda"@
    ||| name == "vulkan"@
    ||| name == "opencl"@
    ||| name == "open-cl"@
    ||| name == "openvino"@
    ||| name == "cpu"@
}

proof fn lemma_backends(backends: Seq<Seq<char>>)
    ensures
        backends_error(backends) is None <==> forall|i: int|
            0 <= i < backends.len() ==> is_backend(backend_name(#[trigger] backends[i])),
    decreases backends.len(),
{
    if backends.len() > 0 {
        let fewer = backends.drop_last();
        lemma_backends(fewer);
        assert(forall|i: int| 0 <= i < fewer.len() ==> #[trigger] fewer[i] == backends[i]);
        assert(backends[backends.len() - 1] == backends.last());
        if forall|i: int|
            0 <= i < backends.len() ==> is_backend(backend_name(#[trigger] backends[i])) {
            assert forall|i: int| 0 <= i < fewer.len() implies is_backend(
                backend_name(#[trigger] fewer[i]),
            ) by {
                assert(is_backend(backend_name(backends[i])));
            }
        } else if backends_error(backends) is None {
            let i = choose|i: int|
                0 <= i < backends.len() && !is_backend(backend_name(#[trigger] backends[i]));
            if i < fewer.len() {
                assert(is_backend(backend_name(fewer[i])));
            }
        }
    }
}

/// What reads the screen is accepted exactly where its times and sizes are not zero, its
/// shares lie between zero and one, it names backends, each of which there is, and has
/// what each of them needs.
pub proof fn law_ocr_is_valid(ocr: OcrConfig)
    ensures
        ocr.error() is None <==> {
            &&& ocr.request_timeout_ms > 0
            &&& ocr.shutdown_timeout_ms > 0
            &&& is_share(ocr.min_confidence)
            &&& is_share(ocr.det_score_threshold)
            &&& is_share(ocr.change_pixel_threshold)
            &&& ocr.change_mean_threshold.bits < 0x7f80_0000 || ocr.change_mean_threshold.bits
                == 0x8000_0000
            &&& ocr.threads > 0
            &&& ocr.det_max_side_len > 0
            &&& ocr.det_min_area > 0
            &&& ocr.max_block_height > 0
            &&& 0 < ocr.det_unclip_ratio.bits < 0x7f80_0000
            &&& ocr.backend_priority@.len() > 0
            &&& forall|i: int|
                0 <= i < ocr.backend_priority@.len() ==> is_backend(
                    backend_name(#[trigger] string_views(ocr.backend_priority@)[i]),
                )
            &&& (exists|i: int|
                0 <= i < ocr.backend_priority@.len() && backend_name(
                    #[trigger] string_views(ocr.backend_priority@)[i],
                ) == "openvino"@) ==> ocr.openvino.error() is None
            &&& (exists|i: int|
                0 <= i < ocr.backend_priority@.len() && backend_name(
                    #[trigger] string_views(ocr.backend_priority@)[i],
                ) != "openvino"@) ==> has_path(ocr.det_model) && has_path(ocr.rec_model)
            &&& ocr.charset@.len() > 0
        },
{
    lemma_backends(string_views(ocr.backend_priority@));
}

/// Whether a step looks only at what lies on a canvas.
pub open spec fn step_on_canvas(step: CustomWorkflowStep, width: u32, height: u32) -> bool {
    &&& step.region is Some ==> on_canvas(step.region->0, width, height)
    &&& step.point is Some ==> point_on_canvas(step.point->0, width, height)
}

proof fn lemma_steps(
    steps: Seq<CustomWorkflowStep>,
    workflow: Seq<char>,
    n: nat,
    width: u32,
    height: u32,
)
    requires
        n <= steps.len(),
    ensures
        steps_error(steps, workflow, n, width, height) is None <==> forall|i: int|
            0 <= i < n ==> step_on_canvas(#[trigger] steps[i], width, height),
    decreases n,
{
    if n > 0 {
        lemma_steps(steps, workflow, (n - 1) as nat, width, height);
        assert(step_on_canvas(steps[n - 1], width, height) || !step_on_canvas(
            steps[n - 1],
            width,
            height,
        ));
    }
}

/// The workflows are accepted exactly where each step of each that is in use looks
/// only at what lies on the screen.
pub proof fn law_workflows_are_valid(
    workflows: Seq<CustomWorkflowDefinition>,
    n: nat,
    width: u32,
    height: u32,
)
    requires
        n <= workflows.len(),
    ensures
        workflows_error(workflows, n, width, height) is None <==> forall|i: int, k: int|
            0 <= i < n && workflows[i].enabled && 0 <= k < workflows[i].steps@.len()
                ==> step_on_canvas(#[trigger] workflows[i].steps@[k], width, height),
    decreases n,
{
    if n > 0 {
        let last = workflows[n - 1];
        law_workflows_are_valid(workflows, (n - 1) as nat, width, height);
        lemma_steps(last.steps@, last.name@, last.steps@.len(), width, height);
        if last.enabled && steps_error(
            last.steps@,
            last.name@,
            last.steps@.len(),
            width,
            height,
        ) is Some {
            let k = choose|k: int|
                0 <= k < last.steps@.len() && !step_on_canvas(
                    #[trigger] last.steps@[k],
                    width,
                    height,
                );
            assert(!step_on_canvas(workflows[n - 1].steps@[k], width, height));
        }
    }
}

/// The places on the screen are accepted exactly where each region and each point lies
/// on the screen, also those of workflows that are in use.
pub proof fn law_places_are_valid(config: AppConfig)
    ensures
        config.geometry_error() is None <==> {
            &&& on_canvas(
                config.invite.friend_list_region,
                config.screen.expected_width,
                config.screen.expected_height,
            )
            &&& on_canvas(
                config.invite.friend_chat_region,
                config.screen.expected_width,
                config.screen.expected_height,
            )
            &&& on_canvas(
                config.invite.view_star_region,
                config.screen.expected_width,
                config.screen.expected_height,
            )
            &&& on_canvas(
                config.invite.goto_hall_region,
                config.screen.expected_width,
                config.screen.expected_height,
            )
            &&& on_canvas(
                config.invite.enter_hall_region,
                config.screen.expected_width,
                config.screen.expected_height,
            )
            &&& on_canvas(
                config.moderation.friend_panel_region,
                config.screen.expected_width,
                config.screen.expected_height,
            )
            &&& on_canvas(
                config.moderation.search_panel_region,
                config.screen.expected_width,
                config.screen.expected_height,
            )
            &&& on_canvas(
                config.moderation.more_settings_region,
                config.screen.expected_width,
                config.screen.expected_height,
            )
            &&& on_canvas(
                config.moderation.block_chat_region,
                config.screen.expected_width,
                config.screen.expected_height,
            )
            &&& on_canvas(
                config.moderation.blacklist_region,
                config.screen.expected_width,
                config.screen.expected_height,
            )
            &&& on_canvas(
                config.moderation.confirm_region,
                config.screen.expected_width,
                config.screen.expected_height,
            )
            &&& on_canvas(
                config.startup.enter_game_text_region,
                config.screen.expected_width,
                config.screen.expected_height,
            )
            &&& on_canvas(
                config.startup.wonderland_hall_ocr_region,
                config.screen.expected_width,
                config.screen.expected_height,
            )
            &&& on_canvas(
                config.startup.wonderland_confirm_region,
                config.screen.expected_width,
                config.screen.expected_height,
            )
            &&& on_canvas(
                config.startup.main_ui_region,
                config.screen.expected_width,
                config.screen.expected_height,
            )
            &&& on_canvas(
                config.startup.wonderland_map_star_region,
                config.screen.expected_width,
                config.screen.expected_height,
            )
            &&& point_on_canvas(
                config.window.focus_point,
                config.screen.expected_width,
                config.screen.expected_height,
            )
            &&& point_on_canvas(
                config.output.focus_point,
                config.screen.expected_width,
                config.screen.expected_height,
            )
            &&& point_on_canvas(
                config.output.chat_click_2,
                config.screen.expected_width,
                config.screen.expected_height,
            )
            &&& point_on_canvas(
                config.moderation.search_input_point,
                config.screen.expected_width,
                config.screen.expected_height,
            )
            &&& point_on_canvas(
                config.moderation.search_button_point,
                config.screen.expected_width,
                config.screen.expected_height,
            )
            &&& forall|i: int, k: int|
                0 <= i < config.custom_workflows.workflows@.len()
                    && config.custom_workflows.workflows@[i].enabled && 0 <= k
                    < config.custom_workflows.workflows@[i].steps@.len() ==> step_on_canvas(
                    #[trigger] config.custom_workflows.workflows@[i].steps@[k],
                    config.screen.expected_width,
                    config.screen.expected_height,
                )
        },
{
    law_workflows_are_valid(
        config.custom_workflows.workflows@,
        config.custom_workflows.workflows@.len(),
        config.screen.expected_width,
        config.screen.expected_height,
    );
}

/// A configuration is accepted exactly where each of its sections is, the features
/// find theirs to be valid, the player can be run, the window has a process, and the
/// window and the screen are of one size that is not empty.
pub proof fn law_whole_is_valid(config: AppConfig, outside: OutsideChecks, name: Option<Seq<char>>)
    ensures
        config.error(outside, name) is None <==> {
            &&& config.timing.error(
                error_of(outside.workflow_timing),
                error_of(outside.playback_timing),
            ) is None
            &&& outside.player_runtime is Ok
            &&& says_something(config.window.target_process@)
            &&& config.window.content_width > 0
            &&& config.window.content_height > 0
            &&& config.window.content_width == config.screen.expected_width
            &&& config.window.content_height == config.screen.expected_height
            &&& config.screen.error() is None
            &&& config.ocr.error() is None
            &&& config.templates.error() is None
            &&& config.playback.error() is None
            &&& config.http.error() is None
            &&& config.logging.error() is None
            &&& config.tui.error() is None
            &&& config.state.error(name) is None
            &&& config.hotkeys.error() is None
            &&& outside.queue is Ok
            &&& outside.song_dedup is Ok
            &&& outside.matching is Ok
            &&& outside.idiom_chain is Ok
            &&& outside.landlord is Ok
            &&& outside.undercover is Ok
            &&& outside.invite is Ok
            &&& outside.moderation is Ok
            &&& outside.custom_workflows is Ok
            &&& outside.startup is Ok
            &&& outside.ai is Ok
            &&& outside.song_review is Ok
            &&& outside.turtle_soup is Ok
            &&& config.geometry_error() is None
        },
{
}

/// The program can be started exactly where it is told where the database is.
pub proof fn law_start_is_valid(bootstrap: BootstrapConfig)
    ensures
        bootstrap.error() is None <==> bootstrap.database_path@.len() > 0,
{
}

} // verus!
