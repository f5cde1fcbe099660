//! The sections of a configuration: their fields, defaults and checks. Paths
//! are texts, and floating-point numbers are held by their bits.
use vstd::prelude::*;
use crate::config::checks::both;
use crate::config::checks::canvas_rect_error;
use crate::config::checks::copy_outcome;
use crate::config::checks::equal_lowered;
use crate::config::checks::error_if;
use crate::config::checks::error_of;
use crate::config::checks::fail_if;
use crate::config::checks::is_empty_text;
use crate::config::checks::lowered;
use crate::config::checks::or_error;
use crate::config::checks::path_error;
use crate::config::checks::point;
use crate::config::checks::positive_error;
use crate::config::checks::rect;
use crate::config::checks::to_lowered;
use crate::config::checks::unit_interval_error;
use crate::config::checks::validate_nonempty_path;
use crate::config::checks::validate_positive;
use crate::config::checks::validate_rect_in_canvas;
use crate::config::checks::validate_unit_interval;
use crate::config::checks::PointConfig;
use crate::config::checks::RectConfig;
use crate::config::checks::Single;
use crate::config::checks::INFINITY_BITS;
use crate::config::checks::NEGATIVE_ZERO_BITS;
use crate::text::cat2;
use crate::text::owned;
use crate::text::str_equal;
use crate::text::string_views;
use crate::text::trim;
use crate::text::trimmed;

verus! {

/// The window of the game.
#[derive(Clone, Debug)]
pub struct WindowConfig {
    /// The names of processes, with commas, semicolons, bars or spaces between them.
    pub target_process: String,
    pub content_width: u32,
    pub content_height: u32,
    pub auto_activate_window: bool,
    pub focus_point: PointConfig,
}

impl WindowConfig {
    /// Whether all is as it is by default.
    pub open spec fn is_default(self) -> bool {
        &&& self.target_process@ == "yuanshen.exe,GenshinImpact.exe"@
        &&& self.content_width == 1920
        &&& self.content_height == 1080
        &&& !self.auto_activate_window
        &&& self.focus_point == point(1919, 1000)
    }
}

impl Default for WindowConfig {
    fn default() -> (r: Self)
        ensures
            r.is_default(),
    {
        WindowConfig {
            target_process: owned("yuanshen.exe,GenshinImpact.exe"),
            content_width: 1920,
            content_height: 1080,
            auto_activate_window: false,
            focus_point: PointConfig::new(1919, 1000),
        }
    }
}

/// How often something must be seen before it counts.
#[derive(Clone, Copy, Debug, PartialEq, Eq, Structural)]
pub struct StabilityConfig {
    pub default_count: u32,
    pub ui_state_count: u32,
    pub secondary_hall_count: u32,
}

impl StabilityConfig {
    /// Whether all is as it is by default.
    pub open spec fn is_default(self) -> bool {
        &&& self.default_count == 2
        &&& self.ui_state_count == 0
        &&& self.secondary_hall_count == 0
    }
}

impl Default for StabilityConfig {
    fn default() -> (r: Self)
        ensures
            r.is_default(),
    {
        StabilityConfig {
            default_count: 2,
            ui_state_count: 0,
            secondary_hall_count: 0,
        }
    }
}

/// The screen and its regions.
#[derive(Clone, Copy, Debug, PartialEq, Eq, Structural)]
pub struct ScreenConfig {
    pub expected_width: u32,
    pub expected_height: u32,
    pub warn_on_size_mismatch: bool,
    pub chat_rect: RectConfig,
    pub friend_rect: RectConfig,
    pub secondary_back_rect: RectConfig,
    pub secondary_hall_rect: RectConfig,
    pub hall_name_rect: RectConfig,
    pub hall_member_count_rect: RectConfig,
    pub hall_time_rect: RectConfig,
    pub hall_member_list_rect: RectConfig,
}

impl ScreenConfig {
    /// Whether all is as it is by default.
    pub open spec fn is_default(self) -> bool {
        &&& self.expected_width == 1920
        &&& self.expected_height == 1080
        &&& self.warn_on_size_mismatch
        &&& self.chat_rect == rect(39, 879, 416, 143)
        &&& self.friend_rect == rect(170, 1018, 50, 40)
        &&& self.secondary_back_rect == rect(15, 15, 65, 65)
        &&& self.secondary_hall_rect == rect(10, 190, 65, 55)
        &&& self.hall_name_rect == rect(75, 425, 325, 40)
        &&& self.hall_member_count_rect == rect(75, 470, 450, 50)
        &&& self.hall_time_rect == rect(430, 520, 110, 40)
        &&& self.hall_member_list_rect == rect(1280, 110, 560, 850)
    }
}

impl Default for ScreenConfig {
    fn default() -> (r: Self)
        ensures
            r.is_default(),
    {
        ScreenConfig {
            expected_width: 1920,
            expected_height: 1080,
            warn_on_size_mismatch: true,
            chat_rect: RectConfig { x: 39, y: 879, width: 416, height: 143 },
            friend_rect: RectConfig { x: 170, y: 1018, width: 50, height: 40 },
            secondary_back_rect: RectConfig { x: 15, y: 15, width: 65, height: 65 },
            secondary_hall_rect: RectConfig { x: 10, y: 190, width: 65, height: 55 },
            hall_name_rect: RectConfig { x: 75, y: 425, width: 325, height: 40 },
            hall_member_count_rect: RectConfig { x: 75, y: 470, width: 450, height: 50 },
            hall_time_rect: RectConfig { x: 430, y: 520, width: 110, height: 40 },
            hall_member_list_rect: RectConfig { x: 1280, y: 110, width: 560, height: 850 },
        }
    }
}

impl ScreenConfig {
    /// The first error of the section.
    pub open spec fn error(self) -> Option<Seq<char>> {
        let error = canvas_rect_error(
            self.chat_rect,
            "screen.chat_rect"@,
            self.expected_width,
            self.expected_height,
        );
        let error = or_error(
            error,
            canvas_rect_error(
                self.friend_rect,
                "screen.friend_rect"@,
                self.expected_width,
                self.expected_height,
            ),
        );
        let error = or_error(
            error,
            canvas_rect_error(
                self.secondary_back_rect,
                "screen.secondary_back_rect"@,
                self.expected_width,
                self.expected_height,
            ),
        );
        let error = or_error(
            error,
            canvas_rect_error(
                self.secondary_hall_rect,
                "screen.secondary_hall_rect"@,
                self.expected_width,
                self.expected_height,
            ),
        );
        let error = or_error(
            error,
            canvas_rect_error(
                self.hall_name_rect,
                "screen.hall_name_rect"@,
                self.expected_width,
                self.expected_height,
            ),
        );
        let error = or_error(
            error,
            canvas_rect_error(
                self.hall_member_count_rect,
                "screen.hall_member_count_rect"@,
                self.expected_width,
                self.expected_height,
            ),
        );
        let error = or_error(
            error,
            canvas_rect_error(
                self.hall_time_rect,
                "screen.hall_time_rect"@,
                self.expected_width,
                self.expected_height,
            ),
        );
        let error = or_error(
            error,
            canvas_rect_error(
                self.hall_member_list_rect,
                "screen.hall_member_list_rect"@,
                self.expected_width,
                self.expected_height,
            ),
        );
        error
    }

    /// Checks the section.
    pub fn validate(&self) -> (r: Result<(), String>)
        ensures
            error_of(r) == self.error(),
    {
        let r = validate_rect_in_canvas(
            self.chat_rect,
            "screen.chat_rect",
            self.expected_width,
            self.expected_height,
        );
        let r = both(
            r,
            validate_rect_in_canvas(
                self.friend_rect,
                "screen.friend_rect",
                self.expected_width,
                self.expected_height,
            ),
        );
        let r = both(
            r,
            validate_rect_in_canvas(
                self.secondary_back_rect,
                "screen.secondary_back_rect",
                self.expected_width,
                self.expected_height,
            ),
        );
        let r = both(
            r,
            validate_rect_in_canvas(
                self.secondary_hall_rect,
                "screen.secondary_hall_rect",
                self.expected_width,
                self.expected_height,
            ),
        );
        let r = both(
            r,
            validate_rect_in_canvas(
                self.hall_name_rect,
                "screen.hall_name_rect",
                self.expected_width,
                self.expected_height,
            ),
        );
        let r = both(
            r,
            validate_rect_in_canvas(
                self.hall_member_count_rect,
                "screen.hall_member_count_rect",
                self.expected_width,
                self.expected_height,
            ),
        );
        let r = both(
            r,
            validate_rect_in_canvas(
                self.hall_time_rect,
                "screen.hall_time_rect",
                self.expected_width,
                self.expected_height,
            ),
        );
        let r = both(
            r,
            validate_rect_in_canvas(
                self.hall_member_list_rect,
                "screen.hall_member_list_rect",
                self.expected_width,
                self.expected_height,
            ),
        );
        r
    }
}

/// Times of looking at the chat, in milliseconds.
#[derive(Clone, Copy, Debug, PartialEq, Eq, Structural)]
pub struct ChatScanTimingConfig {
    pub fallback_ms: u64,
    pub change_debounce_ms: u64,
    pub change_cooldown_ms: u64,
}

impl ChatScanTimingConfig {
    /// Whether all is as it is by default.
    pub open spec fn is_default(self) -> bool {
        &&& self.fallback_ms == 2000
        &&& self.change_debounce_ms == 120
        &&& self.change_cooldown_ms == 250
    }
}

impl Default for ChatScanTimingConfig {
    fn default() -> (r: Self)
        ensures
            r.is_default(),
    {
        ChatScanTimingConfig {
            fallback_ms: 2000,
            change_debounce_ms: 120,
            change_cooldown_ms: 250,
        }
    }
}

/// Times of commands, in milliseconds.
#[derive(Clone, Copy, Debug, PartialEq, Eq, Structural)]
pub struct CommandTimingConfig {
    pub ui_timeout_ms: u64,
    pub return_retry_ms: u64,
    pub post_settle_ms: u64,
    pub help_batch_ms: u64,
}

impl CommandTimingConfig {
    /// Whether all is as it is by default.
    pub open spec fn is_default(self) -> bool {
        &&& self.ui_timeout_ms == 15000
        &&& self.return_retry_ms == 1000
        &&& self.post_settle_ms == 500
        &&& self.help_batch_ms == 500
    }
}

impl Default for CommandTimingConfig {
    fn default() -> (r: Self)
        ensures
            r.is_default(),
    {
        CommandTimingConfig {
            ui_timeout_ms: 15000,
            return_retry_ms: 1000,
            post_settle_ms: 500,
            help_batch_ms: 500,
        }
    }
}

/// Times of input, in milliseconds.
#[derive(Clone, Copy, Debug, PartialEq, Eq, Structural)]
pub struct InputTimingConfig {
    pub after_activate_ms: u64,
    pub focus_ms: u64,
    pub open_chat_ms: u64,
    pub click_ms: u64,
    pub text_ms: u64,
    pub send_ms: u64,
}

impl InputTimingConfig {
    /// Whether all is as it is by default.
    pub open spec fn is_default(self) -> bool {
        &&& self.after_activate_ms == 200
        &&& self.focus_ms == 300
        &&& self.open_chat_ms == 300
        &&& self.click_ms == 150
        &&& self.text_ms == 250
        &&& self.send_ms == 300
    }
}

impl Default for InputTimingConfig {
    fn default() -> (r: Self)
        ensures
            r.is_default(),
    {
        InputTimingConfig {
            after_activate_ms: 200,
            focus_ms: 300,
            open_chat_ms: 300,
            click_ms: 150,
            text_ms: 250,
            send_ms: 300,
        }
    }
}

/// Times of the hall, in milliseconds.
#[derive(Clone, Copy, Debug, PartialEq, Eq, Structural)]
pub struct HallTimingConfig {
    pub page_settle_ms: u64,
    pub ocr_sample_interval_ms: u64,
}

impl HallTimingConfig {
    /// Whether all is as it is by default.
    pub open spec fn is_default(self) -> bool {
        &&& self.page_settle_ms == 800
        &&& self.ocr_sample_interval_ms == 120
    }
}

impl Default for HallTimingConfig {
    fn default() -> (r: Self)
        ensures
            r.is_default(),
    {
        HallTimingConfig {
            page_settle_ms: 800,
            ocr_sample_interval_ms: 120,
        }
    }
}

/// Times of decisions, in milliseconds.
#[derive(Clone, Copy, Debug, PartialEq, Eq, Structural)]
pub struct DecisionTimingConfig {
    pub timeout_ms: u64,
    pub poll_ms: u64,
}

impl DecisionTimingConfig {
    /// Whether all is as it is by default.
    pub open spec fn is_default(self) -> bool {
        &&& self.timeout_ms == 20000
        &&& self.poll_ms == 2000
    }
}

impl Default for DecisionTimingConfig {
    fn default() -> (r: Self)
        ensures
            r.is_default(),
    {
        DecisionTimingConfig {
            timeout_ms: 20000,
            poll_ms: 2000,
        }
    }
}

/// Times of outside work, in milliseconds.
#[derive(Clone, Copy, Debug, PartialEq, Eq, Structural)]
pub struct ExternalTimingConfig {
    pub volume_smooth_step_ms: u64,
    pub ai_request_timeout_ms: u64,
}

impl ExternalTimingConfig {
    /// Whether all is as it is by default.
    pub open spec fn is_default(self) -> bool {
        &&& self.volume_smooth_step_ms == 300
        &&& self.ai_request_timeout_ms == 35000
    }
}

impl Default for ExternalTimingConfig {
    fn default() -> (r: Self)
        ensures
            r.is_default(),
    {
        ExternalTimingConfig {
            volume_smooth_step_ms: 300,
            ai_request_timeout_ms: 35000,
        }
    }
}

/// Times of workflows, in milliseconds.
#[derive(Clone, Copy, Debug, PartialEq, Eq, Structural)]
pub struct WorkflowTimingConfig {
    pub default_timeout_ms: u64,
    pub default_poll_ms: u64,
    pub default_step_wait_ms: u64,
}

/// Times of invitations, in milliseconds.
#[derive(Clone, Copy, Debug, PartialEq, Eq, Structural)]
pub struct InviteTimingConfig {
    pub open_chat_ms: u64,
    pub step_ms: u64,
    pub confirm_timeout_ms: u64,
    pub confirm_poll_ms: u64,
}

/// Times of moderation, in milliseconds.
#[derive(Clone, Copy, Debug, PartialEq, Eq, Structural)]
pub struct ModerationTimingConfig {
    pub vote_timeout_ms: u64,
    pub vote_poll_ms: u64,
    pub search_result_timeout_ms: u64,
    pub confirm_wait_ms: u64,
}

/// Times of playback, in milliseconds, and how often something must be seen.
#[derive(Clone, Copy, Debug, PartialEq, Eq, Structural)]
pub struct PlaybackTimingConfig {
    pub status_poll_ms: u64,
    pub monitor_tick_ms: u64,
    pub monitor_status_ms: u64,
    pub uri_stable_samples: u32,
    pub transport_stable_samples: u32,
    pub stale_timeout_ms: u64,
    /// How much sooner than they are sung lyrics are shown, in seconds.
    pub lyrics_lead_seconds: Single,
}

/// All times, in milliseconds.
#[derive(Clone, Copy, Debug, PartialEq, Eq, Structural)]
pub struct TimingConfig {
    pub watchdog_restart_ms: u64,
    pub loop_idle_ms: u64,
    pub chat_scan: ChatScanTimingConfig,
    pub command: CommandTimingConfig,
    pub input: InputTimingConfig,
    pub workflow: WorkflowTimingConfig,
    pub hall: HallTimingConfig,
    pub invite: InviteTimingConfig,
    pub moderation: ModerationTimingConfig,
    pub playback: PlaybackTimingConfig,
    pub decision: DecisionTimingConfig,
    pub external: ExternalTimingConfig,
}

impl TimingConfig {
    /// Whether all is as it is by default, with given times of the features.
    pub open spec fn is_default(
        self,
        workflow: WorkflowTimingConfig,
        invite: InviteTimingConfig,
        moderation: ModerationTimingConfig,
        playback: PlaybackTimingConfig,
    ) -> bool {
        &&& self.watchdog_restart_ms == 2000
        &&& self.loop_idle_ms == 60
        &&& self.chat_scan.is_default()
        &&& self.command.is_default()
        &&& self.input.is_default()
        &&& self.workflow == workflow
        &&& self.hall.is_default()
        &&& self.invite == invite
        &&& self.moderation == moderation
        &&& self.playback == playback
        &&& self.decision.is_default()
        &&& self.external.is_default()
    }

    /// The default times, with given times of the features.
    pub fn with_features(
        workflow: WorkflowTimingConfig,
        invite: InviteTimingConfig,
        moderation: ModerationTimingConfig,
        playback: PlaybackTimingConfig,
    ) -> (r: Self)
        ensures
            r.is_default(workflow, invite, moderation, playback),
    {
        TimingConfig {
            watchdog_restart_ms: 2000,
            loop_idle_ms: 60,
            chat_scan: ChatScanTimingConfig::default(),
            command: CommandTimingConfig::default(),
            input: InputTimingConfig::default(),
            workflow,
            hall: HallTimingConfig::default(),
            invite,
            moderation,
            playback,
            decision: DecisionTimingConfig::default(),
            external: ExternalTimingConfig::default(),
        }
    }
}

impl TimingConfig {
    /// The first error of the section.
    pub open spec fn error(self, workflow: Option<Seq<char>>, playback: Option<Seq<char>>) -> Option<Seq<char>> {
        let error = positive_error(self.watchdog_restart_ms as int, "timing.watchdog_restart_ms"@);
        let error = or_error(
            error,
            positive_error(self.loop_idle_ms as int, "timing.loop_idle_ms"@),
        );
        let error = or_error(
            error,
            positive_error(self.chat_scan.fallback_ms as int, "timing.chat_scan.fallback_ms"@),
        );
        let error = or_error(
            error,
            positive_error(
                self.chat_scan.change_debounce_ms as int,
                "timing.chat_scan.change_debounce_ms"@,
            ),
        );
        let error = or_error(
            error,
            positive_error(
                self.chat_scan.change_cooldown_ms as int,
                "timing.chat_scan.change_cooldown_ms"@,
            ),
        );
        let error = or_error(
            error,
            positive_error(self.command.ui_timeout_ms as int, "timing.command.ui_timeout_ms"@),
        );
        let error = or_error(
            error,
            positive_error(
                self.command.return_retry_ms as int,
                "timing.command.return_retry_ms"@,
            ),
        );
        let error = or_error(
            error,
            positive_error(self.command.post_settle_ms as int, "timing.command.post_settle_ms"@),
        );
        let error = or_error(
            error,
            positive_error(self.command.help_batch_ms as int, "timing.command.help_batch_ms"@),
        );
        let error = or_error(
            error,
            positive_error(
                self.input.after_activate_ms as int,
                "timing.input.after_activate_ms"@,
            ),
        );
        let error = or_error(
            error,
            positive_error(self.input.focus_ms as int, "timing.input.focus_ms"@),
        );
        let error = or_error(
            error,
            positive_error(self.input.open_chat_ms as int, "timing.input.open_chat_ms"@),
        );
        let error = or_error(
            error,
            positive_error(self.input.click_ms as int, "timing.input.click_ms"@),
        );
        let error = or_error(
            error,
            positive_error(self.input.text_ms as int, "timing.input.text_ms"@),
        );
        let error = or_error(
            error,
            positive_error(self.input.send_ms as int, "timing.input.send_ms"@),
        );
        let error = or_error(
            error,
            positive_error(self.hall.page_settle_ms as int, "timing.hall.page_settle_ms"@),
        );
        let error = or_error(
            error,
            positive_error(
                self.hall.ocr_sample_interval_ms as int,
                "timing.hall.ocr_sample_interval_ms"@,
            ),
        );
        let error = or_error(
            error,
            positive_error(self.decision.timeout_ms as int, "timing.decision.timeout_ms"@),
        );
        let error = or_error(
            error,
            positive_error(self.decision.poll_ms as int, "timing.decision.poll_ms"@),
        );
        let error = or_error(
            error,
            positive_error(
                self.external.volume_smooth_step_ms as int,
                "timing.external.volume_smooth_step_ms"@,
            ),
        );
        let error = or_error(
            error,
            positive_error(
                self.external.ai_request_timeout_ms as int,
                "timing.external.ai_request_timeout_ms"@,
            ),
        );
        let error = or_error(error, workflow);
        let error = or_error(error, playback);
        error
    }

    /// Checks the section.
    pub fn validate(&self, workflow: &Result<(), String>, playback: &Result<(), String>) -> (r: Result<(), String>)
        ensures
            error_of(r) == self.error(error_of(*workflow), error_of(*playback)),
    {
        let r = validate_positive(self.watchdog_restart_ms, "timing.watchdog_restart_ms");
        let r = both(r, validate_positive(self.loop_idle_ms, "timing.loop_idle_ms"));
        let r = both(
            r,
            validate_positive(self.chat_scan.fallback_ms, "timing.chat_scan.fallback_ms"),
        );
        let r = both(
            r,
            validate_positive(
                self.chat_scan.change_debounce_ms,
                "timing.chat_scan.change_debounce_ms",
            ),
        );
        let r = both(
            r,
            validate_positive(
                self.chat_scan.change_cooldown_ms,
                "timing.chat_scan.change_cooldown_ms",
            ),
        );
        let r = both(
            r,
            validate_positive(self.command.ui_timeout_ms, "timing.command.ui_timeout_ms"),
        );
        let r = both(
            r,
            validate_positive(self.command.return_retry_ms, "timing.command.return_retry_ms"),
        );
        let r = both(
            r,
            validate_positive(self.command.post_settle_ms, "timing.command.post_settle_ms"),
        );
        let r = both(
            r,
            validate_positive(self.command.help_batch_ms, "timing.command.help_batch_ms"),
        );
        let r = both(
            r,
            validate_positive(self.input.after_activate_ms, "timing.input.after_activate_ms"),
        );
        let r = both(r, validate_positive(self.input.focus_ms, "timing.input.focus_ms"));
        let r = both(r, validate_positive(self.input.open_chat_ms, "timing.input.open_chat_ms"));
        let r = both(r, validate_positive(self.input.click_ms, "timing.input.click_ms"));
        let r = both(r, validate_positive(self.input.text_ms, "timing.input.text_ms"));
        let r = both(r, validate_positive(self.input.send_ms, "timing.input.send_ms"));
        let r = both(r, validate_positive(self.hall.page_settle_ms, "timing.hall.page_settle_ms"));
        let r = both(
            r,
            validate_positive(
                self.hall.ocr_sample_interval_ms,
                "timing.hall.ocr_sample_interval_ms",
            ),
        );
        let r = both(r, validate_positive(self.decision.timeout_ms, "timing.decision.timeout_ms"));
        let r = both(r, validate_positive(self.decision.poll_ms, "timing.decision.poll_ms"));
        let r = both(
            r,
            validate_positive(
                self.external.volume_smooth_step_ms,
                "timing.external.volume_smooth_step_ms",
            ),
        );
        let r = both(
            r,
            validate_positive(
                self.external.ai_request_timeout_ms,
                "timing.external.ai_request_timeout_ms",
            ),
        );
        let r = both(r, copy_outcome(workflow));
        let r = both(r, copy_outcome(playback));
        r
    }
}

/// The models of OpenVINO.
#[derive(Clone, Debug)]
pub struct OpenVinoConfig {
    pub det_model: Option<String>,
    pub det_weights: Option<String>,
    pub rec_model: Option<String>,
    pub rec_weights: Option<String>,
    pub device: String,
    pub cache_dir: Option<String>,
}

impl OpenVinoConfig {
    /// Whether all is as it is by default.
    pub open spec fn is_default(self) -> bool {
        &&& self.det_model matches Some(path) && path@ == "deps/models/PP-OCRv6_small_det.xml"@
        &&& self.det_weights matches Some(path) && path@ == "deps/models/PP-OCRv6_small_det.bin"@
        &&& self.rec_model matches Some(path) && path@ == "deps/models/PP-OCRv6_small_rec.xml"@
        &&& self.rec_weights matches Some(path) && path@ == "deps/models/PP-OCRv6_small_rec.bin"@
        &&& self.device@ == "CPU"@
        &&& self.cache_dir matches Some(path) && path@ == "deps/data/openvino-cache"@
    }
}

impl Default for OpenVinoConfig {
    fn default() -> (r: Self)
        ensures
            r.is_default(),
    {
        OpenVinoConfig {
            det_model: Some(owned("deps/models/PP-OCRv6_small_det.xml")),
            det_weights: Some(owned("deps/models/PP-OCRv6_small_det.bin")),
            rec_model: Some(owned("deps/models/PP-OCRv6_small_rec.xml")),
            rec_weights: Some(owned("deps/models/PP-OCRv6_small_rec.bin")),
            device: owned("CPU"),
            cache_dir: Some(owned("deps/data/openvino-cache")),
        }
    }
}

/// How text is read from the screen.
#[derive(Clone, Debug)]
pub struct OcrConfig {
    pub det_model: Option<String>,
    pub rec_model: Option<String>,
    pub charset: String,
    pub min_confidence: Single,
    pub threads: i32,
    pub request_timeout_ms: u64,
    pub shutdown_timeout_ms: u64,
    pub backend_priority: Vec<String>,
    pub openvino: OpenVinoConfig,
    pub det_max_side_len: u32,
    pub det_score_threshold: Single,
    pub det_unclip_ratio: Single,
    pub det_min_area: u32,
    pub det_box_border: u32,
    pub change_mean_threshold: Single,
    pub change_pixel_threshold: Single,
    pub text_left_gap: i32,
    pub block_top_padding: i32,
    pub block_bottom_padding: i32,
    pub max_block_height: i32,
    pub same_line_y_tolerance: i32,
    pub marker_dedupe_x: i32,
    pub marker_dedupe_y: i32,
    pub next_marker_min_gap: i32,
    pub right_padding: i32,
    pub batch_recognize: bool,
}

impl OcrConfig {
    /// Whether all is as it is by default.
    pub open spec fn is_default(self) -> bool {
        &&& self.det_model matches Some(path) && path@ == "deps/models/PP-OCRv6_small_det.mnn"@
        &&& self.rec_model matches Some(path) && path@ == "deps/models/PP-OCRv6_small_rec.mnn"@
        &&& self.charset@ == "deps/models/ppocr_keys_v6_small.txt"@
        &&& self.min_confidence.bits == 0x3f66_6666
        &&& self.threads == 4
        &&& self.request_timeout_ms == 10000
        &&& self.shutdown_timeout_ms == 5000
        &&& string_views(self.backend_priority@) == seq!["cpu"@]
        &&& self.openvino.is_default()
        &&& self.det_max_side_len == 960
        &&& self.det_score_threshold.bits == 0x3e99_999a
        &&& self.det_unclip_ratio.bits == 0x4000_0000
        &&& self.det_min_area == 9
        &&& self.det_box_border == 0
        &&& self.change_mean_threshold.bits == 0x40c0_0000
        &&& self.change_pixel_threshold.bits == 0x3cf5_c28f
        &&& self.text_left_gap == 8
        &&& self.block_top_padding == 2
        &&& self.block_bottom_padding == 2
        &&& self.max_block_height == 120
        &&& self.same_line_y_tolerance == 10
        &&& self.marker_dedupe_x == 8
        &&& self.marker_dedupe_y == 8
        &&& self.next_marker_min_gap == 12
        &&& self.right_padding == 4
        &&& !self.batch_recognize
    }
}

impl Default for OcrConfig {
    fn default() -> (r: Self)
        ensures
            r.is_default(),
    {
        let backend_priority = vec![owned("cpu")];
        assert(string_views(backend_priority@) =~= seq!["cpu"@]);
        OcrConfig {
            det_model: Some(owned("deps/models/PP-OCRv6_small_det.mnn")),
            rec_model: Some(owned("deps/models/PP-OCRv6_small_rec.mnn")),
            charset: owned("deps/models/ppocr_keys_v6_small.txt"),
            min_confidence: Single { bits: 0x3f66_6666 },
            threads: 4,
            request_timeout_ms: 10000,
            shutdown_timeout_ms: 5000,
            backend_priority,
            openvino: OpenVinoConfig::default(),
            det_max_side_len: 960,
            det_score_threshold: Single { bits: 0x3e99_999a },
            det_unclip_ratio: Single { bits: 0x4000_0000 },
            det_min_area: 9,
            det_box_border: 0,
            change_mean_threshold: Single { bits: 0x40c0_0000 },
            change_pixel_threshold: Single { bits: 0x3cf5_c28f },
            text_left_gap: 8,
            block_top_padding: 2,
            block_bottom_padding: 2,
            max_block_height: 120,
            same_line_y_tolerance: 10,
            marker_dedupe_x: 8,
            marker_dedupe_y: 8,
            next_marker_min_gap: 12,
            right_padding: 4,
            batch_recognize: false,
        }
    }
}

/// The error of a model that is missing or has no path.
pub open spec fn model_error(
    path: Option<String>,
    field: Seq<char>,
    missing: Seq<char>,
) -> Option<Seq<char>> {
    match path {
        Some(path) => path_error(path@, field),
        None => Some(field + missing),
    }
}

/// Fails where a model is missing or has no path.
fn validate_model(path: &Option<String>, field: &str, missing: &str) -> (r: Result<(), String>)
    ensures
        error_of(r) == model_error(*path, field@, missing@),
{
    match path {
        Some(path) => validate_nonempty_path(path.as_str(), field),
        None => Err(cat2(field, missing)),
    }
}

/// The error of a path that may be missing but not empty.
pub open spec fn optional_path_error(path: Option<String>, field: Seq<char>) -> Option<Seq<char>> {
    match path {
        Some(path) => path_error(path@, field),
        None => None,
    }
}

fn validate_optional_path(path: &Option<String>, field: &str) -> (r: Result<(), String>)
    ensures
        error_of(r) == optional_path_error(*path, field@),
{
    match path {
        Some(path) => validate_nonempty_path(path.as_str(), field),
        None => Ok(()),
    }
}

/// Whether a text is blank.
pub open spec fn blank(text: Seq<char>) -> bool {
    trimmed(text).len() == 0
}

/// Whether a text is blank.
pub fn is_blank(text: &str) -> (r: bool)
    ensures
        r == blank(text@),
{
    is_empty_text(trim(text).as_str())
}

impl OpenVinoConfig {
    /// The first error of the section.
    pub open spec fn error(self) -> Option<Seq<char>> {
        let error = model_error(
            self.det_model,
            "ocr.openvino.det_model"@,
            " 在启用 OpenVINO 后端时不能为空"@,
        );
        let error = or_error(
            error,
            model_error(
                self.det_weights,
                "ocr.openvino.det_weights"@,
                " 在启用 OpenVINO 后端时不能为空"@,
            ),
        );
        let error = or_error(
            error,
            model_error(
                self.rec_model,
                "ocr.openvino.rec_model"@,
                " 在启用 OpenVINO 后端时不能为空"@,
            ),
        );
        let error = or_error(
            error,
            model_error(
                self.rec_weights,
                "ocr.openvino.rec_weights"@,
                " 在启用 OpenVINO 后端时不能为空"@,
            ),
        );
        let error = or_error(
            error,
            error_if(blank(self.device@), "ocr.openvino.device 不能为空"@),
        );
        let error = or_error(error, optional_path_error(self.cache_dir, "ocr.openvino.cache_dir"@));
        error
    }

    /// Checks the section.
    pub fn validate(&self) -> (r: Result<(), String>)
        ensures
            error_of(r) == self.error(),
    {
        let r = validate_model(
            &self.det_model,
            "ocr.openvino.det_model",
            " 在启用 OpenVINO 后端时不能为空",
        );
        let r = both(
            r,
            validate_model(
                &self.det_weights,
                "ocr.openvino.det_weights",
                " 在启用 OpenVINO 后端时不能为空",
            ),
        );
        let r = both(
            r,
            validate_model(
                &self.rec_model,
                "ocr.openvino.rec_model",
                " 在启用 OpenVINO 后端时不能为空",
            ),
        );
        let r = both(
            r,
            validate_model(
                &self.rec_weights,
                "ocr.openvino.rec_weights",
                " 在启用 OpenVINO 后端时不能为空",
            ),
        );
        let r = both(
            r,
            fail_if(is_blank(self.device.as_str()), "ocr.openvino.device 不能为空"),
        );
        let r = both(r, validate_optional_path(&self.cache_dir, "ocr.openvino.cache_dir"));
        r
    }
}

/// The name of a backend: without spaces around it, in lower case.
pub open spec fn backend_name(backend: Seq<char>) -> Seq<char> {
    lowered(trimmed(backend))
}

/// Whether there is a backend of a name.
pub open spec fn supported_backend(name: Seq<char>) -> bool {
    ||| name == "cuda"@
    ||| name == "vulkan"@
    ||| name == "opencl"@
    ||| name == "open-cl"@
    ||| name == "openvino"@
    ||| name == "cpu"@
}

/// The error of the first backend that there is not.
pub open spec fn backends_error(backends: Seq<Seq<char>>) -> Option<Seq<char>>
    decreases backends.len(),
{
    if backends.len() == 0 {
        None
    } else {
        or_error(
            backends_error(backends.drop_last()),
            error_if(
                !supported_backend(backend_name(backends.last())),
                "ocr.backend_priority 包含不支持的后端: "@ + backends.last(),
            ),
        )
    }
}

/// Whether OpenVINO is among some backends.
pub open spec fn openvino_selected(backends: Seq<Seq<char>>) -> bool {
    exists|i: int| 0 <= i < backends.len() && backend_name(#[trigger] backends[i]) == "openvino"@
}

/// Whether something else than OpenVINO is among some backends.
pub open spec fn mnn_selected(backends: Seq<Seq<char>>) -> bool {
    exists|i: int| 0 <= i < backends.len() && backend_name(#[trigger] backends[i]) != "openvino"@
}

fn name_of_backend(backend: &str) -> (r: String)
    ensures
        r@ == backend_name(backend@),
{
    to_lowered(trim(backend).as_str())
}

fn validate_backends(backends: &Vec<String>) -> (r: Result<(), String>)
    ensures
        error_of(r) == backends_error(string_views(backends@)),
{
    let ghost views = string_views(backends@);
    let mut r: Result<(), String> = Ok(());
    let mut i: usize = 0;
    while i < backends.len()
        invariant
            i <= backends@.len(),
            views == string_views(backends@),
            error_of(r) == backends_error(views.take(i as int)),
        decreases backends@.len() - i,
    {
        let name = name_of_backend(backends[i].as_str());
        let known = str_equal(name.as_str(), "cuda") || str_equal(name.as_str(), "vulkan")
            || str_equal(name.as_str(), "opencl") || str_equal(name.as_str(), "open-cl")
            || str_equal(name.as_str(), "openvino") || str_equal(name.as_str(), "cpu");
        proof {
            assert(views.take(i + 1).drop_last() =~= views.take(i as int));
            assert(views.take(i + 1).last() == backends@[i as int]@);
        }
        let text = cat2("ocr.backend_priority 包含不支持的后端: ", backends[i].as_str());
        r = both(r, fail_if(!known, text.as_str()));
        i = i + 1;
    }
    assert(views.take(views.len() as int) =~= views);
    r
}

/// Whether OpenVINO, or something else, is among some backends.
fn selected_backends(backends: &Vec<String>) -> (r: (bool, bool))
    ensures
        r.0 == openvino_selected(string_views(backends@)),
        r.1 == mnn_selected(string_views(backends@)),
{
    let ghost views = string_views(backends@);
    let mut openvino = false;
    let mut mnn = false;
    let mut i: usize = 0;
    while i < backends.len()
        invariant
            i <= backends@.len(),
            views == string_views(backends@),
            openvino == exists|k: int|
                0 <= k < i && backend_name(#[trigger] views[k]) == "openvino"@,
            mnn == exists|k: int| 0 <= k < i && backend_name(#[trigger] views[k]) != "openvino"@,
        decreases backends@.len() - i,
    {
        assert(views[i as int] == backends@[i as int]@);
        if str_equal(name_of_backend(backends[i].as_str()).as_str(), "openvino") {
            openvino = true;
        } else {
            mnn = true;
        }
        i = i + 1;
    }
    (openvino, mnn)
}

impl OcrConfig {
    /// The errors of what the backends need.
    pub open spec fn backend_error(self) -> Option<Seq<char>> {
        let backends = string_views(self.backend_priority@);
        let error = if openvino_selected(backends) {
            self.openvino.error()
        } else {
            None
        };
        if mnn_selected(backends) {
            let error = or_error(
                error,
                model_error(self.det_model, "ocr.det_model"@, " 在启用 MNN 后端时不能为空"@),
            );
            or_error(
                error,
                model_error(self.rec_model, "ocr.rec_model"@, " 在启用 MNN 后端时不能为空"@),
            )
        } else {
            error
        }
    }

    fn validate_backend_needs(&self) -> (r: Result<(), String>)
        ensures
            error_of(r) == self.backend_error(),
    {
        let (openvino, mnn) = selected_backends(&self.backend_priority);
        let r = if openvino {
            self.openvino.validate()
        } else {
            Ok(())
        };
        if !mnn {
            return r;
        }
        let r = both(
            r,
            validate_model(&self.det_model, "ocr.det_model", " 在启用 MNN 后端时不能为空"),
        );
        both(r, validate_model(&self.rec_model, "ocr.rec_model", " 在启用 MNN 后端时不能为空"))
    }
}

impl OcrConfig {
    /// The first error of the section.
    pub open spec fn error(self) -> Option<Seq<char>> {
        let error = positive_error(self.request_timeout_ms as int, "ocr.request_timeout_ms"@);
        let error = or_error(
            error,
            positive_error(self.shutdown_timeout_ms as int, "ocr.shutdown_timeout_ms"@),
        );
        let error = or_error(
            error,
            unit_interval_error(self.min_confidence, "ocr.min_confidence"@),
        );
        let error = or_error(
            error,
            unit_interval_error(self.det_score_threshold, "ocr.det_score_threshold"@),
        );
        let error = or_error(
            error,
            unit_interval_error(self.change_pixel_threshold, "ocr.change_pixel_threshold"@),
        );
        let error = or_error(
            error,
            error_if(
                !self.change_mean_threshold.finite_not_negative(),
                "ocr.change_mean_threshold 必须是非负有限小数"@,
            ),
        );
        let error = or_error(error, error_if(self.threads <= 0, "ocr.threads 必须大于 0"@));
        let error = or_error(
            error,
            error_if(
                self.det_max_side_len == 0 || self.det_min_area == 0 || self.max_block_height <= 0,
                "OCR 检测尺寸和文本块高度必须大于 0"@,
            ),
        );
        let error = or_error(
            error,
            error_if(
                !self.det_unclip_ratio.finite_positive(),
                "ocr.det_unclip_ratio 必须是正有限小数"@,
            ),
        );
        let error = or_error(
            error,
            error_if(self.backend_priority@.len() == 0, "ocr.backend_priority 不能为空"@),
        );
        let error = or_error(error, backends_error(string_views(self.backend_priority@)));
        let error = or_error(error, self.backend_error());
        let error = or_error(error, path_error(self.charset@, "ocr.charset"@));
        error
    }

    /// Checks the section.
    pub fn validate(&self) -> (r: Result<(), String>)
        ensures
            error_of(r) == self.error(),
    {
        let r = validate_positive(self.request_timeout_ms, "ocr.request_timeout_ms");
        let r = both(r, validate_positive(self.shutdown_timeout_ms, "ocr.shutdown_timeout_ms"));
        let r = both(r, validate_unit_interval(self.min_confidence, "ocr.min_confidence"));
        let r = both(
            r,
            validate_unit_interval(self.det_score_threshold, "ocr.det_score_threshold"),
        );
        let r = both(
            r,
            validate_unit_interval(self.change_pixel_threshold, "ocr.change_pixel_threshold"),
        );
        let r = both(
            r,
            fail_if(
                !(self.change_mean_threshold.bits < INFINITY_BITS || self.change_mean_threshold.bits == NEGATIVE_ZERO_BITS),
                "ocr.change_mean_threshold 必须是非负有限小数",
            ),
        );
        let r = both(r, fail_if(self.threads <= 0, "ocr.threads 必须大于 0"));
        let r = both(
            r,
            fail_if(
                self.det_max_side_len == 0 || self.det_min_area == 0 || self.max_block_height <= 0,
                "OCR 检测尺寸和文本块高度必须大于 0",
            ),
        );
        let r = both(
            r,
            fail_if(
                !(0 < self.det_unclip_ratio.bits && self.det_unclip_ratio.bits < INFINITY_BITS),
                "ocr.det_unclip_ratio 必须是正有限小数",
            ),
        );
        let r = both(
            r,
            fail_if(self.backend_priority.len() == 0, "ocr.backend_priority 不能为空"),
        );
        let r = both(r, validate_backends(&self.backend_priority));
        let r = both(r, self.validate_backend_needs());
        let r = both(r, validate_nonempty_path(self.charset.as_str(), "ocr.charset"));
        r
    }
}

/// The images that are looked for.
#[derive(Clone, Debug)]
pub struct TemplateConfig {
    pub blue_marker: String,
    pub yellow_marker: String,
    pub pink_marker: String,
    pub friend: String,
    pub secondary_back: String,
    pub secondary_hall: String,
    pub invite_view_star: String,
    pub invite_goto_hall: String,
    pub invite_enter_hall: String,
    pub friend_panel: String,
    pub friend_search_panel: String,
    pub friend_more_settings: String,
    pub friend_block_chat: String,
    pub friend_blacklist: String,
    pub friend_confirm: String,
    pub marker_threshold: Single,
}

impl TemplateConfig {
    /// Whether all is as it is by default.
    pub open spec fn is_default(self) -> bool {
        &&& self.blue_marker@ == "deps/assets/chat-marker-blue.png"@
        &&& self.yellow_marker@ == "deps/assets/chat-marker-yellow.png"@
        &&& self.pink_marker@ == "deps/assets/chat-marker-pink.png"@
        &&& self.friend@ == "deps/assets/ui-primary-friend.png"@
        &&& self.secondary_back@ == "deps/assets/ui-secondary-back.png"@
        &&& self.secondary_hall@ == "deps/assets/ui-secondary-hall.png"@
        &&& self.invite_view_star@ == "deps/assets/invite-view-star.png"@
        &&& self.invite_goto_hall@ == "deps/assets/invite-goto-hall.png"@
        &&& self.invite_enter_hall@ == "deps/assets/invite-enter-hall.png"@
        &&& self.friend_panel@ == "deps/assets/friend-panel.png"@
        &&& self.friend_search_panel@ == "deps/assets/friend-search-panel.png"@
        &&& self.friend_more_settings@ == "deps/assets/friend-more-settings.png"@
        &&& self.friend_block_chat@ == "deps/assets/friend-block-chat.png"@
        &&& self.friend_blacklist@ == "deps/assets/friend-blacklist.png"@
        &&& self.friend_confirm@ == "deps/assets/friend-confirm.png"@
        &&& self.marker_threshold.bits == 0x3f66_6666
    }
}

impl Default for TemplateConfig {
    fn default() -> (r: Self)
        ensures
            r.is_default(),
    {
        TemplateConfig {
            blue_marker: owned("deps/assets/chat-marker-blue.png"),
            yellow_marker: owned("deps/assets/chat-marker-yellow.png"),
            pink_marker: owned("deps/assets/chat-marker-pink.png"),
            friend: owned("deps/assets/ui-primary-friend.png"),
            secondary_back: owned("deps/assets/ui-secondary-back.png"),
            secondary_hall: owned("deps/assets/ui-secondary-hall.png"),
            invite_view_star: owned("deps/assets/invite-view-star.png"),
            invite_goto_hall: owned("deps/assets/invite-goto-hall.png"),
            invite_enter_hall: owned("deps/assets/invite-enter-hall.png"),
            friend_panel: owned("deps/assets/friend-panel.png"),
            friend_search_panel: owned("deps/assets/friend-search-panel.png"),
            friend_more_settings: owned("deps/assets/friend-more-settings.png"),
            friend_block_chat: owned("deps/assets/friend-block-chat.png"),
            friend_blacklist: owned("deps/assets/friend-blacklist.png"),
            friend_confirm: owned("deps/assets/friend-confirm.png"),
            marker_threshold: Single { bits: 0x3f66_6666 },
        }
    }
}

impl TemplateConfig {
    /// The first error of the section.
    pub open spec fn error(self) -> Option<Seq<char>> {
        let error = unit_interval_error(self.marker_threshold, "templates.marker_threshold"@);
        let error = or_error(error, path_error(self.blue_marker@, "templates.blue_marker"@));
        let error = or_error(error, path_error(self.yellow_marker@, "templates.yellow_marker"@));
        let error = or_error(error, path_error(self.pink_marker@, "templates.pink_marker"@));
        let error = or_error(error, path_error(self.friend@, "templates.friend"@));
        let error = or_error(error, path_error(self.secondary_back@, "templates.secondary_back"@));
        let error = or_error(error, path_error(self.secondary_hall@, "templates.secondary_hall"@));
        let error = or_error(
            error,
            path_error(self.invite_view_star@, "templates.invite_view_star"@),
        );
        let error = or_error(
            error,
            path_error(self.invite_goto_hall@, "templates.invite_goto_hall"@),
        );
        let error = or_error(
            error,
            path_error(self.invite_enter_hall@, "templates.invite_enter_hall"@),
        );
        let error = or_error(error, path_error(self.friend_panel@, "templates.friend_panel"@));
        let error = or_error(
            error,
            path_error(self.friend_search_panel@, "templates.friend_search_panel"@),
        );
        let error = or_error(
            error,
            path_error(self.friend_more_settings@, "templates.friend_more_settings"@),
        );
        let error = or_error(
            error,
            path_error(self.friend_block_chat@, "templates.friend_block_chat"@),
        );
        let error = or_error(
            error,
            path_error(self.friend_blacklist@, "templates.friend_blacklist"@),
        );
        let error = or_error(error, path_error(self.friend_confirm@, "templates.friend_confirm"@));
        error
    }

    /// Checks the section.
    pub fn validate(&self) -> (r: Result<(), String>)
        ensures
            error_of(r) == self.error(),
    {
        let r = validate_unit_interval(self.marker_threshold, "templates.marker_threshold");
        let r = both(r, validate_nonempty_path(self.blue_marker.as_str(), "templates.blue_marker"));
        let r = both(
            r,
            validate_nonempty_path(self.yellow_marker.as_str(), "templates.yellow_marker"),
        );
        let r = both(r, validate_nonempty_path(self.pink_marker.as_str(), "templates.pink_marker"));
        let r = both(r, validate_nonempty_path(self.friend.as_str(), "templates.friend"));
        let r = both(
            r,
            validate_nonempty_path(self.secondary_back.as_str(), "templates.secondary_back"),
        );
        let r = both(
            r,
            validate_nonempty_path(self.secondary_hall.as_str(), "templates.secondary_hall"),
        );
        let r = both(
            r,
            validate_nonempty_path(self.invite_view_star.as_str(), "templates.invite_view_star"),
        );
        let r = both(
            r,
            validate_nonempty_path(self.invite_goto_hall.as_str(), "templates.invite_goto_hall"),
        );
        let r = both(
            r,
            validate_nonempty_path(
                self.invite_enter_hall.as_str(),
                "templates.invite_enter_hall",
            ),
        );
        let r = both(
            r,
            validate_nonempty_path(self.friend_panel.as_str(), "templates.friend_panel"),
        );
        let r = both(
            r,
            validate_nonempty_path(
                self.friend_search_panel.as_str(),
                "templates.friend_search_panel",
            ),
        );
        let r = both(
            r,
            validate_nonempty_path(
                self.friend_more_settings.as_str(),
                "templates.friend_more_settings",
            ),
        );
        let r = both(
            r,
            validate_nonempty_path(
                self.friend_block_chat.as_str(),
                "templates.friend_block_chat",
            ),
        );
        let r = both(
            r,
            validate_nonempty_path(self.friend_blacklist.as_str(), "templates.friend_blacklist"),
        );
        let r = both(
            r,
            validate_nonempty_path(self.friend_confirm.as_str(), "templates.friend_confirm"),
        );
        r
    }
}

/// How replies are sent.
#[derive(Clone, Copy, Debug, PartialEq, Eq, Structural)]
pub struct OutputConfig {
    pub send_enabled: bool,
    pub focus_point: PointConfig,
    pub chat_click_2: PointConfig,
}

impl OutputConfig {
    /// Whether all is as it is by default.
    pub open spec fn is_default(self) -> bool {
        &&& self.send_enabled
        &&& self.focus_point == point(1919, 1000)
        &&& self.chat_click_2 == point(600, 1013)
    }
}

impl Default for OutputConfig {
    fn default() -> (r: Self)
        ensures
            r.is_default(),
    {
        OutputConfig {
            send_enabled: true,
            focus_point: PointConfig::new(1919, 1000),
            chat_click_2: PointConfig::new(600, 1013),
        }
    }
}

/// How sound is kept on disk.
#[derive(Clone, Debug)]
pub struct AudioCacheFileConfig {
    pub enabled: bool,
    pub directory: String,
    /// How much may be kept, in MiB.
    pub max_bytes_mb: u64,
    pub max_concurrent_downloads: usize,
    pub request_timeout_ms: u64,
    pub seek_wait_timeout_ms: u64,
}

/// How music is played.
#[derive(Clone, Debug)]
pub struct PlaybackConfig {
    pub credential_directory: String,
    pub login_helper_executable: String,
    pub login_timeout_ms: u64,
    pub audio_cache: Option<AudioCacheFileConfig>,
}

impl PlaybackConfig {
    /// Whether all is as it is by default.
    pub open spec fn is_default(self) -> bool {
        &&& self.credential_directory@ == "deps/data/credentials"@
        &&& self.login_helper_executable@ == "deps/bin/miliastra-login-helper.exe"@
        &&& self.login_timeout_ms == 180000
        &&& self.audio_cache is None
    }
}

impl Default for PlaybackConfig {
    fn default() -> (r: Self)
        ensures
            r.is_default(),
    {
        PlaybackConfig {
            credential_directory: owned("deps/data/credentials"),
            login_helper_executable: owned("deps/bin/miliastra-login-helper.exe"),
            login_timeout_ms: 180000,
            audio_cache: None,
        }
    }
}

impl AudioCacheFileConfig {
    /// The first error of the cache; it is checked only where it is used.
    pub open spec fn error(self) -> Option<Seq<char>> {
        if !self.enabled {
            None
        } else {
            let error = positive_error(
                self.max_bytes_mb as int,
                "playback.audio_cache.max_bytes_mb"@,
            );
            let error = or_error(
                error,
                positive_error(
                    self.max_concurrent_downloads as int,
                    "playback.audio_cache.max_concurrent_downloads"@,
                ),
            );
            let error = or_error(
                error,
                positive_error(
                    self.request_timeout_ms as int,
                    "playback.audio_cache.request_timeout_ms"@,
                ),
            );
            or_error(
                error,
                positive_error(
                    self.seek_wait_timeout_ms as int,
                    "playback.audio_cache.seek_wait_timeout_ms"@,
                ),
            )
        }
    }

    fn validate(&self) -> (r: Result<(), String>)
        ensures
            error_of(r) == self.error(),
    {
        if !self.enabled {
            return Ok(());
        }
        let r = validate_positive(self.max_bytes_mb, "playback.audio_cache.max_bytes_mb");
        let r = both(
            r,
            validate_positive(
                self.max_concurrent_downloads as u64,
                "playback.audio_cache.max_concurrent_downloads",
            ),
        );
        let r = both(
            r,
            validate_positive(
                self.request_timeout_ms,
                "playback.audio_cache.request_timeout_ms",
            ),
        );
        both(
            r,
            validate_positive(
                self.seek_wait_timeout_ms,
                "playback.audio_cache.seek_wait_timeout_ms",
            ),
        )
    }
}

/// The error of a cache that may be missing.
pub open spec fn cache_error(cache: Option<AudioCacheFileConfig>) -> Option<Seq<char>> {
    match cache {
        Some(cache) => cache.error(),
        None => None,
    }
}

fn validate_cache(cache: &Option<AudioCacheFileConfig>) -> (r: Result<(), String>)
    ensures
        error_of(r) == cache_error(*cache),
{
    match cache {
        Some(cache) => cache.validate(),
        None => Ok(()),
    }
}

impl PlaybackConfig {
    /// The first error of the section.
    pub open spec fn error(self) -> Option<Seq<char>> {
        let error = path_error(self.credential_directory@, "playback.credential_directory"@);
        let error = or_error(
            error,
            path_error(self.login_helper_executable@, "playback.login_helper_executable"@),
        );
        let error = or_error(
            error,
            positive_error(self.login_timeout_ms as int, "playback.login_timeout_ms"@),
        );
        let error = or_error(error, cache_error(self.audio_cache));
        error
    }

    /// Checks the section.
    pub fn validate(&self) -> (r: Result<(), String>)
        ensures
            error_of(r) == self.error(),
    {
        let r = validate_nonempty_path(
            self.credential_directory.as_str(),
            "playback.credential_directory",
        );
        let r = both(
            r,
            validate_nonempty_path(
                self.login_helper_executable.as_str(),
                "playback.login_helper_executable",
            ),
        );
        let r = both(r, validate_positive(self.login_timeout_ms, "playback.login_timeout_ms"));
        let r = both(r, validate_cache(&self.audio_cache));
        r
    }
}

/// How sound is kept on disk while the program runs. Times are milliseconds.
#[derive(Clone, Debug)]
pub struct AudioCacheRuntime {
    pub directory: String,
    pub metadata_directory: String,
    pub max_bytes: u64,
    pub max_concurrent_downloads: usize,
    pub request_timeout_ms: u64,
    pub seek_wait_timeout_ms: u64,
}

/// Bytes in a MiB.
pub const MEBIBYTE: u64 = 1_048_576;

impl PlaybackConfig {
    /// How sound is kept on disk, where it is.
    pub fn audio_cache_runtime_config(&self, metadata_directory: &str) -> (r: Option<
        AudioCacheRuntime,
    >)
        ensures
            r is Some <==> (self.audio_cache is Some && self.audio_cache->0.enabled),
            match (self.audio_cache, r) {
                (Some(file), Some(cache)) => {
                    &&& cache.directory@ == file.directory@
                    &&& cache.metadata_directory@ == metadata_directory@
                    &&& cache.max_bytes == (if file.max_bytes_mb * MEBIBYTE > u64::MAX {
                        u64::MAX as int
                    } else {
                        file.max_bytes_mb * MEBIBYTE
                    })
                    &&& cache.max_concurrent_downloads == file.max_concurrent_downloads
                    &&& cache.request_timeout_ms == file.request_timeout_ms
                    &&& cache.seek_wait_timeout_ms == file.seek_wait_timeout_ms
                },
                _ => true,
            },
    {
        match &self.audio_cache {
            None => None,
            Some(file) => {
                if !file.enabled {
                    return None;
                }
                let max_bytes: u64 = match file.max_bytes_mb.checked_mul(MEBIBYTE) {
                    Some(bytes) => bytes,
                    None => u64::MAX,
                };
                Some(
                    AudioCacheRuntime {
                        directory: file.directory.clone(),
                        metadata_directory: owned(metadata_directory),
                        max_bytes,
                        max_concurrent_downloads: file.max_concurrent_downloads,
                        request_timeout_ms: file.request_timeout_ms,
                        seek_wait_timeout_ms: file.seek_wait_timeout_ms,
                    },
                )
            },
        }
    }
}

/// The panel that is served over HTTP.
#[derive(Clone, Debug)]
pub struct HttpConfig {
    pub host: String,
    pub port: u16,
    pub enabled: bool,
    pub access_token: String,
}

impl HttpConfig {
    /// Whether all is as it is by default.
    pub open spec fn is_default(self) -> bool {
        &&& self.host@ == "127.0.0.1"@
        &&& self.port == 18888
        &&& self.enabled
        &&& self.access_token@ == ""@
    }
}

impl Default for HttpConfig {
    fn default() -> (r: Self)
        ensures
            r.is_default(),
    {
        HttpConfig {
            host: owned("127.0.0.1"),
            port: 18888,
            enabled: true,
            access_token: owned(""),
        }
    }
}

/// Whether a host is this machine.
pub open spec fn local_host(host: Seq<char>) -> bool {
    let name = lowered(trimmed(host));
    name == "127.0.0.1"@ || name == "localhost"@ || name == "::1"@
}

impl HttpConfig {
    /// The first error of the section; it is checked only where it is used.
    pub open spec fn error(self) -> Option<Seq<char>> {
        if !self.enabled {
            None
        } else {
            let error = error_if(blank(self.host@), "http.host 不能为空"@);
            let error = or_error(error, error_if(self.port == 0, "http.port 必须大于 0"@));
            or_error(
                error,
                error_if(
                    !local_host(self.host@) && blank(self.access_token@),
                    "HTTP 监听非本机地址时必须设置 http.access_token"@,
                ),
            )
        }
    }

    /// Checks the section.
    pub fn validate(&self) -> (r: Result<(), String>)
        ensures
            error_of(r) == self.error(),
    {
        if !self.enabled {
            return Ok(());
        }
        let name = to_lowered(trim(self.host.as_str()).as_str());
        let local = str_equal(name.as_str(), "127.0.0.1") || str_equal(
            name.as_str(),
            "localhost",
        ) || str_equal(name.as_str(), "::1");
        let r = fail_if(is_blank(self.host.as_str()), "http.host 不能为空");
        let r = both(r, fail_if(self.port == 0, "http.port 必须大于 0"));
        both(
            r,
            fail_if(
                !local && is_blank(self.access_token.as_str()),
                "HTTP 监听非本机地址时必须设置 http.access_token",
            ),
        )
    }
}

/// How the log is kept.
#[derive(Clone, Debug)]
pub struct LoggingConfig {
    pub dir: String,
    pub level: String,
    pub rotate_daily: bool,
    pub retain_days: u32,
}

impl LoggingConfig {
    /// Whether all is as it is by default.
    pub open spec fn is_default(self) -> bool {
        &&& self.dir@ == "deps/logs"@
        &&& self.level@ == "info"@
        &&& self.rotate_daily
        &&& self.retain_days == 7
    }
}

impl Default for LoggingConfig {
    fn default() -> (r: Self)
        ensures
            r.is_default(),
    {
        LoggingConfig {
            dir: owned("deps/logs"),
            level: owned("info"),
            rotate_daily: true,
            retain_days: 7,
        }
    }
}

/// Whether there is a level of a name.
pub open spec fn known_level(level: Seq<char>) -> bool {
    let name = lowered(trimmed(level));
    name == "error"@ || name == "warn"@ || name == "info"@ || name == "debug"@ || name == "trace"@
}

fn is_known_level(level: &str) -> (r: bool)
    ensures
        r == known_level(level@),
{
    let name = to_lowered(trim(level).as_str());
    str_equal(name.as_str(), "error") || str_equal(name.as_str(), "warn") || str_equal(
        name.as_str(),
        "info",
    ) || str_equal(name.as_str(), "debug") || str_equal(name.as_str(), "trace")
}

impl LoggingConfig {
    /// The first error of the section.
    pub open spec fn error(self) -> Option<Seq<char>> {
        let error = path_error(self.dir@, "logging.dir"@);
        let error = or_error(
            error,
            error_if(
                !known_level(self.level@),
                "logging.level 必须是 error/warn/info/debug/trace 之一"@,
            ),
        );
        error
    }

    /// Checks the section.
    pub fn validate(&self) -> (r: Result<(), String>)
        ensures
            error_of(r) == self.error(),
    {
        let r = validate_nonempty_path(self.dir.as_str(), "logging.dir");
        let r = both(
            r,
            fail_if(
                !is_known_level(self.level.as_str()),
                "logging.level 必须是 error/warn/info/debug/trace 之一",
            ),
        );
        r
    }
}

/// The panel in the terminal.
#[derive(Clone, Copy, Debug, PartialEq, Eq, Structural)]
pub struct TuiConfig {
    pub enabled: bool,
    pub refresh_ms: u64,
    pub log_lines: usize,
}

impl TuiConfig {
    /// Whether all is as it is by default.
    pub open spec fn is_default(self) -> bool {
        &&& self.enabled
        &&& self.refresh_ms == 100
        &&& self.log_lines == 200
    }
}

impl Default for TuiConfig {
    fn default() -> (r: Self)
        ensures
            r.is_default(),
    {
        TuiConfig {
            enabled: true,
            refresh_ms: 100,
            log_lines: 200,
        }
    }
}

impl TuiConfig {
    /// The first error of the section.
    pub open spec fn error(self) -> Option<Seq<char>> {
        let error = error_if(
            self.enabled && (self.refresh_ms == 0 || self.log_lines == 0),
            "tui.refresh_ms 和 tui.log_lines 必须大于 0"@,
        );
        error
    }

    /// Checks the section.
    pub fn validate(&self) -> (r: Result<(), String>)
        ensures
            error_of(r) == self.error(),
    {
        let r = fail_if(
            self.enabled && (self.refresh_ms == 0 || self.log_lines == 0),
            "tui.refresh_ms 和 tui.log_lines 必须大于 0",
        );
        r
    }
}

/// Where state is kept.
#[derive(Clone, Debug)]
pub struct StateConfig {
    /// The path of the database, which is given when the program starts.
    pub playback_state_path: String,
    pub hall_state_path: String,
    pub executed_commands_log_path: String,
}

impl StateConfig {
    /// Whether all is as it is by default.
    pub open spec fn is_default(self) -> bool {
        &&& self.playback_state_path@ == "deps/data/playback.sqlite3"@
        &&& self.hall_state_path@ == "deps/data/hall-state.json"@
        &&& self.executed_commands_log_path@ == "deps/data/executed-commands.log"@
    }
}

impl Default for StateConfig {
    fn default() -> (r: Self)
        ensures
            r.is_default(),
    {
        StateConfig {
            playback_state_path: owned("deps/data/playback.sqlite3"),
            hall_state_path: owned("deps/data/hall-state.json"),
            executed_commands_log_path: owned("deps/data/executed-commands.log"),
        }
    }
}

/// The name of a file, where a path has one.
pub open spec fn file_name_view(name: Option<&str>) -> Option<Seq<char>> {
    match name {
        Some(name) => Some(name@),
        None => None,
    }
}

/// Whether a name is that of the database.
fn is_database_name(name: Option<&str>) -> (r: bool)
    ensures
        r == (file_name_view(name) == Some("playback.sqlite3"@)),
{
    match name {
        Some(name) => str_equal(name, "playback.sqlite3"),
        None => false,
    }
}

impl StateConfig {
    /// The first error of the section.
    pub open spec fn error(self, database_file_name: Option<Seq<char>>) -> Option<Seq<char>> {
        let error = path_error(self.playback_state_path@, "state.playback_state_path"@);
        let error = or_error(error, path_error(self.hall_state_path@, "state.hall_state_path"@));
        let error = or_error(
            error,
            path_error(self.executed_commands_log_path@, "state.executed_commands_log_path"@),
        );
        let error = or_error(
            error,
            error_if(
                database_file_name != Some("playback.sqlite3"@),
                "state.playback_state_path 文件名必须是 playback.sqlite3"@,
            ),
        );
        error
    }

    /// Checks the section.
    pub fn validate(&self, database_file_name: Option<&str>) -> (r: Result<(), String>)
        ensures
            error_of(r) == self.error(file_name_view(database_file_name)),
    {
        let r = validate_nonempty_path(self.playback_state_path.as_str(), "state.playback_state_path");
        let r = both(
            r,
            validate_nonempty_path(self.hall_state_path.as_str(), "state.hall_state_path"),
        );
        let r = both(
            r,
            validate_nonempty_path(
                self.executed_commands_log_path.as_str(),
                "state.executed_commands_log_path",
            ),
        );
        let r = both(
            r,
            fail_if(
                !is_database_name(database_file_name),
                "state.playback_state_path 文件名必须是 playback.sqlite3",
            ),
        );
        r
    }
}

/// The keys that work everywhere.
#[derive(Clone, Debug)]
pub struct HotkeyConfig {
    pub enabled: bool,
    pub pause_key: String,
    pub exit_key: String,
}

impl HotkeyConfig {
    /// Whether all is as it is by default.
    pub open spec fn is_default(self) -> bool {
        &&& self.enabled
        &&& self.pause_key@ == "F7"@
        &&& self.exit_key@ == "F12"@
    }
}

impl Default for HotkeyConfig {
    fn default() -> (r: Self)
        ensures
            r.is_default(),
    {
        HotkeyConfig {
            enabled: true,
            pause_key: owned("F7"),
            exit_key: owned("F12"),
        }
    }
}

impl HotkeyConfig {
    /// The first error of the section; it is checked only where it is used.
    pub open spec fn error(self) -> Option<Seq<char>> {
        if !self.enabled {
            None
        } else {
            let error = error_if(
                blank(self.pause_key@) || blank(self.exit_key@),
                "hotkeys.pause_key 和 hotkeys.exit_key 不能为空"@,
            );
            or_error(
                error,
                error_if(
                    lowered(self.pause_key@) == lowered(self.exit_key@),
                    "hotkeys.pause_key 和 hotkeys.exit_key 不能相同"@,
                ),
            )
        }
    }

    /// Checks the section.
    pub fn validate(&self) -> (r: Result<(), String>)
        ensures
            error_of(r) == self.error(),
    {
        if !self.enabled {
            return Ok(());
        }
        let r = fail_if(
            is_blank(self.pause_key.as_str()) || is_blank(self.exit_key.as_str()),
            "hotkeys.pause_key 和 hotkeys.exit_key 不能为空",
        );
        both(
            r,
            fail_if(
                equal_lowered(self.pause_key.as_str(), self.exit_key.as_str()),
                "hotkeys.pause_key 和 hotkeys.exit_key 不能相同",
            ),
        )
    }
}

/// How messages to friends are sent.
#[derive(Clone, Copy, Debug, PartialEq, Eq, Structural)]
pub struct FriendDeliveryConfig {
    /// How often a message that was surely not sent is tried again.
    pub auto_retry_count: u32,
}

impl FriendDeliveryConfig {
    /// Whether all is as it is by default.
    pub open spec fn is_default(self) -> bool {
        &&& self.auto_retry_count == 0
    }
}

impl Default for FriendDeliveryConfig {
    fn default() -> (r: Self)
        ensures
            r.is_default(),
    {
        FriendDeliveryConfig {
            auto_retry_count: 0,
        }
    }
}

/// The regions of moderation.
#[derive(Clone, Copy, Debug, PartialEq, Eq, Structural)]
pub struct ModerationConfig {
    pub stable_vote_samples: u32,
    pub required_vote_margin: u32,
    pub friend_panel_region: RectConfig,
    pub search_panel_region: RectConfig,
    pub search_input_point: PointConfig,
    pub search_button_point: PointConfig,
    pub more_settings_region: RectConfig,
    pub block_chat_region: RectConfig,
    pub blacklist_region: RectConfig,
    pub confirm_region: RectConfig,
}

impl ModerationConfig {
    /// Whether all is as it is by default.
    pub open spec fn is_default(self) -> bool {
        &&& self.stable_vote_samples == 3
        &&& self.required_vote_margin == 3
        &&& self.friend_panel_region == rect(770, 20, 75, 50)
        &&& self.search_panel_region == rect(1600, 100, 240, 90)
        &&& self.search_input_point == point(1180, 135)
        &&& self.search_button_point == point(1680, 135)
        &&& self.more_settings_region == rect(1140, 180, 80, 70)
        &&& self.block_chat_region == rect(1240, 130, 440, 505)
        &&& self.blacklist_region == rect(1240, 130, 440, 505)
        &&& self.confirm_region == rect(900, 700, 500, 100)
    }
}

impl Default for ModerationConfig {
    fn default() -> (r: Self)
        ensures
            r.is_default(),
    {
        ModerationConfig {
            stable_vote_samples: 3,
            required_vote_margin: 3,
            friend_panel_region: RectConfig { x: 770, y: 20, width: 75, height: 50 },
            search_panel_region: RectConfig { x: 1600, y: 100, width: 240, height: 90 },
            search_input_point: PointConfig::new(1180, 135),
            search_button_point: PointConfig::new(1680, 135),
            more_settings_region: RectConfig { x: 1140, y: 180, width: 80, height: 70 },
            block_chat_region: RectConfig { x: 1240, y: 130, width: 440, height: 505 },
            blacklist_region: RectConfig { x: 1240, y: 130, width: 440, height: 505 },
            confirm_region: RectConfig { x: 900, y: 700, width: 500, height: 100 },
        }
    }
}

/// The regions of invitations.
#[derive(Clone, Copy, Debug, PartialEq, Eq, Structural)]
pub struct InviteConfig {
    pub friend_name_stable_count: u32,
    pub friend_list_region: RectConfig,
    pub friend_chat_region: RectConfig,
    pub view_star_region: RectConfig,
    pub goto_hall_region: RectConfig,
    pub enter_hall_region: RectConfig,
}

impl InviteConfig {
    /// Whether all is as it is by default.
    pub open spec fn is_default(self) -> bool {
        &&& self.friend_name_stable_count == 0
        &&& self.friend_list_region == rect(80, 280, 170, 600)
        &&& self.friend_chat_region == rect(260, 100, 920, 850)
        &&& self.view_star_region == rect(400, 80, 440, 860)
        &&& self.goto_hall_region == rect(700, 560, 500, 300)
        &&& self.enter_hall_region == rect(700, 700, 500, 100)
    }
}

impl Default for InviteConfig {
    fn default() -> (r: Self)
        ensures
            r.is_default(),
    {
        InviteConfig {
            friend_name_stable_count: 0,
            friend_list_region: RectConfig { x: 80, y: 280, width: 170, height: 600 },
            friend_chat_region: RectConfig { x: 260, y: 100, width: 920, height: 850 },
            view_star_region: RectConfig { x: 400, y: 80, width: 440, height: 860 },
            goto_hall_region: RectConfig { x: 700, y: 560, width: 500, height: 300 },
            enter_hall_region: RectConfig { x: 700, y: 700, width: 500, height: 100 },
        }
    }
}

/// The images that are looked for at the start.
#[derive(Clone, Debug)]
pub struct StartupTemplateConfig {
    pub wonderland_map_star: String,
    pub wonderland_confirm: String,
    pub paimon_menu: String,
}

impl StartupTemplateConfig {
    /// Whether all is as it is by default.
    pub open spec fn is_default(self) -> bool {
        &&& self.wonderland_map_star@ == "deps/assets/startup-wonderland-map-star.png"@
        &&& self.wonderland_confirm@ == "deps/assets/startup-wonderland-confirm.png"@
        &&& self.paimon_menu@ == "deps/assets/startup-paimon-menu.png"@
    }
}

impl Default for StartupTemplateConfig {
    fn default() -> (r: Self)
        ensures
            r.is_default(),
    {
        StartupTemplateConfig {
            wonderland_map_star: owned("deps/assets/startup-wonderland-map-star.png"),
            wonderland_confirm: owned("deps/assets/startup-wonderland-confirm.png"),
            paimon_menu: owned("deps/assets/startup-paimon-menu.png"),
        }
    }
}

/// How the game is started.
#[derive(Clone, Debug)]
pub struct StartupConfig {
    pub enabled: bool,
    pub launch_game: bool,
    pub enter_game: bool,
    pub enter_wonderland: bool,
    pub exe_path: String,
    pub game_args: String,
    pub launch_wait_ms: u64,
    pub launch_retries: u32,
    pub enter_game_timeout_ms: u64,
    pub enter_wonderland_timeout_ms: u64,
    pub wonderland_map_star_retries: u32,
    pub wonderland_map_star_retry_ms: u64,
    pub wonderland_hall_retries: u32,
    pub wonderland_hall_retry_ms: u64,
    pub wonderland_transition_timeout_ms: u64,
    pub wonderland_confirm_stable_timeout_ms: u64,
    pub final_primary_timeout_ms: u64,
    pub poll_ms: u64,
    pub stable_mean_threshold: Single,
    pub stable_changed_ratio_threshold: Single,
    pub template_threshold: Single,
    pub wonderland_confirm_threshold: Single,
    pub templates: StartupTemplateConfig,
    pub enter_game_text_region: RectConfig,
    pub wonderland_hall_ocr_region: RectConfig,
    pub wonderland_confirm_region: RectConfig,
    pub main_ui_region: RectConfig,
    pub wonderland_map_star_region: RectConfig,
}

impl StartupConfig {
    /// Whether all is as it is by default.
    pub open spec fn is_default(self) -> bool {
        &&& !self.enabled
        &&& !self.launch_game
        &&& !self.enter_game
        &&& !self.enter_wonderland
        &&& self.exe_path@ == ""@
        &&& self.game_args@ == ""@
        &&& self.launch_wait_ms == 5000
        &&& self.launch_retries == 12
        &&& self.enter_game_timeout_ms == 60000
        &&& self.enter_wonderland_timeout_ms == 300000
        &&& self.wonderland_map_star_retries == 120
        &&& self.wonderland_map_star_retry_ms == 2500
        &&& self.wonderland_hall_retries == 90
        &&& self.wonderland_hall_retry_ms == 2000
        &&& self.wonderland_transition_timeout_ms == 60000
        &&& self.wonderland_confirm_stable_timeout_ms == 60000
        &&& self.final_primary_timeout_ms == 120000
        &&& self.poll_ms == 1000
        &&& self.stable_mean_threshold.bits == 0x4000_0000
        &&& self.stable_changed_ratio_threshold.bits == 0x3c23_d70a
        &&& self.template_threshold.bits == 0x3f66_6666
        &&& self.wonderland_confirm_threshold.bits == 0x3f66_6666
        &&& self.templates.is_default()
        &&& self.enter_game_text_region == rect(900, 1000, 130, 40)
        &&& self.wonderland_hall_ocr_region == rect(1280, 0, 640, 1040)
        &&& self.wonderland_confirm_region == rect(900, 650, 500, 250)
        &&& self.main_ui_region == rect(0, 0, 480, 270)
        &&& self.wonderland_map_star_region == rect(1700, 850, 220, 230)
    }
}

impl Default for StartupConfig {
    fn default() -> (r: Self)
        ensures
            r.is_default(),
    {
        StartupConfig {
            enabled: false,
            launch_game: false,
            enter_game: false,
            enter_wonderland: false,
            exe_path: owned(""),
            game_args: owned(""),
            launch_wait_ms: 5000,
            launch_retries: 12,
            enter_game_timeout_ms: 60000,
            enter_wonderland_timeout_ms: 300000,
            wonderland_map_star_retries: 120,
            wonderland_map_star_retry_ms: 2500,
            wonderland_hall_retries: 90,
            wonderland_hall_retry_ms: 2000,
            wonderland_transition_timeout_ms: 60000,
            wonderland_confirm_stable_timeout_ms: 60000,
            final_primary_timeout_ms: 120000,
            poll_ms: 1000,
            stable_mean_threshold: Single { bits: 0x4000_0000 },
            stable_changed_ratio_threshold: Single { bits: 0x3c23_d70a },
            template_threshold: Single { bits: 0x3f66_6666 },
            wonderland_confirm_threshold: Single { bits: 0x3f66_6666 },
            templates: StartupTemplateConfig::default(),
            enter_game_text_region: RectConfig { x: 900, y: 1000, width: 130, height: 40 },
            wonderland_hall_ocr_region: RectConfig { x: 1280, y: 0, width: 640, height: 1040 },
            wonderland_confirm_region: RectConfig { x: 900, y: 650, width: 500, height: 250 },
            main_ui_region: RectConfig { x: 0, y: 0, width: 480, height: 270 },
            wonderland_map_star_region: RectConfig { x: 1700, y: 850, width: 220, height: 230 },
        }
    }
}

/// The queue of songs.
#[derive(Clone, Copy, Debug, PartialEq, Eq, Structural)]
pub struct QueueConfig {
    pub max_size: usize,
    pub pool_max_size: usize,
    pub protect_current_song_until_finished: bool,
    pub external_playback_protect_after_seconds: u64,
}

/// How often a song may be asked for.
#[derive(Clone, Debug)]
pub struct SongDedupConfig {
    pub enabled: bool,
    pub window_seconds: u64,
    pub max_count: usize,
    pub console_bypass: bool,
    pub history_path: String,
}

/// How names of songs and singers are matched.
#[derive(Clone, Debug)]
pub struct MatchConfig {
    pub min_song_name_score: Single,
    pub short_chinese_song_max_miss: usize,
    pub long_chinese_song_min_score: Single,
    pub max_ocr_noise_chars: usize,
    pub enable_fuzzy_singer: bool,
    pub short_chinese_singer_max_miss: usize,
    pub long_chinese_singer_min_score: Single,
    pub en_max_edit_fraction: Single,
    pub en_singer_max_edit_fraction: Single,
}

/// The files of the game of idioms.
#[derive(Clone, Debug)]
pub struct IdiomChainConfig {
    pub lexicon_path: String,
}

/// The files of the game of the undercover.
#[derive(Clone, Debug)]
pub struct UndercoverConfig {
    pub word_bank_path: String,
    pub used_state_path: String,
}

/// The files of the game of riddles.
#[derive(Clone, Debug)]
pub struct TurtleSoupConfig {
    pub question_bank_path: String,
    pub used_state_path: String,
}

/// What the program is started with.
#[derive(Clone, Debug)]
pub struct BootstrapConfig {
    pub database_path: String,
    pub http: HttpConfig,
    pub logging: LoggingConfig,
}

impl BootstrapConfig {
    /// The error of a missing path of the database.
    pub open spec fn error(self) -> Option<Seq<char>> {
        error_if(
            self.database_path@.len() == 0,
            "config.yaml 的 database_path 不能为空。config.yaml 只允许 database_path、http、logging 三个引导段，其余配置请通过 Web 面板「配置中心」管理"@,
        )
    }

    /// Checks that there is a path of the database.
    pub fn validate(&self) -> (r: Result<(), String>)
        ensures
            error_of(r) == self.error(),
    {
        fail_if(
            is_empty_text(self.database_path.as_str()),
            "config.yaml 的 database_path 不能为空。config.yaml 只允许 database_path、http、logging 三个引导段，其余配置请通过 Web 面板「配置中心」管理",
        )
    }
}

} // verus!
