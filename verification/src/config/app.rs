//! The whole configuration: its defaults, its checks and its paths.
use vstd::prelude::*;
use crate::card_games::LandlordConfig;
use crate::card_games::default_landlord_config;
use crate::config::checks::both;
use crate::config::checks::canvas_point_error;
use crate::config::checks::canvas_rect_error;
use crate::config::checks::copy_outcome;
use crate::config::checks::error_if;
use crate::config::checks::error_of;
use crate::config::checks::fail_if;
use crate::config::checks::is_empty_text;
use crate::config::checks::lowered;
use crate::config::checks::or_error;
use crate::config::checks::validate_point_in_canvas;
use crate::config::checks::validate_rect_in_canvas;
use crate::config::json::Json;
use crate::config::locations::ends_in;
use crate::config::locations::ends_in_name;
use crate::config::locations::last_part;
use crate::config::locations::name_at_end;
use crate::config::locations::names_file;
use crate::config::settings::BootstrapConfig;
use crate::config::settings::FriendDeliveryConfig;
use crate::config::settings::HotkeyConfig;
use crate::config::settings::HttpConfig;
use crate::config::settings::IdiomChainConfig;
use crate::config::settings::InviteConfig;
use crate::config::settings::InviteTimingConfig;
use crate::config::settings::LoggingConfig;
use crate::config::settings::MatchConfig;
use crate::config::settings::ModerationConfig;
use crate::config::settings::ModerationTimingConfig;
use crate::config::settings::OcrConfig;
use crate::config::settings::OutputConfig;
use crate::config::settings::PlaybackConfig;
use crate::config::settings::PlaybackTimingConfig;
use crate::config::settings::QueueConfig;
use crate::config::settings::ScreenConfig;
use crate::config::settings::SongDedupConfig;
use crate::config::settings::StabilityConfig;
use crate::config::settings::StartupConfig;
use crate::config::settings::StateConfig;
use crate::config::settings::TemplateConfig;
use crate::config::settings::TimingConfig;
use crate::config::settings::TuiConfig;
use crate::config::settings::TurtleSoupConfig;
use crate::config::settings::UndercoverConfig;
use crate::config::settings::WindowConfig;
use crate::config::settings::WorkflowTimingConfig;
use crate::config::settings::backend_name;
use crate::config::settings::backends_error;
use crate::config::settings::blank;
use crate::config::settings::file_name_view;
use crate::config::settings::is_blank;
use crate::config::settings::openvino_selected;
use crate::custom_workflow::definition::CustomWorkflowConfig;
use crate::custom_workflow::definition::CustomWorkflowDefinition;
use crate::custom_workflow::definition::CustomWorkflowStep;
use crate::custom_workflow::definition::find_template;
use crate::custom_workflow::definition::template_named;
use crate::text::cat5;
use crate::text::decimal;
use crate::text::format_usize;
use crate::text::lemma_trim_nothing;
use crate::text::owned;
use crate::text::string_views;

verus! {

/// The configurations of features that are described elsewhere.
#[derive(Clone, Debug)]
pub struct FeatureConfigs {
    pub workflow_timing: WorkflowTimingConfig,
    pub invite_timing: InviteTimingConfig,
    pub moderation_timing: ModerationTimingConfig,
    pub playback_timing: PlaybackTimingConfig,
    pub queue: QueueConfig,
    pub song_dedup: SongDedupConfig,
    pub idiom_chain: IdiomChainConfig,
    pub undercover: UndercoverConfig,
    pub turtle_soup: TurtleSoupConfig,
    pub ai: Json,
    pub song_review: Json,
    pub matching: MatchConfig,
    pub custom_workflows: CustomWorkflowConfig,
}

/// The whole configuration.
#[derive(Clone, Debug)]
pub struct AppConfig {
    pub window: WindowConfig,
    pub screen: ScreenConfig,
    pub stability: StabilityConfig,
    pub timing: TimingConfig,
    pub ocr: OcrConfig,
    pub templates: TemplateConfig,
    pub output: OutputConfig,
    pub moderation: ModerationConfig,
    pub playback: PlaybackConfig,
    pub http: HttpConfig,
    pub logging: LoggingConfig,
    pub tui: TuiConfig,
    pub state: StateConfig,
    pub queue: QueueConfig,
    pub song_dedup: SongDedupConfig,
    pub idiom_chain: IdiomChainConfig,
    pub landlord: LandlordConfig,
    pub undercover: UndercoverConfig,
    pub turtle_soup: TurtleSoupConfig,
    /// What the feature that asks for songs in free words is configured with.
    pub ai: Json,
    /// What the feature that reviews songs is configured with.
    pub song_review: Json,
    pub matching: MatchConfig,
    pub hotkeys: HotkeyConfig,
    pub startup: StartupConfig,
    pub invite: InviteConfig,
    pub friend_delivery: FriendDeliveryConfig,
    pub custom_workflows: CustomWorkflowConfig,
}

impl AppConfig {
    /// Whether all is as it is by default, with given configurations of
    /// features.
    pub open spec fn is_default(self, features: FeatureConfigs) -> bool {
        &&& self.window.is_default()
        &&& self.screen.is_default()
        &&& self.stability.is_default()
        &&& self.timing.is_default(
            features.workflow_timing,
            features.invite_timing,
            features.moderation_timing,
            features.playback_timing,
        )
        &&& self.ocr.is_default()
        &&& self.templates.is_default()
        &&& self.output.is_default()
        &&& self.moderation.is_default()
        &&& self.playback.is_default()
        &&& self.http.is_default()
        &&& self.logging.is_default()
        &&& self.tui.is_default()
        &&& self.state.is_default()
        &&& self.queue == features.queue
        &&& self.song_dedup == features.song_dedup
        &&& self.idiom_chain == features.idiom_chain
        &&& self.landlord == default_landlord_config()
        &&& self.undercover == features.undercover
        &&& self.turtle_soup == features.turtle_soup
        &&& self.ai == features.ai
        &&& self.song_review == features.song_review
        &&& self.matching == features.matching
        &&& self.hotkeys.is_default()
        &&& self.startup.is_default()
        &&& self.invite.is_default()
        &&& self.friend_delivery.is_default()
        &&& self.custom_workflows == features.custom_workflows
    }

    /// The default configuration, with given configurations of features.
    pub fn with_features(features: FeatureConfigs) -> (r: Self)
        ensures
            r.is_default(features),
    {
        AppConfig {
            window: WindowConfig::default(),
            screen: ScreenConfig::default(),
            stability: StabilityConfig::default(),
            timing: TimingConfig::with_features(
                features.workflow_timing,
                features.invite_timing,
                features.moderation_timing,
                features.playback_timing,
            ),
            ocr: OcrConfig::default(),
            templates: TemplateConfig::default(),
            output: OutputConfig::default(),
            moderation: ModerationConfig::default(),
            playback: PlaybackConfig::default(),
            http: HttpConfig::default(),
            logging: LoggingConfig::default(),
            tui: TuiConfig::default(),
            state: StateConfig::default(),
            queue: features.queue,
            song_dedup: features.song_dedup,
            idiom_chain: features.idiom_chain,
            landlord: LandlordConfig::default(),
            undercover: features.undercover,
            turtle_soup: features.turtle_soup,
            ai: features.ai,
            song_review: features.song_review,
            matching: features.matching,
            hotkeys: HotkeyConfig::default(),
            startup: StartupConfig::default(),
            invite: InviteConfig::default(),
            friend_delivery: FriendDeliveryConfig::default(),
            custom_workflows: features.custom_workflows,
        }
    }
}

// ---------------------------------------------------------------------------
// How often something must be seen
// ---------------------------------------------------------------------------
/// How often something must be seen where nothing else is said.
pub const BUILTIN_STABILITY_COUNT: u32 = 2;

/// The count of a feature where it is more than one, else the one for all where
/// it is more than one, else the one that is built in.
pub open spec fn stability_count(local: int, global: int) -> int {
    if local > 1 {
        local
    } else if global > 1 {
        global
    } else {
        BUILTIN_STABILITY_COUNT as int
    }
}

/// How often something must be seen.
pub fn resolve_stability_count(local: u32, global: u32) -> (r: u32)
    ensures
        r == stability_count(local as int, global as int),
{
    if local > 1 {
        local
    } else if global > 1 {
        global
    } else {
        BUILTIN_STABILITY_COUNT
    }
}

/// Nothing counts that was seen only once.
pub proof fn law_seen_twice(local: int, global: int)
    ensures
        stability_count(local, global) >= 2,
{
}

/// How a player is observed. Times are milliseconds, but for the fast interval,
/// which may be shorter than one.
#[derive(Clone, Copy, Debug, PartialEq, Eq, Structural)]
pub struct PlayerRuntimeSettings {
    pub uri_stable_samples: usize,
    pub transport_stable_samples: usize,
    pub stale_timeout_ms: u64,
    pub normal_observation_interval_ms: u64,
    pub fast_observation_interval_ns: u128,
    pub observation_command_capacity: usize,
    pub active_fast_demand_capacity: usize,
    pub control_queue_capacity: usize,
    pub search_queue_capacity: usize,
}

impl AppConfig {
    /// How often something must be seen, for a feature's own count.
    pub fn resolve_stability_count(&self, local: u32) -> (r: u32)
        ensures
            r == stability_count(local as int, self.stability.default_count as int),
    {
        resolve_stability_count(local, self.stability.default_count)
    }

    /// How often something must be seen, for a feature's own count.
    pub fn resolve_stability_count_usize(&self, local: usize) -> (r: usize)
        ensures
            r == stability_count(local as int, self.stability.default_count as int),
    {
        if local > 1 {
            local
        } else {
            self.resolve_stability_count(local as u32) as usize
        }
    }

    /// How a player is observed, for a fast interval.
    pub open spec fn player_runtime_with(self, fast_interval_ns: u128) -> PlayerRuntimeSettings {
        let count = self.stability.default_count as int;
        let playback = self.timing.playback;
        PlayerRuntimeSettings {
            uri_stable_samples: stability_count(
                playback.uri_stable_samples as int,
                count,
            ) as usize,
            transport_stable_samples: stability_count(
                playback.transport_stable_samples as int,
                count,
            ) as usize,
            stale_timeout_ms: playback.stale_timeout_ms,
            normal_observation_interval_ms: playback.monitor_status_ms,
            fast_observation_interval_ns: fast_interval_ns,
            observation_command_capacity: 16,
            active_fast_demand_capacity: 16,
            control_queue_capacity: 16,
            search_queue_capacity: 16,
        }
    }

    /// How a player is observed, for a fast interval.
    pub fn player_runtime_settings(&self, fast_interval_ns: u128) -> (r: PlayerRuntimeSettings)
        ensures
            r == self.player_runtime_with(fast_interval_ns),
            r.uri_stable_samples == stability_count(
                self.timing.playback.uri_stable_samples as int,
                self.stability.default_count as int,
            ),
            r.transport_stable_samples == stability_count(
                self.timing.playback.transport_stable_samples as int,
                self.stability.default_count as int,
            ),
    {
        let playback = self.timing.playback;
        PlayerRuntimeSettings {
            uri_stable_samples: self.resolve_stability_count(playback.uri_stable_samples) as usize,
            transport_stable_samples: self.resolve_stability_count(
                playback.transport_stable_samples,
            ) as usize,
            stale_timeout_ms: playback.stale_timeout_ms,
            normal_observation_interval_ms: playback.monitor_status_ms,
            fast_observation_interval_ns: fast_interval_ns,
            observation_command_capacity: 16,
            active_fast_demand_capacity: 16,
            control_queue_capacity: 16,
            search_queue_capacity: 16,
        }
    }

    /// How a player is observed. The player tells the fast interval that goes with
    /// the normal one, and whether it can be run so.
    pub fn player_runtime_config<
        E,
        Fast: FnOnce(u64) -> u128,
        Check: FnOnce(PlayerRuntimeSettings) -> Result<(), E>,
    >(&self, fast_interval_for: Fast, check: Check) -> (r: Result<PlayerRuntimeSettings, E>)
        requires
            fast_interval_for.requires((self.timing.playback.monitor_status_ms,)),
            forall|fast: u128| #[trigger]
                fast_interval_for.ensures((self.timing.playback.monitor_status_ms,), fast)
                    ==> check.requires((self.player_runtime_with(fast),)),
        ensures
            exists|fast: u128, outcome: Result<(), E>|
                {
                    &&& #[trigger] fast_interval_for.ensures(
                        (self.timing.playback.monitor_status_ms,),
                        fast,
                    )
                    &&& #[trigger] check.ensures((self.player_runtime_with(fast),), outcome)
                    &&& r == match outcome {
                        Ok(_) => Ok(self.player_runtime_with(fast)),
                        Err(reason) => Err(reason),
                    }
                },
    {
        let fast: u128 = fast_interval_for(self.timing.playback.monitor_status_ms);
        let settings = self.player_runtime_settings(fast);
        let outcome = check(settings);
        assert(check.ensures((self.player_runtime_with(fast),), outcome));
        match outcome {
            Ok(_) => Ok(settings),
            Err(reason) => Err(reason),
        }
    }
}

// ---------------------------------------------------------------------------
// Places on the screen
// ---------------------------------------------------------------------------
/// The name of a field of a step.
pub open spec fn step_field(workflow: Seq<char>, index: nat, field: Seq<char>) -> Seq<char> {
    "custom_workflows."@ + workflow + ".steps["@ + decimal(index) + field
}

/// The error of the region and the point of a step.
pub open spec fn step_error(
    step: CustomWorkflowStep,
    workflow: Seq<char>,
    index: nat,
    width: u32,
    height: u32,
) -> Option<Seq<char>> {
    or_error(
        match step.region {
            Some(region) => canvas_rect_error(
                region,
                step_field(workflow, index, "].region"@),
                width,
                height,
            ),
            None => None,
        },
        match step.point {
            Some(point) => canvas_point_error(
                point,
                step_field(workflow, index, "].point"@),
                width,
                height,
            ),
            None => None,
        },
    )
}

/// The first error of the first `n` steps.
pub open spec fn steps_error(
    steps: Seq<CustomWorkflowStep>,
    workflow: Seq<char>,
    n: nat,
    width: u32,
    height: u32,
) -> Option<Seq<char>>
    decreases n,
{
    if n == 0 {
        None
    } else {
        or_error(
            steps_error(steps, workflow, (n - 1) as nat, width, height),
            step_error(steps[n - 1], workflow, (n - 1) as nat, width, height),
        )
    }
}

/// The first error of the first `n` workflows; only those in use are checked.
pub open spec fn workflows_error(
    workflows: Seq<CustomWorkflowDefinition>,
    n: nat,
    width: u32,
    height: u32,
) -> Option<Seq<char>>
    decreases n,
{
    if n == 0 {
        None
    } else {
        let earlier = workflows_error(workflows, (n - 1) as nat, width, height);
        let workflow = workflows[n - 1];
        if workflow.enabled {
            or_error(
                earlier,
                steps_error(
                    workflow.steps@,
                    workflow.name@,
                    workflow.steps@.len(),
                    width,
                    height,
                ),
            )
        } else {
            earlier
        }
    }
}

fn validate_step(
    step: &CustomWorkflowStep,
    workflow: &str,
    index: usize,
    width: u32,
    height: u32,
) -> (r: Result<(), String>)
    ensures
        error_of(r) == step_error(*step, workflow@, index as nat, width, height),
{
    let place = format_usize(index);
    let region = match step.region {
        Some(region) => {
            let field = cat5(
                "custom_workflows.",
                workflow,
                ".steps[",
                place.as_str(),
                "].region",
            );
            validate_rect_in_canvas(region, field.as_str(), width, height)
        },
        None => Ok(()),
    };
    let point = match step.point {
        Some(point) => {
            let field = cat5(
                "custom_workflows.",
                workflow,
                ".steps[",
                place.as_str(),
                "].point",
            );
            validate_point_in_canvas(point, field.as_str(), width, height)
        },
        None => Ok(()),
    };
    both(region, point)
}

fn validate_steps(
    steps: &Vec<CustomWorkflowStep>,
    workflow: &str,
    width: u32,
    height: u32,
) -> (r: Result<(), String>)
    ensures
        error_of(r) == steps_error(steps@, workflow@, steps@.len(), width, height),
{
    let mut r: Result<(), String> = Ok(());
    let mut i: usize = 0;
    while i < steps.len()
        invariant
            i <= steps@.len(),
            error_of(r) == steps_error(steps@, workflow@, i as nat, width, height),
        decreases steps@.len() - i,
    {
        r = both(r, validate_step(&steps[i], workflow, i, width, height));
        i = i + 1;
    }
    r
}

fn validate_workflows(
    workflows: &Vec<CustomWorkflowDefinition>,
    width: u32,
    height: u32,
) -> (r: Result<(), String>)
    ensures
        error_of(r) == workflows_error(workflows@, workflows@.len(), width, height),
{
    let mut r: Result<(), String> = Ok(());
    let mut i: usize = 0;
    while i < workflows.len()
        invariant
            i <= workflows@.len(),
            error_of(r) == workflows_error(workflows@, i as nat, width, height),
        decreases workflows@.len() - i,
    {
        if workflows[i].enabled {
            r = both(
                r,
                validate_steps(&workflows[i].steps, workflows[i].name.as_str(), width, height),
            );
        }
        i = i + 1;
    }
    r
}

impl AppConfig {
    /// The first error of the places on the screen.
    pub open spec fn geometry_error(self) -> Option<Seq<char>> {
        let width = self.screen.expected_width;
        let height = self.screen.expected_height;
        let error = canvas_rect_error(self.invite.friend_list_region, "invite.friend_list_region"@, width, height);
        let error = or_error(
            error,
            canvas_rect_error(self.invite.friend_chat_region, "invite.friend_chat_region"@, width, height),
        );
        let error = or_error(
            error,
            canvas_rect_error(self.invite.view_star_region, "invite.view_star_region"@, width, height),
        );
        let error = or_error(
            error,
            canvas_rect_error(self.invite.goto_hall_region, "invite.goto_hall_region"@, width, height),
        );
        let error = or_error(
            error,
            canvas_rect_error(self.invite.enter_hall_region, "invite.enter_hall_region"@, width, height),
        );
        let error = or_error(
            error,
            canvas_rect_error(self.moderation.friend_panel_region, "moderation.friend_panel_region"@, width, height),
        );
        let error = or_error(
            error,
            canvas_rect_error(self.moderation.search_panel_region, "moderation.search_panel_region"@, width, height),
        );
        let error = or_error(
            error,
            canvas_rect_error(self.moderation.more_settings_region, "moderation.more_settings_region"@, width, height),
        );
        let error = or_error(
            error,
            canvas_rect_error(self.moderation.block_chat_region, "moderation.block_chat_region"@, width, height),
        );
        let error = or_error(
            error,
            canvas_rect_error(self.moderation.blacklist_region, "moderation.blacklist_region"@, width, height),
        );
        let error = or_error(
            error,
            canvas_rect_error(self.moderation.confirm_region, "moderation.confirm_region"@, width, height),
        );
        let error = or_error(
            error,
            canvas_rect_error(self.startup.enter_game_text_region, "startup.enter_game_text_region"@, width, height),
        );
        let error = or_error(
            error,
            canvas_rect_error(self.startup.wonderland_hall_ocr_region, "startup.wonderland_hall_ocr_region"@, width, height),
        );
        let error = or_error(
            error,
            canvas_rect_error(self.startup.wonderland_confirm_region, "startup.wonderland_confirm_region"@, width, height),
        );
        let error = or_error(
            error,
            canvas_rect_error(self.startup.main_ui_region, "startup.main_ui_region"@, width, height),
        );
        let error = or_error(
            error,
            canvas_rect_error(self.startup.wonderland_map_star_region, "startup.wonderland_map_star_region"@, width, height),
        );
        let error = or_error(
            error,
            canvas_point_error(self.window.focus_point, "window.focus_point"@, width, height),
        );
        let error = or_error(
            error,
            canvas_point_error(self.output.focus_point, "output.focus_point"@, width, height),
        );
        let error = or_error(
            error,
            canvas_point_error(self.output.chat_click_2, "output.chat_click_2"@, width, height),
        );
        let error = or_error(
            error,
            canvas_point_error(self.moderation.search_input_point, "moderation.search_input_point"@, width, height),
        );
        let error = or_error(
            error,
            canvas_point_error(self.moderation.search_button_point, "moderation.search_button_point"@, width, height),
        );
        or_error(
            error,
            workflows_error(
                self.custom_workflows.workflows@,
                self.custom_workflows.workflows@.len(),
                width,
                height,
            ),
        )
    }

    /// Checks the places on the screen.
    pub fn validate_ui_geometry(&self) -> (r: Result<(), String>)
        ensures
            error_of(r) == self.geometry_error(),
    {
        let width: u32 = self.screen.expected_width;
        let height: u32 = self.screen.expected_height;
        let r = validate_rect_in_canvas(self.invite.friend_list_region, "invite.friend_list_region", width, height);
        let r = both(
            r,
            validate_rect_in_canvas(self.invite.friend_chat_region, "invite.friend_chat_region", width, height),
        );
        let r = both(
            r,
            validate_rect_in_canvas(self.invite.view_star_region, "invite.view_star_region", width, height),
        );
        let r = both(
            r,
            validate_rect_in_canvas(self.invite.goto_hall_region, "invite.goto_hall_region", width, height),
        );
        let r = both(
            r,
            validate_rect_in_canvas(self.invite.enter_hall_region, "invite.enter_hall_region", width, height),
        );
        let r = both(
            r,
            validate_rect_in_canvas(self.moderation.friend_panel_region, "moderation.friend_panel_region", width, height),
        );
        let r = both(
            r,
            validate_rect_in_canvas(self.moderation.search_panel_region, "moderation.search_panel_region", width, height),
        );
        let r = both(
            r,
            validate_rect_in_canvas(self.moderation.more_settings_region, "moderation.more_settings_region", width, height),
        );
        let r = both(
            r,
            validate_rect_in_canvas(self.moderation.block_chat_region, "moderation.block_chat_region", width, height),
        );
        let r = both(
            r,
            validate_rect_in_canvas(self.moderation.blacklist_region, "moderation.blacklist_region", width, height),
        );
        let r = both(
            r,
            validate_rect_in_canvas(self.moderation.confirm_region, "moderation.confirm_region", width, height),
        );
        let r = both(
            r,
            validate_rect_in_canvas(self.startup.enter_game_text_region, "startup.enter_game_text_region", width, height),
        );
        let r = both(
            r,
            validate_rect_in_canvas(self.startup.wonderland_hall_ocr_region, "startup.wonderland_hall_ocr_region", width, height),
        );
        let r = both(
            r,
            validate_rect_in_canvas(self.startup.wonderland_confirm_region, "startup.wonderland_confirm_region", width, height),
        );
        let r = both(
            r,
            validate_rect_in_canvas(self.startup.main_ui_region, "startup.main_ui_region", width, height),
        );
        let r = both(
            r,
            validate_rect_in_canvas(self.startup.wonderland_map_star_region, "startup.wonderland_map_star_region", width, height),
        );
        let r = both(
            r,
            validate_point_in_canvas(self.window.focus_point, "window.focus_point", width, height),
        );
        let r = both(
            r,
            validate_point_in_canvas(self.output.focus_point, "output.focus_point", width, height),
        );
        let r = both(
            r,
            validate_point_in_canvas(self.output.chat_click_2, "output.chat_click_2", width, height),
        );
        let r = both(
            r,
            validate_point_in_canvas(self.moderation.search_input_point, "moderation.search_input_point", width, height),
        );
        let r = both(
            r,
            validate_point_in_canvas(self.moderation.search_button_point, "moderation.search_button_point", width, height),
        );
        both(r, validate_workflows(&self.custom_workflows.workflows, width, height))
    }
}

// ---------------------------------------------------------------------------
// All checks
// ---------------------------------------------------------------------------
/// The outcomes of checks that are made elsewhere.
#[derive(Debug)]
pub struct OutsideChecks {
    pub workflow_timing: Result<(), String>,
    pub playback_timing: Result<(), String>,
    /// Whether [`AppConfig::player_runtime_config`] succeeds.
    pub player_runtime: Result<(), String>,
    pub queue: Result<(), String>,
    pub song_dedup: Result<(), String>,
    pub matching: Result<(), String>,
    pub idiom_chain: Result<(), String>,
    pub landlord: Result<(), String>,
    pub undercover: Result<(), String>,
    pub invite: Result<(), String>,
    pub moderation: Result<(), String>,
    pub custom_workflows: Result<(), String>,
    pub startup: Result<(), String>,
    pub ai: Result<(), String>,
    pub song_review: Result<(), String>,
    pub turtle_soup: Result<(), String>,
}

/// Whether no check that was made elsewhere failed.
pub open spec fn outside_passed(outside: OutsideChecks) -> bool {
    &&& outside.workflow_timing is Ok
    &&& outside.playback_timing is Ok
    &&& outside.player_runtime is Ok
    &&& outside.queue is Ok
    &&& outside.song_dedup is Ok
    &&& outside.matching is Ok
    &&& outside.idiom_chain is Ok
    &&& outside.landlord is Ok
    &&& outside.undercover is Ok
    &&& outside.invite is Ok
    &&& outside.moderation is Ok
    &&& outside.custom_workflows is Ok
    &&& outside.startup is Ok
    &&& outside.ai is Ok
    &&& outside.song_review is Ok
    &&& outside.turtle_soup is Ok
}

impl Default for OutsideChecks {
    fn default() -> (r: Self)
        ensures
            outside_passed(r),
    {
        OutsideChecks {
            workflow_timing: Ok(()),
            playback_timing: Ok(()),
            player_runtime: Ok(()),
            queue: Ok(()),
            song_dedup: Ok(()),
            matching: Ok(()),
            idiom_chain: Ok(()),
            landlord: Ok(()),
            undercover: Ok(()),
            invite: Ok(()),
            moderation: Ok(()),
            custom_workflows: Ok(()),
            startup: Ok(()),
            ai: Ok(()),
            song_review: Ok(()),
            turtle_soup: Ok(()),
        }
    }
}

impl AppConfig {
    /// The first error of the configuration, where the path of the database ends in
    /// a name.
    pub open spec fn error(
        self,
        outside: OutsideChecks,
        database_name: Option<Seq<char>>,
    ) -> Option<Seq<char>> {
        let error = self.timing.error(
            error_of(outside.workflow_timing),
            error_of(outside.playback_timing),
        );
        let error = or_error(
            error,
            error_if(outside.player_runtime is Err, "校验播放器运行时配置"@),
        );
        let error = or_error(
            error,
            error_if(blank(self.window.target_process@), "window.target_process 不能为空"@),
        );
        let error = or_error(
            error,
            error_if(
                self.window.content_width == 0 || self.window.content_height == 0,
                "window.content_width 和 window.content_height 必须大于 0"@,
            ),
        );
        let error = or_error(
            error,
            error_if(
                self.screen.expected_width == 0 || self.screen.expected_height == 0,
                "screen.expected_width 和 screen.expected_height 必须大于 0"@,
            ),
        );
        let error = or_error(
            error,
            error_if(
                self.window.content_width != self.screen.expected_width
                    || self.window.content_height != self.screen.expected_height,
                "window.content_width/content_height 必须与 screen.expected_width/expected_height 一致"@,
            ),
        );
        let error = or_error(error, self.screen.error());
        let error = or_error(error, self.ocr.error());
        let error = or_error(error, self.templates.error());
        let error = or_error(error, self.playback.error());
        let error = or_error(error, self.http.error());
        let error = or_error(error, self.logging.error());
        let error = or_error(error, self.tui.error());
        let error = or_error(error, self.state.error(database_name));
        let error = or_error(error, self.hotkeys.error());
        let error = or_error(error, error_of(outside.queue));
        let error = or_error(error, error_of(outside.song_dedup));
        let error = or_error(error, error_of(outside.matching));
        let error = or_error(error, error_of(outside.idiom_chain));
        let error = or_error(error, error_of(outside.landlord));
        let error = or_error(error, error_of(outside.undercover));
        let error = or_error(error, error_of(outside.invite));
        let error = or_error(error, error_of(outside.moderation));
        let error = or_error(error, error_of(outside.custom_workflows));
        let error = or_error(error, error_of(outside.startup));
        let error = or_error(error, error_of(outside.ai));
        let error = or_error(error, error_of(outside.song_review));
        let error = or_error(error, error_of(outside.turtle_soup));
        let error = or_error(error, self.geometry_error());
        error
    }

    /// The first error of the configuration and its causes, from the outermost
    /// inward: that the player cannot run has a cause.
    pub open spec fn error_chain(
        self,
        outside: OutsideChecks,
        database_name: Option<Seq<char>>,
    ) -> Option<Seq<Seq<char>>> {
        match self.error(outside, database_name) {
            None => None,
            Some(text) => if self.timing.error(
                error_of(outside.workflow_timing),
                error_of(outside.playback_timing),
            ) is None && outside.player_runtime is Err {
                Some(seq![text, outside.player_runtime->Err_0@])
            } else {
                Some(seq![text])
            },
        }
    }

    /// Checks the configuration.
    pub fn validate(&self, outside: &OutsideChecks) -> (r: Result<(), String>)
        ensures
            exists|name: Option<Seq<char>>| #[trigger]
                ends_in(self.state.playback_state_path@, name) && error_of(r) == self.error(
                    *outside,
                    name,
                ),
    {
        let name = name_at_end(self.state.playback_state_path.as_str());
        let name: Option<&str> = match &name {
            Some(name) => Some(name.as_str()),
            None => None,
        };
        assert(ends_in(self.state.playback_state_path@, file_name_view(name)));
        self.validate_named(outside, name)
    }

    /// Checks the configuration, and tells the causes of an error.
    pub fn validate_chain(&self, outside: &OutsideChecks, database_name: Option<&str>) -> (r:
        Result<(), Vec<String>>)
        ensures
            match r {
                Ok(()) => self.error_chain(*outside, file_name_view(database_name)) is None,
                Err(messages) => self.error_chain(*outside, file_name_view(database_name)) == Some(
                    string_views(messages@),
                ),
            },
    {
        match self.validate_named(outside, database_name) {
            Ok(()) => Ok(()),
            Err(text) => {
                let timing = self.timing.validate(
                    &outside.workflow_timing,
                    &outside.playback_timing,
                );
                let messages = match (timing, &outside.player_runtime) {
                    (Ok(()), Err(reason)) => vec![text, owned(reason.as_str())],
                    _ => vec![text],
                };
                assert(string_views(messages@) =~= self.error_chain(
                    *outside,
                    file_name_view(database_name),
                )->0);
                Err(messages)
            },
        }
    }

    /// Checks the configuration, where the path of the database ends in a name.
    pub fn validate_named(&self, outside: &OutsideChecks, file_name: Option<&str>) -> (r: Result<
        (),
        String,
    >)
        ensures
            error_of(r) == self.error(*outside, file_name_view(file_name)),
    {
        let r = self.timing.validate(&outside.workflow_timing, &outside.playback_timing);
        let r = both(r, fail_if(outside.player_runtime.is_err(), "校验播放器运行时配置"));
        let r = both(
            r,
            fail_if(
                is_blank(self.window.target_process.as_str()),
                "window.target_process 不能为空",
            ),
        );
        let r = both(
            r,
            fail_if(
                self.window.content_width == 0 || self.window.content_height == 0,
                "window.content_width 和 window.content_height 必须大于 0",
            ),
        );
        let r = both(
            r,
            fail_if(
                self.screen.expected_width == 0 || self.screen.expected_height == 0,
                "screen.expected_width 和 screen.expected_height 必须大于 0",
            ),
        );
        let r = both(
            r,
            fail_if(
                self.window.content_width != self.screen.expected_width
                    || self.window.content_height != self.screen.expected_height,
                "window.content_width/content_height 必须与 screen.expected_width/expected_height 一致",
            ),
        );
        let r = both(r, self.screen.validate());
        let r = both(r, self.ocr.validate());
        let r = both(r, self.templates.validate());
        let r = both(r, self.playback.validate());
        let r = both(r, self.http.validate());
        let r = both(r, self.logging.validate());
        let r = both(r, self.tui.validate());
        let r = both(r, self.state.validate(file_name));
        let r = both(r, self.hotkeys.validate());
        let r = both(r, copy_outcome(&outside.queue));
        let r = both(r, copy_outcome(&outside.song_dedup));
        let r = both(r, copy_outcome(&outside.matching));
        let r = both(r, copy_outcome(&outside.idiom_chain));
        let r = both(r, copy_outcome(&outside.landlord));
        let r = both(r, copy_outcome(&outside.undercover));
        let r = both(r, copy_outcome(&outside.invite));
        let r = both(r, copy_outcome(&outside.moderation));
        let r = both(r, copy_outcome(&outside.custom_workflows));
        let r = both(r, copy_outcome(&outside.startup));
        let r = both(r, copy_outcome(&outside.ai));
        let r = both(r, copy_outcome(&outside.song_review));
        let r = both(r, copy_outcome(&outside.turtle_soup));
        let r = both(r, self.validate_ui_geometry());
        r
    }
}

// ---------------------------------------------------------------------------
// Paths
// ---------------------------------------------------------------------------
/// What a path becomes: what a table says of it, or the path itself. An empty
/// path stays empty.
pub open spec fn resolved(table: Seq<(String, String)>, path: Seq<char>) -> Seq<char> {
    if path.len() == 0 {
        path
    } else {
        match template_named(table, path) {
            Some(found) => found,
            None => path,
        }
    }
}

/// Whether a path that may be missing became what a table says of it.
pub open spec fn resolved_option(
    table: Seq<(String, String)>,
    before: Option<String>,
    after: Option<String>,
) -> bool {
    match (before, after) {
        (Some(before), Some(after)) => after@ == resolved(table, before@),
        (None, None) => true,
        _ => false,
    }
}

/// Puts what a table says of a path in its place.
pub fn resolve_path(table: &Vec<(String, String)>, path: &mut String)
    ensures
        final(path)@ == resolved(table@, old(path)@),
{
    if !is_empty_text(path.as_str()) {
        match find_template(table, path.as_str()) {
            Some(found) => {
                *path = found;
            },
            None => {},
        }
    }
}

/// Puts what a table says of a path that may be missing in its place.
pub fn resolve_optional_path(table: &Vec<(String, String)>, path: &mut Option<String>)
    ensures
        resolved_option(table@, *old(path), *final(path)),
{
    let mut held: Option<String> = None;
    core::mem::swap(&mut held, path);
    match held {
        Some(found) => {
            let mut text = found;
            resolve_path(table, &mut text);
            *path = Some(text);
        },
        None => {},
    }
}

/// Puts what a table says of a path in its place, or of a default where the path
/// is empty.
pub fn resolve_path_with_default(
    table: &Vec<(String, String)>,
    path: &mut String,
    default: &str,
)
    ensures
        final(path)@ == resolved(
            table@,
            if old(path)@.len() == 0 {
                default@
            } else {
                old(path)@
            },
        ),
{
    if is_empty_text(path.as_str()) {
        *path = owned(default);
    }
    resolve_path(table, path);
}

/// Whether the directory of the cache became what a table says of it, where there
/// is a cache, and nothing else changed. Without a directory it is a usual one.
pub open spec fn cache_resolved(
    table: Seq<(String, String)>,
    before: PlaybackConfig,
    after: PlaybackConfig,
) -> bool {
    &&& after == (PlaybackConfig { audio_cache: after.audio_cache, ..before })
    &&& match (before.audio_cache, after.audio_cache) {
        (Some(from), Some(to)) => {
            &&& to.directory@ == resolved(
                table,
                if from.directory@.len() == 0 {
                    "deps/cache/audio"@
                } else {
                    from.directory@
                },
            )
            &&& to.enabled == from.enabled
            &&& to.max_bytes_mb == from.max_bytes_mb
            &&& to.max_concurrent_downloads == from.max_concurrent_downloads
            &&& to.request_timeout_ms == from.request_timeout_ms
            &&& to.seek_wait_timeout_ms == from.seek_wait_timeout_ms
        },
        (None, None) => true,
        _ => false,
    }
}

impl PlaybackConfig {
    /// Puts the directory of the cache in its place, where there is a cache.
    pub fn normalize_audio_cache_paths(&mut self, table: &Vec<(String, String)>)
        ensures
            cache_resolved(table@, *old(self), *final(self)),
    {
        let mut held = None;
        core::mem::swap(&mut held, &mut self.audio_cache);
        match held {
            Some(found) => {
                let mut cache = found;
                resolve_path_with_default(table, &mut cache.directory, "deps/cache/audio");
                self.audio_cache = Some(cache);
            },
            None => {},
        }
    }
}

/// Whether a template of a step became what a table says of it: one that is the
/// name of a template stays.
pub open spec fn step_resolved(
    table: Seq<(String, String)>,
    templates: Seq<(String, String)>,
    before: CustomWorkflowStep,
    after: CustomWorkflowStep,
) -> bool {
    &&& after == (CustomWorkflowStep { template: after.template, ..before })
    &&& match (before.template, after.template) {
        (Some(before), Some(after)) => after@ == (if template_named(
            templates,
            before@,
        ) is Some {
            before@
        } else {
            resolved(table, before@)
        }),
        (None, None) => true,
        _ => false,
    }
}

/// Whether the steps of a workflow became what a table says of them.
pub open spec fn workflow_resolved(
    table: Seq<(String, String)>,
    templates: Seq<(String, String)>,
    before: CustomWorkflowDefinition,
    after: CustomWorkflowDefinition,
) -> bool {
    &&& after == (CustomWorkflowDefinition { steps: after.steps, ..before })
    &&& after.steps@.len() == before.steps@.len()
    &&& forall|i: int|
        0 <= i < before.steps@.len() ==> step_resolved(
            table,
            templates,
            #[trigger] before.steps@[i],
            after.steps@[i],
        )
}

/// Whether the paths of all workflows became what a table says of them.
pub open spec fn workflows_resolved(
    table: Seq<(String, String)>,
    before: CustomWorkflowConfig,
    after: CustomWorkflowConfig,
) -> bool {
    &&& after == (CustomWorkflowConfig {
        templates: after.templates,
        workflows: after.workflows,
        ..before
    })
    &&& after.templates@.len() == before.templates@.len()
    &&& forall|i: int|
        0 <= i < before.templates@.len() ==> (#[trigger] after.templates@[i]).0
            == before.templates@[i].0 && after.templates@[i].1@ == resolved(
            table,
            before.templates@[i].1@,
        )
    &&& after.workflows@.len() == before.workflows@.len()
    &&& forall|i: int|
        0 <= i < before.workflows@.len() ==> workflow_resolved(
            table,
            before.templates@,
            #[trigger] before.workflows@[i],
            after.workflows@[i],
        )
}

/// Whether two lists of templates have the same names in the same order.
pub open spec fn same_names(a: Seq<(String, String)>, b: Seq<(String, String)>) -> bool {
    a.len() == b.len() && forall|i: int| 0 <= i < a.len() ==> (#[trigger] a[i]).0 == b[i].0
}

proof fn lemma_same_names(a: Seq<(String, String)>, b: Seq<(String, String)>, name: Seq<char>)
    requires
        same_names(a, b),
    ensures
        template_named(a, name) is Some == template_named(b, name) is Some,
    decreases a.len(),
{
    if a.len() > 0 {
        assert(a[0].0 == b[0].0);
        let x = a.drop_first();
        let y = b.drop_first();
        assert forall|i: int| 0 <= i < x.len() implies (#[trigger] x[i]).0 == y[i].0 by {
            assert(a[i + 1].0 == b[i + 1].0);
        }
        lemma_same_names(x, y, name);
    }
}

fn resolve_step(
    table: &Vec<(String, String)>,
    templates: &Vec<(String, String)>,
    step: &mut CustomWorkflowStep,
)
    ensures
        step_resolved(table@, templates@, *old(step), *final(step)),
{
    let mut held: Option<String> = None;
    core::mem::swap(&mut held, &mut step.template);
    match held {
        Some(found) => {
            let mut template = found;
            if find_template(templates, template.as_str()).is_none() {
                resolve_path(table, &mut template);
            }
            step.template = Some(template);
        },
        None => {},
    }
}

fn resolve_workflow(
    table: &Vec<(String, String)>,
    templates: &Vec<(String, String)>,
    workflow: &mut CustomWorkflowDefinition,
)
    ensures
        workflow_resolved(table@, templates@, *old(workflow), *final(workflow)),
{
    let mut i: usize = 0;
    while i < workflow.steps.len()
        invariant
            i <= workflow.steps@.len(),
            workflow.steps@.len() == old(workflow).steps@.len(),
            *workflow == (CustomWorkflowDefinition { steps: workflow.steps, ..*old(workflow) }),
            forall|k: int|
                i <= k < workflow.steps@.len() ==> workflow.steps@[k] == old(workflow).steps@[k],
            forall|k: int|
                0 <= k < i ==> step_resolved(
                    table@,
                    templates@,
                    #[trigger] old(workflow).steps@[k],
                    workflow.steps@[k],
                ),
        decreases workflow.steps@.len() - i,
    {
        resolve_step(table, templates, &mut workflow.steps[i]);
        i = i + 1;
    }
}

fn resolve_workflows(table: &Vec<(String, String)>, config: &mut CustomWorkflowConfig)
    ensures
        workflows_resolved(table@, *old(config), *final(config)),
{
    let ghost names = config.templates@;
    let mut i: usize = 0;
    while i < config.templates.len()
        invariant
            i <= config.templates@.len(),
            names == old(config).templates@,
            config.templates@.len() == names.len(),
            *config == (CustomWorkflowConfig { templates: config.templates, ..*old(config) }),
            forall|k: int|
                i <= k < names.len() ==> #[trigger] config.templates@[k] == names[k],
            forall|k: int|
                0 <= k < i ==> (#[trigger] config.templates@[k]).0 == names[k].0
                    && config.templates@[k].1@ == resolved(table@, names[k].1@),
        decreases config.templates@.len() - i,
    {
        resolve_path(table, &mut config.templates[i].1);
        i = i + 1;
    }
    let ghost after_names = config.templates@;
    assert(same_names(after_names, names));
    let mut j: usize = 0;
    while j < config.workflows.len()
        invariant
            j <= config.workflows@.len(),
            names == old(config).templates@,
            config.templates@ == after_names,
            same_names(after_names, names),
            config.workflows@.len() == old(config).workflows@.len(),
            *config == (CustomWorkflowConfig {
                templates: config.templates,
                workflows: config.workflows,
                ..*old(config)
            }),
            forall|k: int|
                j <= k < config.workflows@.len() ==> config.workflows@[k] == old(
                    config,
                ).workflows@[k],
            forall|k: int|
                0 <= k < j ==> workflow_resolved(
                    table@,
                    names,
                    #[trigger] old(config).workflows@[k],
                    config.workflows@[k],
                ),
        decreases config.workflows@.len() - j,
    {
        let ghost before = config.workflows@[j as int];
        resolve_workflow(table, &config.templates, &mut config.workflows[j]);
        proof {
            let after = config.workflows@[j as int];
            assert(workflow_resolved(table@, after_names, before, after));
            assert forall|k: int| 0 <= k < before.steps@.len() implies step_resolved(
                table@,
                names,
                #[trigger] before.steps@[k],
                after.steps@[k],
            ) by {
                assert(step_resolved(table@, after_names, before.steps@[k], after.steps@[k]));
                match before.steps@[k].template {
                    Some(template) => {
                        lemma_same_names(after_names, names, template@);
                    },
                    None => {},
                }
            }
        }
        j = j + 1;
    }
}

impl AppConfig {
    /// Whether all paths became what a table says of them, and nothing else
    /// changed.
    pub open spec fn paths_resolved(self, table: Seq<(String, String)>, before: AppConfig) -> bool {
        &&& self.ocr.charset@ == resolved(table, before.ocr.charset@)
        &&& self.templates.blue_marker@ == resolved(table, before.templates.blue_marker@)
        &&& self.templates.yellow_marker@ == resolved(table, before.templates.yellow_marker@)
        &&& self.templates.pink_marker@ == resolved(table, before.templates.pink_marker@)
        &&& self.templates.friend@ == resolved(table, before.templates.friend@)
        &&& self.templates.secondary_back@ == resolved(table, before.templates.secondary_back@)
        &&& self.templates.secondary_hall@ == resolved(table, before.templates.secondary_hall@)
        &&& self.templates.invite_view_star@ == resolved(table, before.templates.invite_view_star@)
        &&& self.templates.invite_goto_hall@ == resolved(table, before.templates.invite_goto_hall@)
        &&& self.templates.invite_enter_hall@ == resolved(table, before.templates.invite_enter_hall@)
        &&& self.templates.friend_panel@ == resolved(table, before.templates.friend_panel@)
        &&& self.templates.friend_search_panel@ == resolved(table, before.templates.friend_search_panel@)
        &&& self.templates.friend_more_settings@ == resolved(table, before.templates.friend_more_settings@)
        &&& self.templates.friend_block_chat@ == resolved(table, before.templates.friend_block_chat@)
        &&& self.templates.friend_blacklist@ == resolved(table, before.templates.friend_blacklist@)
        &&& self.templates.friend_confirm@ == resolved(table, before.templates.friend_confirm@)
        &&& self.playback.credential_directory@ == resolved(table, before.playback.credential_directory@)
        &&& self.playback.login_helper_executable@ == resolved(table, before.playback.login_helper_executable@)
        &&& self.logging.dir@ == resolved(table, before.logging.dir@)
        &&& self.state.playback_state_path@ == resolved(table, before.state.playback_state_path@)
        &&& self.state.hall_state_path@ == resolved(table, before.state.hall_state_path@)
        &&& self.state.executed_commands_log_path@ == resolved(table, before.state.executed_commands_log_path@)
        &&& self.song_dedup.history_path@ == resolved(table, before.song_dedup.history_path@)
        &&& self.idiom_chain.lexicon_path@ == resolved(table, before.idiom_chain.lexicon_path@)
        &&& self.startup.exe_path@ == resolved(table, before.startup.exe_path@)
        &&& self.startup.templates.wonderland_map_star@ == resolved(table, before.startup.templates.wonderland_map_star@)
        &&& self.startup.templates.wonderland_confirm@ == resolved(table, before.startup.templates.wonderland_confirm@)
        &&& self.startup.templates.paimon_menu@ == resolved(table, before.startup.templates.paimon_menu@)
        &&& self.turtle_soup.question_bank_path@ == resolved(table, before.turtle_soup.question_bank_path@)
        &&& self.turtle_soup.used_state_path@ == resolved(table, before.turtle_soup.used_state_path@)
        &&& self.undercover.word_bank_path@ == resolved(table, before.undercover.word_bank_path@)
        &&& self.undercover.used_state_path@ == resolved(table, before.undercover.used_state_path@)
        &&& resolved_option(table, before.ocr.det_model, self.ocr.det_model)
        &&& resolved_option(table, before.ocr.rec_model, self.ocr.rec_model)
        &&& resolved_option(table, before.ocr.openvino.det_model, self.ocr.openvino.det_model)
        &&& resolved_option(table, before.ocr.openvino.det_weights, self.ocr.openvino.det_weights)
        &&& resolved_option(table, before.ocr.openvino.rec_model, self.ocr.openvino.rec_model)
        &&& resolved_option(table, before.ocr.openvino.rec_weights, self.ocr.openvino.rec_weights)
        &&& resolved_option(table, before.ocr.openvino.cache_dir, self.ocr.openvino.cache_dir)
        &&& workflows_resolved(table, before.custom_workflows, self.custom_workflows)
        &&& self.ocr == (OcrConfig {
            det_model: self.ocr.det_model,
            rec_model: self.ocr.rec_model,
            charset: self.ocr.charset,
            openvino: self.ocr.openvino,
            ..before.ocr
        })
        &&& self.ocr.openvino.device == before.ocr.openvino.device
        &&& self.templates.marker_threshold == before.templates.marker_threshold
        &&& self.playback == (PlaybackConfig {
            credential_directory: self.playback.credential_directory,
            login_helper_executable: self.playback.login_helper_executable,
            ..before.playback
        })
        &&& self.logging == (LoggingConfig {
            dir: self.logging.dir,
            ..before.logging
        })
        &&& self.song_dedup == (SongDedupConfig {
            history_path: self.song_dedup.history_path,
            ..before.song_dedup
        })
        &&& self.startup == (StartupConfig {
            exe_path: self.startup.exe_path,
            templates: self.startup.templates,
            ..before.startup
        })
        &&& self == (AppConfig {
            ocr: self.ocr,
            templates: self.templates,
            playback: self.playback,
            logging: self.logging,
            state: self.state,
            song_dedup: self.song_dedup,
            idiom_chain: self.idiom_chain,
            startup: self.startup,
            turtle_soup: self.turtle_soup,
            undercover: self.undercover,
            custom_workflows: self.custom_workflows,
            ..before
        })
    }

    /// Puts what a table says of the paths in their place. The table tells of
    /// each path where it leads from the directory of the program.
    pub fn resolve_runtime_paths(&mut self, table: &Vec<(String, String)>)
        ensures
            final(self).paths_resolved(table@, *old(self)),
    {
        resolve_optional_path(table, &mut self.ocr.det_model);
        resolve_optional_path(table, &mut self.ocr.rec_model);
        resolve_path(table, &mut self.ocr.charset);
        resolve_optional_path(table, &mut self.ocr.openvino.det_model);
        resolve_optional_path(table, &mut self.ocr.openvino.det_weights);
        resolve_optional_path(table, &mut self.ocr.openvino.rec_model);
        resolve_optional_path(table, &mut self.ocr.openvino.rec_weights);
        resolve_optional_path(table, &mut self.ocr.openvino.cache_dir);
        resolve_path(table, &mut self.templates.blue_marker);
        resolve_path(table, &mut self.templates.yellow_marker);
        resolve_path(table, &mut self.templates.pink_marker);
        resolve_path(table, &mut self.templates.friend);
        resolve_path(table, &mut self.templates.secondary_back);
        resolve_path(table, &mut self.templates.secondary_hall);
        resolve_path(table, &mut self.templates.invite_view_star);
        resolve_path(table, &mut self.templates.invite_goto_hall);
        resolve_path(table, &mut self.templates.invite_enter_hall);
        resolve_path(table, &mut self.templates.friend_panel);
        resolve_path(table, &mut self.templates.friend_search_panel);
        resolve_path(table, &mut self.templates.friend_more_settings);
        resolve_path(table, &mut self.templates.friend_block_chat);
        resolve_path(table, &mut self.templates.friend_blacklist);
        resolve_path(table, &mut self.templates.friend_confirm);
        resolve_path(table, &mut self.playback.credential_directory);
        resolve_path(table, &mut self.playback.login_helper_executable);
        resolve_path(table, &mut self.logging.dir);
        resolve_path(table, &mut self.state.playback_state_path);
        resolve_path(table, &mut self.state.hall_state_path);
        resolve_path(table, &mut self.state.executed_commands_log_path);
        resolve_path(table, &mut self.song_dedup.history_path);
        resolve_path(table, &mut self.idiom_chain.lexicon_path);
        resolve_path(table, &mut self.startup.exe_path);
        resolve_path(table, &mut self.startup.templates.wonderland_map_star);
        resolve_path(table, &mut self.startup.templates.wonderland_confirm);
        resolve_path(table, &mut self.startup.templates.paimon_menu);
        resolve_path(table, &mut self.turtle_soup.question_bank_path);
        resolve_path(table, &mut self.turtle_soup.used_state_path);
        resolve_path(table, &mut self.undercover.word_bank_path);
        resolve_path(table, &mut self.undercover.used_state_path);
        resolve_workflows(table, &mut self.custom_workflows);
    }

    /// A stored configuration with what the program was started with in place of
    /// what is not stored.
    pub open spec fn started_with(self, bootstrap: BootstrapConfig) -> AppConfig {
        AppConfig {
            state: StateConfig { playback_state_path: bootstrap.database_path, ..self.state },
            http: bootstrap.http,
            logging: bootstrap.logging,
            ..self
        }
    }

    /// Whether this is what a stored configuration makes by a table of where its
    /// paths lead, with what the program was started with.
    pub open spec fn made_by(
        self,
        table: Seq<(String, String)>,
        stored: AppConfig,
        bootstrap: BootstrapConfig,
    ) -> bool {
        exists|placed: AppConfig| #[trigger]
            placed.paths_resolved(table, stored.started_with(bootstrap)) && cache_resolved(
                table,
                placed.playback,
                self.playback,
            ) && self == (AppConfig { playback: self.playback, ..placed })
    }

    /// Puts what the program was started with in place of what is not stored.
    pub fn start_with(self, bootstrap: BootstrapConfig) -> (r: AppConfig)
        ensures
            r == self.started_with(bootstrap),
    {
        let mut config = self;
        config.state.playback_state_path = bootstrap.database_path;
        config.http = bootstrap.http;
        config.logging = bootstrap.logging;
        config
    }

    /// The configuration in effect that a stored one makes: with what the program
    /// was started with, and all paths in their place.
    pub fn from_db_value(
        stored: AppConfig,
        bootstrap: BootstrapConfig,
        table: &Vec<(String, String)>,
    ) -> (r: AppConfig)
        ensures
            r.made_by(table@, stored, bootstrap),
    {
        let mut config = stored.start_with(bootstrap);
        config.resolve_runtime_paths(table);
        let ghost placed = config;
        config.playback.normalize_audio_cache_paths(table);
        assert(placed.paths_resolved(table@, stored.started_with(bootstrap)));
        config
    }
}

/// A path, where it is not empty.
pub open spec fn listed(path: Seq<char>) -> Seq<Seq<char>> {
    if path.len() == 0 {
        Seq::empty()
    } else {
        seq![path]
    }
}

/// A path that may be missing, where it is there and not empty.
pub open spec fn listed_option(path: Option<String>) -> Seq<Seq<char>> {
    match path {
        Some(path) => listed(path@),
        None => Seq::empty(),
    }
}

/// The paths of the first `n` templates.
pub open spec fn listed_templates(templates: Seq<(String, String)>, n: nat) -> Seq<Seq<char>>
    decreases n,
{
    if n == 0 {
        Seq::empty()
    } else {
        listed_templates(templates, (n - 1) as nat) + listed(templates[n - 1].1@)
    }
}

/// The templates of the first `n` steps.
pub open spec fn listed_steps(steps: Seq<CustomWorkflowStep>, n: nat) -> Seq<Seq<char>>
    decreases n,
{
    if n == 0 {
        Seq::empty()
    } else {
        listed_steps(steps, (n - 1) as nat) + listed_option(steps[n - 1].template)
    }
}

/// The templates of the steps of the first `n` workflows.
pub open spec fn listed_workflows(workflows: Seq<CustomWorkflowDefinition>, n: nat) -> Seq<
    Seq<char>,
>
    decreases n,
{
    if n == 0 {
        Seq::empty()
    } else {
        listed_workflows(workflows, (n - 1) as nat) + listed_steps(
            workflows[n - 1].steps@,
            workflows[n - 1].steps@.len(),
        )
    }
}

fn list_path(paths: &mut Vec<String>, path: &String)
    ensures
        string_views(final(paths)@) == string_views(old(paths)@) + listed(path@),
{
    let ghost before = string_views(paths@);
    if !is_empty_text(path.as_str()) {
        paths.push(path.clone());
        assert(string_views(paths@) =~= before + listed(path@));
    } else {
        assert(string_views(paths@) =~= before + listed(path@));
    }
}

fn list_option(paths: &mut Vec<String>, path: &Option<String>)
    ensures
        string_views(final(paths)@) == string_views(old(paths)@) + listed_option(*path),
{
    match path {
        Some(path) => list_path(paths, path),
        None => {
            assert(string_views(paths@) =~= string_views(paths@) + listed_option(*path));
        },
    }
}

fn list_workflow_paths(paths: &mut Vec<String>, config: &CustomWorkflowConfig)
    ensures
        string_views(final(paths)@) == string_views(old(paths)@) + (listed_templates(
            config.templates@,
            config.templates@.len(),
        ) + listed_workflows(config.workflows@, config.workflows@.len())),
{
    let ghost start = string_views(paths@);
    let ghost named = listed_templates(config.templates@, config.templates@.len());
    let mut i: usize = 0;
    assert(start =~= start + Seq::empty());
    while i < config.templates.len()
        invariant
            i <= config.templates@.len(),
            string_views(paths@) == start + listed_templates(config.templates@, i as nat),
        decreases config.templates@.len() - i,
    {
        list_path(paths, &config.templates[i].1);
        assert(string_views(paths@) =~= start + listed_templates(
            config.templates@,
            (i + 1) as nat,
        ));
        i = i + 1;
    }
    let mut j: usize = 0;
    assert(start + named =~= start + (named + Seq::empty()));
    while j < config.workflows.len()
        invariant
            j <= config.workflows@.len(),
            string_views(paths@) == start + (named + listed_workflows(
                config.workflows@,
                j as nat,
            )),
        decreases config.workflows@.len() - j,
    {
        let steps = &config.workflows[j].steps;
        let ghost so_far = string_views(paths@);
        let mut k: usize = 0;
        assert(so_far =~= so_far + Seq::empty());
        while k < steps.len()
            invariant
                k <= steps@.len(),
                string_views(paths@) == so_far + listed_steps(steps@, k as nat),
            decreases steps@.len() - k,
        {
            list_option(paths, &steps[k].template);
            assert(string_views(paths@) =~= so_far + listed_steps(steps@, (k + 1) as nat));
            k = k + 1;
        }
        assert(string_views(paths@) =~= start + (named + listed_workflows(
            config.workflows@,
            (j + 1) as nat,
        )));
        j = j + 1;
    }
}

impl AppConfig {
    /// The paths of the configuration, in the order of the fields, without those
    /// that are empty.
    pub open spec fn path_list(self) -> Seq<Seq<char>> {
        let paths = listed_option(self.ocr.det_model);
        let paths = paths + listed_option(self.ocr.rec_model);
        let paths = paths + listed(self.ocr.charset@);
        let paths = paths + listed_option(self.ocr.openvino.det_model);
        let paths = paths + listed_option(self.ocr.openvino.det_weights);
        let paths = paths + listed_option(self.ocr.openvino.rec_model);
        let paths = paths + listed_option(self.ocr.openvino.rec_weights);
        let paths = paths + listed_option(self.ocr.openvino.cache_dir);
        let paths = paths + listed(self.templates.blue_marker@);
        let paths = paths + listed(self.templates.yellow_marker@);
        let paths = paths + listed(self.templates.pink_marker@);
        let paths = paths + listed(self.templates.friend@);
        let paths = paths + listed(self.templates.secondary_back@);
        let paths = paths + listed(self.templates.secondary_hall@);
        let paths = paths + listed(self.templates.invite_view_star@);
        let paths = paths + listed(self.templates.invite_goto_hall@);
        let paths = paths + listed(self.templates.invite_enter_hall@);
        let paths = paths + listed(self.templates.friend_panel@);
        let paths = paths + listed(self.templates.friend_search_panel@);
        let paths = paths + listed(self.templates.friend_more_settings@);
        let paths = paths + listed(self.templates.friend_block_chat@);
        let paths = paths + listed(self.templates.friend_blacklist@);
        let paths = paths + listed(self.templates.friend_confirm@);
        let paths = paths + listed(self.playback.credential_directory@);
        let paths = paths + listed(self.playback.login_helper_executable@);
        let paths = paths + listed(self.logging.dir@);
        let paths = paths + listed(self.state.playback_state_path@);
        let paths = paths + listed(self.state.hall_state_path@);
        let paths = paths + listed(self.state.executed_commands_log_path@);
        let paths = paths + listed(self.song_dedup.history_path@);
        let paths = paths + listed(self.idiom_chain.lexicon_path@);
        let paths = paths + listed(self.startup.exe_path@);
        let paths = paths + listed(self.startup.templates.wonderland_map_star@);
        let paths = paths + listed(self.startup.templates.wonderland_confirm@);
        let paths = paths + listed(self.startup.templates.paimon_menu@);
        let paths = paths + listed(self.turtle_soup.question_bank_path@);
        let paths = paths + listed(self.turtle_soup.used_state_path@);
        let paths = paths + listed(self.undercover.word_bank_path@);
        let paths = paths + listed(self.undercover.used_state_path@);
        paths + (listed_templates(
            self.custom_workflows.templates@,
            self.custom_workflows.templates@.len(),
        ) + listed_workflows(
            self.custom_workflows.workflows@,
            self.custom_workflows.workflows@.len(),
        ))
    }

    /// The paths of the configuration, of which a table is made.
    pub fn runtime_paths(&self) -> (r: Vec<String>)
        ensures
            string_views(r@) == self.path_list(),
    {
        let mut paths: Vec<String> = Vec::new();
        assert(string_views(paths@) + listed_option(self.ocr.det_model) =~= listed_option(
            self.ocr.det_model,
        ));
        list_option(&mut paths, &self.ocr.det_model);
        list_option(&mut paths, &self.ocr.rec_model);
        list_path(&mut paths, &self.ocr.charset);
        list_option(&mut paths, &self.ocr.openvino.det_model);
        list_option(&mut paths, &self.ocr.openvino.det_weights);
        list_option(&mut paths, &self.ocr.openvino.rec_model);
        list_option(&mut paths, &self.ocr.openvino.rec_weights);
        list_option(&mut paths, &self.ocr.openvino.cache_dir);
        list_path(&mut paths, &self.templates.blue_marker);
        list_path(&mut paths, &self.templates.yellow_marker);
        list_path(&mut paths, &self.templates.pink_marker);
        list_path(&mut paths, &self.templates.friend);
        list_path(&mut paths, &self.templates.secondary_back);
        list_path(&mut paths, &self.templates.secondary_hall);
        list_path(&mut paths, &self.templates.invite_view_star);
        list_path(&mut paths, &self.templates.invite_goto_hall);
        list_path(&mut paths, &self.templates.invite_enter_hall);
        list_path(&mut paths, &self.templates.friend_panel);
        list_path(&mut paths, &self.templates.friend_search_panel);
        list_path(&mut paths, &self.templates.friend_more_settings);
        list_path(&mut paths, &self.templates.friend_block_chat);
        list_path(&mut paths, &self.templates.friend_blacklist);
        list_path(&mut paths, &self.templates.friend_confirm);
        list_path(&mut paths, &self.playback.credential_directory);
        list_path(&mut paths, &self.playback.login_helper_executable);
        list_path(&mut paths, &self.logging.dir);
        list_path(&mut paths, &self.state.playback_state_path);
        list_path(&mut paths, &self.state.hall_state_path);
        list_path(&mut paths, &self.state.executed_commands_log_path);
        list_path(&mut paths, &self.song_dedup.history_path);
        list_path(&mut paths, &self.idiom_chain.lexicon_path);
        list_path(&mut paths, &self.startup.exe_path);
        list_path(&mut paths, &self.startup.templates.wonderland_map_star);
        list_path(&mut paths, &self.startup.templates.wonderland_confirm);
        list_path(&mut paths, &self.startup.templates.paimon_menu);
        list_path(&mut paths, &self.turtle_soup.question_bank_path);
        list_path(&mut paths, &self.turtle_soup.used_state_path);
        list_path(&mut paths, &self.undercover.word_bank_path);
        list_path(&mut paths, &self.undercover.used_state_path);
        list_workflow_paths(&mut paths, &self.custom_workflows);
        paths
    }
}

// ---------------------------------------------------------------------------
// The defaults are valid
// ---------------------------------------------------------------------------
proof fn lemma_default_screen(config: AppConfig, features: FeatureConfigs)
    requires
        config.is_default(features),
        workflows_error(
            features.custom_workflows.workflows@,
            features.custom_workflows.workflows@.len(),
            1920,
            1080,
        ) is None,
    ensures
        config.screen.error() is None,
        config.geometry_error() is None,
{
}

proof fn lemma_default_ocr(config: OcrConfig)
    requires
        config.is_default(),
    ensures
        config.error() is None,
{
    reveal_strlit("cpu");
    reveal_strlit("openvino");
    reveal_strlit("deps/models/PP-OCRv6_small_det.mnn");
    reveal_strlit("deps/models/PP-OCRv6_small_rec.mnn");
    reveal_strlit("deps/models/ppocr_keys_v6_small.txt");
    let backends = string_views(config.backend_priority@);
    lemma_trim_nothing("cpu"@);
    assert(lowered("cpu"@) =~= "cpu"@);
    assert(backend_name(backends[0]) == "cpu"@);
    assert(backends.drop_last() =~= Seq::empty());
    assert(backends_error(Seq::empty()) is None);
    assert(backends_error(backends) is None);
    assert("cpu"@.len() != "openvino"@.len());
    assert(!openvino_selected(backends));
    assert(config.backend_priority@.len() == backends.len());
}

proof fn lemma_default_templates(config: TemplateConfig)
    requires
        config.is_default(),
    ensures
        config.error() is None,
{
    reveal_strlit("deps/assets/chat-marker-blue.png");
    reveal_strlit("deps/assets/chat-marker-yellow.png");
    reveal_strlit("deps/assets/chat-marker-pink.png");
    reveal_strlit("deps/assets/ui-primary-friend.png");
    reveal_strlit("deps/assets/ui-secondary-back.png");
    reveal_strlit("deps/assets/ui-secondary-hall.png");
    reveal_strlit("deps/assets/invite-view-star.png");
    reveal_strlit("deps/assets/invite-goto-hall.png");
    reveal_strlit("deps/assets/invite-enter-hall.png");
    reveal_strlit("deps/assets/friend-panel.png");
    reveal_strlit("deps/assets/friend-search-panel.png");
    reveal_strlit("deps/assets/friend-more-settings.png");
    reveal_strlit("deps/assets/friend-block-chat.png");
    reveal_strlit("deps/assets/friend-blacklist.png");
    reveal_strlit("deps/assets/friend-confirm.png");
}

proof fn lemma_default_runtime(config: AppConfig, features: FeatureConfigs)
    requires
        config.is_default(features),
    ensures
        config.playback.error() is None,
        config.http.error() is None,
        config.logging.error() is None,
        config.tui.error() is None,
        config.state.error(Some("playback.sqlite3"@)) is None,
        config.hotkeys.error() is None,
        !blank(config.window.target_process@),
{
    reveal_strlit("deps/data/credentials");
    reveal_strlit("deps/bin/miliastra-login-helper.exe");
    reveal_strlit("127.0.0.1");
    reveal_strlit("deps/logs");
    reveal_strlit("info");
    reveal_strlit("deps/data/playback.sqlite3");
    reveal_strlit("deps/data/hall-state.json");
    reveal_strlit("deps/data/executed-commands.log");
    reveal_strlit("F7");
    reveal_strlit("F12");
    reveal_strlit("yuanshen.exe,GenshinImpact.exe");
    lemma_trim_nothing("127.0.0.1"@);
    lemma_trim_nothing("info"@);
    lemma_trim_nothing("F7"@);
    lemma_trim_nothing("F12"@);
    lemma_trim_nothing("yuanshen.exe,GenshinImpact.exe"@);
    assert(lowered("127.0.0.1"@) =~= "127.0.0.1"@);
    assert(lowered("info"@) =~= "info"@);
    assert(lowered("F7"@).len() != lowered("F12"@).len());
}

proof fn lemma_default_database(path: Seq<char>)
    requires
        path == "deps/data/playback.sqlite3"@,
    ensures
        ends_in_name(path),
        last_part(path) == "playback.sqlite3"@,
{
    reveal_strlit("deps/data/playback.sqlite3");
    reveal_strlit("playback.sqlite3");
    reveal_strlit(".");
    reveal_strlit("..");
    assert(path.subrange(10, path.len() as int) =~= "playback.sqlite3"@);
    lemma_last_part(path, "playback.sqlite3"@, 9);
}

proof fn lemma_last_part(path: Seq<char>, name: Seq<char>, slash: int)
    requires
        0 <= slash < path.len(),
        path[slash] == '/',
        forall|i: int| slash < i < path.len() ==> path[i] != '/',
        name == path.subrange(slash + 1, path.len() as int),
    ensures
        last_part(path) == name,
    decreases path.len(),
{
    if path.len() == slash + 1 {
        assert(name =~= Seq::empty());
    } else {
        assert(name.drop_last() =~= path.drop_last().subrange(slash + 1, path.len() - 1));
        lemma_last_part(path.drop_last(), name.drop_last(), slash);
        assert(name =~= name.drop_last().push(path.last()));
    }
}

/// The default configuration is valid, where the checks made elsewhere pass and
/// no workflow leaves the screen.
pub proof fn law_default_is_valid(
    config: AppConfig,
    features: FeatureConfigs,
    outside: OutsideChecks,
    name: Option<Seq<char>>,
)
    requires
        config.is_default(features),
        outside_passed(outside),
        names_file(config.state.playback_state_path@, name),
        workflows_error(
            features.custom_workflows.workflows@,
            features.custom_workflows.workflows@.len(),
            1920,
            1080,
        ) is None,
    ensures
        config.error(outside, name) is None,
{
    lemma_default_database(config.state.playback_state_path@);
    lemma_default_screen(config, features);
    lemma_default_ocr(config.ocr);
    lemma_default_templates(config.templates);
    lemma_default_runtime(config, features);
}

/// A feature's own count holds where it asks for more than one, then the one for all
/// where that does, and else two.
pub proof fn law_counts(local: int, global: int)
    ensures
        local >= 2 ==> stability_count(local, global) == local,
        local <= 1 && global >= 2 ==> stability_count(local, global) == global,
        local <= 1 && global <= 1 ==> stability_count(local, global) == 2,
{
}

/// How a player is observed comes from the times of playback: each from its own, and the
/// counts from their own or from the one for all.
pub proof fn law_player_runtime(config: AppConfig, fast_interval_ns: u128)
    ensures
        ({
            let made = config.player_runtime_with(fast_interval_ns);
            let playback = config.timing.playback;
            let all = config.stability.default_count;
            &&& made.stale_timeout_ms == playback.stale_timeout_ms
            &&& made.normal_observation_interval_ms == playback.monitor_status_ms
            &&& made.fast_observation_interval_ns == fast_interval_ns
            &&& playback.uri_stable_samples >= 2 ==> made.uri_stable_samples
                == playback.uri_stable_samples
            &&& playback.uri_stable_samples < 2 && all >= 2 ==> made.uri_stable_samples == all
            &&& playback.uri_stable_samples < 2 && all < 2 ==> made.uri_stable_samples == 2
            &&& playback.transport_stable_samples >= 2 ==> made.transport_stable_samples
                == playback.transport_stable_samples
            &&& playback.transport_stable_samples < 2 && all >= 2
                ==> made.transport_stable_samples == all
            &&& playback.transport_stable_samples < 2 && all < 2 ==> made.transport_stable_samples
                == 2
            &&& made.observation_command_capacity == 16
            &&& made.active_fast_demand_capacity == 16
            &&& made.control_queue_capacity == 16
            &&& made.search_queue_capacity == 16
        }),
{
}

/// A path becomes what the table says of it; one of which it says nothing stays, and so
/// does an empty one.
pub proof fn law_resolved(
    entry: (String, String),
    rest: Seq<(String, String)>,
    path: Seq<char>,
)
    ensures
        path.len() > 0 && entry.0@ == path ==> resolved(seq![entry] + rest, path) == entry.1@,
        entry.0@ != path ==> resolved(seq![entry] + rest, path) == resolved(rest, path),
        resolved(Seq::empty(), path) == path,
        path.len() == 0 ==> resolved(rest, path) == path,
{
    assert((seq![entry] + rest).drop_first() =~= rest);
}

/// The directory of the cache of songs becomes what the table says of it, or of the usual
/// one where none is given; how much it may hold and how it is filled stay.
pub proof fn law_cache_in_place(
    table: Seq<(String, String)>,
    before: PlaybackConfig,
    after: PlaybackConfig,
)
    requires
        cache_resolved(table, before, after),
    ensures
        before.audio_cache is None ==> after == before,
        before.audio_cache matches Some(from) ==> (after.audio_cache matches Some(to) && (
        from.directory@.len() > 0 ==> to.directory@ == resolved(table, from.directory@)) && (
        from.directory@.len() == 0 ==> to.directory@ == resolved(table, "deps/cache/audio"@))
            && to.enabled == from.enabled && to.max_bytes_mb == from.max_bytes_mb
            && to.max_concurrent_downloads == from.max_concurrent_downloads
            && to.request_timeout_ms == from.request_timeout_ms && to.seek_wait_timeout_ms
            == from.seek_wait_timeout_ms),
        after.credential_directory == before.credential_directory,
        after.login_helper_executable == before.login_helper_executable,
{
}

/// A field of a step is told by the workflow and the place of the step.
pub proof fn law_step_is_told(workflow: Seq<char>, index: nat)
    ensures
        step_field(workflow, index, "].region"@) == "custom_workflows."@ + workflow + ".steps["@
            + decimal(index) + "].region"@,
{
}

/// That the player cannot run is told with its cause, where no time is wrong before it;
/// anything else is told alone.
pub proof fn law_causes(
    config: AppConfig,
    outside: OutsideChecks,
    database_name: Option<Seq<char>>,
)
    ensures
        config.error(outside, database_name) is None <==> config.error_chain(
            outside,
            database_name,
        ) is None,
        config.error_chain(outside, database_name) matches Some(messages) ==> {
            &&& messages.len() == 1 || messages.len() == 2
            &&& Some(messages[0]) == config.error(outside, database_name)
            &&& messages.len() == 2 <==> outside.player_runtime is Err && config.timing.error(
                error_of(outside.workflow_timing),
                error_of(outside.playback_timing),
            ) is None
            &&& messages.len() == 2 ==> messages[0] == "校验播放器运行时配置"@ && messages[1]
                == outside.player_runtime->Err_0@
        },
{
}

/// A step is wrong where its region leaves the canvas, and else where its point does; the
/// message names the workflow, the place of the step, and which of the two it is.
pub proof fn law_where_a_step_is_wrong(
    step: CustomWorkflowStep,
    workflow: Seq<char>,
    index: nat,
    width: u32,
    height: u32,
)
    ensures
        ({
            let place = "custom_workflows."@ + workflow + ".steps["@ + decimal(index);
            let found = step_error(step, workflow, index, width, height);
            &&& step.region is None && step.point is None ==> found is None
            &&& step.region is None ==> (step.point matches Some(point) ==> found
                == canvas_point_error(point, place + "].point"@, width, height))
            &&& step.region matches Some(region) ==> {
                let wrong = canvas_rect_error(region, place + "].region"@, width, height);
                &&& wrong is Some ==> found == wrong
                &&& wrong is None && step.point is None ==> found is None
                &&& wrong is None ==> (step.point matches Some(point) ==> found
                    == canvas_point_error(point, place + "].point"@, width, height))
            }
        }),
{
}

} // verus!
