//! The hall: its commands, its countdown, and announcing its end.
use miliastra::command::CommandEnvelope;
use miliastra::command::CommandForms;
use miliastra::command::CommandObservation;
use miliastra::command::ModuleCommand;
use miliastra::custom_workflow::calling::CustomWorkflowCommand;
use miliastra::hall::application::HallApplication;
use miliastra::hall::application::HallApplicationPort;
use miliastra::hall::application::HallCalls;
use miliastra::hall::application::HallCommandContext;
use miliastra::hall::application::HallDetectionPort;
use miliastra::hall::application::HallMaintenancePort;
use miliastra::hall::application::HallObservation;
use miliastra::hall::state::HallRuntimeState;
use miliastra::hall::state::HallStatePatch;
use miliastra::hall::state::HallStateService;
use miliastra::hall::state::PersistentHallState;
use miliastra::hall::state::SECOND;
use miliastra::hall::HallCommand;
use miliastra::hall::HALL_EXPIRING_WARNING_MINUTES;

struct MaintenancePort {
    idle: bool,
    warning_sent: bool,
    remaining_minutes: Option<u32>,
    replies: Vec<String>,
    marked: bool,
}

impl HallMaintenancePort for MaintenancePort {
    fn calls(&self) -> HallCalls {
        unreachable!("stands in proofs only")
    }

    fn executor_is_idle(&mut self) -> Result<bool, String> {
        Ok(self.idle)
    }

    fn hall_expiring_warning_sent(&mut self) -> Result<bool, String> {
        Ok(self.warning_sent)
    }

    fn hall_remaining_minutes(&mut self) -> Result<Option<u32>, String> {
        Ok(self.remaining_minutes)
    }

    fn reply(&mut self, message: &str) -> Result<(), String> {
        self.replies.push(message.to_string());
        Ok(())
    }

    fn mark_hall_expiring_warning_sent(&mut self) -> Result<(), String> {
        self.marked = true;
        Ok(())
    }
}

fn maintenance_port(minutes: Option<u32>) -> MaintenancePort {
    MaintenancePort {
        idle: true,
        warning_sent: false,
        remaining_minutes: minutes,
        replies: Vec::new(),
        marked: false,
    }
}

fn application() -> HallApplication {
    HallApplication { public_name: "公共大厅".to_string() }
}

#[test]
fn countdown_snapshot_uses_the_injected_monotonic_clock() {
    let start = 1_000 * SECOND;
    let mut service = HallStateService::from_state(HallRuntimeState::default(), start, 1_234);

    service.update_remaining_minutes(5, start, 1_234);
    let snapshot = service.snapshot(start + 61 * SECOND);

    assert_eq!(snapshot.remaining_minutes_now(), Some(4));
    assert_eq!(snapshot.remaining_updated_at, Some(1_234));
}

#[test]
fn countdown_starts_where_the_wall_clock_says() {
    let state = HallRuntimeState {
        remaining_minutes: Some(30),
        remaining_updated_at: Some(1_000),
        expiring_warning_sent: false,
    };
    let now = 100_000 * SECOND;
    let service = HallStateService::from_state(state, now, 1_000 + 600);
    assert_eq!(service.snapshot(now).remaining_minutes, Some(20));
    assert_eq!(service.snapshot(now + 3_600 * SECOND).remaining_minutes, Some(0));
    let early = HallStateService::from_state(state, 5 * SECOND, 1_000 + 600);
    assert_eq!(early.countdown_updated_at, Some(5 * SECOND));
    let (fresh, cleared) = HallStateService::load(state, now, 2_000);
    assert!(cleared);
    assert_eq!(fresh.snapshot(now), HallRuntimeState::default());
}

#[test]
fn patches_change_only_what_they_name() {
    let now = 10_000 * SECOND;
    let mut service = HallStateService::from_state(HallRuntimeState::default(), now, 500);
    service.update_remaining_minutes(8, now, 500);
    service.patch(
        HallStatePatch { expiring_warning_sent: Some(true), ..HallStatePatch::default() },
        now + SECOND,
        501,
    );
    assert_eq!(service.countdown_updated_at, Some(now));
    assert!(service.snapshot(now).expiring_warning_sent);
    service.update_remaining_minutes(9, now, 500);
    assert!(service.snapshot(now).expiring_warning_sent);
    service.update_remaining_minutes(11, now, 500);
    assert!(!service.snapshot(now).expiring_warning_sent);
    service.patch(
        HallStatePatch { remaining_minutes: Some(None), ..HallStatePatch::default() },
        now,
        500,
    );
    assert_eq!(service.countdown_updated_at, None);
    service.clear_remaining_minutes();
    assert!(!service.clear_countdown_cache());
}

#[test]
fn a_state_that_cannot_be_written_is_not_taken_over() {
    let mut held = PersistentHallState { state: HallRuntimeState::default() };
    let next = HallRuntimeState { expiring_warning_sent: true, ..HallRuntimeState::default() };
    assert_eq!(held.update(next, true, Err("disk".to_string())), Err("disk".to_string()));
    assert_eq!(*held.state(), HallRuntimeState::default());
    assert_eq!(held.update(next, false, Ok(())), Ok(false));
    assert_eq!(held.update(next, true, Ok(())), Ok(true));
    assert_eq!(*held.state(), next);
}

struct HallPort {
    name: String,
    remaining_minutes: Option<u32>,
    known_minutes: Option<u32>,
    readable: bool,
    events: Vec<String>,
    replies: Vec<String>,
    cleared: bool,
}

fn hall_port(name: &str, remaining_minutes: Option<u32>) -> HallPort {
    HallPort {
        name: name.to_string(),
        remaining_minutes,
        known_minutes: Some(5),
        readable: true,
        events: Vec::new(),
        replies: Vec::new(),
        cleared: false,
    }
}

impl HallPort {
    fn observation(&self) -> HallObservation {
        HallObservation {
            name: self.name.clone(),
            normalized_name: self.name.chars().filter(|c| !c.is_whitespace()).collect(),
            remaining_minutes: self.remaining_minutes,
        }
    }
}

impl HallDetectionPort for HallPort {
    fn calls(&self) -> HallCalls {
        unreachable!("stands in proofs only")
    }

    fn detect_public_hall(&mut self) -> Result<Option<HallObservation>, String> {
        if self.readable {
            Ok(Some(self.observation()))
        } else {
            Ok(None)
        }
    }

    fn update_hall_remaining_minutes(&mut self, minutes: u32) -> Result<(), String> {
        self.events.push(format!("update:{minutes}"));
        Ok(())
    }

    fn clear_hall_remaining_minutes(&mut self) -> Result<(), String> {
        self.cleared = true;
        Ok(())
    }
}

impl HallApplicationPort for HallPort {
    fn reply(&mut self, message: &str) -> Result<(), String> {
        self.replies.push(message.to_string());
        Ok(())
    }

    fn log_executed(
        &mut self,
        _context: &HallCommandContext,
        final_command: &str,
    ) -> Result<(), String> {
        self.events.push(format!("log:{final_command}"));
        Ok(())
    }

    fn read_hall_info(&mut self) -> Result<HallObservation, String> {
        if self.readable {
            Ok(self.observation())
        } else {
            Err("unreadable".to_string())
        }
    }

    fn toggle_microphone(&mut self) -> Result<(), String> {
        self.events.push("toggle".to_string());
        Ok(())
    }

    fn hall_remaining_minutes(&mut self) -> Result<Option<u32>, String> {
        Ok(self.known_minutes)
    }
}

fn context(command: &str) -> HallCommandContext {
    HallCommandContext {
        message_type: "blue".to_string(),
        username: "测试".to_string(),
        user_command: command.to_string(),
    }
}

#[test]
fn detecting_a_public_hall_clears_the_countdown() {
    let mut port = hall_port("公共大厅", None);

    application()
        .execute(&context("@大厅检测"), &HallCommand::Detect, &mut port)
        .expect("hall detection");

    assert!(port.cleared);
    assert_eq!(port.replies, ["当前为公共大厅"]);
}

#[test]
fn other_halls_are_told_with_their_time() {
    let mut port = hall_port("星海", Some(42));
    application().execute(&context("@大厅检测"), &HallCommand::Detect, &mut port).unwrap();
    assert_eq!(port.replies, ["当前为星海，剩余42分钟"]);
    assert_eq!(port.events, ["log:hall detect", "update:42"]);

    let mut port = hall_port("", None);
    application().execute(&context("@大厅检测"), &HallCommand::Detect, &mut port).unwrap();
    assert_eq!(port.replies, ["当前为未识别到大厅名称"]);

    let mut port = hall_port("星海", None);
    port.readable = false;
    application().execute(&context("@大厅检测"), &HallCommand::Detect, &mut port).unwrap();
    assert_eq!(port.replies, ["大厅检测失败"]);
}

#[test]
fn the_time_of_the_hall_is_read_where_it_is_not_known() {
    let mut port = hall_port("星海", Some(42));
    application().execute(&context("@大厅时间"), &HallCommand::Time, &mut port).unwrap();
    assert_eq!(port.replies, ["大厅到期时间，剩余5分钟"]);

    let mut port = hall_port("星海", Some(42));
    port.known_minutes = Some(0);
    application().execute(&context("@大厅时间"), &HallCommand::Time, &mut port).unwrap();
    assert_eq!(port.replies, ["大厅到期时间，剩余42分钟"]);

    let mut port = hall_port("公共大厅", None);
    port.known_minutes = None;
    application().execute(&context("@大厅时间"), &HallCommand::Time, &mut port).unwrap();
    assert_eq!(port.replies, ["公共大厅无时间限制"]);
    assert!(port.cleared);

    let mut port = hall_port("星海", None);
    port.known_minutes = None;
    application().execute(&context("@大厅时间"), &HallCommand::Time, &mut port).unwrap();
    assert_eq!(port.replies, ["大厅时间未知"]);
}

#[test]
fn the_microphone_is_not_switched_in_a_public_hall() {
    let command = HallCommand::ToggleMicrophone { username: "友".to_string() };
    let mut port = hall_port("公共 大厅", None);
    application().execute(&context("@麦克风"), &command, &mut port).unwrap();
    assert_eq!(port.events, ["log:microphone skipped publicHall 友"]);
    assert!(port.replies.is_empty());

    let mut port = hall_port("星海", Some(3));
    application().execute(&context("@麦克风"), &command, &mut port).unwrap();
    assert_eq!(port.events, ["update:3", "log:microphone toggle 友", "toggle"]);
    assert_eq!(port.replies, ["@友 执行了切换麦克风状态！"]);

    let mut port = hall_port("星海", Some(3));
    port.readable = false;
    assert_eq!(application().check_public_hall(&mut port), Ok(false));
    assert!(port.events.is_empty());
}

#[test]
fn idle_hall_warns_once_when_the_countdown_reaches_the_threshold() {
    let mut port = maintenance_port(Some(HALL_EXPIRING_WARNING_MINUTES));

    let warned = application().maybe_warn_expiring(&mut port).expect("hall expiry warning");

    assert!(warned);
    assert_eq!(port.replies, ["大厅即将到期，剩余10分钟"]);
    assert!(port.marked);
}

#[test]
fn hall_expiry_warning_waits_for_an_idle_executor() {
    let mut port = maintenance_port(Some(5));
    port.idle = false;

    let warned = application().maybe_warn_expiring(&mut port).expect("busy executor check");

    assert!(!warned);
    assert!(port.replies.is_empty());
    assert!(!port.marked);
}

#[test]
fn hall_expiry_warning_is_not_repeated_or_sent_before_the_threshold() {
    let mut already_sent = maintenance_port(Some(5));
    already_sent.warning_sent = true;
    let mut too_early = maintenance_port(Some(HALL_EXPIRING_WARNING_MINUTES + 1));

    assert!(!application().maybe_warn_expiring(&mut already_sent).expect("already-sent warning check"));
    assert!(!application().maybe_warn_expiring(&mut too_early).expect("early warning check"));
    assert!(already_sent.replies.is_empty());
    assert!(too_early.replies.is_empty());
    assert!(!already_sent.marked);
    assert!(!too_early.marked);
}

#[test]
fn expired_hall_uses_the_message_without_a_zero_minute_suffix() {
    let mut port = maintenance_port(Some(0));

    let warned = application().maybe_warn_expiring(&mut port).expect("expired hall warning");

    assert!(warned);
    assert_eq!(port.replies, ["大厅即将到期"]);
    assert!(port.marked);
}

#[test]
fn clears_countdown_cache_for_a_new_visual_session() {
    let mut state = HallRuntimeState {
        remaining_minutes: Some(5),
        remaining_updated_at: Some(123),
        expiring_warning_sent: true,
    };

    assert!(state.clear_countdown_cache());
    assert_eq!(state, HallRuntimeState::default());
}

#[test]
fn empty_countdown_cache_is_a_noop() {
    let mut state = HallRuntimeState::default();

    assert!(!state.clear_countdown_cache());
}

#[test]
fn hall_commands_are_found_in_chat() {
    let envelope = |kind: &str, command: &str| {
        CommandEnvelope::new("原文", "友", kind, command, CommandObservation::default()).unwrap()
    };
    let found = HallCommand::parse_chat(&envelope("blue", "@大厅时间")).unwrap();
    assert_eq!((found.raw.as_str(), found.command), ("大厅时间", HallCommand::Time));
    assert!(HallCommand::parse_chat(&envelope("blue", "@大厅时间 现在")).is_none());
    assert!(HallCommand::parse_chat(&envelope("blue", "@麦克风")).is_none());
    assert!(HallCommand::parse_chat(&envelope("blue", "#大厅时间")).is_none());
    let found = HallCommand::parse_chat(&envelope("pink", "@麦克风：")).unwrap();
    assert_eq!(found.raw, "麦克风 友");
    assert_eq!(found.command, HallCommand::ToggleMicrophone { username: "友".to_string() });
    assert!(HallCommand::parse_chat(&envelope("pink", "@麦克风开")).is_none());
}

#[test]
fn hall_commands_lock_by_name() {
    let one = HallCommand::ToggleMicrophone { username: "A B".to_string() };
    let other = HallCommand::ToggleMicrophone { username: "a-b".to_string() };
    assert_eq!(one.lock_key("ab"), "microphone:ab");
    assert_eq!(one.lock_key(""), "microphone:A B");
    assert!(one.same_request("ab", &other, "ab"));
    assert!(!one.same_request("", &other, ""));
    assert!(!HallCommand::Detect.same_request("", &HallCommand::Time, ""));
    let forms = CommandForms {
        speaker: "ab".to_string(),
        workflow: "flow".to_string(),
        args: String::new(),
    };
    let module = ModuleCommand::Hall(one);
    assert_eq!(module.lock_key(&forms), "microphone:ab");
    assert!(!module.requires_hall_sender());
    assert!(!module.scopes_lock_to_actor());
    let workflow = ModuleCommand::CustomWorkflow(CustomWorkflowCommand {
        name: "x".to_string(),
        workflow: "Flow".to_string(),
        args: " 1  2 ".to_string(),
    });
    assert_eq!(workflow.lock_key(&forms), "custom_workflow:flow:1 2");
    assert!(workflow.requires_hall_sender());
}
