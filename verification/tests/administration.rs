use miliastra::administration::application::AdministrationApplication;
use miliastra::administration::application::AdministrationApplicationPort;
use miliastra::administration::application::AdministrationCalls;
use miliastra::administration::application::AdministrationCommandContext;
use miliastra::administration::application::AdministrationImmediatePort;
use miliastra::administration::application::ImmediateAdministrationOutcome;
use miliastra::administration::AdministrationCommand;
use miliastra::administration::AdministrationDispatch;
use miliastra::administration::ChatListenerModeCommand;
use miliastra::command::CommandAuthority;
use miliastra::command::CommandEnvelope;
use miliastra::command::CommandObservation;
use miliastra::command::CommandPrefix;

#[derive(Default)]
struct RecordingPort {
    batches: Vec<Vec<String>>,
    events: Vec<String>,
    failing: Option<String>,
}

impl RecordingPort {
    fn note(&mut self, event: String) -> Result<(), String> {
        let failed = match &self.failing {
            Some(prefix) => event.starts_with(prefix.as_str()),
            None => false,
        };
        self.events.push(event);
        if failed {
            Err("failed".to_string())
        } else {
            Ok(())
        }
    }
}

impl AdministrationImmediatePort for RecordingPort {
    fn calls(&self) -> AdministrationCalls {
        unreachable!("stands in proofs only")
    }

    fn set_commands_enabled(&mut self, enabled: bool) -> Result<(), String> {
        self.note(format!("enabled:{enabled}"))
    }

    fn configure_idle_exit(&mut self, minutes: u32) -> Result<(), String> {
        self.note(format!("idle:{minutes}"))
    }

    fn record_command_activity(&mut self) -> Result<(), String> {
        self.note("activity".to_string())
    }

    fn log_executed(
        &mut self,
        context: &AdministrationCommandContext,
        final_command: &str,
    ) -> Result<(), String> {
        self.note(format!("log:{}:{final_command}", context.username))
    }
}

impl AdministrationApplicationPort for RecordingPort {
    fn send_hall(&mut self, message: &str) -> Result<(), String> {
        self.note(format!("send:{message}"))
    }

    fn send_hall_batch(&mut self, messages: &[&str], delay_ms: u64) -> Result<(), String> {
        self.batches.push(messages.iter().map(|message| (*message).to_string()).collect());
        self.note(format!("batch:{}:{delay_ms}", messages.len()))
    }
}

fn context() -> AdministrationCommandContext {
    AdministrationCommandContext {
        message_type: "blue".to_string(),
        username: "测试".to_string(),
        user_command: "@帮助".to_string(),
    }
}

#[test]
fn ordinary_help_contains_only_song_request_guidance() {
    let mut port = RecordingPort::default();
    let application = AdministrationApplication::new(150);

    application
        .execute(&context(), &AdministrationCommand::Help, &mut port)
        .expect("help command");

    assert_eq!(port.batches.len(), 1);
    assert_eq!(port.batches[0].len(), 3);
    assert!(port.batches[0].iter().all(|line| line.contains("点歌")));
    assert!(port.batches[0].iter().all(|line| !line.contains("斗地主")));
}

#[test]
fn tasks_ask_for_their_requests_in_order() {
    let application = AdministrationApplication::new(150);
    let mut port = RecordingPort::default();
    application.execute(&context(), &AdministrationCommand::EntertainmentHelp, &mut port).unwrap();
    assert_eq!(port.events, ["log:测试:entertainment help", "batch:7:150"]);

    let mut port = RecordingPort::default();
    let disable = AdministrationCommand::SetCommandsEnabled {
        enabled: false,
        username: "友".to_string(),
    };
    application.execute(&context(), &disable, &mut port).unwrap();
    assert_eq!(
        port.events,
        ["enabled:false", "log:测试:disable commands", "send:管理员已禁用大厅命令识别功能"]
    );

    let mut port = RecordingPort::default();
    let idle = AdministrationCommand::IdleExit { minutes: 5 };
    application.execute(&context(), &idle, &mut port).unwrap();
    assert_eq!(port.events, ["idle:15", "log:测试:idle exit 5"]);

    let mut port = RecordingPort::default();
    let listener = AdministrationCommand::ChatListenerMode(ChatListenerModeCommand::Secondary);
    application.execute(&context(), &listener, &mut port).unwrap();
    assert_eq!(port.events, ["log:测试:chat listener 二级"]);
}

#[test]
fn a_failed_request_ends_a_task() {
    let application = AdministrationApplication::new(150);
    let mut port = RecordingPort { failing: Some("log".to_string()), ..RecordingPort::default() };
    let enable = AdministrationCommand::SetCommandsEnabled {
        enabled: true,
        username: "友".to_string(),
    };
    assert_eq!(application.execute(&context(), &enable, &mut port), Err("failed".to_string()));
    assert_eq!(port.events, ["enabled:true", "log:测试:enable commands"]);
}

#[test]
fn immediate_commands_may_outlive_a_failed_note() {
    let application = AdministrationApplication::new(150);
    let idle = AdministrationCommand::IdleExit { minutes: 20 };
    let mut port = RecordingPort { failing: Some("log".to_string()), ..RecordingPort::default() };
    assert_eq!(
        application.apply_immediate(&context(), &idle, false, &mut port),
        Ok(ImmediateAdministrationOutcome::Handled)
    );
    assert_eq!(port.events, ["activity", "idle:20", "log:测试:idle exit 20"]);

    let mut port = RecordingPort { failing: Some("log".to_string()), ..RecordingPort::default() };
    assert_eq!(
        application.apply_immediate(&context(), &idle, true, &mut port),
        Err("failed".to_string())
    );

    let mut port = RecordingPort { failing: Some("idle".to_string()), ..RecordingPort::default() };
    assert!(application.apply_immediate(&context(), &idle, false, &mut port).is_err());
    assert_eq!(port.events, ["activity", "idle:20"]);

    let mut port = RecordingPort::default();
    assert_eq!(
        application.apply_immediate(&context(), &AdministrationCommand::Help, true, &mut port),
        Ok(ImmediateAdministrationOutcome::ContinueFormal)
    );
    assert!(port.events.is_empty());
}

fn envelope(username: &str, message_type: &str, command: &str) -> CommandEnvelope {
    CommandEnvelope::new("原文", username, message_type, command, CommandObservation::default())
        .expect("envelope")
}

#[test]
fn administration_commands_are_found_in_chat() {
    let found = AdministrationCommand::parse_chat(&envelope("甲", "blue", "@帮助】")).unwrap();
    assert_eq!(found.matched, "帮助");
    assert_eq!(found.raw, "帮助");
    assert_eq!(found.command, AdministrationCommand::Help);

    let found = AdministrationCommand::parse_chat(&envelope("甲", "blue", "@娱乐帮助")).unwrap();
    assert_eq!(found.command, AdministrationCommand::EntertainmentHelp);
    assert!(AdministrationCommand::parse_chat(&envelope("甲", "blue", "@帮助 多余")).is_none());

    let found = AdministrationCommand::parse_chat(&envelope("甲", "blue", "＃ 娱 乐")).unwrap();
    assert_eq!((found.matched.as_str(), found.raw.as_str()), ("#", "娱 乐"));
    assert!(AdministrationCommand::parse_chat(&envelope("甲", "pink", "#娱乐")).is_none());

    let found = AdministrationCommand::parse_chat(&envelope("友", "pink", "@监听模式：二级")).unwrap();
    assert_eq!(found.raw, "监听模式 二级");
    assert_eq!(
        found.command,
        AdministrationCommand::ChatListenerMode(ChatListenerModeCommand::Secondary)
    );

    let found = AdministrationCommand::parse_chat(&envelope("友", "pink", "@启用")).unwrap();
    assert_eq!(found.raw, "启用 友");
    assert!(AdministrationCommand::parse_chat(&envelope("友", "pink", "@启用吧")).is_none());
    assert!(AdministrationCommand::parse_chat(&envelope("友", "blue", "@启用")).is_none());
}

#[test]
fn idle_exit_minutes_are_read_and_kept_long_enough() {
    let minutes = |text: &str| {
        AdministrationCommand::parse_friend(text, "友").map(|found| found.command)
    };
    assert_eq!(minutes("闲置退出"), Some(AdministrationCommand::IdleExit { minutes: 30 }));
    assert_eq!(minutes("闲置退出：45分钟"), Some(AdministrationCommand::IdleExit { minutes: 45 }));
    assert_eq!(minutes("闲置退出 20 分。"), Some(AdministrationCommand::IdleExit { minutes: 20 }));
    assert_eq!(minutes("闲置退出 3"), Some(AdministrationCommand::IdleExit { minutes: 15 }));
    assert_eq!(minutes("闲置退出 20天"), None);
    assert_eq!(minutes("闲置退出 一会"), None);
    assert_eq!(minutes("闲置退出 99999999999"), None);
    let found = AdministrationCommand::parse_friend("闲置退出 3", "友").unwrap();
    assert_eq!(found.raw, "闲置退出 15");
}

#[test]
fn commands_that_lock_the_same_ask_for_the_same() {
    let on = AdministrationCommand::SetCommandsEnabled { enabled: true, username: "甲".to_string() };
    let also = AdministrationCommand::SetCommandsEnabled { enabled: true, username: "乙".to_string() };
    let off = AdministrationCommand::SetCommandsEnabled { enabled: false, username: "甲".to_string() };
    assert!(on.same_request(&also));
    assert!(!on.same_request(&off));
    assert_eq!(on.lock_key(), "enable_commands");
    let idle = AdministrationCommand::IdleExit { minutes: 21 };
    assert_eq!(idle.lock_key(), "idle_exit:21");
    assert!(!idle.same_request(&AdministrationCommand::IdleExit { minutes: 12 }));
    let status = AdministrationCommand::ChatListenerMode(ChatListenerModeCommand::Status);
    assert_eq!(status.lock_key(), "chat_listener:状态");
    assert_eq!(
        status.dispatch(),
        AdministrationDispatch::ChatListenerMode(ChatListenerModeCommand::Status)
    );
    assert_eq!(
        idle.dispatch(),
        AdministrationDispatch::ConfigureIdleExit { minutes: 21 }
    );
}

#[test]
fn envelopes_hold_what_was_said() {
    let found = envelope(" 甲 ", "blue", "  @ 点歌 晴天】] ");
    assert_eq!(found.user_command(), "@ 点歌 晴天");
    assert_eq!(found.command_text(), "点歌 晴天");
    assert_eq!(found.prefix(), CommandPrefix::At);
    assert_eq!(found.authority(), CommandAuthority::HallMember);
    assert_eq!(found.username(), " 甲 ");
    let private = found.with_authority(CommandAuthority::Friend);
    assert_eq!(private.message_type(), "pink");
    assert_eq!(private.command_text(), "点歌 晴天");
    let other = found.with_command_text("切歌");
    assert_eq!(other.user_command(), "@切歌");
    let new = |name: &str, kind: &str, command: &str| {
        CommandEnvelope::new("原文", name, kind, command, CommandObservation::default())
    };
    assert!(new("  ", "blue", "@帮助").is_none());
    assert!(new("甲", "yellow", "@帮助").is_none());
    assert!(new("甲", "blue", "帮助").is_none());
    assert!(new("甲", "blue", "@ ]").is_none());
    assert_eq!(new("甲", "pink", "＃加入").unwrap().prefix(), CommandPrefix::Hash);
}
